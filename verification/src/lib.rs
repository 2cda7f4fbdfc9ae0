//! Compiler from set-algebra expression trees to flat lists of store commands.
//!
//! An expression tree combines named sets held in a key-value store through
//! union, intersection and difference.  The store itself only offers flat
//! commands that combine already-named sets, so nested expressions are
//! flattened: every interior node of the tree is computed into a uniquely
//! named temporary key, children before parents, and the caller receives the
//! ordered list of commands to replay, wrapped in a transaction that also
//! removes every temporary it created.

mod laws;
mod model;
mod naming;
mod program;
mod set;

pub use laws::lemma_cleanup_lists_each_once;
pub use laws::lemma_explain_deterministic;
pub use laws::lemma_leaf_compiles_to_itself;
pub use laws::lemma_solve_deterministic;
pub use laws::lemma_solve_on_leaf;
pub use laws::lemma_solve_shape;
pub use laws::lemma_temp_ids_dense;
pub use laws::lemma_two_leaves_one_op;
pub use model::SetModel;
pub use model::child_keys;
pub use model::compiled_ops_seq;
pub use model::temp_count_seq;
pub use naming::ascii_bytes;
pub use naming::decimal_chars;
pub use naming::digit_char;
pub use naming::temp_id_chars;
pub use naming::temp_ids;
pub use naming::temp_key_bytes;
pub use program::Stal;
pub use program::begin_op;
pub use program::cleanup_op;
pub use program::commit_op;
pub use program::models_of_pairs;
pub use program::subst_command;
pub use program::subst_step;
pub use program::template_count;
pub use program::template_ops;
pub use set::SetExpr;
pub use set::lemma_models_of;
pub use set::models_of;

