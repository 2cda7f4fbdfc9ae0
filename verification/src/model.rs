//! Mathematical model of expression trees and of their compilation.
//!
//! [`SetModel`] is the abstract form of an expression tree: raw key bytes at
//! the leaves, sequences of children at the interior nodes.  The spec
//! functions here say exactly which store commands a compilation of a tree
//! emits, how many temporaries it allocates, and under which key the result
//! of every subtree lives.
//!
//! Compilation works depth first.  An interior node first allocates the next
//! temporary number for itself, then compiles its children left to right
//! (each child allocating further numbers), and finally emits one command
//! that combines the children's result keys into its own temporary.  So
//! temporary numbers are handed out parent before children, while commands
//! are emitted children before parent.

use vstd::prelude::*;

verus! {

use crate::naming::ascii_bytes;
use crate::naming::temp_key_bytes;

/// The abstract form of an expression tree: a leaf names a stored set by its
/// raw key bytes; an interior node combines the results of its children.
#[verifier::ext_equal]
pub enum SetModel {
    /// A stored set, named by its raw key bytes.
    Key(Seq<u8>),
    /// All elements found in any of the children.
    Union(Seq<SetModel>),
    /// All elements found in every child.
    Inter(Seq<SetModel>),
    /// All elements of the first child found in none of the later ones.
    Diff(Seq<SetModel>),
}

impl SetModel {
    /// The children of an interior node; a leaf has none.
    pub open spec fn children(self) -> Seq<SetModel> {
        match self {
            SetModel::Key(_) => seq![],
            SetModel::Union(cs) => cs,
            SetModel::Inter(cs) => cs,
            SetModel::Diff(cs) => cs,
        }
    }

    /// The name of the store command that computes this operator and writes
    /// the result to a destination key.
    pub open spec fn store_command(self) -> Seq<char> {
        match self {
            SetModel::Key(_) => seq![],
            SetModel::Union(_) => "SUNIONSTORE"@,
            SetModel::Inter(_) => "SINTERSTORE"@,
            SetModel::Diff(_) => "SDIFFSTORE"@,
        }
    }

    /// The name of the store command that computes this operator and returns
    /// the result directly, without storing it.
    pub open spec fn direct_command(self) -> Seq<char> {
        match self {
            SetModel::Key(_) => seq![],
            SetModel::Union(_) => "SUNION"@,
            SetModel::Inter(_) => "SINTER"@,
            SetModel::Diff(_) => "SDIFF"@,
        }
    }

    /// How many temporaries compiling this subtree allocates: one per
    /// interior node.
    pub open spec fn temp_count(self) -> nat
        decreases self,
    {
        match self {
            SetModel::Key(_) => 0,
            SetModel::Union(cs) => 1 + temp_count_seq(cs),
            SetModel::Inter(cs) => 1 + temp_count_seq(cs),
            SetModel::Diff(cs) => 1 + temp_count_seq(cs),
        }
    }

    /// The key under which this subtree's result lives after compilation,
    /// when `next` is the first free temporary number: the leaf key itself,
    /// or the temporary allocated for the node.
    pub open spec fn result_key(self, next: nat) -> Seq<u8> {
        match self {
            SetModel::Key(k) => k,
            _ => temp_key_bytes(next),
        }
    }

    /// The one command emitted for an interior node compiled with `next` as
    /// its own temporary number: the storing command name, the destination,
    /// then the children's result keys in order.
    pub open spec fn node_op(self, next: nat) -> Seq<Seq<u8>> {
        seq![ascii_bytes(self.store_command()), temp_key_bytes(next)] + child_keys(
            self.children(),
            next + 1,
        )
    }

    /// Every command emitted when compiling this subtree with `next` as the
    /// first free temporary number: nothing for a leaf; for an interior node
    /// all commands of the children (left to right), then the node's own.
    pub open spec fn compiled_ops(self, next: nat) -> Seq<Seq<Seq<u8>>>
        decreases self,
    {
        match self {
            SetModel::Key(_) => seq![],
            SetModel::Union(cs) => compiled_ops_seq(cs, next + 1) + seq![self.node_op(next)],
            SetModel::Inter(cs) => compiled_ops_seq(cs, next + 1) + seq![self.node_op(next)],
            SetModel::Diff(cs) => compiled_ops_seq(cs, next + 1) + seq![self.node_op(next)],
        }
    }
}

/// Temporaries allocated by compiling each tree of `cs` in order.
pub open spec fn temp_count_seq(cs: Seq<SetModel>) -> nat
    decreases cs,
{
    if cs.len() == 0 {
        0
    } else {
        cs[0].temp_count() + temp_count_seq(cs.drop_first())
    }
}

/// The result keys of the trees of `cs`, compiled in order with `next` as
/// the first free temporary number.
pub open spec fn child_keys(cs: Seq<SetModel>, next: nat) -> Seq<Seq<u8>>
    decreases cs,
{
    if cs.len() == 0 {
        seq![]
    } else {
        seq![cs[0].result_key(next)] + child_keys(cs.drop_first(), next + cs[0].temp_count())
    }
}

/// The commands emitted by compiling each tree of `cs` in order, with `next`
/// as the first free temporary number.
pub open spec fn compiled_ops_seq(cs: Seq<SetModel>, next: nat) -> Seq<Seq<Seq<u8>>>
    decreases cs,
{
    if cs.len() == 0 {
        seq![]
    } else {
        cs[0].compiled_ops(next) + compiled_ops_seq(cs.drop_first(), next + cs[0].temp_count())
    }
}

} // verus!
