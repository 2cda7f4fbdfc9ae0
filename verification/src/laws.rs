//! Laws of the compilation, stated over the abstract model and proved once
//! and for all.

use vstd::prelude::*;

verus! {

use crate::model::SetModel;
use crate::model::compiled_ops_seq;
use crate::model::child_keys;
use crate::model::temp_count_seq;
use crate::naming::ascii_bytes;
use crate::naming::temp_id_chars;
use crate::naming::temp_ids;
use crate::naming::temp_key_bytes;
use crate::naming::lemma_temp_id_injective;
use crate::naming::lemma_temp_key_injective;
use crate::program::Stal;
use crate::program::begin_op;
use crate::program::cleanup_op;
use crate::program::commit_op;
use crate::program::subst_command;
use crate::program::subst_step;
use crate::program::template_count;
use crate::program::template_ops;

/// Compiling a leaf in isolation returns its key unchanged, allocates no
/// temporary and emits no operation.
pub proof fn lemma_leaf_compiles_to_itself(k: Seq<u8>, next: nat)
    ensures
        SetModel::Key(k).result_key(next) == k,
        SetModel::Key(k).temp_count() == 0,
        SetModel::Key(k).compiled_ops(next) == Seq::<Seq<Seq<u8>>>::empty(),
{
    assert(SetModel::Key(k).compiled_ops(next) =~= Seq::<Seq<Seq<u8>>>::empty());
}

/// Compiling an operator node over two leaves emits exactly one operation:
/// the storing form of the operator, writing to the temporary allocated for
/// the node, with the two leaf keys as operands, in the order given.
pub proof fn lemma_two_leaves_one_op(s: SetModel, a: Seq<u8>, b: Seq<u8>, next: nat)
    requires
        !(s is Key),
        s.children() == seq![SetModel::Key(a), SetModel::Key(b)],
    ensures
        s.temp_count() == 1,
        s.compiled_ops(next) == seq![
            seq![ascii_bytes(s.store_command()), temp_key_bytes(next), a, b],
        ],
{
    reveal_with_fuel(temp_count_seq, 3);
    reveal_with_fuel(compiled_ops_seq, 3);
    reveal_with_fuel(child_keys, 3);
    let cs = s.children();
    assert(cs.drop_first() =~= seq![SetModel::Key(b)]);
    assert(cs.drop_first().drop_first() =~= Seq::<SetModel>::empty());
    assert(temp_count_seq(Seq::<SetModel>::empty()) == 0);
    assert(temp_count_seq(cs) == 0);
    assert(compiled_ops_seq(cs, next + 1) =~= Seq::<Seq<Seq<u8>>>::empty());
    assert(child_keys(cs, next + 1) =~= seq![a, b]);
    assert(s.node_op(next) =~= seq![ascii_bytes(s.store_command()), temp_key_bytes(next), a, b]);
    assert(s.compiled_ops(next) =~= seq![s.node_op(next)]);
}

/// The names of the temporaries of one compilation are dense: name `i` is
/// the namespace prefix with decimal index `next + i`, with no gaps and no
/// repetition.
pub proof fn lemma_temp_ids_dense(next: nat, count: nat)
    ensures
        temp_ids(next, count).len() == count,
        forall|i: int|
            0 <= i < count ==> temp_ids(next, count)[i] == temp_id_chars((next + i) as nat),
        forall|i: int, j: int|
            0 <= i < j < count ==> temp_ids(next, count)[i] != temp_ids(next, count)[j],
{
    assert forall|i: int, j: int| 0 <= i < j < count implies temp_ids(next, count)[i] != temp_ids(
        next,
        count,
    )[j] by {
        if temp_ids(next, count)[i] == temp_ids(next, count)[j] {
            lemma_temp_id_injective((next + i) as nat, (next + j) as nat);
        }
    }
}

/// The cleanup command removes every temporary of the compilation exactly
/// once, in allocation order.
pub proof fn lemma_cleanup_lists_each_once(count: nat)
    ensures
        cleanup_op(count).len() == count + 1,
        cleanup_op(count)[0] == ascii_bytes("DEL"@),
        forall|i: int|
            1 <= i <= count ==> #[trigger] cleanup_op(count)[i] == temp_key_bytes((i - 1) as nat),
        forall|i: int, j: int|
            1 <= i < j <= count ==> #[trigger] cleanup_op(count)[i] != #[trigger] cleanup_op(
                count,
            )[j],
{
    assert forall|i: int, j: int| 1 <= i < j <= count implies #[trigger] cleanup_op(count)[i]
        != #[trigger] cleanup_op(count)[j] by {
        if cleanup_op(count)[i] == cleanup_op(count)[j] {
            lemma_temp_key_injective((i - 1) as nat, (j - 1) as nat);
        }
    }
}

/// A solved program always begins with the begin-marker and ends with the
/// commit-marker; the answer position holds the terminal command; and the
/// cleanup command stands immediately after the answer and before the
/// commit-marker exactly when temporaries were allocated.
pub proof fn lemma_solve_shape(st: Stal)
    ensures
        2 <= st.solve_model().len(),
        st.solve_model()[0] == begin_op(),
        st.solve_model()[st.solve_model().len() - 1] == commit_op(),
        0 < st.answer_index() < st.solve_model().len(),
        st.solve_model()[st.answer_index()] == subst_command(
            st.command_model(),
            st.sets_model(),
            0,
        ),
        template_count(st.sets_model()) == 0 ==> st.solve_model().len() == st.answer_index() + 2,
        template_count(st.sets_model()) > 0 ==> st.solve_model().len() == st.answer_index() + 3
            && st.solve_model()[st.answer_index() + 1] == cleanup_op(
            template_count(st.sets_model()),
        ),
{
    let body = st.explain_model();
    assert(body.len() == template_ops(st.sets_model(), 0).len() + 1);
    assert(body[body.len() - 1] == subst_command(st.command_model(), st.sets_model(), 0));
    assert(st.solve_model()[st.answer_index()] == body[st.answer_index() - 1]);
}

/// A program whose template is a one-argument command applied to a bare
/// leaf solves to exactly three operations: begin, the command applied
/// directly to the leaf key, commit — the answer at position 1, and no
/// cleanup command, since no temporary was allocated.
pub proof fn lemma_solve_on_leaf(st: Stal, c: Seq<u8>, k: Seq<u8>)
    requires
        st.command_model() == seq![c, Seq::<u8>::empty()],
        st.sets_model() == seq![(SetModel::Key(k), 1usize)],
    ensures
        st.solve_model() == seq![begin_op(), seq![c, k], commit_op()],
        st.answer_index() == 1,
{
    reveal_with_fuel(template_count, 2);
    reveal_with_fuel(template_ops, 2);
    reveal_with_fuel(subst_command, 2);
    let sm = st.sets_model();
    assert(sm.drop_first() =~= Seq::<(SetModel, usize)>::empty());
    assert(template_count(sm) == 0);
    assert(template_ops(sm, 0) =~= Seq::<Seq<Seq<u8>>>::empty());
    assert(subst_step(st.command_model(), 1usize, k) =~= seq![c, k]);
    assert(subst_command(st.command_model(), sm, 0) =~= seq![c, k]);
    assert(st.explain_model() =~= seq![seq![c, k]]);
    assert(st.solve_model() =~= seq![begin_op(), seq![c, k], commit_op()]);
}

/// Solving the same program twice yields structurally identical output:
/// the same command sequence and the same answer position.
pub proof fn lemma_solve_deterministic(
    st: Stal,
    r1: (Vec<Vec<Vec<u8>>>, usize),
    r2: (Vec<Vec<Vec<u8>>>, usize),
)
    requires
        call_ensures(Stal::solve, (&st,), r1),
        call_ensures(Stal::solve, (&st,), r2),
    ensures
        r1.0.deep_view() == r2.0.deep_view(),
        r1.1 == r2.1,
{
}

/// Explaining the same program twice yields structurally identical output.
pub proof fn lemma_explain_deterministic(st: Stal, r1: Vec<Vec<Vec<u8>>>, r2: Vec<Vec<Vec<u8>>>)
    requires
        call_ensures(Stal::explain, (&st,), r1),
        call_ensures(Stal::explain, (&st,), r2),
    ensures
        r1.deep_view() == r2.deep_view(),
{
}

} // verus!
