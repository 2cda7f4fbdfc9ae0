//! Expression trees over stored sets, and their compilation into store
//! commands.

use vstd::prelude::*;

verus! {

use vstd::utf8::is_ascii_chars;

use crate::model::SetModel;
use crate::model::child_keys;
use crate::model::compiled_ops_seq;
use crate::model::temp_count_seq;
use crate::naming::ascii_bytes;
use crate::naming::str_ascii_bytes;
use crate::naming::temp_id_string;
use crate::naming::temp_ids;
use crate::naming::temp_key_bytes;
use crate::naming::lemma_temp_id_ascii;
use crate::naming::lemma_temp_ids_concat;

/// A set of values: either a set stored under a raw key, or a set operation
/// over other sets.  An operator node expects at least one child (the store
/// rejects the commands produced for an empty one); this is the caller's
/// responsibility, as with the store's own commands.
#[derive(Debug)]
pub enum SetExpr {
    /// A stored set, named by its raw key bytes.
    Key(Vec<u8>),
    /// All the elements in any of the provided sets.
    Union(Vec<SetExpr>),
    /// All the elements in all the sets.
    Inter(Vec<SetExpr>),
    /// All the elements in the first set that are not in the other sets.
    Diff(Vec<SetExpr>),
}

impl SetExpr {
    /// The abstract tree this value represents.
    pub open spec fn model(self) -> SetModel
        decreases self,
    {
        match self {
            SetExpr::Key(k) => SetModel::Key(k@),
            SetExpr::Union(v) => SetModel::Union(models_of(v@)),
            SetExpr::Inter(v) => SetModel::Inter(models_of(v@)),
            SetExpr::Diff(v) => SetModel::Diff(models_of(v@)),
        }
    }
}

/// The abstract trees of a sequence of expressions, in order.
pub open spec fn models_of(cs: Seq<SetExpr>) -> Seq<SetModel>
    decreases cs,
{
    if cs.len() == 0 {
        seq![]
    } else {
        seq![cs[0].model()] + models_of(cs.drop_first())
    }
}

/// `models_of` maps the sequence elementwise.
pub proof fn lemma_models_of(cs: Seq<SetExpr>)
    ensures
        models_of(cs).len() == cs.len(),
        forall|i: int| 0 <= i < cs.len() ==> #[trigger] models_of(cs)[i] == cs[i]@,
    decreases cs.len(),
{
    if cs.len() > 0 {
        lemma_models_of(cs.drop_first());
        assert forall|i: int| 0 <= i < cs.len() implies #[trigger] models_of(cs)[i]
            == cs[i]@ by {
            if i > 0 {
                assert(models_of(cs)[i] == models_of(cs.drop_first())[i - 1]);
                assert(cs.drop_first()[i - 1] == cs[i]);
            }
        }
    }
}

impl View for SetExpr {
    type V = SetModel;

    open spec fn view(&self) -> SetModel {
        (*self).model()
    }
}

/// A copy of raw key bytes.
pub(crate) fn clone_key(k: &Vec<u8>) -> (r: Vec<u8>)
    ensures
        r@ == k@,
{
    let r = k.clone();
    proof {
        assert(r@ =~= k@);
    }
    r
}

impl SetExpr {
    /// The name of the store command that computes this operator node and
    /// writes the result to a destination key.  Leaves are never translated
    /// into a store call, only returned as-is, so they have no command.
    fn command(&self) -> (r: &'static str)
        requires
            !(self@ is Key),
        ensures
            r@ == self@.store_command(),
            is_ascii_chars(r@),
    {
        let r = match self {
            SetExpr::Key(_) => "",  // not reached: a leaf has no command
            SetExpr::Union(_) => "SUNIONSTORE",
            SetExpr::Inter(_) => "SINTERSTORE",
            SetExpr::Diff(_) => "SDIFFSTORE",
        };
        proof {
            reveal_strlit("SUNIONSTORE");
            reveal_strlit("SINTERSTORE");
            reveal_strlit("SDIFFSTORE");
        }
        r
    }

    /// Appends the store operations computing this set to `ops`, and the
    /// name of every temporary allocated on the way to `ids`.  Returns the
    /// key under which the result will live: the key itself for a leaf, a
    /// freshly allocated temporary for an operator node.
    ///
    /// Temporary numbers continue from `ids.len()`, so the names appended to
    /// `ids` keep the numbering dense; the commands appended to `ops` list a
    /// node's children strictly before the node itself.
    pub fn convert(&self, ids: &mut Vec<String>, ops: &mut Vec<Vec<Vec<u8>>>) -> (r: Vec<u8>)
        ensures
            r@ == self@.result_key(old(ids)@.len()),
            final(ids).deep_view() == old(ids).deep_view() + temp_ids(
                old(ids)@.len(),
                self@.temp_count(),
            ),
            final(ops).deep_view() == old(ops).deep_view() + self@.compiled_ops(old(ids)@.len()),
        decreases *self, 0int,
    {
        let ghost n0 = old(ids)@.len();
        let sets: &Vec<SetExpr> = match self {
            SetExpr::Key(k) => {
                let r = clone_key(k);
                proof {
                    assert(ids.deep_view() =~= old(ids).deep_view() + temp_ids(n0, 0));
                    assert(ops.deep_view() =~= old(ops).deep_view() + self@.compiled_ops(n0));
                }
                return r;
            },
            SetExpr::Union(v) => v,
            SetExpr::Inter(v) => v,
            SetExpr::Diff(v) => v,
        };
        proof {
            assert(self@.children() == models_of(sets@));
            assert(!(self@ is Key));
        }
        let next = ids.len();
        proof {
            lemma_temp_id_ascii(next as nat);
        }
        let id = temp_id_string(next);
        let r = str_ascii_bytes(id.as_str());
        ids.push(id);
        let mut op: Vec<Vec<u8>> = Vec::new();
        op.push(str_ascii_bytes(self.command()));
        op.push(clone_key(&r));
        proof {
            assert(ids.deep_view() =~~= old(ids).deep_view() + temp_ids(n0, 1));
            assert(op.deep_view() =~~= seq![
                ascii_bytes(self@.store_command()),
                temp_key_bytes(n0),
            ]);
        }
        convert_each(sets, 0, ids, ops, &mut op);
        proof {
            lemma_models_of(sets@);
            assert(models_of(sets@).skip(0) =~= models_of(sets@));
            lemma_temp_ids_concat(n0, 1, temp_count_seq(models_of(sets@)));
            assert(ids.deep_view() =~~= old(ids).deep_view() + temp_ids(
                n0,
                self@.temp_count(),
            ));
            assert(op.deep_view() =~~= self@.node_op(n0));
        }
        let ghost pre_ops = ops.deep_view();
        let ghost op_model = op.deep_view();
        ops.push(op);
        proof {
            assert(ops.deep_view() =~~= pre_ops.push(op_model));
            assert(self@.compiled_ops(n0) == compiled_ops_seq(models_of(sets@), n0 + 1) + seq![
                self@.node_op(n0),
            ]);
            assert(ops.deep_view() =~~= old(ops).deep_view() + self@.compiled_ops(n0));
        }
        r
    }
}

/// Converts the children of an operator node from position `j` on: each
/// child's operations and temporaries go to `ops` and `ids`, and its result
/// key becomes the next argument of the node's own command `op`.
fn convert_each(
    sets: &Vec<SetExpr>,
    j: usize,
    ids: &mut Vec<String>,
    ops: &mut Vec<Vec<Vec<u8>>>,
    op: &mut Vec<Vec<u8>>,
)
    requires
        j <= sets@.len(),
    ensures
        final(ids).deep_view() == old(ids).deep_view() + temp_ids(
            old(ids)@.len(),
            temp_count_seq(models_of(sets@).skip(j as int)),
        ),
        final(ops).deep_view() == old(ops).deep_view() + compiled_ops_seq(
            models_of(sets@).skip(j as int),
            old(ids)@.len(),
        ),
        final(op).deep_view() == old(op).deep_view() + child_keys(
            models_of(sets@).skip(j as int),
            old(ids)@.len(),
        ),
    decreases *sets, sets@.len() - j,
{
    let ghost ms = models_of(sets@);
    proof {
        lemma_models_of(sets@);
    }
    if j == sets.len() {
        proof {
            assert(ms.skip(j as int) =~= Seq::<SetModel>::empty());
            assert(ids.deep_view() =~= old(ids).deep_view() + temp_ids(old(ids)@.len(), 0));
            assert(ops.deep_view() =~~= old(ops).deep_view() + compiled_ops_seq(
                ms.skip(j as int),
                old(ids)@.len(),
            ));
            assert(op.deep_view() =~~= old(op).deep_view() + child_keys(
                ms.skip(j as int),
                old(ids)@.len(),
            ));
        }
        return ;
    }
    let ghost n0 = ids@.len();
    let k = sets[j].convert(ids, ops);
    op.push(k);
    proof {
        assert(ms.skip(j as int)[0] == ms[j as int]);
        assert(ms.skip(j as int).drop_first() =~= ms.skip(j as int + 1));
    }
    convert_each(sets, j + 1, ids, ops, op);
    proof {
        let suffix = ms.skip(j as int);
        let child = ms[j as int];
        lemma_temp_ids_concat(n0, child.temp_count(), temp_count_seq(ms.skip(j as int + 1)));
        assert(temp_count_seq(suffix) == child.temp_count() + temp_count_seq(
            ms.skip(j as int + 1),
        ));
        assert(ids.deep_view() =~~= old(ids).deep_view() + temp_ids(
            n0,
            temp_count_seq(suffix),
        ));
        assert(ops.deep_view() =~~= old(ops).deep_view() + compiled_ops_seq(suffix, n0));
        assert(op.deep_view() =~~= old(op).deep_view() + child_keys(suffix, n0));
    }
}

impl Clone for SetExpr {
    /// A clone stands for the same abstract tree, so compiling it gives the
    /// same program.
    fn clone(&self) -> (r: Self)
        ensures
            r@ == self@,
        decreases *self, 1int,
    {
        match self {
            SetExpr::Key(k) => SetExpr::Key(clone_key(k)),
            SetExpr::Union(v) => {
                let c = clone_each(v);
                proof {
                    lemma_models_of(v@);
                    lemma_models_of(c@);
                    assert(models_of(c@) =~= models_of(v@));
                }
                SetExpr::Union(c)
            },
            SetExpr::Inter(v) => {
                let c = clone_each(v);
                proof {
                    lemma_models_of(v@);
                    lemma_models_of(c@);
                    assert(models_of(c@) =~= models_of(v@));
                }
                SetExpr::Inter(c)
            },
            SetExpr::Diff(v) => {
                let c = clone_each(v);
                proof {
                    lemma_models_of(v@);
                    lemma_models_of(c@);
                    assert(models_of(c@) =~= models_of(v@));
                }
                SetExpr::Diff(c)
            },
        }
    }
}

/// Copies of all the expressions of `sets`, each standing for the same
/// abstract tree as the original.
fn clone_each(sets: &Vec<SetExpr>) -> (r: Vec<SetExpr>)
    ensures
        r@.len() == sets@.len(),
        forall|i: int| 0 <= i < sets@.len() ==> #[trigger] r@[i]@ == sets@[i]@,
    decreases *sets, 0int,
{
    let mut r: Vec<SetExpr> = Vec::new();
    let mut j: usize = 0;
    while j < sets.len()
        invariant
            j <= sets@.len(),
            r@.len() == j,
            forall|i: int| 0 <= i < j ==> #[trigger] r@[i]@ == sets@[i]@,
        decreases sets@.len() - j,
    {
        let c = sets[j].clone();
        r.push(c);
        j += 1;
    }
    r
}

} // verus!
