//! Programs: a terminal command template applied to compiled expression
//! trees, and the two output modes.
//!
//! A [`Stal`] holds a command template and a list of expression trees, each
//! paired with the position of the template argument that the tree's result
//! key fills.  [`Stal::explain`] returns the flat list of store operations;
//! [`Stal::solve`] wraps them in a transaction that also removes every
//! temporary key the compilation allocated.

use vstd::prelude::*;

verus! {

use vstd::utf8::encode_utf8;
use vstd::utf8::is_ascii_chars;

use crate::model::SetModel;
use crate::naming::ascii_bytes;
use crate::naming::str_ascii_bytes;
use crate::naming::temp_ids;
use crate::naming::temp_key_bytes;
use crate::naming::lemma_temp_id_ascii;
use crate::naming::lemma_temp_ids_concat;
use crate::set::SetExpr;
use crate::set::models_of;
use crate::set::lemma_models_of;

/// The abstract form of a program's tree list: each tree's abstract form,
/// paired with its template position.
pub open spec fn models_of_pairs(sets: Seq<(SetExpr, usize)>) -> Seq<(SetModel, usize)> {
    Seq::new(sets.len(), |i: int| (sets[i].0@, sets[i].1))
}

/// Temporaries allocated by compiling each listed tree in order.
pub open spec fn template_count(sets: Seq<(SetModel, usize)>) -> nat
    decreases sets.len(),
{
    if sets.len() == 0 {
        0
    } else {
        sets[0].0.temp_count() + template_count(sets.drop_first())
    }
}

/// The commands emitted by compiling each listed tree in order, with `next`
/// as the first free temporary number.
pub open spec fn template_ops(sets: Seq<(SetModel, usize)>, next: nat) -> Seq<Seq<Seq<u8>>>
    decreases sets.len(),
{
    if sets.len() == 0 {
        seq![]
    } else {
        sets[0].0.compiled_ops(next) + template_ops(sets.drop_first(), next + sets[0].0.temp_count())
    }
}

/// One template substitution: `key` replaces the argument at position `pos`.
/// A position just past the end discards the key and leaves the command as
/// it stands.
pub open spec fn subst_step(cmd: Seq<Seq<u8>>, pos: usize, key: Seq<u8>) -> Seq<Seq<u8>> {
    if pos < cmd.len() {
        cmd.update(pos as int, key)
    } else {
        cmd
    }
}

/// The terminal command after each listed tree's result key has been
/// substituted at its position, in order, with `next` as the first free
/// temporary number.
pub open spec fn subst_command(
    cmd: Seq<Seq<u8>>,
    sets: Seq<(SetModel, usize)>,
    next: nat,
) -> Seq<Seq<u8>>
    decreases sets.len(),
{
    if sets.len() == 0 {
        cmd
    } else {
        subst_command(
            subst_step(cmd, sets[0].1, sets[0].0.result_key(next)),
            sets.drop_first(),
            next + sets[0].0.temp_count(),
        )
    }
}

/// The command that begins the transaction.
pub open spec fn begin_op() -> Seq<Seq<u8>> {
    seq![ascii_bytes("MULTI"@)]
}

/// The command that commits the transaction.
pub open spec fn commit_op() -> Seq<Seq<u8>> {
    seq![ascii_bytes("EXEC"@)]
}

/// The command that removes the `count` temporaries of one compilation, in
/// allocation order.
pub open spec fn cleanup_op(count: nat) -> Seq<Seq<u8>> {
    seq![ascii_bytes("DEL"@)] + Seq::new(count, |i: int| temp_key_bytes(i as nat))
}

/// An operation to be executed on one or more sets: a command template, and
/// the trees whose result keys fill its argument positions.
#[derive(Debug)]
pub struct Stal {
    /// The terminal store command, with a placeholder argument at every
    /// position a tree's result key will fill.
    pub command: Vec<Vec<u8>>,
    /// The trees to compile, each with the position of the template
    /// argument its result key replaces.
    pub sets: Vec<(SetExpr, usize)>,
}

impl Stal {
    /// The abstract form of the command template.
    pub open spec fn command_model(self) -> Seq<Seq<u8>> {
        self.command.deep_view()
    }

    /// The abstract form of the tree list.
    pub open spec fn sets_model(self) -> Seq<(SetModel, usize)> {
        models_of_pairs(self.sets@)
    }

    /// Every listed position lies within the command template (one past the
    /// end is tolerated: such a key is discarded).
    pub open spec fn wf(self) -> bool {
        forall|i: int|
            0 <= i < self.sets@.len() ==> (#[trigger] self.sets@[i]).1 <= self.command@.len()
    }

    /// The flat operation list: the compilation of every listed tree, then
    /// the terminal command with the result keys filled in.
    pub open spec fn explain_model(self) -> Seq<Seq<Seq<u8>>> {
        template_ops(self.sets_model(), 0) + seq![
            subst_command(self.command_model(), self.sets_model(), 0),
        ]
    }

    /// The transaction-wrapped operation list: begin, the flat list, one
    /// cleanup command removing every temporary (only if any was allocated),
    /// commit.
    pub open spec fn solve_model(self) -> Seq<Seq<Seq<u8>>> {
        let count = template_count(self.sets_model());
        if count > 0 {
            seq![begin_op()] + self.explain_model() + seq![cleanup_op(count), commit_op()]
        } else {
            seq![begin_op()] + self.explain_model() + seq![commit_op()]
        }
    }

    /// The position, in the transaction-wrapped list, of the one operation
    /// whose reply is the caller's answer: the terminal command.
    pub open spec fn answer_index(self) -> int {
        1 + template_ops(self.sets_model(), 0).len() as int
    }

    /// A program applying a one-argument store command to one tree's
    /// result.
    pub fn new(operation: String, set: SetExpr) -> (r: Stal)
        ensures
            r.command_model() == seq![encode_utf8(operation@), Seq::<u8>::empty()],
            r.sets_model() == seq![(set@, 1usize)],
            r.wf(),
    {
        let mut command: Vec<Vec<u8>> = Vec::new();
        command.push(operation.as_str().as_bytes_vec());
        command.push(Vec::new());
        let mut sets: Vec<(SetExpr, usize)> = Vec::new();
        sets.push((set, 1));
        let r = Stal { command, sets };
        proof {
            assert(r.command_model() =~~= seq![encode_utf8(operation@), Seq::<u8>::empty()]);
            assert(r.sets_model() =~= seq![(set@, 1usize)]);
        }
        r
    }

    /// A program made of an arbitrary command template and the trees whose
    /// result keys fill it.  Each listed position must lie within the
    /// template for the program to be solvable.
    pub fn from_template(command: Vec<Vec<u8>>, sets: Vec<(SetExpr, usize)>) -> (r: Stal)
        ensures
            r.command == command,
            r.sets == sets,
    {
        Stal { command, sets }
    }

    /// Compiles every listed tree, appending its operations to `ops` and its
    /// temporaries to `ids`, then appends the terminal command with every
    /// result key substituted in.
    fn add_ops(&self, ids: &mut Vec<String>, ops: &mut Vec<Vec<Vec<u8>>>)
        requires
            self.wf(),
        ensures
            final(ids).deep_view() == old(ids).deep_view() + temp_ids(
                old(ids)@.len(),
                template_count(self.sets_model()),
            ),
            final(ops).deep_view() == old(ops).deep_view() + template_ops(
                self.sets_model(),
                old(ids)@.len(),
            ) + seq![subst_command(self.command_model(), self.sets_model(), old(ids)@.len())],
    {
        let mut command = clone_command(&self.command);
        subst_each(&self.sets, 0, &mut command, ids, ops);
        proof {
            assert(models_of_pairs(self.sets@).skip(0) =~= self.sets_model());
        }
        let ghost pre_ops = ops.deep_view();
        let ghost cmd_model = command.deep_view();
        ops.push(command);
        proof {
            assert(ops.deep_view() =~~= pre_ops.push(cmd_model));
            assert(ops.deep_view() =~~= old(ops).deep_view() + template_ops(
                self.sets_model(),
                old(ids)@.len(),
            ) + seq![subst_command(self.command_model(), self.sets_model(), old(ids)@.len())]);
        }
    }

    /// The flat list of operations that would compute the program's result,
    /// for inspection only: no transaction, no cleanup of temporaries.
    pub fn explain(&self) -> (r: Vec<Vec<Vec<u8>>>)
        requires
            self.wf(),
        ensures
            r.deep_view() == self.explain_model(),
    {
        let mut ids: Vec<String> = Vec::new();
        let mut ops: Vec<Vec<Vec<u8>>> = Vec::new();
        self.add_ops(&mut ids, &mut ops);
        proof {
            assert(ops.deep_view() =~~= self.explain_model());
        }
        ops
    }

    /// The list of operations to run, wrapped in a transaction: it always
    /// begins with the begin-marker and ends with the commit-marker, and if
    /// any temporaries were allocated one cleanup command removing all of
    /// them, in allocation order, stands immediately before the commit.
    /// The returned position marks the operation whose reply is the
    /// program's result.
    pub fn solve(&self) -> (r: (Vec<Vec<Vec<u8>>>, usize))
        requires
            self.wf(),
        ensures
            r.0.deep_view() == self.solve_model(),
            r.1 as int == self.answer_index(),
    {
        let mut ids: Vec<String> = Vec::new();
        let mut ops: Vec<Vec<Vec<u8>>> = Vec::new();
        let mut begin: Vec<Vec<u8>> = Vec::new();
        proof {
            reveal_strlit("MULTI");
        }
        begin.push(str_ascii_bytes("MULTI"));
        ops.push(begin);
        proof {
            assert(ops.deep_view() =~~= seq![begin_op()]);
        }
        self.add_ops(&mut ids, &mut ops);
        proof {
            assert(ops.deep_view() =~~= seq![begin_op()] + self.explain_model());
            assert(ops@.len() == 1 + self.explain_model().len());
            assert(ids@.len() == template_count(self.sets_model()));
        }
        let pos = ops.len() - 1;
        if ids.len() > 0 {
            let mut del: Vec<Vec<u8>> = Vec::new();
            proof {
                reveal_strlit("DEL");
            }
            del.push(str_ascii_bytes("DEL"));
            proof {
                assert(del.deep_view() =~~= seq![ascii_bytes("DEL"@)] + Seq::new(
                    0nat,
                    |i: int| temp_key_bytes(i as nat),
                ));
            }
            let n = ids.len();
            let mut j: usize = 0;
            while j < n
                invariant
                    n == ids@.len(),
                    j <= n,
                    ids.deep_view() == temp_ids(0, n as nat),
                    del.deep_view() == seq![ascii_bytes("DEL"@)] + Seq::new(
                        j as nat,
                        |i: int| temp_key_bytes(i as nat),
                    ),
                decreases n - j,
            {
                proof {
                    lemma_temp_id_ascii(j as nat);
                    assert(ids@[j as int]@ == temp_ids(0, n as nat)[j as int]);
                }
                let ghost pre_del = del.deep_view();
                del.push(str_ascii_bytes(ids[j].as_str()));
                proof {
                    assert(del.deep_view() =~~= pre_del.push(temp_key_bytes(j as nat)));
                    assert(del.deep_view() =~~= seq![ascii_bytes("DEL"@)] + Seq::new(
                        (j + 1) as nat,
                        |i: int| temp_key_bytes(i as nat),
                    ));
                }
                j += 1;
            }
            proof {
                assert(del.deep_view() =~~= cleanup_op(n as nat));
            }
            let ghost pre_ops = ops.deep_view();
            let ghost del_model = del.deep_view();
            ops.push(del);
            proof {
                assert(ops.deep_view() =~~= pre_ops.push(del_model));
            }
        }
        let mut commit: Vec<Vec<u8>> = Vec::new();
        proof {
            reveal_strlit("EXEC");
        }
        commit.push(str_ascii_bytes("EXEC"));
        let ghost pre_ops = ops.deep_view();
        let ghost commit_model = commit.deep_view();
        ops.push(commit);
        proof {
            assert(ops.deep_view() =~~= pre_ops.push(commit_model));
            assert(ops.deep_view() =~~= self.solve_model());
        }
        (ops, pos)
    }
}

/// A copy of a command's argument vectors.
fn clone_command(v: &Vec<Vec<u8>>) -> (r: Vec<Vec<u8>>)
    ensures
        r.deep_view() == v.deep_view(),
        r@.len() == v@.len(),
{
    let mut r: Vec<Vec<u8>> = Vec::new();
    let mut j: usize = 0;
    while j < v.len()
        invariant
            j <= v@.len(),
            r@.len() == j,
            forall|i: int| 0 <= i < j ==> #[trigger] r@[i]@ == v@[i]@,
        decreases v@.len() - j,
    {
        let c = crate::set::clone_key(&v[j]);
        r.push(c);
        j += 1;
    }
    proof {
        assert(r.deep_view() =~~= v.deep_view());
    }
    r
}

/// Compiles the listed trees from position `j` on, appending their
/// operations and temporaries, and substitutes each result key into
/// `command` at the listed position.
fn subst_each(
    sets: &Vec<(SetExpr, usize)>,
    j: usize,
    command: &mut Vec<Vec<u8>>,
    ids: &mut Vec<String>,
    ops: &mut Vec<Vec<Vec<u8>>>,
)
    requires
        j <= sets@.len(),
        forall|i: int|
            j <= i < sets@.len() ==> (#[trigger] sets@[i]).1 <= old(command)@.len(),
    ensures
        final(command)@.len() == old(command)@.len(),
        final(command).deep_view() == subst_command(
            old(command).deep_view(),
            models_of_pairs(sets@).skip(j as int),
            old(ids)@.len(),
        ),
        final(ids).deep_view() == old(ids).deep_view() + temp_ids(
            old(ids)@.len(),
            template_count(models_of_pairs(sets@).skip(j as int)),
        ),
        final(ops).deep_view() == old(ops).deep_view() + template_ops(
            models_of_pairs(sets@).skip(j as int),
            old(ids)@.len(),
        ),
    decreases sets@.len() - j,
{
    let ghost ms = models_of_pairs(sets@);
    if j == sets.len() {
        proof {
            assert(ms.skip(j as int) =~= Seq::<(SetModel, usize)>::empty());
            assert(ids.deep_view() =~= old(ids).deep_view() + temp_ids(old(ids)@.len(), 0));
            assert(ops.deep_view() =~~= old(ops).deep_view() + template_ops(
                ms.skip(j as int),
                old(ids)@.len(),
            ));
        }
        return ;
    }
    let ghost n0 = ids@.len();
    let key = sets[j].0.convert(ids, ops);
    let ghost pre_cmd = command.deep_view();
    let pos = sets[j].1;
    command.push(key);
    command.swap_remove(pos);
    proof {
        assert(ms.skip(j as int)[0] == ms[j as int]);
        assert(ms.skip(j as int).drop_first() =~= ms.skip(j as int + 1));
        assert(command.deep_view() =~~= subst_step(
            pre_cmd,
            ms[j as int].1,
            ms[j as int].0.result_key(n0),
        ));
        assert(command@.len() == old(command)@.len());
    }
    subst_each(sets, j + 1, command, ids, ops);
    proof {
        let suffix = ms.skip(j as int);
        let tree = ms[j as int].0;
        lemma_temp_ids_concat(n0, tree.temp_count(), template_count(ms.skip(j as int + 1)));
        assert(template_count(suffix) == tree.temp_count() + template_count(
            ms.skip(j as int + 1),
        ));
        assert(ids.deep_view() =~~= old(ids).deep_view() + temp_ids(
            n0,
            template_count(suffix),
        ));
        assert(ops.deep_view() =~~= old(ops).deep_view() + template_ops(suffix, n0));
        assert(command.deep_view() =~~= subst_command(old(command).deep_view(), suffix, n0));
    }
}

impl SetExpr {
    /// The program that lists the elements of this set: for a leaf, the
    /// member-listing command applied to the key; for an operator node, the
    /// non-storing form of the operator applied to the compiled children.
    pub fn into_ids(self) -> (r: Stal)
        ensures
            r.wf(),
            self@ is Key ==> r.command_model() == seq![
                ascii_bytes("SMEMBERS"@),
                Seq::<u8>::empty(),
            ] && r.sets_model() == seq![(self@, 1usize)],
            !(self@ is Key) ==> r.command_model() == seq![ascii_bytes(self@.direct_command())]
                + Seq::new(self@.children().len(), |i: int| Seq::<u8>::empty())
                && r.sets_model() == Seq::new(
                self@.children().len(),
                |i: int| (self@.children()[i], (i + 1) as usize),
            ),
    {
        let ghost m = self@;
        let (op, sets): (&'static str, Vec<SetExpr>) = match self {
            SetExpr::Key(k) => {
                let mut command: Vec<Vec<u8>> = Vec::new();
                proof {
                    reveal_strlit("SMEMBERS");
                }
                command.push(str_ascii_bytes("SMEMBERS"));
                command.push(Vec::new());
                let mut setv: Vec<(SetExpr, usize)> = Vec::new();
                setv.push((SetExpr::Key(k), 1));
                let r = Stal::from_template(command, setv);
                proof {
                    assert(r.command_model() =~~= seq![
                        ascii_bytes("SMEMBERS"@),
                        Seq::<u8>::empty(),
                    ]);
                    assert(r.sets_model() =~= seq![(m, 1usize)]);
                }
                return r;
            },
            SetExpr::Union(v) => ("SUNION", v),
            SetExpr::Inter(v) => ("SINTER", v),
            SetExpr::Diff(v) => ("SDIFF", v),
        };
        proof {
            reveal_strlit("SUNION");
            reveal_strlit("SINTER");
            reveal_strlit("SDIFF");
            lemma_models_of(sets@);
            assert(m.children() == models_of(sets@));
        }
        let n = sets.len();
        let command = direct_template(op, n, Ghost(m));
        let ghost orig = sets@;
        let mut sets = sets;
        let mut setv: Vec<(SetExpr, usize)> = Vec::new();
        while sets.len() > 0
            invariant
                orig.len() == n as int,
                setv@.len() + sets@.len() == orig.len(),
                sets@ == orig.skip(setv@.len() as int),
                forall|k: int|
                    0 <= k < setv@.len() ==> (#[trigger] setv@[k]).0@ == orig[k]@
                        && setv@[k].1 as int == k + 1,
            decreases sets@.len(),
        {
            let ghost done = setv@.len();
            let s = sets.remove(0);
            let pos = setv.len() + 1;
            setv.push((s, pos));
            proof {
                assert(sets@ =~= orig.skip(done as int + 1));
            }
        }
        let r = Stal::from_template(command, setv);
        proof {
            assert(r.sets_model() =~= Seq::new(
                m.children().len(),
                |i: int| (m.children()[i], (i + 1) as usize),
            ));
            assert(r.wf());
        }
        r
    }

    /// As [`SetExpr::into_ids`], but leaves this tree in place and compiles
    /// copies of its children.
    pub fn ids(&self) -> (r: Stal)
        ensures
            r.wf(),
            self@ is Key ==> r.command_model() == seq![
                ascii_bytes("SMEMBERS"@),
                Seq::<u8>::empty(),
            ] && r.sets_model() == seq![(self@, 1usize)],
            !(self@ is Key) ==> r.command_model() == seq![ascii_bytes(self@.direct_command())]
                + Seq::new(self@.children().len(), |i: int| Seq::<u8>::empty())
                && r.sets_model() == Seq::new(
                self@.children().len(),
                |i: int| (self@.children()[i], (i + 1) as usize),
            ),
    {
        let ghost m = self@;
        let (op, sets): (&'static str, &Vec<SetExpr>) = match self {
            SetExpr::Key(_) => {
                let mut command: Vec<Vec<u8>> = Vec::new();
                proof {
                    reveal_strlit("SMEMBERS");
                }
                command.push(str_ascii_bytes("SMEMBERS"));
                command.push(Vec::new());
                let mut setv: Vec<(SetExpr, usize)> = Vec::new();
                setv.push((self.clone(), 1));
                let r = Stal::from_template(command, setv);
                proof {
                    assert(r.command_model() =~~= seq![
                        ascii_bytes("SMEMBERS"@),
                        Seq::<u8>::empty(),
                    ]);
                    assert(r.sets_model() =~= seq![(m, 1usize)]);
                }
                return r;
            },
            SetExpr::Union(v) => ("SUNION", v),
            SetExpr::Inter(v) => ("SINTER", v),
            SetExpr::Diff(v) => ("SDIFF", v),
        };
        proof {
            reveal_strlit("SUNION");
            reveal_strlit("SINTER");
            reveal_strlit("SDIFF");
            lemma_models_of(sets@);
            assert(m.children() == models_of(sets@));
        }
        let n = sets.len();
        let command = direct_template(op, n, Ghost(m));
        let mut setv: Vec<(SetExpr, usize)> = Vec::new();
        let mut j: usize = 0;
        while j < n
            invariant
                n == sets@.len(),
                j <= n,
                setv@.len() == j,
                forall|k: int|
                    0 <= k < j ==> (#[trigger] setv@[k]).0@ == sets@[k]@
                        && setv@[k].1 as int == k + 1,
            decreases n - j,
        {
            let c = sets[j].clone();
            setv.push((c, j + 1));
            j += 1;
        }
        let r = Stal::from_template(command, setv);
        proof {
            assert(r.sets_model() =~= Seq::new(
                m.children().len(),
                |i: int| (m.children()[i], (i + 1) as usize),
            ));
            assert(r.wf());
        }
        r
    }
}

/// The command template of a non-storing operator: the command name, then
/// one placeholder argument per child.
fn direct_template(op: &'static str, n: usize, Ghost(m): Ghost<SetModel>) -> (r: Vec<Vec<u8>>)
    requires
        is_ascii_chars(op@),
        op@ == m.direct_command(),
    ensures
        r@.len() == n + 1,
        r.deep_view() == seq![ascii_bytes(m.direct_command())] + Seq::new(
            n as nat,
            |i: int| Seq::<u8>::empty(),
        ),
{
    let mut command: Vec<Vec<u8>> = Vec::new();
    command.push(str_ascii_bytes(op));
    proof {
        assert(command.deep_view() =~~= seq![ascii_bytes(m.direct_command())] + Seq::new(
            0nat,
            |i: int| Seq::<u8>::empty(),
        ));
    }
    let mut i: usize = 0;
    while i < n
        invariant
            i <= n,
            command@.len() == i + 1,
            command.deep_view() == seq![ascii_bytes(m.direct_command())] + Seq::new(
                i as nat,
                |k: int| Seq::<u8>::empty(),
            ),
        decreases n - i,
    {
        let ghost pre = command.deep_view();
        let filler: Vec<u8> = Vec::new();
        command.push(filler);
        proof {
            assert(command.deep_view() =~~= pre.push(Seq::<u8>::empty()));
            assert(command.deep_view() =~~= seq![ascii_bytes(m.direct_command())] + Seq::new(
                (i + 1) as nat,
                |k: int| Seq::<u8>::empty(),
            ));
        }
        i += 1;
    }
    command
}

} // verus!
