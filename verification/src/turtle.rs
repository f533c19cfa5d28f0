use vstd::prelude::*;

verus! {

/// The kinds of instruction of a tree sentence, as the turtle that draws the
/// tree tells them apart.
#[derive(Clone, Copy, Debug, PartialEq, Eq, Structural)]
pub enum TurtleOp {
    /// Move the head forward, placing wood along the way.
    Move,
    /// Turn the head.
    Rotate,
    /// Save the head, to come back to it at the matching `EndBranch`.
    StartBranch,
    /// Go back to the head saved by the latest unmatched `StartBranch`.
    EndBranch,
    /// Place leaves around the head.
    Replace,
}

/// The turtle's state, as indices into the sentence: the instruction whose
/// result is the current head (`None`: the initial head), and the saved
/// heads, the latest last.
pub type TurtleTrace = (Option<int>, Seq<Option<int>>);

/// The turtle's state after it carries out instruction `i`, an `op`, in `state`.
/// An `EndBranch` with no saved head changes nothing.
pub open spec fn turtle_step(state: TurtleTrace, i: int, op: TurtleOp) -> TurtleTrace {
    match op {
        TurtleOp::Move | TurtleOp::Rotate => (Some(i), state.1),
        TurtleOp::StartBranch => (state.0, state.1.push(state.0)),
        TurtleOp::EndBranch => if state.1.len() > 0 {
            (state.1.last(), state.1.drop_last())
        } else {
            state
        },
        TurtleOp::Replace => state,
    }
}

/// The turtle's state before instruction `n` of `ops`.
pub open spec fn turtle_state(ops: Seq<TurtleOp>, n: nat) -> TurtleTrace
    decreases n,
{
    if n == 0 {
        (None, Seq::empty())
    } else {
        turtle_step(turtle_state(ops, (n - 1) as nat), n - 1, ops[n - 1])
    }
}

/// The number of `StartBranch` minus the number of `EndBranch` among the
/// first `n` instructions.
pub open spec fn bracket_depth(ops: Seq<TurtleOp>, n: nat) -> int
    decreases n,
{
    if n == 0 {
        0
    } else {
        bracket_depth(ops, (n - 1) as nat) + match ops[n - 1] {
            TurtleOp::StartBranch => 1int,
            TurtleOp::EndBranch => -1int,
            _ => 0int,
        }
    }
}

/// No prefix of `ops` closes more branches than it opened.
pub open spec fn never_overclosed(ops: Seq<TurtleOp>) -> bool {
    forall|k: nat| k <= ops.len() ==> bracket_depth(ops, k) >= 0
}

/// Every branch of `ops` is closed, and none is closed before it is opened.
pub open spec fn balanced(ops: Seq<TurtleOp>) -> bool {
    never_overclosed(ops) && bracket_depth(ops, ops.len()) == 0
}

/// A recorded head as an index of the spec's state.
pub open spec fn head_index(head: Option<usize>) -> Option<int> {
    match head {
        Some(i) => Some(i as int),
        None => None,
    }
}

/// What the turtle does at one instruction.
#[derive(Clone, Copy, Debug, PartialEq, Eq, Structural)]
pub struct TurtleStep {
    /// The head the instruction starts from: the result of that earlier
    /// instruction, or the initial head when `None`.
    pub head: Option<usize>,
    /// The instruction is an `EndBranch` with no branch left to close.
    pub unmatched_end: bool,
}

/// Traces a tree sentence through the turtle: for each instruction, the head
/// it starts from and whether it closes a branch that was never opened.
/// The head of a `Move` or `Rotate` is the one the instruction transforms,
/// that of a `Replace` the one around which leaves grow.
pub fn trace_turtle(ops: &Vec<TurtleOp>) -> (steps: Vec<TurtleStep>)
    ensures
        steps.len() == ops.len(),
        forall|i: int|
            0 <= i < ops.len() ==> {
                &&& head_index(#[trigger] steps[i].head) == turtle_state(ops@, i as nat).0
                &&& steps[i].unmatched_end == (ops[i] == TurtleOp::EndBranch && turtle_state(
                    ops@,
                    i as nat,
                ).1.len() == 0)
            },
        ops.len() > 0 ==> steps[0].head == None::<usize>,
        forall|i: int| 0 <= i < ops.len() && #[trigger] steps[i].unmatched_end ==> ops[i] == TurtleOp::EndBranch,
        forall|i: int|
            0 <= i && i + 1 < ops.len() ==> {
                &&& (ops[i] == TurtleOp::Move || ops[i] == TurtleOp::Rotate) ==> #[trigger] steps[i + 1].head == Some(
                    i as usize,
                )
                &&& (ops[i] == TurtleOp::Replace || ops[i] == TurtleOp::StartBranch || steps[i].unmatched_end)
                    ==> steps[i + 1].head == steps[i].head
            },
{
    let mut steps: Vec<TurtleStep> = Vec::new();
    let mut current: Option<usize> = None;
    let mut saved: Vec<Option<usize>> = Vec::new();
    let mut i: usize = 0;
    while i < ops.len()
        invariant
            i <= ops.len(),
            steps.len() == i,
            head_index(current) == turtle_state(ops@, i as nat).0,
            saved.len() == turtle_state(ops@, i as nat).1.len(),
            forall|k: int|
                0 <= k < saved.len() ==> head_index(#[trigger] saved[k]) == turtle_state(
                    ops@,
                    i as nat,
                ).1[k],
            forall|j: int|
                0 <= j < i ==> {
                    &&& head_index(#[trigger] steps[j].head) == turtle_state(ops@, j as nat).0
                    &&& steps[j].unmatched_end == (ops[j] == TurtleOp::EndBranch && turtle_state(
                        ops@,
                        j as nat,
                    ).1.len() == 0)
                },
        decreases ops.len() - i,
    {
        let ghost before = turtle_state(ops@, i as nat);
        let op = ops[i];
        let unmatched_end = op == TurtleOp::EndBranch && saved.len() == 0;
        steps.push(TurtleStep { head: current, unmatched_end });
        match op {
            TurtleOp::Move | TurtleOp::Rotate => {
                current = Some(i);
            },
            TurtleOp::StartBranch => {
                saved.push(current);
            },
            TurtleOp::EndBranch => {
                if let Some(head) = saved.pop() {
                    current = head;
                }
            },
            TurtleOp::Replace => {},
        }
        proof {
            assert(turtle_state(ops@, (i + 1) as nat) == turtle_step(before, i as int, ops@[i as int]));
        }
        i = i + 1;
    }
    proof {
        assert forall|i: int| 0 <= i < ops.len() && #[trigger] steps[i].unmatched_end implies ops[i]
            == TurtleOp::EndBranch by {
            assert(head_index(steps[i].head) == turtle_state(ops@, i as nat).0);
        }
        assert forall|i: int| 0 <= i && i + 1 < ops.len() implies {
            &&& (ops[i] == TurtleOp::Move || ops[i] == TurtleOp::Rotate) ==> #[trigger] steps[i + 1].head == Some(
                i as usize,
            )
            &&& (ops[i] == TurtleOp::Replace || ops[i] == TurtleOp::StartBranch || steps[i].unmatched_end)
                ==> steps[i + 1].head == steps[i].head
        } by {
            lemma_turtle_step_laws(ops@, i);
            assert(head_index(steps[i].head) == turtle_state(ops@, i as nat).0);
            assert(head_index(steps[i + 1].head) == turtle_state(ops@, (i + 1) as nat).0);
            lemma_head_index_injective(steps[i].head, steps[i + 1].head);
            lemma_head_index_injective(Some(i as usize), steps[i + 1].head);
        }
    }
    steps
}

proof fn lemma_head_index_injective(a: Option<usize>, b: Option<usize>)
    ensures
        head_index(a) == head_index(b) ==> a == b,
{
}

/// What each instruction does to the turtle: a `Move` or `Rotate` makes its
/// own result the current head and keeps the saved heads; a `Replace` only
/// places leaves and changes nothing; a `StartBranch` keeps the head and
/// saves it on top of the saved heads; an `EndBranch` goes back to the latest
/// saved head and forgets it, or, with no saved head, changes nothing.
pub proof fn lemma_turtle_step_laws(ops: Seq<TurtleOp>, i: int)
    requires
        0 <= i < ops.len(),
    ensures
        ({
            let before = turtle_state(ops, i as nat);
            let after = turtle_state(ops, (i + 1) as nat);
            &&& (ops[i] == TurtleOp::Move || ops[i] == TurtleOp::Rotate) ==> after.0 == Some(i) && after.1 == before.1
            &&& ops[i] == TurtleOp::Replace ==> after == before
            &&& ops[i] == TurtleOp::StartBranch ==> after.0 == before.0 && after.1.len() == before.1.len() + 1
                && after.1.last() == before.0 && after.1.drop_last() == before.1
            &&& (ops[i] == TurtleOp::EndBranch && before.1.len() > 0) ==> after.0 == before.1.last()
                && after.1 == before.1.drop_last()
            &&& (ops[i] == TurtleOp::EndBranch && before.1.len() == 0) ==> after == before
        }),
{
    let before = turtle_state(ops, i as nat);
    assert(turtle_state(ops, (i + 1) as nat) == turtle_step(before, i, ops[i]));
    if ops[i] == TurtleOp::StartBranch {
        assert(before.1.push(before.0).drop_last() =~= before.1);
    }
}

/// A `Replace` leaves the head where it is: the instruction after it starts
/// from the same head as the `Replace` itself.
pub proof fn lemma_replace_keeps_head(ops: Seq<TurtleOp>, i: int)
    requires
        0 <= i,
        i + 1 <= ops.len(),
        ops[i] == TurtleOp::Replace,
    ensures
        turtle_state(ops, (i + 1) as nat) == turtle_state(ops, i as nat),
{
    lemma_turtle_step_laws(ops, i);
}

proof fn lemma_saved_count_is_depth(ops: Seq<TurtleOp>, n: nat)
    requires
        n <= ops.len(),
        forall|k: nat| k <= n ==> bracket_depth(ops, k) >= 0,
    ensures
        turtle_state(ops, n).1.len() == bracket_depth(ops, n),
    decreases n,
{
    if n > 0 {
        lemma_saved_count_is_depth(ops, (n - 1) as nat);
    }
}

/// In a sentence that never closes more branches than it opened, every
/// `EndBranch` finds a saved head to go back to: the turtle never reports a
/// branch mismatch.
pub proof fn lemma_no_unmatched_end(ops: Seq<TurtleOp>, i: int)
    requires
        never_overclosed(ops),
        0 <= i < ops.len(),
    ensures
        !(ops[i] == TurtleOp::EndBranch && turtle_state(ops, i as nat).1.len() == 0),
{
    lemma_saved_count_is_depth(ops, i as nat);
    assert(bracket_depth(ops, (i + 1) as nat) >= 0);
}

proof fn lemma_branch_keeps_saved(ops: Seq<TurtleOp>, s: nat, k: nat)
    requires
        s < k <= ops.len(),
        forall|j: nat| s < j <= k ==> #[trigger] bracket_depth(ops, j) >= bracket_depth(ops, s + 1),
    ensures
        ({
            let base = turtle_state(ops, s + 1).1;
            let now = turtle_state(ops, k).1;
            &&& now.len() == base.len() + bracket_depth(ops, k) - bracket_depth(ops, s + 1)
            &&& now.subrange(0, base.len() as int) == base
        }),
    decreases k,
{
    let base = turtle_state(ops, s + 1).1;
    if k == s + 1 {
        assert(base.subrange(0, base.len() as int) =~= base);
    } else {
        let k1 = (k - 1) as nat;
        lemma_branch_keeps_saved(ops, s, k1);
        let prev = turtle_state(ops, k1).1;
        let now = turtle_state(ops, k).1;
        match ops[k1 as int] {
            TurtleOp::StartBranch => {
                assert(now.subrange(0, base.len() as int) =~= prev.subrange(0, base.len() as int));
            },
            TurtleOp::EndBranch => {
                assert(bracket_depth(ops, k) >= bracket_depth(ops, s + 1));
                assert(bracket_depth(ops, k) == bracket_depth(ops, k1) - 1);
                assert(prev.len() > base.len());
                assert(now.subrange(0, base.len() as int) =~= prev.subrange(0, base.len() as int));
            },
            _ => {},
        }
    }
}

/// Whatever a branch does between its `StartBranch` and the `EndBranch` that
/// closes it, the turtle comes back from that `EndBranch` exactly as it was
/// before the `StartBranch`: the same head, and the same saved heads.
pub proof fn lemma_end_branch_restores(ops: Seq<TurtleOp>, s: nat, e: nat)
    requires
        s < e < ops.len(),
        ops[s as int] == TurtleOp::StartBranch,
        ops[e as int] == TurtleOp::EndBranch,
        forall|j: nat| s < j <= e ==> #[trigger] bracket_depth(ops, j) >= bracket_depth(ops, s + 1),
        bracket_depth(ops, e) == bracket_depth(ops, s + 1),
    ensures
        turtle_state(ops, e + 1) == turtle_state(ops, s),
{
    lemma_branch_keeps_saved(ops, s, e);
    let base = turtle_state(ops, s + 1).1;
    let at_end = turtle_state(ops, e).1;
    assert(at_end =~= at_end.subrange(0, base.len() as int));
    assert(base.drop_last() =~= turtle_state(ops, s).1);
}

/// The sentence obtained from `ops` by rewriting each `Replace` at index `i`
/// into `rewrites(i)` and keeping every other instruction.
pub open spec fn rewrite_replaces(ops: Seq<TurtleOp>, rewrites: spec_fn(int) -> Seq<TurtleOp>) -> Seq<TurtleOp>
    decreases ops.len(),
{
    if ops.len() == 0 {
        Seq::empty()
    } else {
        let i = ops.len() - 1;
        rewrite_replaces(ops.drop_last(), rewrites) + if ops[i] == TurtleOp::Replace {
            rewrites(i)
        } else {
            seq![ops[i]]
        }
    }
}

proof fn lemma_depth_prefix(a: Seq<TurtleOp>, b: Seq<TurtleOp>, n: nat)
    requires
        n <= a.len(),
        n <= b.len(),
        a.take(n as int) == b.take(n as int),
    ensures
        bracket_depth(a, n) == bracket_depth(b, n),
    decreases n,
{
    if n > 0 {
        assert(a.take(n - 1) =~= a.take(n as int).take(n - 1));
        assert(b.take(n - 1) =~= b.take(n as int).take(n - 1));
        assert(a[n - 1] == a.take(n as int)[n - 1]);
        assert(b[n - 1] == b.take(n as int)[n - 1]);
        lemma_depth_prefix(a, b, (n - 1) as nat);
    }
}

proof fn lemma_depth_concat(a: Seq<TurtleOp>, b: Seq<TurtleOp>, k: nat)
    requires
        k <= b.len(),
    ensures
        bracket_depth(a + b, a.len() + k) == bracket_depth(a, a.len()) + bracket_depth(b, k),
    decreases k,
{
    if k == 0 {
        assert((a + b).take(a.len() as int) =~= a.take(a.len() as int));
        lemma_depth_prefix(a + b, a, a.len());
    } else {
        lemma_depth_concat(a, b, (k - 1) as nat);
        assert((a + b)[a.len() + k - 1] == b[k - 1]);
    }
}

proof fn lemma_concat_never_overclosed(a: Seq<TurtleOp>, b: Seq<TurtleOp>)
    requires
        never_overclosed(a),
        forall|k: nat| k <= b.len() ==> bracket_depth(a, a.len()) + #[trigger] bracket_depth(b, k) >= 0,
    ensures
        never_overclosed(a + b),
        bracket_depth(a + b, (a + b).len()) == bracket_depth(a, a.len()) + bracket_depth(b, b.len()),
{
    lemma_depth_concat(a, b, b.len());
    assert forall|k: nat| k <= (a + b).len() implies #[trigger] bracket_depth(a + b, k) >= 0 by {
        if k <= a.len() {
            assert((a + b).take(k as int) =~= a.take(k as int));
            lemma_depth_prefix(a + b, a, k);
        } else {
            lemma_depth_concat(a, b, (k - a.len()) as nat);
            assert(bracket_depth(a, a.len()) + bracket_depth(b, (k - a.len()) as nat) >= 0);
        }
    }
}

proof fn lemma_rewrite_prefix_balanced(ops: Seq<TurtleOp>, rewrites: spec_fn(int) -> Seq<TurtleOp>, n: nat)
    requires
        n <= ops.len(),
        never_overclosed(ops),
        forall|i: int| 0 <= i < ops.len() && ops[i] == TurtleOp::Replace ==> #[trigger] balanced(rewrites(i)),
    ensures
        never_overclosed(rewrite_replaces(ops.take(n as int), rewrites)),
        bracket_depth(rewrite_replaces(ops.take(n as int), rewrites), rewrite_replaces(ops.take(n as int), rewrites).len())
            == bracket_depth(ops, n),
    decreases n,
{
    let prefix = ops.take(n as int);
    if n == 0 {
        assert(rewrite_replaces(prefix, rewrites) =~= Seq::<TurtleOp>::empty());
    } else {
        let i = n - 1;
        lemma_rewrite_prefix_balanced(ops, rewrites, (n - 1) as nat);
        assert(prefix.drop_last() =~= ops.take(i));
        let head = rewrite_replaces(ops.take(i), rewrites);
        let tail = if ops[i] == TurtleOp::Replace { rewrites(i) } else { seq![ops[i]] };
        assert(rewrite_replaces(prefix, rewrites) == head + tail);
        assert(bracket_depth(ops, n) >= 0);
        assert(bracket_depth(ops, (n - 1) as nat) >= 0);
        if ops[i] == TurtleOp::Replace {
            assert(balanced(rewrites(i)));
            assert(bracket_depth(ops, n) == bracket_depth(ops, (n - 1) as nat));
        } else {
            assert(bracket_depth(tail, 0) == 0);
            assert(bracket_depth(tail, 1) == bracket_depth(ops, n) - bracket_depth(ops, (n - 1) as nat));
        }
        assert forall|k: nat| k <= tail.len() implies bracket_depth(head, head.len()) + #[trigger] bracket_depth(tail, k) >= 0 by {
            if ops[i] != TurtleOp::Replace && k == 1 {
                assert(bracket_depth(tail, 1) == bracket_depth(ops, n) - bracket_depth(ops, (n - 1) as nat));
            }
        }
        lemma_concat_never_overclosed(head, tail);
    }
}

/// Rewriting every `Replace` of a balanced sentence into a balanced sentence
/// gives a balanced sentence. With the short tree's balanced productions, a
/// tree grown from a balanced start, however many rounds it is rewritten,
/// never sends its turtle back to a head that was not saved.
pub proof fn lemma_rewrite_keeps_balance(ops: Seq<TurtleOp>, rewrites: spec_fn(int) -> Seq<TurtleOp>)
    requires
        balanced(ops),
        forall|i: int| 0 <= i < ops.len() && ops[i] == TurtleOp::Replace ==> #[trigger] balanced(rewrites(i)),
    ensures
        balanced(rewrite_replaces(ops, rewrites)),
{
    lemma_rewrite_prefix_balanced(ops, rewrites, ops.len());
    assert(ops.take(ops.len() as int) =~= ops);
}

} // verus!
