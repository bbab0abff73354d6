//! Undo/redo history: two stacks of edit actions, where consecutive edits
//! within a short time window coalesce into a single user-perceived action.
//!
//! Every recorded operation is the exact inverse of a mutation that succeeded
//! on the buffer, so replaying an action's operations in reverse restores the
//! pre-action text, and replaying them forward restores the post-action text.

use vstd::prelude::*;
use vstd::string::StrSliceExecFns;
use crate::dirty::DirtyLines;
use crate::text::{line_of, remove_span, splice, EditorBuffer};

verus! {

/// The maximum idle time, in milliseconds, between edits for them to be
/// grouped into one undoable action.
pub const GROUP_TIME_THRESHOLD_MS: u64 = 200;

/// A single buffer mutation, recording the exact characters inserted or
/// removed so that it can be replayed in either direction.
#[derive(Debug)]
pub enum EditOp {
    Insert { char_idx: usize, content: String },
    Delete { char_idx: usize, content: String },
}

/// An ordered group of operations produced within one coalescing window,
/// stamped with the time of its most recent operation.
#[derive(Debug)]
pub struct EditAction {
    pub ops: Vec<EditOp>,
    pub timestamp: u64,
}

/// The mathematical image of an [`EditAction`]: its operations as a sequence,
/// and its timestamp.
pub struct ActionModel {
    pub ops: Seq<EditOp>,
    pub timestamp: u64,
}

/// The character offset an operation acts at.
pub open spec fn op_char_idx(op: EditOp) -> usize {
    match op {
        EditOp::Insert { char_idx, .. } => char_idx,
        EditOp::Delete { char_idx, .. } => char_idx,
    }
}

/// `op` has been applied to reach text `s`: its span is in bounds, and for an
/// insertion the inserted characters are still present at the offset.
pub open spec fn op_applied_ok(s: Seq<char>, op: EditOp) -> bool {
    match op {
        EditOp::Insert { char_idx, content } => char_idx + content@.len() <= s.len() && s.len()
            < usize::MAX && s.subrange(char_idx as int, char_idx + content@.len()) == content@,
        EditOp::Delete { char_idx, content } => char_idx <= s.len() && s.len() + content@.len()
            < usize::MAX,
    }
}

/// The text after undoing `op` on `s`: an insertion is undone by deleting its
/// span, a deletion by reinserting the entire removed string.
pub open spec fn op_undo(s: Seq<char>, op: EditOp) -> Seq<char> {
    match op {
        EditOp::Insert { char_idx, content } => remove_span(
            s,
            char_idx as int,
            char_idx + content@.len(),
        ),
        EditOp::Delete { char_idx, content } => splice(s, char_idx as int, content@),
    }
}

/// `op` is ready to be (re)applied to text `s`.
pub open spec fn op_unapplied_ok(s: Seq<char>, op: EditOp) -> bool {
    match op {
        EditOp::Insert { char_idx, content } => char_idx <= s.len() && s.len() + content@.len()
            < usize::MAX,
        EditOp::Delete { char_idx, content } => char_idx + content@.len() <= s.len() && s.len()
            < usize::MAX && s.subrange(char_idx as int, char_idx + content@.len()) == content@,
    }
}

/// The text after (re)applying `op` to `s`.
pub open spec fn op_redo(s: Seq<char>, op: EditOp) -> Seq<char> {
    match op {
        EditOp::Insert { char_idx, content } => splice(s, char_idx as int, content@),
        EditOp::Delete { char_idx, content } => remove_span(
            s,
            char_idx as int,
            char_idx + content@.len(),
        ),
    }
}

/// The cursor position after undoing an action whose earliest operation is
/// `op`: the offset of an undone insertion, or the end of a restored deletion.
pub open spec fn op_undo_cursor(op: EditOp) -> int {
    match op {
        EditOp::Insert { char_idx, .. } => char_idx as int,
        EditOp::Delete { char_idx, content } => char_idx + content@.len(),
    }
}

/// The cursor position after redoing an action whose latest operation is `op`.
pub open spec fn op_redo_cursor(op: EditOp) -> int {
    match op {
        EditOp::Insert { char_idx, content } => char_idx + content@.len(),
        EditOp::Delete { char_idx, .. } => char_idx as int,
    }
}

/// The operations of an action, applied in order, can be undone in reverse
/// starting from text `s`.
pub open spec fn action_applied_ok(s: Seq<char>, ops: Seq<EditOp>) -> bool
    decreases ops.len(),
{
    ops.len() == 0 || (op_applied_ok(s, ops.last()) && action_applied_ok(
        op_undo(s, ops.last()),
        ops.drop_last(),
    ))
}

/// The text after undoing an action's operations in reverse order on `s`.
pub open spec fn action_undo(s: Seq<char>, ops: Seq<EditOp>) -> Seq<char>
    decreases ops.len(),
{
    if ops.len() == 0 {
        s
    } else {
        action_undo(op_undo(s, ops.last()), ops.drop_last())
    }
}

/// The operations of an action can be replayed forward starting from text `s`.
pub open spec fn action_unapplied_ok(s: Seq<char>, ops: Seq<EditOp>) -> bool
    decreases ops.len(),
{
    ops.len() == 0 || (op_unapplied_ok(s, ops.first()) && action_unapplied_ok(
        op_redo(s, ops.first()),
        ops.drop_first(),
    ))
}

/// The text after replaying an action's operations forward on `s`.
pub open spec fn action_redo(s: Seq<char>, ops: Seq<EditOp>) -> Seq<char>
    decreases ops.len(),
{
    if ops.len() == 0 {
        s
    } else {
        action_redo(op_redo(s, ops.first()), ops.drop_first())
    }
}

/// The line indices invalidated while undoing an action: for each operation,
/// the line containing its offset in the text as it stands right after that
/// operation is undone.
pub open spec fn undo_marks(s: Seq<char>, ops: Seq<EditOp>) -> Set<usize>
    decreases ops.len(),
{
    if ops.len() == 0 {
        Set::empty()
    } else {
        undo_marks(s, ops.drop_first()).insert(
            line_of(action_undo(s, ops), op_char_idx(ops.first()) as int) as usize,
        )
    }
}

/// The line indices invalidated while redoing an action.
pub open spec fn redo_marks(s: Seq<char>, ops: Seq<EditOp>) -> Set<usize>
    decreases ops.len(),
{
    if ops.len() == 0 {
        Set::empty()
    } else {
        redo_marks(s, ops.drop_last()).insert(
            line_of(action_redo(s, ops), op_char_idx(ops.last()) as int) as usize,
        )
    }
}

/// Each action on the undo stack is undoable from the text reached by undoing
/// everything above it, and actions are never empty.
pub open spec fn undo_stack_ok(s: Seq<char>, stack: Seq<ActionModel>) -> bool
    decreases stack.len(),
{
    stack.len() == 0 || {
        let top = stack.last();
        top.ops.len() > 0 && action_applied_ok(s, top.ops) && undo_stack_ok(
            action_undo(s, top.ops),
            stack.drop_last(),
        )
    }
}

/// Each action on the redo stack is replayable from the text reached by
/// redoing everything above it.
pub open spec fn redo_stack_ok(s: Seq<char>, stack: Seq<ActionModel>) -> bool
    decreases stack.len(),
{
    stack.len() == 0 || {
        let top = stack.last();
        top.ops.len() > 0 && action_unapplied_ok(s, top.ops) && redo_stack_ok(
            action_redo(s, top.ops),
            stack.drop_last(),
        )
    }
}

/// A new edit at time `now` joins the action on top of the undo stack.
pub open spec fn coalesces_at(stack: Seq<ActionModel>, now: u64) -> bool {
    stack.len() > 0 && now >= stack.last().timestamp && now - stack.last().timestamp
        < GROUP_TIME_THRESHOLD_MS
}

/// The undo stack after recording `op` at time `now`: the operation joins the
/// top action when within the coalescing window, and opens a new single-op
/// action otherwise.
pub open spec fn recorded(stack: Seq<ActionModel>, op: EditOp, now: u64) -> Seq<ActionModel> {
    if coalesces_at(stack, now) {
        stack.drop_last().push(ActionModel { ops: stack.last().ops.push(op), timestamp: now })
    } else {
        stack.push(ActionModel { ops: seq![op], timestamp: now })
    }
}

pub proof fn lemma_op_roundtrip(s: Seq<char>, op: EditOp)
    requires
        op_applied_ok(s, op),
    ensures
        op_unapplied_ok(op_undo(s, op), op),
        op_redo(op_undo(s, op), op) == s,
{
    match op {
        EditOp::Insert { char_idx, content } => {
            let i = char_idx as int;
            let t = content@;
            assert(op_undo(s, op).subrange(0, i) =~= s.subrange(0, i));
            assert(op_redo(op_undo(s, op), op) =~= s);
        },
        EditOp::Delete { char_idx, content } => {
            let i = char_idx as int;
            let t = content@;
            assert(op_undo(s, op).subrange(i, i + t.len() as int) =~= t);
            assert(op_redo(op_undo(s, op), op) =~= s);
        },
    }
}

pub proof fn lemma_op_roundtrip_rev(s: Seq<char>, op: EditOp)
    requires
        op_unapplied_ok(s, op),
    ensures
        op_applied_ok(op_redo(s, op), op),
        op_undo(op_redo(s, op), op) == s,
{
    match op {
        EditOp::Insert { char_idx, content } => {
            let i = char_idx as int;
            let t = content@;
            assert(op_redo(s, op).subrange(i, i + t.len() as int) =~= t);
            assert(op_undo(op_redo(s, op), op) =~= s);
        },
        EditOp::Delete { char_idx, content } => {
            let i = char_idx as int;
            let t = content@;
            assert(op_redo(s, op).subrange(0, i) =~= s.subrange(0, i));
            assert(op_undo(op_redo(s, op), op) =~= s);
        },
    }
}

/// Undoing an action distributes as: undo the later operations first, then
/// the earliest one.
pub proof fn lemma_action_undo_peel_first(s: Seq<char>, ops: Seq<EditOp>)
    requires
        ops.len() > 0,
    ensures
        action_undo(s, ops) == op_undo(action_undo(s, ops.drop_first()), ops.first()),
    decreases ops.len(),
{
    if ops.len() == 1 {
        assert(ops.drop_last() =~= Seq::<EditOp>::empty());
        assert(ops.drop_first() =~= Seq::<EditOp>::empty());
        assert(action_undo(s, ops) == action_undo(op_undo(s, ops.last()), ops.drop_last()));
    } else {
        let inner = op_undo(s, ops.last());
        lemma_action_undo_peel_first(inner, ops.drop_last());
        assert(ops.drop_last().first() == ops.first());
        assert(ops.drop_last().drop_first() =~= ops.drop_first().drop_last());
        assert(ops.drop_first().last() == ops.last());
        assert(action_undo(s, ops) == action_undo(inner, ops.drop_last()));
        assert(action_undo(inner, ops.drop_last()) == op_undo(
            action_undo(inner, ops.drop_first().drop_last()),
            ops.first(),
        ));
        assert(action_undo(s, ops.drop_first()) == action_undo(
            op_undo(s, ops.drop_first().last()),
            ops.drop_first().drop_last(),
        ));
        assert(action_undo(s, ops.drop_first()) == action_undo(
            inner,
            ops.drop_first().drop_last(),
        ));
    }
}

/// An action is undoable from `s` exactly when its later operations are, and
/// its earliest operation is undoable from the text they leave.
pub proof fn lemma_action_applied_peel_first(s: Seq<char>, ops: Seq<EditOp>)
    requires
        ops.len() > 0,
    ensures
        action_applied_ok(s, ops) <==> (action_applied_ok(s, ops.drop_first()) && op_applied_ok(
            action_undo(s, ops.drop_first()),
            ops.first(),
        )),
    decreases ops.len(),
{
    if ops.len() == 1 {
        assert(ops.drop_last() =~= Seq::<EditOp>::empty());
        assert(ops.drop_first() =~= Seq::<EditOp>::empty());
        assert(action_applied_ok(s, ops) <==> (op_applied_ok(s, ops.last())
            && action_applied_ok(op_undo(s, ops.last()), ops.drop_last())));
        assert(action_applied_ok(op_undo(s, ops.last()), Seq::<EditOp>::empty()));
        assert(action_applied_ok(s, Seq::<EditOp>::empty()));
        assert(action_undo(s, ops.drop_first()) == s);
    } else {
        let inner = op_undo(s, ops.last());
        lemma_action_applied_peel_first(inner, ops.drop_last());
        lemma_action_undo_peel_first(s, ops);
        assert(ops.drop_last().first() == ops.first());
        assert(ops.drop_last().drop_first() =~= ops.drop_first().drop_last());
        assert(ops.drop_first().last() == ops.last());
        // the two outermost unfoldings, on each side of the equivalence
        assert(action_applied_ok(s, ops) <==> (op_applied_ok(s, ops.last())
            && action_applied_ok(inner, ops.drop_last())));
        assert(action_applied_ok(s, ops.drop_first()) <==> (op_applied_ok(
            s,
            ops.drop_first().last(),
        ) && action_applied_ok(op_undo(s, ops.last()), ops.drop_first().drop_last())));
        // the states the first operation is judged at agree
        assert(action_undo(s, ops.drop_first()) == action_undo(
            op_undo(s, ops.drop_first().last()),
            ops.drop_first().drop_last(),
        ));
        assert(action_undo(s, ops.drop_first()) == action_undo(
            inner,
            ops.drop_first().drop_last(),
        ));
    }
}

/// Redoing an action distributes as: redo the earlier operations first, then
/// the latest one.
pub proof fn lemma_action_redo_peel_last(s: Seq<char>, ops: Seq<EditOp>)
    requires
        ops.len() > 0,
    ensures
        action_redo(s, ops) == op_redo(action_redo(s, ops.drop_last()), ops.last()),
    decreases ops.len(),
{
    if ops.len() == 1 {
        assert(ops.drop_last() =~= Seq::<EditOp>::empty());
        assert(ops.drop_first() =~= Seq::<EditOp>::empty());
        assert(action_redo(s, ops) == action_redo(op_redo(s, ops.first()), ops.drop_first()));
    } else {
        let inner = op_redo(s, ops.first());
        lemma_action_redo_peel_last(inner, ops.drop_first());
        assert(ops.drop_first().last() == ops.last());
        assert(ops.drop_first().drop_last() =~= ops.drop_last().drop_first());
        assert(ops.drop_last().first() == ops.first());
        assert(action_redo(s, ops) == action_redo(inner, ops.drop_first()));
        assert(action_redo(inner, ops.drop_first()) == op_redo(
            action_redo(inner, ops.drop_last().drop_first()),
            ops.last(),
        ));
        assert(action_redo(s, ops.drop_last()) == action_redo(
            op_redo(s, ops.drop_last().first()),
            ops.drop_last().drop_first(),
        ));
        assert(action_redo(s, ops.drop_last()) == action_redo(
            inner,
            ops.drop_last().drop_first(),
        ));
    }
}

/// An action is replayable from `s` exactly when its earlier operations are,
/// and its latest operation is replayable from the text they produce.
pub proof fn lemma_action_unapplied_peel_last(s: Seq<char>, ops: Seq<EditOp>)
    requires
        ops.len() > 0,
    ensures
        action_unapplied_ok(s, ops) <==> (action_unapplied_ok(s, ops.drop_last())
            && op_unapplied_ok(action_redo(s, ops.drop_last()), ops.last())),
    decreases ops.len(),
{
    if ops.len() == 1 {
        assert(ops.drop_last() =~= Seq::<EditOp>::empty());
        assert(ops.drop_first() =~= Seq::<EditOp>::empty());
        assert(action_unapplied_ok(s, ops) <==> (op_unapplied_ok(s, ops.first())
            && action_unapplied_ok(op_redo(s, ops.first()), ops.drop_first())));
        assert(action_unapplied_ok(op_redo(s, ops.first()), Seq::<EditOp>::empty()));
        assert(action_unapplied_ok(s, Seq::<EditOp>::empty()));
        assert(action_redo(s, ops.drop_last()) == s);
    } else {
        let inner = op_redo(s, ops.first());
        lemma_action_unapplied_peel_last(inner, ops.drop_first());
        lemma_action_redo_peel_last(s, ops);
        assert(ops.drop_first().last() == ops.last());
        assert(ops.drop_first().drop_last() =~= ops.drop_last().drop_first());
        assert(ops.drop_last().first() == ops.first());
        // the two outermost unfoldings, on each side of the equivalence
        assert(action_unapplied_ok(s, ops) <==> (op_unapplied_ok(s, ops.first())
            && action_unapplied_ok(inner, ops.drop_first())));
        assert(action_unapplied_ok(s, ops.drop_last()) <==> (op_unapplied_ok(
            s,
            ops.drop_last().first(),
        ) && action_unapplied_ok(op_redo(s, ops.first()), ops.drop_last().drop_first())));
        // the states the last operation is judged at agree
        assert(action_redo(s, ops.drop_last()) == action_redo(
            op_redo(s, ops.drop_last().first()),
            ops.drop_last().drop_first(),
        ));
        assert(action_redo(s, ops.drop_last()) == action_redo(
            inner,
            ops.drop_last().drop_first(),
        ));
    }
}

/// Round trip, undo first: undoing an action leaves it replayable, and
/// redoing it then restores the text the undo started from, exactly.
pub proof fn lemma_action_roundtrip(s: Seq<char>, ops: Seq<EditOp>)
    requires
        action_applied_ok(s, ops),
    ensures
        action_unapplied_ok(action_undo(s, ops), ops),
        action_redo(action_undo(s, ops), ops) == s,
    decreases ops.len(),
{
    if ops.len() > 0 {
        let f = ops.first();
        let rest = ops.drop_first();
        lemma_action_applied_peel_first(s, ops);
        let u_rest = action_undo(s, rest);
        lemma_action_roundtrip(s, rest);
        lemma_action_undo_peel_first(s, ops);
        let u = action_undo(s, ops);
        lemma_op_roundtrip(u_rest, f);
        assert(op_redo(u, f) == u_rest);
    }
}

/// Round trip, redo first: replaying an action leaves it undoable, and
/// undoing it then restores the text the replay started from, exactly.  In
/// particular, an action recorded from successful edits, once undone,
/// restores the exact prior buffer content.
pub proof fn lemma_action_roundtrip_rev(s: Seq<char>, ops: Seq<EditOp>)
    requires
        action_unapplied_ok(s, ops),
    ensures
        action_applied_ok(action_redo(s, ops), ops),
        action_undo(action_redo(s, ops), ops) == s,
    decreases ops.len(),
{
    if ops.len() > 0 {
        let l = ops.last();
        let rest = ops.drop_last();
        lemma_action_unapplied_peel_last(s, ops);
        let r_rest = action_redo(s, rest);
        lemma_action_roundtrip_rev(s, rest);
        lemma_action_redo_peel_last(s, ops);
        let r = action_redo(s, ops);
        lemma_op_roundtrip_rev(r_rest, l);
        assert(op_undo(r, l) == r_rest);
    }
}

/// Recording the inverse of a mutation that just succeeded keeps the undo
/// stack consistent with the new buffer content.
pub proof fn lemma_record_wf(
    s_pre: Seq<char>,
    s_post: Seq<char>,
    stack: Seq<ActionModel>,
    op: EditOp,
    now: u64,
)
    requires
        undo_stack_ok(s_pre, stack),
        op_applied_ok(s_post, op),
        op_undo(s_post, op) == s_pre,
    ensures
        undo_stack_ok(s_post, recorded(stack, op, now)),
{
    if coalesces_at(stack, now) {
        let top = stack.last();
        let new_ops = top.ops.push(op);
        assert(new_ops.drop_last() =~= top.ops);
        assert(new_ops.last() == op);
        let new_stack = recorded(stack, op, now);
        assert(new_stack.last().ops == new_ops);
        assert(new_stack.drop_last() =~= stack.drop_last());
        assert(action_applied_ok(s_pre, top.ops));
        assert(action_applied_ok(s_post, new_ops) <==> (op_applied_ok(s_post, op)
            && action_applied_ok(s_pre, top.ops)));
        assert(action_undo(s_post, new_ops) == action_undo(s_pre, top.ops));
        assert(undo_stack_ok(action_undo(s_pre, top.ops), stack.drop_last()));
    } else {
        let new_stack = recorded(stack, op, now);
        let ops = seq![op];
        assert(ops.last() == op);
        assert(ops.drop_last() =~= Seq::<EditOp>::empty());
        assert(new_stack.last().ops == ops);
        assert(new_stack.drop_last() =~= stack);
        assert(action_applied_ok(s_pre, Seq::<EditOp>::empty()));
        assert(action_applied_ok(s_post, ops) <==> (op_applied_ok(s_post, op)
            && action_applied_ok(s_pre, Seq::<EditOp>::empty())));
        assert(action_undo(s_post, ops) == action_undo(s_pre, Seq::<EditOp>::empty()));
        assert(action_undo(s_post, ops) == s_pre);
    }
}

/// Within the coalescing window, a second edit joins the action the first one
/// opened: the result is one action holding both operations, in order.
pub proof fn lemma_coalescing_window(
    stack: Seq<ActionModel>,
    op1: EditOp,
    t1: u64,
    op2: EditOp,
    t2: u64,
)
    requires
        !coalesces_at(stack, t1),
        t2 >= t1,
        t2 - t1 < GROUP_TIME_THRESHOLD_MS,
    ensures
        ({
            let after = recorded(recorded(stack, op1, t1), op2, t2);
            after.len() == stack.len() + 1 && after.last().ops == seq![op1, op2]
                && after.last().timestamp == t2 && after.drop_last() == stack
        }),
{
    let s1 = recorded(stack, op1, t1);
    assert(s1.last().timestamp == t1);
    assert(coalesces_at(s1, t2));
    let after = recorded(s1, op2, t2);
    assert(seq![op1].push(op2) =~= seq![op1, op2]);
    assert(after.drop_last() =~= stack);
}

/// A whole burst of typing lands in one action: three edits, each within the
/// window of the one before, produce exactly one undo action holding all
/// three operations in order.
pub proof fn lemma_burst_coalesces(
    stack: Seq<ActionModel>,
    op1: EditOp,
    t1: u64,
    op2: EditOp,
    t2: u64,
    op3: EditOp,
    t3: u64,
)
    requires
        !coalesces_at(stack, t1),
        t2 >= t1,
        t2 - t1 < GROUP_TIME_THRESHOLD_MS,
        t3 >= t2,
        t3 - t2 < GROUP_TIME_THRESHOLD_MS,
    ensures
        ({
            let after = recorded(recorded(recorded(stack, op1, t1), op2, t2), op3, t3);
            after.len() == stack.len() + 1 && after.last().ops == seq![op1, op2, op3]
        }),
{
    let s1 = recorded(stack, op1, t1);
    lemma_coalescing_window(stack, op1, t1, op2, t2);
    let s2 = recorded(s1, op2, t2);
    assert(s2.last().timestamp == t2);
    assert(coalesces_at(s2, t3));
    assert(seq![op1, op2].push(op3) =~= seq![op1, op2, op3]);
}

/// Past the coalescing window, a second edit opens a separate action: two
/// actions stand on the stack, each holding its own operation.
pub proof fn lemma_separate_actions(
    stack: Seq<ActionModel>,
    op1: EditOp,
    t1: u64,
    op2: EditOp,
    t2: u64,
)
    requires
        !coalesces_at(stack, t1),
        t2 < t1 || t2 - t1 >= GROUP_TIME_THRESHOLD_MS,
    ensures
        ({
            let after = recorded(recorded(stack, op1, t1), op2, t2);
            after.len() == stack.len() + 2 && after.last().ops == seq![op2] && after[after.len()
                - 2].ops == seq![op1]
        }),
{
    let s1 = recorded(stack, op1, t1);
    assert(s1.last().timestamp == t1);
    assert(!coalesces_at(s1, t2));
    let after = recorded(s1, op2, t2);
    assert(after[after.len() - 2] == s1.last());
}

/// Undo (past actions, most recent on top) and redo (undone actions available
/// to reapply) stacks of coalesced edit actions.
pub struct UndoRedoStacks {
    undo_stack: Vec<EditAction>,
    redo_stack: Vec<EditAction>,
}

impl UndoRedoStacks {
    pub closed spec fn undo_model(&self) -> Seq<ActionModel> {
        self.undo_stack@.map_values(
            |a: EditAction| ActionModel { ops: a.ops@, timestamp: a.timestamp },
        )
    }

    pub closed spec fn redo_model(&self) -> Seq<ActionModel> {
        self.redo_stack@.map_values(
            |a: EditAction| ActionModel { ops: a.ops@, timestamp: a.timestamp },
        )
    }

    /// The history is consistent with buffer content `s`: every stacked
    /// action can be replayed in its direction.
    pub open spec fn wf(&self, s: Seq<char>) -> bool {
        undo_stack_ok(s, self.undo_model()) && redo_stack_ok(s, self.redo_model())
    }

    pub fn new() -> (r: Self)
        ensures
            r.undo_model() =~= Seq::<ActionModel>::empty(),
            r.redo_model() =~= Seq::<ActionModel>::empty(),
    {
        UndoRedoStacks { undo_stack: Vec::new(), redo_stack: Vec::new() }
    }

    pub fn undo_depth(&self) -> (r: usize)
        ensures
            r == self.undo_model().len(),
    {
        self.undo_stack.len()
    }

    pub fn redo_depth(&self) -> (r: usize)
        ensures
            r == self.redo_model().len(),
    {
        self.redo_stack.len()
    }

    /// The number of operations in the most recent undo action; 0 when the
    /// undo stack is empty.
    pub fn last_action_len(&self) -> (r: usize)
        ensures
            r == if self.undo_model().len() == 0 {
                0int
            } else {
                self.undo_model().last().ops.len() as int
            },
    {
        let n = self.undo_stack.len();
        if n == 0 {
            0
        } else {
            self.undo_stack[n - 1].ops.len()
        }
    }

    fn record_op(&mut self, op: EditOp, now: u64)
        ensures
            final(self).undo_model() == recorded(old(self).undo_model(), op, now),
            final(self).redo_model() == Seq::<ActionModel>::empty(),
    {
        let ghost pre = self.undo_model();
        let n = self.undo_stack.len();
        let mut coalesce = false;
        if n > 0 {
            let ts = self.undo_stack[n - 1].timestamp;
            if now >= ts && now - ts < GROUP_TIME_THRESHOLD_MS {
                coalesce = true;
            }
        }
        proof {
            assert(coalesce == coalesces_at(pre, now));
        }
        if coalesce {
            let mut act = self.undo_stack.pop().unwrap();
            act.ops.push(op);
            act.timestamp = now;
            self.undo_stack.push(act);
            proof {
                assert(self.undo_model() =~= recorded(pre, op, now));
            }
        } else {
            let mut ops: Vec<EditOp> = Vec::new();
            ops.push(op);
            self.undo_stack.push(EditAction { ops, timestamp: now });
            proof {
                assert(seq![op] =~= self.undo_model().last().ops);
                assert(self.undo_model() =~= recorded(pre, op, now));
            }
        }
        self.redo_stack.clear();
        proof {
            assert(self.redo_model() =~= Seq::<ActionModel>::empty());
        }
    }

    /// Records an insertion of `content` at `char_idx` made at time `now`,
    /// coalescing it into the top undo action when within the time window.
    /// Recording any edit clears the redo stack.
    pub fn add_insert(&mut self, char_idx: usize, content: String, now: u64)
        ensures
            final(self).undo_model() == recorded(
                old(self).undo_model(),
                EditOp::Insert { char_idx, content },
                now,
            ),
            final(self).redo_model() == Seq::<ActionModel>::empty(),
    {
        self.record_op(EditOp::Insert { char_idx, content }, now);
    }

    /// Records a deletion of `content` at `char_idx` made at time `now`,
    /// coalescing it into the top undo action when within the time window.
    /// Recording any edit clears the redo stack.
    pub fn add_delete(&mut self, char_idx: usize, content: String, now: u64)
        ensures
            final(self).undo_model() == recorded(
                old(self).undo_model(),
                EditOp::Delete { char_idx, content },
                now,
            ),
            final(self).redo_model() == Seq::<ActionModel>::empty(),
    {
        self.record_op(EditOp::Delete { char_idx, content }, now);
    }

    /// Pops the most recent undo action, replays its operations in reverse as
    /// their semantic inverses, and moves the action to the redo stack.  On an
    /// empty undo stack this is a no-op: buffer, cursor, dirty set and both
    /// stacks are left unchanged.
    pub fn undo(&mut self, buffer: &mut EditorBuffer, cursor: &mut usize, dirty: &mut DirtyLines)
        requires
            old(self).wf(old(buffer)@),
        ensures
            old(self).undo_model().len() == 0 ==> final(self).undo_model() == old(
                self,
            ).undo_model() && final(self).redo_model() == old(self).redo_model() && final(buffer)@
                == old(buffer)@ && *final(cursor) == *old(cursor) && final(dirty)@ == old(dirty)@,
            old(self).undo_model().len() > 0 ==> ({
                let act = old(self).undo_model().last();
                &&& final(buffer)@ == action_undo(old(buffer)@, act.ops)
                &&& final(self).undo_model() == old(self).undo_model().drop_last()
                &&& final(self).redo_model() == old(self).redo_model().push(act)
                &&& *final(cursor) == op_undo_cursor(act.ops.first())
                &&& *final(cursor) <= final(buffer)@.len()
                &&& final(buffer)@.len() < usize::MAX
                &&& final(dirty)@ == old(dirty)@.union(undo_marks(old(buffer)@, act.ops))
                &&& final(self).wf(final(buffer)@)
            }),
    {
        if self.undo_stack.len() == 0 {
            return ;
        }
        let ghost pre_undo = self.undo_model();
        let ghost pre_redo = self.redo_model();
        let ghost s0 = buffer@;
        let act = self.undo_stack.pop().unwrap();
        let ghost ops = act.ops@;
        proof {
            assert(pre_undo.last().ops == ops);
            assert(self.undo_model() =~= pre_undo.drop_last());
            assert(self.redo_model() == pre_redo);
            assert(ops.subrange(0, ops.len() as int) =~= ops);
            assert(ops.subrange(ops.len() as int, ops.len() as int) =~= Seq::<EditOp>::empty());
            assert(old(dirty)@.union(Set::<usize>::empty()) =~= old(dirty)@);
        }
        let n = act.ops.len();
        let mut j: usize = n;
        while j > 0
            invariant
                j <= n,
                n == ops.len(),
                act.ops@ == ops,
                buffer@ == action_undo(s0, ops.subrange(j as int, n as int)),
                action_applied_ok(buffer@, ops.subrange(0, j as int)),
                dirty@ == old(dirty)@.union(undo_marks(s0, ops.subrange(j as int, n as int))),
                j < n ==> *cursor == op_undo_cursor(ops[j as int]) && *cursor <= buffer@.len(),
                j == n ==> *cursor == *old(cursor),
            decreases j,
        {
            let ghost pre_buf = buffer@;
            let ghost pre_dirty = dirty@;
            proof {
                assert(ops.subrange(0, j as int).last() == ops[j as int - 1]);
                assert(ops.subrange(0, j as int).drop_last() =~= ops.subrange(0, j as int - 1));
                assert(op_applied_ok(pre_buf, ops[j as int - 1]));
            }
            let op = &act.ops[j - 1];
            match op {
                EditOp::Insert { char_idx, content } => {
                    let len = content.as_str().unicode_len();
                    buffer.remove(*char_idx, len);
                    *cursor = *char_idx;
                    let line = buffer.char_to_line(*char_idx);
                    dirty.insert(line);
                },
                EditOp::Delete { char_idx, content } => {
                    buffer.insert(*char_idx, content.as_str());
                    let len = content.as_str().unicode_len();
                    *cursor = *char_idx + len;
                    let line = buffer.char_to_line(*char_idx);
                    dirty.insert(line);
                },
            }
            proof {
                let suf = ops.subrange(j as int - 1, n as int);
                assert(suf.first() == ops[j as int - 1]);
                assert(suf.drop_first() =~= ops.subrange(j as int, n as int));
                lemma_action_undo_peel_first(s0, suf);
                assert(buffer@ == op_undo(pre_buf, ops[j as int - 1]));
                assert(buffer@ == action_undo(s0, suf));
                assert(undo_marks(s0, suf) == undo_marks(s0, suf.drop_first()).insert(
                    line_of(action_undo(s0, suf), op_char_idx(suf.first()) as int) as usize,
                ));
                assert(dirty@ =~= old(dirty)@.union(undo_marks(s0, suf)));
            }
            j -= 1;
        }
        proof {
            assert(buffer@ == action_undo(s0, ops));
            lemma_action_roundtrip(s0, ops);
            assert(op_unapplied_ok(buffer@, ops.first()));
            assert(buffer@.len() < usize::MAX);
        }
        self.redo_stack.push(act);
        proof {
            assert(self.undo_model() == pre_undo.drop_last());
            assert(self.redo_model() =~= pre_redo.push(pre_undo.last()));
            // the old undo stack was consistent with the old text, so what is
            // left of it is consistent with the undone text
            assert(undo_stack_ok(s0, pre_undo));
            assert(undo_stack_ok(action_undo(s0, pre_undo.last().ops), pre_undo.drop_last()));
            assert(buffer@ == action_undo(s0, pre_undo.last().ops));
            // the undone action sits ready for replay on top of the redo stack
            let new_redo = pre_redo.push(pre_undo.last());
            assert(new_redo.last() == pre_undo.last());
            assert(new_redo.drop_last() =~= pre_redo);
            assert(action_unapplied_ok(buffer@, pre_undo.last().ops));
            assert(action_redo(buffer@, pre_undo.last().ops) == s0);
            assert(redo_stack_ok(s0, pre_redo));
            assert(redo_stack_ok(buffer@, new_redo));
        }
    }

    /// Pops the most recent undone action, replays its operations forward in
    /// their original order, and moves the action back to the undo stack.  On
    /// an empty redo stack this is a no-op: buffer, cursor, dirty set and both
    /// stacks are left unchanged.
    pub fn redo(&mut self, buffer: &mut EditorBuffer, cursor: &mut usize, dirty: &mut DirtyLines)
        requires
            old(self).wf(old(buffer)@),
        ensures
            old(self).redo_model().len() == 0 ==> final(self).undo_model() == old(
                self,
            ).undo_model() && final(self).redo_model() == old(self).redo_model() && final(buffer)@
                == old(buffer)@ && *final(cursor) == *old(cursor) && final(dirty)@ == old(dirty)@,
            old(self).redo_model().len() > 0 ==> ({
                let act = old(self).redo_model().last();
                &&& final(buffer)@ == action_redo(old(buffer)@, act.ops)
                &&& final(self).redo_model() == old(self).redo_model().drop_last()
                &&& final(self).undo_model() == old(self).undo_model().push(act)
                &&& *final(cursor) == op_redo_cursor(act.ops.last())
                &&& *final(cursor) <= final(buffer)@.len()
                &&& final(buffer)@.len() < usize::MAX
                &&& final(dirty)@ == old(dirty)@.union(redo_marks(old(buffer)@, act.ops))
                &&& final(self).wf(final(buffer)@)
            }),
    {
        if self.redo_stack.len() == 0 {
            return ;
        }
        let ghost pre_undo = self.undo_model();
        let ghost pre_redo = self.redo_model();
        let ghost s0 = buffer@;
        let act = self.redo_stack.pop().unwrap();
        let ghost ops = act.ops@;
        proof {
            assert(pre_redo.last().ops == ops);
            assert(self.redo_model() =~= pre_redo.drop_last());
            assert(self.undo_model() == pre_undo);
            assert(ops.subrange(0, 0) =~= Seq::<EditOp>::empty());
            assert(ops.subrange(0, ops.len() as int) =~= ops);
            assert(old(dirty)@.union(Set::<usize>::empty()) =~= old(dirty)@);
        }
        let n = act.ops.len();
        let mut j: usize = 0;
        while j < n
            invariant
                j <= n,
                n == ops.len(),
                act.ops@ == ops,
                buffer@ == action_redo(s0, ops.subrange(0, j as int)),
                action_unapplied_ok(buffer@, ops.subrange(j as int, n as int)),
                dirty@ == old(dirty)@.union(redo_marks(s0, ops.subrange(0, j as int))),
                j > 0 ==> *cursor == op_redo_cursor(ops[j as int - 1]) && *cursor <= buffer@.len(),
                j == 0 ==> *cursor == *old(cursor),
            decreases n - j,
        {
            let ghost pre_buf = buffer@;
            proof {
                assert(ops.subrange(j as int, n as int).first() == ops[j as int]);
                assert(ops.subrange(j as int, n as int).drop_first() =~= ops.subrange(
                    j as int + 1,
                    n as int,
                ));
                assert(op_unapplied_ok(pre_buf, ops[j as int]));
            }
            let op = &act.ops[j];
            match op {
                EditOp::Insert { char_idx, content } => {
                    buffer.insert(*char_idx, content.as_str());
                    let len = content.as_str().unicode_len();
                    *cursor = *char_idx + len;
                    let line = buffer.char_to_line(*char_idx);
                    dirty.insert(line);
                },
                EditOp::Delete { char_idx, content } => {
                    let len = content.as_str().unicode_len();
                    buffer.remove(*char_idx, len);
                    *cursor = *char_idx;
                    let line = buffer.char_to_line(*char_idx);
                    dirty.insert(line);
                },
            }
            proof {
                let pre = ops.subrange(0, j as int + 1);
                assert(pre.last() == ops[j as int]);
                assert(pre.drop_last() =~= ops.subrange(0, j as int));
                lemma_action_redo_peel_last(s0, pre);
                assert(buffer@ == op_redo(pre_buf, ops[j as int]));
                assert(buffer@ == action_redo(s0, pre));
                assert(redo_marks(s0, pre) == redo_marks(s0, pre.drop_last()).insert(
                    line_of(action_redo(s0, pre), op_char_idx(pre.last()) as int) as usize,
                ));
                assert(dirty@ =~= old(dirty)@.union(redo_marks(s0, pre)));
            }
            j += 1;
        }
        proof {
            assert(buffer@ == action_redo(s0, ops));
            lemma_action_roundtrip_rev(s0, ops);
            assert(op_applied_ok(buffer@, ops.last()));
            assert(buffer@.len() < usize::MAX);
        }
        self.undo_stack.push(act);
        proof {
            assert(self.redo_model() == pre_redo.drop_last());
            assert(self.undo_model() =~= pre_undo.push(pre_redo.last()));
            // the old redo stack was consistent with the old text, so what is
            // left of it is consistent with the replayed text
            assert(redo_stack_ok(s0, pre_redo));
            assert(redo_stack_ok(action_redo(s0, pre_redo.last().ops), pre_redo.drop_last()));
            assert(buffer@ == action_redo(s0, pre_redo.last().ops));
            // the replayed action sits ready to be undone on top of the undo stack
            let new_undo = pre_undo.push(pre_redo.last());
            assert(new_undo.last() == pre_redo.last());
            assert(new_undo.drop_last() =~= pre_undo);
            assert(action_applied_ok(buffer@, pre_redo.last().ops));
            assert(action_undo(buffer@, pre_redo.last().ops) == s0);
            assert(undo_stack_ok(s0, pre_undo));
            assert(undo_stack_ok(buffer@, new_undo));
        }
    }
}

} // verus!
