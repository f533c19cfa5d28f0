use voxel_world::turtle::{trace_turtle, TurtleStep};
use voxel_world::turtle::TurtleOp::{EndBranch, Move, Replace, Rotate, StartBranch};

fn step(head: Option<usize>, unmatched_end: bool) -> TurtleStep {
    TurtleStep { head, unmatched_end }
}

#[test]
fn moves_chain_their_heads() {
    let steps = trace_turtle(&vec![Move, Rotate, Move, Replace]);
    assert_eq!(steps, vec![step(None, false), step(Some(0), false), step(Some(1), false), step(Some(2), false)]);
}

#[test]
fn branch_end_returns_to_saved_head() {
    // 0:Move 1:Start 2:Move 3:Rotate 4:End 5:Replace 6:Move
    let steps = trace_turtle(&vec![Move, StartBranch, Move, Rotate, EndBranch, Replace, Move]);
    assert_eq!(steps[2].head, Some(0));
    assert_eq!(steps[3].head, Some(2));
    assert_eq!(steps[4].head, Some(3));
    // after the branch the turtle is back at the head of instruction 0
    assert_eq!(steps[5].head, Some(0));
    assert_eq!(steps[6].head, Some(0));
    assert!(steps.iter().all(|s| !s.unmatched_end));
}

#[test]
fn nested_branches_restore_in_order() {
    let ops = vec![StartBranch, Move, StartBranch, Rotate, EndBranch, Replace, EndBranch, Replace];
    let steps = trace_turtle(&ops);
    assert_eq!(steps[5].head, Some(1));
    assert_eq!(steps[7].head, None);
}

#[test]
fn unmatched_end_is_reported_and_ignored() {
    let steps = trace_turtle(&vec![Move, EndBranch, Replace]);
    assert_eq!(steps[1], step(Some(0), true));
    assert_eq!(steps[2], step(Some(0), false));
}

#[test]
fn empty_sentence_has_no_steps() {
    assert!(trace_turtle(&vec![]).is_empty());
}
