use voxel_world::tree::{
    is_tree_site, leaf_offsets, leaf_positions, production_choice, selection_sample_coords, short_tree_production,
    short_tree_rewrite, Scale, TreeSymbol, Turn, PRODUCTION_OPTIONS,
};
use voxel_world::turtle::{trace_turtle, TurtleOp};

#[test]
fn selection_index_splits_into_noise_coordinates() {
    assert_eq!(selection_sample_coords(0), (0, 0));
    assert_eq!(selection_sample_coords(3 * 65536 + 5), (3, 5));
    assert_eq!(selection_sample_coords(u32::MAX), (65535, 65535));
}

#[test]
fn selection_is_clamped_to_the_last_production() {
    assert_eq!(PRODUCTION_OPTIONS, 2);
    assert_eq!(production_choice(0), 0);
    assert_eq!(production_choice(1), 1);
    assert_eq!(production_choice(7), 1);
    assert_eq!(short_tree_production(9), short_tree_production(1));
}

#[test]
fn productions_are_as_written() {
    let r1 = Turn { pitch_sixths: 1, roll_sixths: 1 };
    let r4 = Turn { pitch_sixths: -1, roll_sixths: 0 };
    let r5 = Turn { pitch_sixths: 0, roll_sixths: -1 };
    let first = short_tree_production(0);
    assert_eq!(first.len(), 15);
    assert_eq!(first[0], TreeSymbol::Move(Scale::Whole));
    assert_eq!(first[1], TreeSymbol::Rotate(r1));
    assert_eq!(first[14], TreeSymbol::Replace(Scale::Half));
    let second = short_tree_production(1);
    assert_eq!(
        second,
        vec![
            TreeSymbol::Rotate(r5),
            TreeSymbol::Replace(Scale::Half),
            TreeSymbol::StartBranch,
            TreeSymbol::Move(Scale::Half),
            TreeSymbol::Rotate(r4),
            TreeSymbol::Replace(Scale::Half),
            TreeSymbol::EndBranch,
            TreeSymbol::Replace(Scale::Half),
        ]
    );
}

#[test]
fn productions_never_mismatch_branches() {
    for choice in 0..PRODUCTION_OPTIONS {
        let ops: Vec<TurtleOp> = short_tree_production(choice).iter().map(|s| s.op()).collect();
        assert!(trace_turtle(&ops).iter().all(|s| !s.unmatched_end));
    }
}

#[test]
fn only_replace_is_rewritten() {
    assert_eq!(short_tree_rewrite(TurtleOp::Replace, 0), Some(short_tree_production(0)));
    assert_eq!(short_tree_rewrite(TurtleOp::Move, 0), None);
    assert_eq!(short_tree_rewrite(TurtleOp::StartBranch, 1), None);
}

#[test]
fn leaf_ball_has_thirty_three_blocks() {
    let offsets = leaf_offsets();
    assert_eq!(offsets.len(), 33);
    assert_eq!(offsets[0], (-2, 0, 0));
    assert_eq!(offsets[32], (2, 0, 0));
    assert!(offsets.contains(&(0, 0, 0)));
    assert!(offsets.contains(&(1, 1, 1)));
    assert!(offsets.contains(&(0, -2, 0)));
    assert!(!offsets.contains(&(2, 1, 0)));
    assert!(!offsets.contains(&(1, 1, 2)));
    assert!(offsets.windows(2).all(|w| w[0] < w[1]));
}

#[test]
fn leaf_positions_surround_the_centre() {
    let positions = leaf_positions((10, -4, 100));
    assert_eq!(positions.len(), 33);
    assert!(positions.contains(&(10, -4, 100)));
    assert!(positions.contains(&(12, -4, 100)));
    assert!(!positions.contains(&(12, -3, 100)));
}

#[test]
fn tree_site_needs_ground_and_open_sky() {
    const EMPTY: u32 = 0;
    const GRASS: u32 = 3;
    const STONE: u32 = 1;
    let column = vec![STONE, GRASS, EMPTY, EMPTY];
    assert!(is_tree_site(&column, 1, GRASS, EMPTY));
    assert!(!is_tree_site(&column, 0, GRASS, EMPTY));
    let covered = vec![STONE, GRASS, EMPTY, STONE];
    assert!(!is_tree_site(&covered, 1, GRASS, EMPTY));
    // the top block of a column has nothing above it
    assert!(is_tree_site(&vec![GRASS], 0, GRASS, EMPTY));
}

fn grow(ops: &[TurtleOp], round: usize) -> Vec<TurtleOp> {
    let mut grown = Vec::new();
    for (i, op) in ops.iter().enumerate() {
        match short_tree_rewrite(*op, (i + round) % 3) {
            Some(symbols) => grown.extend(symbols.iter().map(|s| s.op())),
            None => grown.push(*op),
        }
    }
    grown
}

#[test]
fn grown_short_tree_never_mismatches() {
    let mut ops = vec![TurtleOp::Rotate, TurtleOp::Move, TurtleOp::Replace];
    for round in 0..3 {
        ops = grow(&ops, round);
        assert!(trace_turtle(&ops).iter().all(|s| !s.unmatched_end));
    }
    let starts = ops.iter().filter(|op| **op == TurtleOp::StartBranch).count();
    let ends = ops.iter().filter(|op| **op == TurtleOp::EndBranch).count();
    assert_eq!(starts, ends);
    assert!(starts > 0);
}
