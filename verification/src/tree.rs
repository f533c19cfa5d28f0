use vstd::prelude::*;
use crate::turtle::{
    TurtleOp, balanced, bracket_depth, lemma_no_unmatched_end, lemma_rewrite_keeps_balance, rewrite_replaces,
    turtle_state,
};

verus! {

/// Number of productions a `Replace` can be rewritten into.
pub const PRODUCTION_OPTIONS: usize = 2;

/// The selection index of a rewrite is split into two noise coordinates,
/// quotient and remainder by this number, so that each stays small.
pub const SELECTION_RANGE_SPLIT: u32 = 65536;

/// Radius, in blocks, of the ball of leaves placed at a `Replace`.
pub const LEAF_SIZE: i32 = 2;

/// The length of a new segment, relative to the length carried by the
/// `Replace` symbol that is rewritten.
#[derive(Clone, Copy, Debug, PartialEq, Eq, Structural)]
pub enum Scale {
    Whole,
    Half,
}

/// A turn of the turtle's head, as Euler angles in the X-Y-Z order with no
/// turn about Y: `pitch_sixths * PI / 6` about X and `roll_sixths * PI / 6`
/// about Z.
#[derive(Clone, Copy, Debug, PartialEq, Eq, Structural)]
pub struct Turn {
    pub pitch_sixths: i8,
    pub roll_sixths: i8,
}

/// A symbol of a tree sentence, as the short tree's productions write them.
#[derive(Clone, Copy, Debug, PartialEq, Eq, Structural)]
pub enum TreeSymbol {
    Move(Scale),
    Rotate(Turn),
    StartBranch,
    EndBranch,
    Replace(Scale),
}

/// The kind of instruction a symbol is for the turtle.
pub open spec fn symbol_op(symbol: TreeSymbol) -> TurtleOp {
    match symbol {
        TreeSymbol::Move(_) => TurtleOp::Move,
        TreeSymbol::Rotate(_) => TurtleOp::Rotate,
        TreeSymbol::StartBranch => TurtleOp::StartBranch,
        TreeSymbol::EndBranch => TurtleOp::EndBranch,
        TreeSymbol::Replace(_) => TurtleOp::Replace,
    }
}

impl TreeSymbol {
    /// The kind of instruction this symbol is for the turtle.
    pub fn op(&self) -> (op: TurtleOp)
        ensures
            op == symbol_op(*self),
            (op == TurtleOp::Move) == (*self is Move),
            (op == TurtleOp::Rotate) == (*self is Rotate),
            (op == TurtleOp::StartBranch) == (*self is StartBranch),
            (op == TurtleOp::EndBranch) == (*self is EndBranch),
            (op == TurtleOp::Replace) == (*self is Replace),
    {
        match self {
            TreeSymbol::Move(_) => TurtleOp::Move,
            TreeSymbol::Rotate(_) => TurtleOp::Rotate,
            TreeSymbol::StartBranch => TurtleOp::StartBranch,
            TreeSymbol::EndBranch => TurtleOp::EndBranch,
            TreeSymbol::Replace(_) => TurtleOp::Replace,
        }
    }
}

pub open spec fn turn(pitch_sixths: i8, roll_sixths: i8) -> Turn {
    Turn { pitch_sixths, roll_sixths }
}

/// The production of the short tree chosen by `choice` (0 or 1): a trunk
/// segment with two side branches, or a bend with one side branch.
pub open spec fn short_tree_production_spec(choice: int) -> Seq<TreeSymbol> {
    if choice == 0 {
        seq![
            TreeSymbol::Move(Scale::Whole),
            TreeSymbol::Rotate(turn(1i8, 1i8)),
            TreeSymbol::StartBranch,
            TreeSymbol::Move(Scale::Half),
            TreeSymbol::Rotate(turn(-1i8, 0i8)),
            TreeSymbol::Replace(Scale::Half),
            TreeSymbol::EndBranch,
            TreeSymbol::Rotate(turn(-1i8, -1i8)),
            TreeSymbol::StartBranch,
            TreeSymbol::Replace(Scale::Half),
            TreeSymbol::Rotate(turn(1i8, -1i8)),
            TreeSymbol::Move(Scale::Half),
            TreeSymbol::Replace(Scale::Half),
            TreeSymbol::EndBranch,
            TreeSymbol::Replace(Scale::Half),
        ]
    } else {
        seq![
            TreeSymbol::Rotate(turn(0i8, -1i8)),
            TreeSymbol::Replace(Scale::Half),
            TreeSymbol::StartBranch,
            TreeSymbol::Move(Scale::Half),
            TreeSymbol::Rotate(turn(-1i8, 0i8)),
            TreeSymbol::Replace(Scale::Half),
            TreeSymbol::EndBranch,
            TreeSymbol::Replace(Scale::Half),
        ]
    }
}

/// The production that a selection value picks: values past the last
/// production pick the last one.
pub open spec fn production_choice_spec(selected: int) -> int {
    if selected < PRODUCTION_OPTIONS - 1 {
        selected
    } else {
        PRODUCTION_OPTIONS - 1
    }
}

/// The short tree's productions, symbol by symbol. The first: a whole-length
/// trunk segment, a turn by (+1, +1) sixths of a half turn, a branch that
/// grows half a length, turns by (-1, 0) and leaves a half `Replace`, then a
/// turn by (-1, -1), a second branch (half `Replace`, turn (+1, -1), half
/// segment, half `Replace`), and a final half `Replace`. The second: a turn
/// by (0, -1), a half `Replace`, a branch (half segment, turn (-1, 0), half
/// `Replace`) and a final half `Replace`.
pub proof fn lemma_production_symbols()
    ensures
        short_tree_production_spec(0) == seq![
            TreeSymbol::Move(Scale::Whole),
            TreeSymbol::Rotate(Turn { pitch_sixths: 1i8, roll_sixths: 1i8 }),
            TreeSymbol::StartBranch,
            TreeSymbol::Move(Scale::Half),
            TreeSymbol::Rotate(Turn { pitch_sixths: -1i8, roll_sixths: 0i8 }),
            TreeSymbol::Replace(Scale::Half),
            TreeSymbol::EndBranch,
            TreeSymbol::Rotate(Turn { pitch_sixths: -1i8, roll_sixths: -1i8 }),
            TreeSymbol::StartBranch,
            TreeSymbol::Replace(Scale::Half),
            TreeSymbol::Rotate(Turn { pitch_sixths: 1i8, roll_sixths: -1i8 }),
            TreeSymbol::Move(Scale::Half),
            TreeSymbol::Replace(Scale::Half),
            TreeSymbol::EndBranch,
            TreeSymbol::Replace(Scale::Half),
        ],
        short_tree_production_spec(1) == seq![
            TreeSymbol::Rotate(Turn { pitch_sixths: 0i8, roll_sixths: -1i8 }),
            TreeSymbol::Replace(Scale::Half),
            TreeSymbol::StartBranch,
            TreeSymbol::Move(Scale::Half),
            TreeSymbol::Rotate(Turn { pitch_sixths: -1i8, roll_sixths: 0i8 }),
            TreeSymbol::Replace(Scale::Half),
            TreeSymbol::EndBranch,
            TreeSymbol::Replace(Scale::Half),
        ],
{
}

/// Splits the selection index of a rewrite into the two coordinates at which
/// the selection noise is sampled: quotient and remainder by
/// `SELECTION_RANGE_SPLIT`.
pub fn selection_sample_coords(idx: u32) -> (coords: (u32, u32))
    ensures
        coords.0 == idx / 65536,
        coords.1 == idx % 65536,
        coords.0 == idx / SELECTION_RANGE_SPLIT,
        coords.1 == idx % SELECTION_RANGE_SPLIT,
        coords.0 * SELECTION_RANGE_SPLIT + coords.1 == idx,
        coords.0 < SELECTION_RANGE_SPLIT,
        coords.1 < SELECTION_RANGE_SPLIT,
{
    (idx / SELECTION_RANGE_SPLIT, idx % SELECTION_RANGE_SPLIT)
}

/// The production picked by a selection value.
pub fn production_choice(selected: usize) -> (choice: usize)
    ensures
        choice == production_choice_spec(selected as int),
        choice < PRODUCTION_OPTIONS,
        selected < PRODUCTION_OPTIONS ==> choice == selected,
        selected >= PRODUCTION_OPTIONS ==> choice == PRODUCTION_OPTIONS - 1,
        selected == 0 ==> choice == 0,
        selected >= 1 ==> choice == 1,
{
    if selected < PRODUCTION_OPTIONS - 1 {
        selected
    } else {
        PRODUCTION_OPTIONS - 1
    }
}

/// The symbols a `Replace` is rewritten into for a selection value.
pub fn short_tree_production(selected: usize) -> (symbols: Vec<TreeSymbol>)
    ensures
        symbols@ == short_tree_production_spec(production_choice_spec(selected as int)),
        selected == 0 ==> symbols@ == seq![
            TreeSymbol::Move(Scale::Whole),
            TreeSymbol::Rotate(Turn { pitch_sixths: 1i8, roll_sixths: 1i8 }),
            TreeSymbol::StartBranch,
            TreeSymbol::Move(Scale::Half),
            TreeSymbol::Rotate(Turn { pitch_sixths: -1i8, roll_sixths: 0i8 }),
            TreeSymbol::Replace(Scale::Half),
            TreeSymbol::EndBranch,
            TreeSymbol::Rotate(Turn { pitch_sixths: -1i8, roll_sixths: -1i8 }),
            TreeSymbol::StartBranch,
            TreeSymbol::Replace(Scale::Half),
            TreeSymbol::Rotate(Turn { pitch_sixths: 1i8, roll_sixths: -1i8 }),
            TreeSymbol::Move(Scale::Half),
            TreeSymbol::Replace(Scale::Half),
            TreeSymbol::EndBranch,
            TreeSymbol::Replace(Scale::Half),
        ],
        selected >= 1 ==> symbols@ == seq![
            TreeSymbol::Rotate(Turn { pitch_sixths: 0i8, roll_sixths: -1i8 }),
            TreeSymbol::Replace(Scale::Half),
            TreeSymbol::StartBranch,
            TreeSymbol::Move(Scale::Half),
            TreeSymbol::Rotate(Turn { pitch_sixths: -1i8, roll_sixths: 0i8 }),
            TreeSymbol::Replace(Scale::Half),
            TreeSymbol::EndBranch,
            TreeSymbol::Replace(Scale::Half),
        ],
{
    proof {
        lemma_production_symbols();
    }
    let choice = production_choice(selected);
    let r1 = Turn { pitch_sixths: 1, roll_sixths: 1 };
    let r2 = Turn { pitch_sixths: 1, roll_sixths: -1 };
    let r3 = Turn { pitch_sixths: -1, roll_sixths: -1 };
    let r4 = Turn { pitch_sixths: -1, roll_sixths: 0 };
    let r5 = Turn { pitch_sixths: 0, roll_sixths: -1 };
    let forward = TreeSymbol::Move(Scale::Half);
    let replace = TreeSymbol::Replace(Scale::Half);
    let symbols = if choice == 0 {
        vec![
            TreeSymbol::Move(Scale::Whole),
            TreeSymbol::Rotate(r1),
            TreeSymbol::StartBranch,
            forward,
            TreeSymbol::Rotate(r4),
            replace,
            TreeSymbol::EndBranch,
            TreeSymbol::Rotate(r3),
            TreeSymbol::StartBranch,
            replace,
            TreeSymbol::Rotate(r2),
            forward,
            replace,
            TreeSymbol::EndBranch,
            replace,
        ]
    } else {
        vec![
            TreeSymbol::Rotate(r5),
            replace,
            TreeSymbol::StartBranch,
            forward,
            TreeSymbol::Rotate(r4),
            replace,
            TreeSymbol::EndBranch,
            replace,
        ]
    };
    assert(symbols@ =~= short_tree_production_spec(choice as int));
    symbols
}

/// The rewrite rule of the short tree: a `Replace` grows into the production
/// picked by `selected`; every other symbol stays as it is.
pub fn short_tree_rewrite(symbol: TurtleOp, selected: usize) -> (rewritten: Option<Vec<TreeSymbol>>)
    ensures
        match rewritten {
            Some(symbols) => symbol == TurtleOp::Replace && symbols@ == short_tree_production_spec(
                production_choice_spec(selected as int),
            ),
            None => symbol != TurtleOp::Replace,
        },
{
    match symbol {
        TurtleOp::Replace => Some(short_tree_production(selected)),
        _ => None,
    }
}

/// A block offset lies in the cube of side `2 * LEAF_SIZE + 1` centred on
/// the leaf centre.
pub open spec fn in_leaf_cube(p: (i32, i32, i32)) -> bool {
    &&& -LEAF_SIZE <= p.0 <= LEAF_SIZE
    &&& -LEAF_SIZE <= p.1 <= LEAF_SIZE
    &&& -LEAF_SIZE <= p.2 <= LEAF_SIZE
}

/// A block offset lies in the leaf ball: its squared length is below
/// `LEAF_SIZE * LEAF_SIZE + 1`.
pub open spec fn in_leaf_ball(p: (i32, i32, i32)) -> bool {
    p.0 * p.0 + p.1 * p.1 + p.2 * p.2 < LEAF_SIZE * LEAF_SIZE + 1
}

/// Strict lexicographic order on offsets: by x, then y, then z.
pub open spec fn offset_before(a: (i32, i32, i32), b: (i32, i32, i32)) -> bool {
    ||| a.0 < b.0
    ||| a.0 == b.0 && a.1 < b.1
    ||| a.0 == b.0 && a.1 == b.1 && a.2 < b.2
}

/// Position of an offset of the leaf cube in the order x, then y, then z.
pub open spec fn cube_rank(p: (i32, i32, i32)) -> int {
    (p.0 + LEAF_SIZE) * 25 + (p.1 + LEAF_SIZE) * 5 + (p.2 + LEAF_SIZE)
}

proof fn lemma_square_small(v: i32)
    requires
        -LEAF_SIZE <= v <= LEAF_SIZE,
    ensures
        0 <= v * v <= 4,
{
    assert(0 <= v * v <= 4) by (nonlinear_arith)
        requires
            -2 <= v <= 2,
    ;
}

proof fn lemma_square_values(v: i32)
    requires
        -2 <= v <= 2,
    ensures
        v * v == (if v == 0 { 0int } else if v == 1 || v == -1 { 1int } else { 4int }),
{
    assert(v * v == (if v == 0 { 0int } else if v == 1 || v == -1 { 1int } else { 4int })) by (nonlinear_arith)
        requires
            -2 <= v <= 2,
    ;
}

/// The shape of the leaf ball: an offset of the leaf cube is in the ball
/// exactly when it lies in the inner 3x3x3 cube, or it lies on an axis at
/// distance 2 from the centre (the six tips).
pub proof fn lemma_leaf_ball_shape(p: (i32, i32, i32))
    requires
        in_leaf_cube(p),
    ensures
        in_leaf_ball(p) <==> ({
            ||| (-1 <= p.0 <= 1 && -1 <= p.1 <= 1 && -1 <= p.2 <= 1)
            ||| ((p.0 == 2 || p.0 == -2) && p.1 == 0 && p.2 == 0)
            ||| (p.0 == 0 && (p.1 == 2 || p.1 == -2) && p.2 == 0)
            ||| (p.0 == 0 && p.1 == 0 && (p.2 == 2 || p.2 == -2))
        }),
{
    lemma_square_values(p.0);
    lemma_square_values(p.1);
    lemma_square_values(p.2);
}

/// The offsets at which leaves are placed around a leaf centre: every offset
/// of the cube `[-LEAF_SIZE, LEAF_SIZE]^3` whose squared length is below
/// `LEAF_SIZE * LEAF_SIZE + 1`, each once, in the order x, then y, then z.
pub fn leaf_offsets() -> (offsets: Vec<(i32, i32, i32)>)
    ensures
        forall|k: int| 0 <= k < offsets.len() ==> in_leaf_cube(#[trigger] offsets[k]) && in_leaf_ball(offsets[k]),
        forall|i: int, j: int| 0 <= i < j < offsets.len() ==> offset_before(#[trigger] offsets[i], #[trigger] offsets[j]),
        forall|p: (i32, i32, i32)| in_leaf_cube(p) && in_leaf_ball(p) ==> offsets@.contains(p),
{
    let mut offsets: Vec<(i32, i32, i32)> = Vec::new();
    let mut x: i32 = -LEAF_SIZE;
    while x < LEAF_SIZE + 1
        invariant
            -LEAF_SIZE <= x <= LEAF_SIZE + 1,
            forall|k: int| 0 <= k < offsets.len() ==> in_leaf_cube(#[trigger] offsets[k]) && in_leaf_ball(offsets[k])
                && cube_rank(offsets[k]) < (x + LEAF_SIZE) * 25,
            forall|i: int, j: int| 0 <= i < j < offsets.len() ==> cube_rank(#[trigger] offsets[i]) < cube_rank(#[trigger] offsets[j]),
            forall|p: (i32, i32, i32)| in_leaf_cube(p) && in_leaf_ball(p) && cube_rank(p) < (x + LEAF_SIZE) * 25
                ==> offsets@.contains(p),
        decreases LEAF_SIZE + 1 - x,
    {
        let mut y: i32 = -LEAF_SIZE;
        while y < LEAF_SIZE + 1
            invariant
                -LEAF_SIZE <= x <= LEAF_SIZE,
                -LEAF_SIZE <= y <= LEAF_SIZE + 1,
                forall|k: int| 0 <= k < offsets.len() ==> in_leaf_cube(#[trigger] offsets[k]) && in_leaf_ball(offsets[k])
                    && cube_rank(offsets[k]) < (x + LEAF_SIZE) * 25 + (y + LEAF_SIZE) * 5,
                forall|i: int, j: int| 0 <= i < j < offsets.len() ==> cube_rank(#[trigger] offsets[i]) < cube_rank(#[trigger] offsets[j]),
                forall|p: (i32, i32, i32)| in_leaf_cube(p) && in_leaf_ball(p) && cube_rank(p) < (x + LEAF_SIZE) * 25 + (y + LEAF_SIZE) * 5
                    ==> offsets@.contains(p),
            decreases LEAF_SIZE + 1 - y,
        {
            let mut z: i32 = -LEAF_SIZE;
            while z < LEAF_SIZE + 1
                invariant
                    -LEAF_SIZE <= x <= LEAF_SIZE,
                    -LEAF_SIZE <= y <= LEAF_SIZE,
                    -LEAF_SIZE <= z <= LEAF_SIZE + 1,
                    forall|k: int| 0 <= k < offsets.len() ==> in_leaf_cube(#[trigger] offsets[k]) && in_leaf_ball(offsets[k])
                        && cube_rank(offsets[k]) < (x + LEAF_SIZE) * 25 + (y + LEAF_SIZE) * 5 + (z + LEAF_SIZE),
                    forall|i: int, j: int| 0 <= i < j < offsets.len() ==> cube_rank(#[trigger] offsets[i]) < cube_rank(#[trigger] offsets[j]),
                    forall|p: (i32, i32, i32)| in_leaf_cube(p) && in_leaf_ball(p)
                        && cube_rank(p) < (x + LEAF_SIZE) * 25 + (y + LEAF_SIZE) * 5 + (z + LEAF_SIZE)
                        ==> offsets@.contains(p),
                decreases LEAF_SIZE + 1 - z,
            {
                proof {
                    lemma_square_small(x);
                    lemma_square_small(y);
                    lemma_square_small(z);
                }
                if x * x + y * y + z * z < LEAF_SIZE * LEAF_SIZE + 1 {
                    let ghost before = offsets@;
                    offsets.push((x, y, z));
                    proof {
                        assert(offsets@[before.len() as int] == (x, y, z));
                        assert forall|p: (i32, i32, i32)| before.contains(p) implies offsets@.contains(p) by {
                            let k = choose|k: int| 0 <= k < before.len() && before[k] == p;
                            assert(offsets@[k] == p);
                        }
                    }
                }
                z = z + 1;
            }
            y = y + 1;
        }
        x = x + 1;
    }
    proof {
        assert forall|i: int, j: int| 0 <= i < j < offsets.len() implies offset_before(#[trigger] offsets[i], #[trigger] offsets[j]) by {
            assert(cube_rank(offsets[i]) < cube_rank(offsets[j]));
        }
    }
    offsets
}

/// Block `p` is one of the leaves placed around `center`: its offset from
/// the centre lies in the leaf cube and the leaf ball.
pub open spec fn is_leaf_block(center: (i32, i32, i32), p: (i32, i32, i32)) -> bool {
    let dx = p.0 - center.0;
    let dy = p.1 - center.1;
    let dz = p.2 - center.2;
    &&& -LEAF_SIZE <= dx <= LEAF_SIZE
    &&& -LEAF_SIZE <= dy <= LEAF_SIZE
    &&& -LEAF_SIZE <= dz <= LEAF_SIZE
    &&& dx * dx + dy * dy + dz * dz < LEAF_SIZE * LEAF_SIZE + 1
}

/// The blocks at which leaves are placed around a leaf centre: the centre
/// moved by each of the leaf offsets, in their order.
pub fn leaf_positions(center: (i32, i32, i32)) -> (positions: Vec<(i32, i32, i32)>)
    requires
        i32::MIN + LEAF_SIZE <= center.0 <= i32::MAX - LEAF_SIZE,
        i32::MIN + LEAF_SIZE <= center.1 <= i32::MAX - LEAF_SIZE,
        i32::MIN + LEAF_SIZE <= center.2 <= i32::MAX - LEAF_SIZE,
    ensures
        forall|p: (i32, i32, i32)| positions@.contains(p) <==> is_leaf_block(center, p),
        forall|i: int, j: int| 0 <= i < j < positions.len() ==> offset_before(#[trigger] positions[i], #[trigger] positions[j]),
{
    let offsets = leaf_offsets();
    let mut positions: Vec<(i32, i32, i32)> = Vec::new();
    let mut k: usize = 0;
    while k < offsets.len()
        invariant
            k <= offsets.len(),
            positions.len() == k,
            i32::MIN + LEAF_SIZE <= center.0 <= i32::MAX - LEAF_SIZE,
            i32::MIN + LEAF_SIZE <= center.1 <= i32::MAX - LEAF_SIZE,
            i32::MIN + LEAF_SIZE <= center.2 <= i32::MAX - LEAF_SIZE,
            forall|q: int| 0 <= q < offsets.len() ==> in_leaf_cube(#[trigger] offsets[q]) && in_leaf_ball(offsets[q]),
            forall|q: int| 0 <= q < k ==> #[trigger] positions[q] == (
                (center.0 + offsets[q].0) as i32,
                (center.1 + offsets[q].1) as i32,
                (center.2 + offsets[q].2) as i32,
            ),
        decreases offsets.len() - k,
    {
        let d = offsets[k];
        positions.push((center.0 + d.0, center.1 + d.1, center.2 + d.2));
        k = k + 1;
    }
    proof {
        assert forall|p: (i32, i32, i32)| positions@.contains(p) <==> is_leaf_block(center, p) by {
            if positions@.contains(p) {
                let q = choose|q: int| 0 <= q < positions.len() && positions@[q] == p;
                assert(positions[q] == p);
                assert(in_leaf_cube(offsets[q]) && in_leaf_ball(offsets[q]));
            }
            if is_leaf_block(center, p) {
                let d = ((p.0 - center.0) as i32, (p.1 - center.1) as i32, (p.2 - center.2) as i32);
                assert(in_leaf_cube(d) && in_leaf_ball(d));
                assert(offsets@.contains(d));
                let q = choose|q: int| 0 <= q < offsets.len() && offsets@[q] == d;
                assert(positions[q] == p);
            }
        }
        assert forall|i: int, j: int| 0 <= i < j < positions.len() implies offset_before(#[trigger] positions[i], #[trigger] positions[j]) by {
            assert(offset_before(offsets[i], offsets[j]));
        }
    }
    positions
}

/// Whether a tree may grow at height `y` of a block column: the block there
/// is the block trees grow on, and every block above it in the column is
/// empty. Blocks are given by their keys; `empty` is the key of no block.
pub fn is_tree_site(column: &Vec<u32>, y: usize, spawnable: u32, empty: u32) -> (suitable: bool)
    requires
        y < column.len(),
    ensures
        suitable == (column[y as int] == spawnable && forall|j: int| y < j < column.len() ==> column[j] == empty),
{
    if column[y] != spawnable {
        return false;
    }
    let mut above: usize = y + 1;
    while above < column.len()
        invariant
            y < above <= column.len(),
            forall|j: int| y < j < above ==> column[j] == empty,
        decreases column.len() - above,
    {
        if column[above] != empty {
            return false;
        }
        above = above + 1;
    }
    true
}

/// Every production of the short tree is balanced: it closes each branch it
/// opens, and never one it did not open. A tree grown from balanced symbols
/// therefore never sends the turtle back to a head that was not saved.
pub proof fn lemma_productions_balanced(choice: int)
    ensures
        balanced(short_tree_production_spec(choice).map_values(|s: TreeSymbol| symbol_op(s))),
{
    let ops = short_tree_production_spec(choice).map_values(|s: TreeSymbol| symbol_op(s));
    if choice == 0 {
        assert(ops =~= seq![TurtleOp::Move, TurtleOp::Rotate, TurtleOp::StartBranch, TurtleOp::Move, TurtleOp::Rotate, TurtleOp::Replace, TurtleOp::EndBranch, TurtleOp::Rotate, TurtleOp::StartBranch, TurtleOp::Replace, TurtleOp::Rotate, TurtleOp::Move, TurtleOp::Replace, TurtleOp::EndBranch, TurtleOp::Replace]);
        assert(bracket_depth(ops, 0) == 0);
        assert(bracket_depth(ops, 1) == 0);
        assert(bracket_depth(ops, 2) == 0);
        assert(bracket_depth(ops, 3) == 1);
        assert(bracket_depth(ops, 4) == 1);
        assert(bracket_depth(ops, 5) == 1);
        assert(bracket_depth(ops, 6) == 1);
        assert(bracket_depth(ops, 7) == 0);
        assert(bracket_depth(ops, 8) == 0);
        assert(bracket_depth(ops, 9) == 1);
        assert(bracket_depth(ops, 10) == 1);
        assert(bracket_depth(ops, 11) == 1);
        assert(bracket_depth(ops, 12) == 1);
        assert(bracket_depth(ops, 13) == 1);
        assert(bracket_depth(ops, 14) == 0);
        assert(bracket_depth(ops, 15) == 0);
        assert forall|k: nat| k <= ops.len() implies #[trigger] bracket_depth(ops, k) >= 0 by {
            assert(k == 0 || k == 1 || k == 2 || k == 3 || k == 4 || k == 5 || k == 6 || k == 7 || k == 8 || k == 9 || k == 10 || k == 11 || k == 12 || k == 13 || k == 14 || k == 15);
        }
    } else {
        assert(ops =~= seq![TurtleOp::Rotate, TurtleOp::Replace, TurtleOp::StartBranch, TurtleOp::Move, TurtleOp::Rotate, TurtleOp::Replace, TurtleOp::EndBranch, TurtleOp::Replace]);
        assert(bracket_depth(ops, 0) == 0);
        assert(bracket_depth(ops, 1) == 0);
        assert(bracket_depth(ops, 2) == 0);
        assert(bracket_depth(ops, 3) == 1);
        assert(bracket_depth(ops, 4) == 1);
        assert(bracket_depth(ops, 5) == 1);
        assert(bracket_depth(ops, 6) == 1);
        assert(bracket_depth(ops, 7) == 0);
        assert(bracket_depth(ops, 8) == 0);
        assert forall|k: nat| k <= ops.len() implies #[trigger] bracket_depth(ops, k) >= 0 by {
            assert(k == 0 || k == 1 || k == 2 || k == 3 || k == 4 || k == 5 || k == 6 || k == 7 || k == 8);
        }
    }
}

/// The turtle instructions of a production of the short tree.
pub open spec fn production_ops(choice: int) -> Seq<TurtleOp> {
    short_tree_production_spec(choice).map_values(|s: TreeSymbol| symbol_op(s))
}

/// The turtle instructions of the short tree's starting sentence: turn the
/// head upright, grow the trunk, and leave a `Replace` to rewrite.
pub open spec fn short_tree_start() -> Seq<TurtleOp> {
    seq![TurtleOp::Rotate, TurtleOp::Move, TurtleOp::Replace]
}

/// `ops` after `rounds` rounds of rewriting every `Replace` into a
/// production; `choices(round, i)` is the production picked for the
/// `Replace` at index `i` in that round.
pub open spec fn grow_short_tree(ops: Seq<TurtleOp>, rounds: nat, choices: spec_fn(nat, int) -> int) -> Seq<TurtleOp>
    decreases rounds,
{
    if rounds == 0 {
        ops
    } else {
        grow_short_tree(
            rewrite_replaces(ops, |i: int| production_ops(choices(rounds, i))),
            (rounds - 1) as nat,
            choices,
        )
    }
}

proof fn lemma_grow_keeps_balance(ops: Seq<TurtleOp>, rounds: nat, choices: spec_fn(nat, int) -> int)
    requires
        balanced(ops),
    ensures
        balanced(grow_short_tree(ops, rounds, choices)),
    decreases rounds,
{
    if rounds > 0 {
        let rewrites = |i: int| production_ops(choices(rounds, i));
        assert forall|i: int| 0 <= i < ops.len() && ops[i] == TurtleOp::Replace implies #[trigger] balanced(
            rewrites(i),
        ) by {
            lemma_productions_balanced(choices(rounds, i));
        }
        lemma_rewrite_keeps_balance(ops, rewrites);
        lemma_grow_keeps_balance(rewrite_replaces(ops, rewrites), (rounds - 1) as nat, choices);
    }
}

/// However many rounds a short tree is grown, and whichever productions are
/// picked, the turtle that draws it never meets an `EndBranch` without a
/// saved head to return to.
pub proof fn lemma_short_tree_never_mismatches(rounds: nat, choices: spec_fn(nat, int) -> int, i: int)
    requires
        0 <= i < grow_short_tree(short_tree_start(), rounds, choices).len(),
    ensures
        ({
            let grown = grow_short_tree(short_tree_start(), rounds, choices);
            !(grown[i] == TurtleOp::EndBranch && turtle_state(grown, i as nat).1.len() == 0)
        }),
{
    let start = short_tree_start();
    assert(bracket_depth(start, 0) == 0);
    assert(bracket_depth(start, 1) == 0);
    assert(bracket_depth(start, 2) == 0);
    assert(bracket_depth(start, 3) == 0);
    assert forall|k: nat| k <= start.len() implies #[trigger] bracket_depth(start, k) >= 0 by {
        assert(k == 0 || k == 1 || k == 2 || k == 3);
    }
    lemma_grow_keeps_balance(start, rounds, choices);
    lemma_no_unmatched_end(grow_short_tree(start, rounds, choices), i);
}

} // verus!
