//! Global behavior of the simulation, stated and proved once and for all:
//! the transition creates nothing out of emptiness, the placement guard makes
//! re-seeding harmless, a block is a still life, a beacon oscillates with
//! period two, and a glider crosses one diagonal cell every four generations.
//!
//! Each proof is stated against the step relation that `Grid::advance`
//! ensures — `after.cell(i, j) == (before.in_bounds(i, j) &&
//! before.next_cell(i, j))` — so it applies verbatim to any chain of
//! `advance` calls.

use crate::grid::Grid;
use crate::patterns::placed;
use crate::patterns::seeded;
use crate::patterns::spec_offsets;
use crate::patterns::Organism;
use vstd::prelude::*;

verus! {

/// One transition step never brings a dead board to life: if every cell of
/// `before` is dead, every cell after `advance` is dead too.
pub proof fn lemma_no_spontaneous_generation(before: Grid, after: Grid)
    requires
        before.wf(),
        after.wf(),
        after.spec_width() == before.spec_width(),
        after.spec_height() == before.spec_height(),
        forall|i: int, j: int| !(#[trigger] before.cell(i, j)),
        forall|i: int, j: int|
            #[trigger] after.cell(i, j) == (before.in_bounds(i, j) && before.next_cell(i, j)),
    ensures
        forall|i: int, j: int| !(#[trigger] after.cell(i, j)),
{
    assert forall|i: int, j: int| !(#[trigger] after.cell(i, j)) by {
        assert(!before.cell(i - 1, j - 1));
        assert(!before.cell(i, j - 1));
        assert(!before.cell(i + 1, j - 1));
        assert(!before.cell(i - 1, j));
        assert(!before.cell(i + 1, j));
        assert(!before.cell(i - 1, j + 1));
        assert(!before.cell(i, j + 1));
        assert(!before.cell(i + 1, j + 1));
        assert(!before.cell(i, j));
    }
}

/// Seeding an already-seeded board changes nothing: applying the effect of
/// `initialize_pattern` at generation zero a second time leaves every cell as
/// the first application left it.
pub proof fn lemma_initialize_pattern_idempotent(g0: Grid, g1: Grid, g2: Grid)
    requires
        g0.wf(),
        g1.wf(),
        g2.wf(),
        g1.spec_width() == g0.spec_width(),
        g1.spec_height() == g0.spec_height(),
        g2.spec_width() == g1.spec_width(),
        g2.spec_height() == g1.spec_height(),
        forall|i: int, j: int|
            #[trigger] g1.cell(i, j) == (g0.cell(i, j) || (g0.in_bounds(i, j) && seeded(
                g0.spec_width(),
                g0.spec_height(),
                i,
                j,
            ))),
        forall|i: int, j: int|
            #[trigger] g2.cell(i, j) == (g1.cell(i, j) || (g1.in_bounds(i, j) && seeded(
                g0.spec_width(),
                g0.spec_height(),
                i,
                j,
            ))),
    ensures
        forall|i: int, j: int| #[trigger] g2.cell(i, j) == g1.cell(i, j),
{
}

/// The four cells of a block anchored at (x, y), written out.
pub open spec fn block_cells(x: int, y: int, i: int, j: int) -> bool {
    (i == x || i == x + 1) && (j == y || j == y + 1)
}

/// The catalog's block offsets are exactly `block_cells`.
proof fn lemma_block_placed(x: int, y: int)
    ensures
        forall|i: int, j: int|
            #[trigger] placed(Organism::Block, x, y, i, j) == block_cells(x, y, i, j),
{
    let offs = spec_offsets(Organism::Block);
    assert(offs.len() == 4);
    assert(offs[0] == (0i32, 0i32));
    assert(offs[1] == (1i32, 0i32));
    assert(offs[2] == (0i32, 1i32));
    assert(offs[3] == (1i32, 1i32));
    assert forall|i: int, j: int|
        #[trigger] placed(Organism::Block, x, y, i, j) == block_cells(x, y, i, j) by {
        if placed(Organism::Block, x, y, i, j) {
            let k = choose|k: int|
                0 <= k < spec_offsets(Organism::Block).len() && i == x + spec_offsets(
                    Organism::Block,
                )[k].0 && j == y + spec_offsets(Organism::Block)[k].1;
            assert(block_cells(x, y, i, j));
        }
        if block_cells(x, y, i, j) {
            if i == x && j == y {
                assert(i == x + spec_offsets(Organism::Block)[0].0 && j == y + spec_offsets(
                    Organism::Block,
                )[0].1);
            } else if i == x + 1 && j == y {
                assert(i == x + spec_offsets(Organism::Block)[1].0 && j == y + spec_offsets(
                    Organism::Block,
                )[1].1);
            } else if i == x && j == y + 1 {
                assert(i == x + spec_offsets(Organism::Block)[2].0 && j == y + spec_offsets(
                    Organism::Block,
                )[2].1);
            } else {
                assert(i == x + spec_offsets(Organism::Block)[3].0 && j == y + spec_offsets(
                    Organism::Block,
                )[3].1);
            }
            assert(placed(Organism::Block, x, y, i, j));
        }
    }
}

/// A lone block is a still life: on a board whose live cells are exactly a
/// block placed wholly inside the bounds, one transition step reproduces the
/// board cell for cell — and therefore so does every later step.
#[verifier::rlimit(80)]
pub proof fn lemma_block_stable(before: Grid, after: Grid, x: int, y: int)
    requires
        before.wf(),
        after.wf(),
        after.spec_width() == before.spec_width(),
        after.spec_height() == before.spec_height(),
        0 <= x,
        0 <= y,
        x + 1 < before.spec_width(),
        y + 1 < before.spec_height(),
        forall|i: int, j: int|
            #[trigger] before.cell(i, j) == placed(Organism::Block, x, y, i, j),
        forall|i: int, j: int|
            #[trigger] after.cell(i, j) == (before.in_bounds(i, j) && before.next_cell(i, j)),
    ensures
        forall|i: int, j: int| #[trigger] after.cell(i, j) == before.cell(i, j),
{
    lemma_block_placed(x, y);
    assert forall|i: int, j: int| #[trigger] after.cell(i, j) == before.cell(i, j) by {
        assert(before.cell(i - 1, j - 1) == block_cells(x, y, i - 1, j - 1));
        assert(before.cell(i, j - 1) == block_cells(x, y, i, j - 1));
        assert(before.cell(i + 1, j - 1) == block_cells(x, y, i + 1, j - 1));
        assert(before.cell(i - 1, j) == block_cells(x, y, i - 1, j));
        assert(before.cell(i + 1, j) == block_cells(x, y, i + 1, j));
        assert(before.cell(i - 1, j + 1) == block_cells(x, y, i - 1, j + 1));
        assert(before.cell(i, j + 1) == block_cells(x, y, i, j + 1));
        assert(before.cell(i + 1, j + 1) == block_cells(x, y, i + 1, j + 1));
        assert(before.cell(i, j) == block_cells(x, y, i, j));
        assert(after.cell(i, j) == (before.in_bounds(i, j) && before.next_cell(i, j)));
    }
}

/// The eight cells of a beacon anchored at (x, y), written out.
pub open spec fn beacon_cells(x: int, y: int, i: int, j: int) -> bool {
    ||| (i == x && j == y)
    ||| (i == x + 1 && j == y)
    ||| (i == x && j == y + 1)
    ||| (i == x + 1 && j == y + 1)
    ||| (i == x + 2 && j == y + 2)
    ||| (i == x + 3 && j == y + 2)
    ||| (i == x + 2 && j == y + 3)
    ||| (i == x + 3 && j == y + 3)
}

/// The beacon's other phase: the two touching corner cells have died.
spec fn beacon_open_cells(x: int, y: int, i: int, j: int) -> bool {
    ||| (i == x && j == y)
    ||| (i == x + 1 && j == y)
    ||| (i == x && j == y + 1)
    ||| (i == x + 3 && j == y + 2)
    ||| (i == x + 2 && j == y + 3)
    ||| (i == x + 3 && j == y + 3)
}

/// The catalog's beacon offsets are exactly `beacon_cells`.
proof fn lemma_beacon_placed(x: int, y: int)
    ensures
        forall|i: int, j: int|
            #[trigger] placed(Organism::Beacon, x, y, i, j) == beacon_cells(x, y, i, j),
{
    let offs = spec_offsets(Organism::Beacon);
    assert(offs.len() == 8);
    assert(offs[0] == (0i32, 0i32));
    assert(offs[1] == (1i32, 0i32));
    assert(offs[2] == (0i32, 1i32));
    assert(offs[3] == (1i32, 1i32));
    assert(offs[4] == (2i32, 2i32));
    assert(offs[5] == (3i32, 2i32));
    assert(offs[6] == (2i32, 3i32));
    assert(offs[7] == (3i32, 3i32));
    assert forall|i: int, j: int|
        #[trigger] placed(Organism::Beacon, x, y, i, j) == beacon_cells(x, y, i, j) by {
        if placed(Organism::Beacon, x, y, i, j) {
            let k = choose|k: int|
                0 <= k < spec_offsets(Organism::Beacon).len() && i == x + spec_offsets(
                    Organism::Beacon,
                )[k].0 && j == y + spec_offsets(Organism::Beacon)[k].1;
            assert(beacon_cells(x, y, i, j));
        }
        if beacon_cells(x, y, i, j) {
            if i == x && j == y {
                assert(i == x + offs[0].0 && j == y + offs[0].1);
            } else if i == x + 1 && j == y {
                assert(i == x + offs[1].0 && j == y + offs[1].1);
            } else if i == x && j == y + 1 {
                assert(i == x + offs[2].0 && j == y + offs[2].1);
            } else if i == x + 1 && j == y + 1 {
                assert(i == x + offs[3].0 && j == y + offs[3].1);
            } else if i == x + 2 && j == y + 2 {
                assert(i == x + offs[4].0 && j == y + offs[4].1);
            } else if i == x + 3 && j == y + 2 {
                assert(i == x + offs[5].0 && j == y + offs[5].1);
            } else if i == x + 2 && j == y + 3 {
                assert(i == x + offs[6].0 && j == y + offs[6].1);
            } else {
                assert(i == x + offs[7].0 && j == y + offs[7].1);
            }
            assert(placed(Organism::Beacon, x, y, i, j));
        }
    }
}

/// One step takes the full beacon to its open phase.
#[verifier::rlimit(80)]
proof fn lemma_beacon_step_opens(before: Grid, after: Grid, x: int, y: int)
    requires
        before.wf(),
        after.wf(),
        after.spec_width() == before.spec_width(),
        after.spec_height() == before.spec_height(),
        0 <= x,
        0 <= y,
        x + 3 < before.spec_width(),
        y + 3 < before.spec_height(),
        forall|i: int, j: int| #[trigger] before.cell(i, j) == beacon_cells(x, y, i, j),
        forall|i: int, j: int|
            #[trigger] after.cell(i, j) == (before.in_bounds(i, j) && before.next_cell(i, j)),
    ensures
        forall|i: int, j: int| #[trigger] after.cell(i, j) == beacon_open_cells(x, y, i, j),
{
    assert forall|i: int, j: int| #[trigger] after.cell(i, j) == beacon_open_cells(x, y, i, j) by {
        assert(before.cell(i - 1, j - 1) == beacon_cells(x, y, i - 1, j - 1));
        assert(before.cell(i, j - 1) == beacon_cells(x, y, i, j - 1));
        assert(before.cell(i + 1, j - 1) == beacon_cells(x, y, i + 1, j - 1));
        assert(before.cell(i - 1, j) == beacon_cells(x, y, i - 1, j));
        assert(before.cell(i + 1, j) == beacon_cells(x, y, i + 1, j));
        assert(before.cell(i - 1, j + 1) == beacon_cells(x, y, i - 1, j + 1));
        assert(before.cell(i, j + 1) == beacon_cells(x, y, i, j + 1));
        assert(before.cell(i + 1, j + 1) == beacon_cells(x, y, i + 1, j + 1));
        assert(before.cell(i, j) == beacon_cells(x, y, i, j));
        assert(after.cell(i, j) == (before.in_bounds(i, j) && before.next_cell(i, j)));
    }
}

/// One step takes the open phase back to the full beacon.
#[verifier::rlimit(80)]
proof fn lemma_beacon_step_closes(before: Grid, after: Grid, x: int, y: int)
    requires
        before.wf(),
        after.wf(),
        after.spec_width() == before.spec_width(),
        after.spec_height() == before.spec_height(),
        0 <= x,
        0 <= y,
        x + 3 < before.spec_width(),
        y + 3 < before.spec_height(),
        forall|i: int, j: int| #[trigger] before.cell(i, j) == beacon_open_cells(x, y, i, j),
        forall|i: int, j: int|
            #[trigger] after.cell(i, j) == (before.in_bounds(i, j) && before.next_cell(i, j)),
    ensures
        forall|i: int, j: int| #[trigger] after.cell(i, j) == beacon_cells(x, y, i, j),
{
    assert forall|i: int, j: int| #[trigger] after.cell(i, j) == beacon_cells(x, y, i, j) by {
        assert(before.cell(i - 1, j - 1) == beacon_open_cells(x, y, i - 1, j - 1));
        assert(before.cell(i, j - 1) == beacon_open_cells(x, y, i, j - 1));
        assert(before.cell(i + 1, j - 1) == beacon_open_cells(x, y, i + 1, j - 1));
        assert(before.cell(i - 1, j) == beacon_open_cells(x, y, i - 1, j));
        assert(before.cell(i + 1, j) == beacon_open_cells(x, y, i + 1, j));
        assert(before.cell(i - 1, j + 1) == beacon_open_cells(x, y, i - 1, j + 1));
        assert(before.cell(i, j + 1) == beacon_open_cells(x, y, i, j + 1));
        assert(before.cell(i + 1, j + 1) == beacon_open_cells(x, y, i + 1, j + 1));
        assert(before.cell(i, j) == beacon_open_cells(x, y, i, j));
        assert(after.cell(i, j) == (before.in_bounds(i, j) && before.next_cell(i, j)));
    }
}

/// A lone beacon placed with full clearance inside the bounds oscillates with
/// period two: two transition steps reproduce the starting board cell for
/// cell.
pub proof fn lemma_beacon_period_two(g0: Grid, g1: Grid, g2: Grid, x: int, y: int)
    requires
        g0.wf(),
        g1.wf(),
        g2.wf(),
        g1.spec_width() == g0.spec_width(),
        g1.spec_height() == g0.spec_height(),
        g2.spec_width() == g0.spec_width(),
        g2.spec_height() == g0.spec_height(),
        0 <= x,
        0 <= y,
        x + 3 < g0.spec_width(),
        y + 3 < g0.spec_height(),
        forall|i: int, j: int| #[trigger] g0.cell(i, j) == placed(Organism::Beacon, x, y, i, j),
        forall|i: int, j: int|
            #[trigger] g1.cell(i, j) == (g0.in_bounds(i, j) && g0.next_cell(i, j)),
        forall|i: int, j: int|
            #[trigger] g2.cell(i, j) == (g1.in_bounds(i, j) && g1.next_cell(i, j)),
    ensures
        forall|i: int, j: int| #[trigger] g2.cell(i, j) == g0.cell(i, j),
{
    lemma_beacon_placed(x, y);
    assert forall|i: int, j: int| #[trigger] g0.cell(i, j) == beacon_cells(x, y, i, j) by {}
    lemma_beacon_step_opens(g0, g1, x, y);
    lemma_beacon_step_closes(g1, g2, x, y);
}

/// The five cells of a glider anchored at (x, y), written out.
pub open spec fn glider_cells(x: int, y: int, i: int, j: int) -> bool {
    ||| (i == x + 1 && j == y)
    ||| (i == x + 2 && j == y + 1)
    ||| (i == x && j == y + 2)
    ||| (i == x + 1 && j == y + 2)
    ||| (i == x + 2 && j == y + 2)
}

/// The glider one step in.
spec fn glider_phase1(x: int, y: int, i: int, j: int) -> bool {
    ||| (i == x && j == y + 1)
    ||| (i == x + 2 && j == y + 1)
    ||| (i == x + 1 && j == y + 2)
    ||| (i == x + 2 && j == y + 2)
    ||| (i == x + 1 && j == y + 3)
}

/// The glider two steps in.
spec fn glider_phase2(x: int, y: int, i: int, j: int) -> bool {
    ||| (i == x + 2 && j == y + 1)
    ||| (i == x && j == y + 2)
    ||| (i == x + 2 && j == y + 2)
    ||| (i == x + 1 && j == y + 3)
    ||| (i == x + 2 && j == y + 3)
}

/// The glider three steps in.
spec fn glider_phase3(x: int, y: int, i: int, j: int) -> bool {
    ||| (i == x + 1 && j == y + 1)
    ||| (i == x + 2 && j == y + 2)
    ||| (i == x + 3 && j == y + 2)
    ||| (i == x + 1 && j == y + 3)
    ||| (i == x + 2 && j == y + 3)
}

/// The catalog's glider offsets are exactly `glider_cells`.
proof fn lemma_glider_placed(x: int, y: int)
    ensures
        forall|i: int, j: int|
            #[trigger] placed(Organism::Glider, x, y, i, j) == glider_cells(x, y, i, j),
{
    let offs = spec_offsets(Organism::Glider);
    assert(offs.len() == 5);
    assert(offs[0] == (1i32, 0i32));
    assert(offs[1] == (2i32, 1i32));
    assert(offs[2] == (0i32, 2i32));
    assert(offs[3] == (1i32, 2i32));
    assert(offs[4] == (2i32, 2i32));
    assert forall|i: int, j: int|
        #[trigger] placed(Organism::Glider, x, y, i, j) == glider_cells(x, y, i, j) by {
        if placed(Organism::Glider, x, y, i, j) {
            let k = choose|k: int|
                0 <= k < spec_offsets(Organism::Glider).len() && i == x + spec_offsets(
                    Organism::Glider,
                )[k].0 && j == y + spec_offsets(Organism::Glider)[k].1;
            assert(glider_cells(x, y, i, j));
        }
        if glider_cells(x, y, i, j) {
            if i == x + 1 && j == y {
                assert(i == x + offs[0].0 && j == y + offs[0].1);
            } else if i == x + 2 && j == y + 1 {
                assert(i == x + offs[1].0 && j == y + offs[1].1);
            } else if i == x && j == y + 2 {
                assert(i == x + offs[2].0 && j == y + offs[2].1);
            } else if i == x + 1 && j == y + 2 {
                assert(i == x + offs[3].0 && j == y + offs[3].1);
            } else {
                assert(i == x + offs[4].0 && j == y + offs[4].1);
            }
            assert(placed(Organism::Glider, x, y, i, j));
        }
    }
}

/// One step of the glider: from its starting shape to phase one.
#[verifier::rlimit(80)]
proof fn lemma_glider_step_one(before: Grid, after: Grid, x: int, y: int)
    requires
        before.wf(),
        after.wf(),
        after.spec_width() == before.spec_width(),
        after.spec_height() == before.spec_height(),
        0 <= x,
        0 <= y,
        x + 3 < before.spec_width(),
        y + 3 < before.spec_height(),
        forall|i: int, j: int| #[trigger] before.cell(i, j) == glider_cells(x, y, i, j),
        forall|i: int, j: int|
            #[trigger] after.cell(i, j) == (before.in_bounds(i, j) && before.next_cell(i, j)),
    ensures
        forall|i: int, j: int| #[trigger] after.cell(i, j) == glider_phase1(x, y, i, j),
{
    assert forall|i: int, j: int| #[trigger] after.cell(i, j) == glider_phase1(x, y, i, j) by {
        assert(before.cell(i - 1, j - 1) == glider_cells(x, y, i - 1, j - 1));
        assert(before.cell(i, j - 1) == glider_cells(x, y, i, j - 1));
        assert(before.cell(i + 1, j - 1) == glider_cells(x, y, i + 1, j - 1));
        assert(before.cell(i - 1, j) == glider_cells(x, y, i - 1, j));
        assert(before.cell(i + 1, j) == glider_cells(x, y, i + 1, j));
        assert(before.cell(i - 1, j + 1) == glider_cells(x, y, i - 1, j + 1));
        assert(before.cell(i, j + 1) == glider_cells(x, y, i, j + 1));
        assert(before.cell(i + 1, j + 1) == glider_cells(x, y, i + 1, j + 1));
        assert(before.cell(i, j) == glider_cells(x, y, i, j));
        assert(after.cell(i, j) == (before.in_bounds(i, j) && before.next_cell(i, j)));
    }
}

/// Second step: from phase one to phase two.
#[verifier::rlimit(80)]
proof fn lemma_glider_step_two(before: Grid, after: Grid, x: int, y: int)
    requires
        before.wf(),
        after.wf(),
        after.spec_width() == before.spec_width(),
        after.spec_height() == before.spec_height(),
        0 <= x,
        0 <= y,
        x + 3 < before.spec_width(),
        y + 3 < before.spec_height(),
        forall|i: int, j: int| #[trigger] before.cell(i, j) == glider_phase1(x, y, i, j),
        forall|i: int, j: int|
            #[trigger] after.cell(i, j) == (before.in_bounds(i, j) && before.next_cell(i, j)),
    ensures
        forall|i: int, j: int| #[trigger] after.cell(i, j) == glider_phase2(x, y, i, j),
{
    assert forall|i: int, j: int| #[trigger] after.cell(i, j) == glider_phase2(x, y, i, j) by {
        assert(before.cell(i - 1, j - 1) == glider_phase1(x, y, i - 1, j - 1));
        assert(before.cell(i, j - 1) == glider_phase1(x, y, i, j - 1));
        assert(before.cell(i + 1, j - 1) == glider_phase1(x, y, i + 1, j - 1));
        assert(before.cell(i - 1, j) == glider_phase1(x, y, i - 1, j));
        assert(before.cell(i + 1, j) == glider_phase1(x, y, i + 1, j));
        assert(before.cell(i - 1, j + 1) == glider_phase1(x, y, i - 1, j + 1));
        assert(before.cell(i, j + 1) == glider_phase1(x, y, i, j + 1));
        assert(before.cell(i + 1, j + 1) == glider_phase1(x, y, i + 1, j + 1));
        assert(before.cell(i, j) == glider_phase1(x, y, i, j));
        assert(after.cell(i, j) == (before.in_bounds(i, j) && before.next_cell(i, j)));
    }
}

/// Third step: from phase two to phase three.
#[verifier::rlimit(80)]
proof fn lemma_glider_step_three(before: Grid, after: Grid, x: int, y: int)
    requires
        before.wf(),
        after.wf(),
        after.spec_width() == before.spec_width(),
        after.spec_height() == before.spec_height(),
        0 <= x,
        0 <= y,
        x + 3 < before.spec_width(),
        y + 3 < before.spec_height(),
        forall|i: int, j: int| #[trigger] before.cell(i, j) == glider_phase2(x, y, i, j),
        forall|i: int, j: int|
            #[trigger] after.cell(i, j) == (before.in_bounds(i, j) && before.next_cell(i, j)),
    ensures
        forall|i: int, j: int| #[trigger] after.cell(i, j) == glider_phase3(x, y, i, j),
{
    assert forall|i: int, j: int| #[trigger] after.cell(i, j) == glider_phase3(x, y, i, j) by {
        assert(before.cell(i - 1, j - 1) == glider_phase2(x, y, i - 1, j - 1));
        assert(before.cell(i, j - 1) == glider_phase2(x, y, i, j - 1));
        assert(before.cell(i + 1, j - 1) == glider_phase2(x, y, i + 1, j - 1));
        assert(before.cell(i - 1, j) == glider_phase2(x, y, i - 1, j));
        assert(before.cell(i + 1, j) == glider_phase2(x, y, i + 1, j));
        assert(before.cell(i - 1, j + 1) == glider_phase2(x, y, i - 1, j + 1));
        assert(before.cell(i, j + 1) == glider_phase2(x, y, i, j + 1));
        assert(before.cell(i + 1, j + 1) == glider_phase2(x, y, i + 1, j + 1));
        assert(before.cell(i, j) == glider_phase2(x, y, i, j));
        assert(after.cell(i, j) == (before.in_bounds(i, j) && before.next_cell(i, j)));
    }
}

/// Fourth step: from phase three to the starting shape moved one cell down
/// and one cell right.
#[verifier::rlimit(80)]
proof fn lemma_glider_step_four(before: Grid, after: Grid, x: int, y: int)
    requires
        before.wf(),
        after.wf(),
        after.spec_width() == before.spec_width(),
        after.spec_height() == before.spec_height(),
        0 <= x,
        0 <= y,
        x + 3 < before.spec_width(),
        y + 3 < before.spec_height(),
        forall|i: int, j: int| #[trigger] before.cell(i, j) == glider_phase3(x, y, i, j),
        forall|i: int, j: int|
            #[trigger] after.cell(i, j) == (before.in_bounds(i, j) && before.next_cell(i, j)),
    ensures
        forall|i: int, j: int| #[trigger] after.cell(i, j) == glider_cells(x + 1, y + 1, i, j),
{
    assert forall|i: int, j: int|
        #[trigger] after.cell(i, j) == glider_cells(x + 1, y + 1, i, j) by {
        assert(before.cell(i - 1, j - 1) == glider_phase3(x, y, i - 1, j - 1));
        assert(before.cell(i, j - 1) == glider_phase3(x, y, i, j - 1));
        assert(before.cell(i + 1, j - 1) == glider_phase3(x, y, i + 1, j - 1));
        assert(before.cell(i - 1, j) == glider_phase3(x, y, i - 1, j));
        assert(before.cell(i + 1, j) == glider_phase3(x, y, i + 1, j));
        assert(before.cell(i - 1, j + 1) == glider_phase3(x, y, i - 1, j + 1));
        assert(before.cell(i, j + 1) == glider_phase3(x, y, i, j + 1));
        assert(before.cell(i + 1, j + 1) == glider_phase3(x, y, i + 1, j + 1));
        assert(before.cell(i, j) == glider_phase3(x, y, i, j));
        assert(after.cell(i, j) == (before.in_bounds(i, j) && before.next_cell(i, j)));
    }
}

/// A lone glider placed with full clearance inside the bounds reproduces its
/// shape translated by (+1, +1) after exactly four transition steps.
pub proof fn lemma_glider_period_four(
    g0: Grid,
    g1: Grid,
    g2: Grid,
    g3: Grid,
    g4: Grid,
    x: int,
    y: int,
)
    requires
        g0.wf(),
        g1.wf(),
        g2.wf(),
        g3.wf(),
        g4.wf(),
        g1.spec_width() == g0.spec_width(),
        g1.spec_height() == g0.spec_height(),
        g2.spec_width() == g0.spec_width(),
        g2.spec_height() == g0.spec_height(),
        g3.spec_width() == g0.spec_width(),
        g3.spec_height() == g0.spec_height(),
        g4.spec_width() == g0.spec_width(),
        g4.spec_height() == g0.spec_height(),
        0 <= x,
        0 <= y,
        x + 3 < g0.spec_width(),
        y + 3 < g0.spec_height(),
        forall|i: int, j: int| #[trigger] g0.cell(i, j) == placed(Organism::Glider, x, y, i, j),
        forall|i: int, j: int|
            #[trigger] g1.cell(i, j) == (g0.in_bounds(i, j) && g0.next_cell(i, j)),
        forall|i: int, j: int|
            #[trigger] g2.cell(i, j) == (g1.in_bounds(i, j) && g1.next_cell(i, j)),
        forall|i: int, j: int|
            #[trigger] g3.cell(i, j) == (g2.in_bounds(i, j) && g2.next_cell(i, j)),
        forall|i: int, j: int|
            #[trigger] g4.cell(i, j) == (g3.in_bounds(i, j) && g3.next_cell(i, j)),
    ensures
        forall|i: int, j: int|
            #[trigger] g4.cell(i, j) == placed(Organism::Glider, x + 1, y + 1, i, j),
{
    lemma_glider_placed(x, y);
    assert forall|i: int, j: int| #[trigger] g0.cell(i, j) == glider_cells(x, y, i, j) by {}
    lemma_glider_step_one(g0, g1, x, y);
    lemma_glider_step_two(g1, g2, x, y);
    lemma_glider_step_three(g2, g3, x, y);
    lemma_glider_step_four(g3, g4, x, y);
    lemma_glider_placed(x + 1, y + 1);
}

} // verus!
