//! The organism catalog and the deterministic first-frame seeding.
//!
//! Every organism is a fixed list of live-cell offsets relative to an anchor.
//! Placement writes each offset through the grid's bounds-checked setter, so
//! an organism that overhangs an edge is clipped, never an error.

use crate::grid::Grid;
use vstd::prelude::*;

verus! {

/// The closed catalog of organisms the seeding routine knows.
#[derive(Clone, Copy, Debug, PartialEq, Eq, Structural)]
pub enum Organism {
    Glider,
    Lwss,
    Mwss,
    Pulsar,
    Beacon,
    Pentadecathlon,
    Block,
    Loaf,
    Boat,
    Tub,
}

/// The live-cell offsets of each organism, relative to its anchor.
pub open spec fn spec_offsets(o: Organism) -> Seq<(i32, i32)> {
    match o {
        Organism::Glider => seq![(1, 0), (2, 1), (0, 2), (1, 2), (2, 2)],
        Organism::Lwss => seq![
            (1, 0),
            (2, 0),
            (3, 0),
            (4, 0),
            (0, 1),
            (4, 1),
            (4, 2),
            (0, 3),
            (3, 3),
        ],
        Organism::Mwss => seq![
            (1, 0),
            (2, 0),
            (3, 0),
            (4, 0),
            (5, 0),
            (0, 1),
            (5, 1),
            (5, 2),
            (0, 3),
            (4, 3),
        ],
        Organism::Pulsar => seq![
            (2, 0),
            (3, 0),
            (4, 0),
            (8, 0),
            (9, 0),
            (10, 0),
            (0, 2),
            (5, 2),
            (7, 2),
            (12, 2),
            (0, 3),
            (5, 3),
            (7, 3),
            (12, 3),
            (0, 4),
            (5, 4),
            (7, 4),
            (12, 4),
            (2, 5),
            (3, 5),
            (4, 5),
            (8, 5),
            (9, 5),
            (10, 5),
            (2, 7),
            (3, 7),
            (4, 7),
            (8, 7),
            (9, 7),
            (10, 7),
            (0, 8),
            (5, 8),
            (7, 8),
            (12, 8),
            (0, 9),
            (5, 9),
            (7, 9),
            (12, 9),
            (0, 10),
            (5, 10),
            (7, 10),
            (12, 10),
            (2, 12),
            (3, 12),
            (4, 12),
            (8, 12),
            (9, 12),
            (10, 12),
        ],
        Organism::Beacon => seq![
            (0, 0),
            (1, 0),
            (0, 1),
            (1, 1),
            (2, 2),
            (3, 2),
            (2, 3),
            (3, 3),
        ],
        Organism::Pentadecathlon => seq![
            (2, 0),
            (2, 1),
            (1, 2),
            (2, 2),
            (3, 2),
            (2, 3),
            (2, 4),
            (2, 5),
            (1, 6),
            (2, 6),
            (3, 6),
            (2, 7),
            (2, 8),
        ],
        Organism::Block => seq![(0, 0), (1, 0), (0, 1), (1, 1)],
        Organism::Loaf => seq![(1, 0), (2, 0), (0, 1), (3, 1), (1, 2), (3, 2), (2, 3)],
        Organism::Boat => seq![(0, 0), (1, 0), (0, 1), (2, 1), (1, 2)],
        Organism::Tub => seq![(1, 0), (0, 1), (2, 1), (1, 2)],
    }
}

/// Whether (i, j) is one of the cells of organism `o` anchored at (x, y),
/// with the anchor sum taken over the unbounded plane.
pub open spec fn placed(o: Organism, x: int, y: int, i: int, j: int) -> bool {
    exists|k: int|
        #![auto]
        0 <= k < spec_offsets(o).len() && i == x + spec_offsets(o)[k].0 && j == y + spec_offsets(
            o,
        )[k].1
}

/// `placed`, restricted to the first `m` offsets of the list.
spec fn placed_prefix(o: Organism, x: int, y: int, i: int, j: int, m: int) -> bool {
    exists|k: int|
        #![auto]
        0 <= k < m && k < spec_offsets(o).len() && i == x + spec_offsets(o)[k].0 && j == y
            + spec_offsets(o)[k].1
}

/// The offsets of `o` as a vector, exactly the catalog list.
#[verifier::rlimit(60)]
pub fn offsets(o: Organism) -> (r: Vec<(i32, i32)>)
    ensures
        r@ == spec_offsets(o),
{
    let mut r: Vec<(i32, i32)> = Vec::new();
    match o {
        Organism::Glider => {
            r.push((1, 0));
            r.push((2, 1));
            r.push((0, 2));
            r.push((1, 2));
            r.push((2, 2));
        },
        Organism::Lwss => {
            r.push((1, 0));
            r.push((2, 0));
            r.push((3, 0));
            r.push((4, 0));
            r.push((0, 1));
            r.push((4, 1));
            r.push((4, 2));
            r.push((0, 3));
            r.push((3, 3));
        },
        Organism::Mwss => {
            r.push((1, 0));
            r.push((2, 0));
            r.push((3, 0));
            r.push((4, 0));
            r.push((5, 0));
            r.push((0, 1));
            r.push((5, 1));
            r.push((5, 2));
            r.push((0, 3));
            r.push((4, 3));
        },
        Organism::Pulsar => {
            r.push((2, 0));
            r.push((3, 0));
            r.push((4, 0));
            r.push((8, 0));
            r.push((9, 0));
            r.push((10, 0));
            r.push((0, 2));
            r.push((5, 2));
            r.push((7, 2));
            r.push((12, 2));
            r.push((0, 3));
            r.push((5, 3));
            r.push((7, 3));
            r.push((12, 3));
            r.push((0, 4));
            r.push((5, 4));
            r.push((7, 4));
            r.push((12, 4));
            r.push((2, 5));
            r.push((3, 5));
            r.push((4, 5));
            r.push((8, 5));
            r.push((9, 5));
            r.push((10, 5));
            r.push((2, 7));
            r.push((3, 7));
            r.push((4, 7));
            r.push((8, 7));
            r.push((9, 7));
            r.push((10, 7));
            r.push((0, 8));
            r.push((5, 8));
            r.push((7, 8));
            r.push((12, 8));
            r.push((0, 9));
            r.push((5, 9));
            r.push((7, 9));
            r.push((12, 9));
            r.push((0, 10));
            r.push((5, 10));
            r.push((7, 10));
            r.push((12, 10));
            r.push((2, 12));
            r.push((3, 12));
            r.push((4, 12));
            r.push((8, 12));
            r.push((9, 12));
            r.push((10, 12));
        },
        Organism::Beacon => {
            r.push((0, 0));
            r.push((1, 0));
            r.push((0, 1));
            r.push((1, 1));
            r.push((2, 2));
            r.push((3, 2));
            r.push((2, 3));
            r.push((3, 3));
        },
        Organism::Pentadecathlon => {
            r.push((2, 0));
            r.push((2, 1));
            r.push((1, 2));
            r.push((2, 2));
            r.push((3, 2));
            r.push((2, 3));
            r.push((2, 4));
            r.push((2, 5));
            r.push((1, 6));
            r.push((2, 6));
            r.push((3, 6));
            r.push((2, 7));
            r.push((2, 8));
        },
        Organism::Block => {
            r.push((0, 0));
            r.push((1, 0));
            r.push((0, 1));
            r.push((1, 1));
        },
        Organism::Loaf => {
            r.push((1, 0));
            r.push((2, 0));
            r.push((0, 1));
            r.push((3, 1));
            r.push((1, 2));
            r.push((3, 2));
            r.push((2, 3));
        },
        Organism::Boat => {
            r.push((0, 0));
            r.push((1, 0));
            r.push((0, 1));
            r.push((2, 1));
            r.push((1, 2));
        },
        Organism::Tub => {
            r.push((1, 0));
            r.push((0, 1));
            r.push((2, 1));
            r.push((1, 2));
        },
    }
    proof {
        assert(r@ =~= spec_offsets(o));
    }
    r
}

/// What placing one organism does to a grid: dimensions and generation are
/// untouched, and a cell is alive afterwards exactly if it was alive before
/// or is an in-range cell of the organism.
pub open spec fn placement_post(pre: Grid, post: Grid, o: Organism, x: int, y: int) -> bool {
    &&& post.wf()
    &&& post.spec_width() == pre.spec_width()
    &&& post.spec_height() == pre.spec_height()
    &&& post.spec_generation() == pre.spec_generation()
    &&& forall|i: int, j: int|
        #[trigger] post.cell(i, j) == (pre.cell(i, j) || (pre.in_bounds(i, j) && placed(
            o,
            x,
            y,
            i,
            j,
        )))
}

/// Sets every cell of organism `o`, anchored at (x, y), through the grid's
/// clipping setter: cells already alive stay alive, cells off the board are
/// dropped.
pub fn place_organism(grid: &mut Grid, o: Organism, x: i32, y: i32)
    requires
        old(grid).wf(),
    ensures
        placement_post(*old(grid), *final(grid), o, x as int, y as int),
{
    let offs = offsets(o);
    let offs_len = offs.len();
    let mut k: usize = 0;
    while k < offs_len
        invariant
            grid.wf(),
            grid.spec_width() == old(grid).spec_width(),
            grid.spec_height() == old(grid).spec_height(),
            grid.spec_generation() == old(grid).spec_generation(),
            offs@ == spec_offsets(o),
            offs_len == offs@.len(),
            k <= offs_len,
            forall|i: int, j: int|
                #[trigger] grid.cell(i, j) == (old(grid).cell(i, j) || (old(grid).in_bounds(i, j)
                    && placed_prefix(o, x as int, y as int, i, j, k as int))),
        decreases offs_len - k,
    {
        let (dx, dy) = offs[k];
        let nxo = x.checked_add(dx);
        let nyo = y.checked_add(dy);
        if nxo.is_some() && nyo.is_some() {
            let nx = nxo.unwrap();
            let ny = nyo.unwrap();
            grid.set_cell(nx, ny, true);
        }
        proof {
            grid.lemma_dims_fit();
            assert forall|i: int, j: int|
                #[trigger] grid.cell(i, j) == (old(grid).cell(i, j) || (old(grid).in_bounds(i, j)
                    && placed_prefix(o, x as int, y as int, i, j, k as int + 1))) by {
                let xi = x as int + spec_offsets(o)[k as int].0;
                let yj = y as int + spec_offsets(o)[k as int].1;
                if old(grid).in_bounds(i, j) {
                    if i == xi && j == yj {
                        assert((k as int) < spec_offsets(o).len());
                        assert(i == x as int + spec_offsets(o)[k as int].0);
                        assert(j == y as int + spec_offsets(o)[k as int].1);
                        assert(placed_prefix(o, x as int, y as int, i, j, k as int + 1));
                    } else {
                        if placed_prefix(o, x as int, y as int, i, j, k as int) {
                            assert(placed_prefix(o, x as int, y as int, i, j, k as int + 1));
                        }
                        if placed_prefix(o, x as int, y as int, i, j, k as int + 1) {
                            assert(placed_prefix(o, x as int, y as int, i, j, k as int));
                        }
                    }
                }
            }
        }
        k = k + 1;
    }
}

/// Places a glider anchored at (x, y).
pub fn glider(x: i32, y: i32, grid: &mut Grid)
    requires
        old(grid).wf(),
    ensures
        placement_post(*old(grid), *final(grid), Organism::Glider, x as int, y as int),
{
    place_organism(grid, Organism::Glider, x, y);
}

/// Places a lightweight spaceship anchored at (x, y).
pub fn lwss(x: i32, y: i32, grid: &mut Grid)
    requires
        old(grid).wf(),
    ensures
        placement_post(*old(grid), *final(grid), Organism::Lwss, x as int, y as int),
{
    place_organism(grid, Organism::Lwss, x, y);
}

/// Places a middleweight spaceship anchored at (x, y).
pub fn mwss(x: i32, y: i32, grid: &mut Grid)
    requires
        old(grid).wf(),
    ensures
        placement_post(*old(grid), *final(grid), Organism::Mwss, x as int, y as int),
{
    place_organism(grid, Organism::Mwss, x, y);
}

/// Places a pulsar anchored at (x, y).
pub fn pulsar(x: i32, y: i32, grid: &mut Grid)
    requires
        old(grid).wf(),
    ensures
        placement_post(*old(grid), *final(grid), Organism::Pulsar, x as int, y as int),
{
    place_organism(grid, Organism::Pulsar, x, y);
}

/// Places a beacon anchored at (x, y).
pub fn beacon(x: i32, y: i32, grid: &mut Grid)
    requires
        old(grid).wf(),
    ensures
        placement_post(*old(grid), *final(grid), Organism::Beacon, x as int, y as int),
{
    place_organism(grid, Organism::Beacon, x, y);
}

/// Places a pentadecathlon anchored at (x, y).
pub fn pentadecathlon(x: i32, y: i32, grid: &mut Grid)
    requires
        old(grid).wf(),
    ensures
        placement_post(*old(grid), *final(grid), Organism::Pentadecathlon, x as int, y as int),
{
    place_organism(grid, Organism::Pentadecathlon, x, y);
}

/// Places a block anchored at (x, y).
pub fn block(x: i32, y: i32, grid: &mut Grid)
    requires
        old(grid).wf(),
    ensures
        placement_post(*old(grid), *final(grid), Organism::Block, x as int, y as int),
{
    place_organism(grid, Organism::Block, x, y);
}

/// Places a loaf anchored at (x, y).
pub fn loaf(x: i32, y: i32, grid: &mut Grid)
    requires
        old(grid).wf(),
    ensures
        placement_post(*old(grid), *final(grid), Organism::Loaf, x as int, y as int),
{
    place_organism(grid, Organism::Loaf, x, y);
}

/// Places a boat anchored at (x, y).
pub fn boat(x: i32, y: i32, grid: &mut Grid)
    requires
        old(grid).wf(),
    ensures
        placement_post(*old(grid), *final(grid), Organism::Boat, x as int, y as int),
{
    place_organism(grid, Organism::Boat, x, y);
}

/// Places a tub anchored at (x, y).
pub fn tub(x: i32, y: i32, grid: &mut Grid)
    requires
        old(grid).wf(),
    ensures
        placement_post(*old(grid), *final(grid), Organism::Tub, x as int, y as int),
{
    place_organism(grid, Organism::Tub, x, y);
}

/// The fixed seeding order: sixteen organisms laid out four per row.
pub open spec fn placement_plan() -> Seq<Organism> {
    seq![
        Organism::Pulsar,
        Organism::Lwss,
        Organism::Mwss,
        Organism::Pulsar,
        Organism::Beacon,
        Organism::Pentadecathlon,
        Organism::Block,
        Organism::Loaf,
        Organism::Lwss,
        Organism::Mwss,
        Organism::Boat,
        Organism::Tub,
        Organism::Pulsar,
        Organism::Glider,
        Organism::Beacon,
        Organism::Pulsar,
    ]
}

/// The anchor column of the plan entry at index `t`.
pub open spec fn anchor_x(t: int, width: int) -> int {
    (t % 4) * (width / 4) + 2
}

/// The anchor row of the plan entry at index `t`.
pub open spec fn anchor_y(t: int, height: int) -> int {
    (t / 4) * (height / 4) + 2
}

/// Whether (i, j) is a cell of some plan entry at its assigned anchor.
pub open spec fn seeded(width: int, height: int, i: int, j: int) -> bool {
    exists|t: int|
        #![auto]
        0 <= t < placement_plan().len() && placed(
            placement_plan()[t],
            anchor_x(t, width),
            anchor_y(t, height),
            i,
            j,
        )
}

/// `seeded`, restricted to the first `m` plan entries.
spec fn seeded_prefix(width: int, height: int, i: int, j: int, m: int) -> bool {
    exists|t: int|
        #![auto]
        0 <= t < m && t < placement_plan().len() && placed(
            placement_plan()[t],
            anchor_x(t, width),
            anchor_y(t, height),
            i,
            j,
        )
}

/// The plan entry at index `t`.
fn plan_organism(t: usize) -> (o: Organism)
    requires
        t < 16,
    ensures
        o == placement_plan()[t as int],
{
    match t {
        0 => Organism::Pulsar,
        1 => Organism::Lwss,
        2 => Organism::Mwss,
        3 => Organism::Pulsar,
        4 => Organism::Beacon,
        5 => Organism::Pentadecathlon,
        6 => Organism::Block,
        7 => Organism::Loaf,
        8 => Organism::Lwss,
        9 => Organism::Mwss,
        10 => Organism::Boat,
        11 => Organism::Tub,
        12 => Organism::Pulsar,
        13 => Organism::Glider,
        14 => Organism::Beacon,
        _ => Organism::Pulsar,
    }
}

/// Seeds the fixed placement plan onto the grid, but only on the very first
/// frame: once the generation counter has moved past zero the call is a
/// no-op, which is the sole guard against re-seeding.
pub fn initialize_pattern(grid: &mut Grid)
    requires
        old(grid).wf(),
    ensures
        final(grid).wf(),
        final(grid).spec_width() == old(grid).spec_width(),
        final(grid).spec_height() == old(grid).spec_height(),
        final(grid).spec_generation() == old(grid).spec_generation(),
        old(grid).spec_generation() != 0 ==> *final(grid) == *old(grid),
        old(grid).spec_generation() == 0 ==> forall|i: int, j: int|
            #[trigger] final(grid).cell(i, j) == (old(grid).cell(i, j) || (old(grid).in_bounds(
                i,
                j,
            ) && seeded(old(grid).spec_width(), old(grid).spec_height(), i, j))),
{
    if grid.generation() != 0 {
        return;
    }
    proof {
        grid.lemma_dims_fit();
    }
    let w = grid.width();
    let h = grid.height();
    let spacing_x = w / 4;
    let spacing_y = h / 4;
    let mut t: usize = 0;
    while t < 16
        invariant
            grid.wf(),
            grid.spec_width() == old(grid).spec_width(),
            grid.spec_height() == old(grid).spec_height(),
            grid.spec_generation() == old(grid).spec_generation(),
            w as int == grid.spec_width(),
            h as int == grid.spec_height(),
            0 < w,
            0 < h,
            spacing_x == w / 4,
            spacing_y == h / 4,
            t <= 16,
            forall|i: int, j: int|
                #[trigger] grid.cell(i, j) == (old(grid).cell(i, j) || (old(grid).in_bounds(i, j)
                    && seeded_prefix(w as int, h as int, i, j, t as int))),
        decreases 16 - t,
    {
        let o = plan_organism(t);
        let col = (t as i32) % 4;
        let row = (t as i32) / 4;
        proof {
            assert(0 <= col as int <= 3 && 0 <= row as int <= 3);
            assert(0 <= spacing_x as int <= 536870911 && 0 <= spacing_y as int <= 536870911)
                by (nonlinear_arith)
                requires
                    0 < w as int <= 2147483647,
                    0 < h as int <= 2147483647,
                    spacing_x as int == w as int / 4,
                    spacing_y as int == h as int / 4,
            ;
            assert(col as int * spacing_x as int <= 3 * 536870911) by (nonlinear_arith)
                requires
                    0 <= col as int <= 3,
                    0 <= spacing_x as int <= 536870911,
            ;
            assert(row as int * spacing_y as int <= 3 * 536870911) by (nonlinear_arith)
                requires
                    0 <= row as int <= 3,
                    0 <= spacing_y as int <= 536870911,
            ;
        }
        let ax = col * spacing_x + 2;
        let ay = row * spacing_y + 2;
        place_organism(grid, o, ax, ay);
        proof {
            assert(ax as int == anchor_x(t as int, w as int));
            assert(ay as int == anchor_y(t as int, h as int));
            assert forall|i: int, j: int|
                #[trigger] grid.cell(i, j) == (old(grid).cell(i, j) || (old(grid).in_bounds(i, j)
                    && seeded_prefix(w as int, h as int, i, j, t as int + 1))) by {
                if old(grid).in_bounds(i, j) {
                    if placed(
                        placement_plan()[t as int],
                        anchor_x(t as int, w as int),
                        anchor_y(t as int, h as int),
                        i,
                        j,
                    ) {
                        assert(seeded_prefix(w as int, h as int, i, j, t as int + 1));
                    }
                    if seeded_prefix(w as int, h as int, i, j, t as int) {
                        assert(seeded_prefix(w as int, h as int, i, j, t as int + 1));
                    }
                    if seeded_prefix(w as int, h as int, i, j, t as int + 1) && !placed(
                        placement_plan()[t as int],
                        anchor_x(t as int, w as int),
                        anchor_y(t as int, h as int),
                        i,
                        j,
                    ) {
                        assert(seeded_prefix(w as int, h as int, i, j, t as int));
                    }
                }
            }
        }
        t = t + 1;
    }
    proof {
        assert(placement_plan().len() == 16);
        assert forall|i: int, j: int|
            seeded_prefix(w as int, h as int, i, j, 16) == seeded(w as int, h as int, i, j) by {
            if seeded_prefix(w as int, h as int, i, j, 16) {
                assert(seeded(w as int, h as int, i, j));
            }
            if seeded(w as int, h as int, i, j) {
                assert(seeded_prefix(w as int, h as int, i, j, 16));
            }
        }
    }
}

} // verus!
