//! The built-in level: a walled rectangle with the player, two boxes and one
//! hole inside.

use crate::board::Pushable;
use crate::geometry::{Cell, Direction, Position};
use crate::level::{cells, Level};
use vstd::prelude::*;

verus! {

/// Rows of the built-in map.
pub const MAP_HEIGHT: u32 = 8;

/// Columns of the built-in map.
pub const MAP_WIDTH: u32 = 8;

/// The cells of column `x` from row 0 up to `height`, bottom first.
pub open spec fn column(x: int, height: nat) -> Seq<Cell> {
    Seq::new(height, |y: int| Cell { x, y })
}

/// The cells of row `y` that lie strictly between the first and the last
/// column of a map `width` wide, left first.
pub open spec fn inner_row(y: int, width: nat) -> Seq<Cell> {
    Seq::new(
        if width >= 2 {
            (width - 2) as nat
        } else {
            0
        },
        |k: int| Cell { x: k + 1, y },
    )
}

/// The ring of wall cells around a `width` by `height` map, each cell once,
/// in the order in which they are laid: the left column, the right column,
/// then what is left of the bottom row and of the top row between them.
pub open spec fn border(width: nat, height: nat) -> Seq<Cell> {
    if width == 0 || height == 0 {
        Seq::empty()
    } else {
        column(0, height) + (if width >= 2 {
            column(width - 1, height)
        } else {
            Seq::empty()
        }) + inner_row(0, width) + (if height >= 2 {
            inner_row(height - 1, width)
        } else {
            Seq::empty()
        })
    }
}

/// Whether `c` lies on the outermost ring of a `width` by `height` map.
pub open spec fn on_border(c: Cell, width: nat, height: nat) -> bool {
    &&& 0 <= c.x < width
    &&& 0 <= c.y < height
    &&& (c.x == 0 || c.x == width - 1 || c.y == 0 || c.y == height - 1)
}

/// The border holds exactly the cells of the outermost ring, and no cell
/// twice.
pub proof fn lemma_border_is_the_ring(width: nat, height: nat)
    ensures
        border(width, height).no_duplicates(),
        forall|c: Cell| #[trigger] border(width, height).contains(c) <==> on_border(c, width, height),
{
    let all = border(width, height);
    let h = height as int;
    let w = width as int;
    let sides = if w >= 2 {
        2 * h
    } else {
        h
    };
    assert forall|i: int, j: int| 0 <= i < all.len() && 0 <= j < all.len() && i != j implies all[i]
        != all[j] by {
        lemma_border_cell(width, height, i);
        lemma_border_cell(width, height, j);
    }
    assert forall|c: Cell| #[trigger] all.contains(c) <==> on_border(c, width, height) by {
        if all.contains(c) {
            let i = choose|i: int| 0 <= i < all.len() && all[i] == c;
            lemma_border_cell(width, height, i);
        }
        if on_border(c, width, height) {
            let i = if c.x == 0 {
                c.y
            } else if c.x == w - 1 {
                h + c.y
            } else if c.y == 0 {
                sides + c.x - 1
            } else {
                sides + (w - 2) + c.x - 1
            };
            lemma_border_cell(width, height, i);
            assert(all[i] == c);
        }
    }
}

/// Which cell stands at index `i` of the border.
proof fn lemma_border_cell(width: nat, height: nat, i: int)
    requires
        width > 0,
        height > 0,
        0 <= i < border(width, height).len(),
    ensures
        width >= 2 ==> border(width, height).len() == 2 * height + (width - 2) + (if height >= 2 {
            width - 2
        } else {
            0
        }),
        width < 2 ==> border(width, height).len() == height,
        i < height ==> border(width, height)[i] == (Cell { x: 0, y: i }),
        width >= 2 && height <= i < 2 * height ==> border(width, height)[i] == (Cell {
            x: width - 1,
            y: i - height,
        }),
        width >= 2 && 2 * height <= i < 2 * height + (width - 2) ==> border(width, height)[i] == (
        Cell { x: i - 2 * height + 1, y: 0 }),
        width >= 2 && 2 * height + (width - 2) <= i ==> height >= 2 && border(width, height)[i] == (
        Cell { x: i - 2 * height - (width - 2) + 1, y: height - 1 }),
{
}

/// One vertical wall segment: appends the cells of column `x`, rows 0 up to
/// `height`, to `walls`.
fn lay_column(walls: &mut Vec<Position>, x: i32, height: u32)
    requires
        height <= i32::MAX,
    ensures
        cells(final(walls)@) == cells(old(walls)@) + column(x as int, height as nat),
{
    let ghost start = walls@;
    let mut y: u32 = 0;
    while y < height
        invariant
            y <= height,
            height <= i32::MAX,
            walls@.len() == start.len() + y,
            forall|j: int| 0 <= j < start.len() ==> walls@[j] == start[j],
            forall|k: int| 0 <= k < y ==> (#[trigger] walls@[start.len() + k])@ == (Cell { x: x as int, y: k }),
        decreases height - y,
    {
        walls.push(Position { x, y: y as i32 });
        y += 1;
    }
    proof {
        let laid = cells(start) + column(x as int, height as nat);
        assert forall|j: int| 0 <= j < walls@.len() implies cells(walls@)[j] == laid[j] by {
            if j >= start.len() {
                assert(walls@[start.len() + (j - start.len())]@ == laid[j]);
            }
        }
        assert(cells(walls@) =~= laid);
    }
}

/// One horizontal wall segment: appends to `walls` the cells of row `y`
/// that lie strictly between the first and the last column.
fn lay_inner_row(walls: &mut Vec<Position>, y: i32, width: u32)
    requires
        width <= i32::MAX,
    ensures
        cells(final(walls)@) == cells(old(walls)@) + inner_row(y as int, width as nat),
{
    let ghost start = walls@;
    let mut x: u32 = 1;
    while x + 1 < width
        invariant
            1 <= x,
            width >= 2 ==> x <= width - 1,
            width < 2 ==> x == 1,
            width <= i32::MAX,
            walls@.len() == start.len() + (x - 1),
            forall|j: int| 0 <= j < start.len() ==> walls@[j] == start[j],
            forall|k: int|
                0 <= k < x - 1 ==> (#[trigger] walls@[start.len() + k])@ == (Cell {
                    x: k + 1,
                    y: y as int,
                }),
        decreases width - x,
    {
        walls.push(Position { x: x as i32, y });
        x += 1;
    }
    proof {
        let laid = cells(start) + inner_row(y as int, width as nat);
        assert forall|j: int| 0 <= j < walls@.len() implies cells(walls@)[j] == laid[j] by {
            if j >= start.len() {
                assert(walls@[start.len() + (j - start.len())]@ == laid[j]);
            }
        }
        assert(cells(walls@) =~= laid);
    }
}

/// The walls that ring a `width` by `height` map, one on each cell of its
/// outermost ring.
pub fn border_walls(width: u32, height: u32) -> (walls: Vec<Position>)
    requires
        width <= i32::MAX,
        height <= i32::MAX,
    ensures
        cells(walls@) == border(width as nat, height as nat),
        cells(walls@).no_duplicates(),
        forall|c: Cell| #[trigger] cells(walls@).contains(c) <==> on_border(c, width as nat, height as nat),
{
    let mut walls: Vec<Position> = Vec::new();
    assert(cells(walls@) =~= Seq::<Cell>::empty());
    if width > 0 && height > 0 {
        lay_column(&mut walls, 0, height);
        if width >= 2 {
            lay_column(&mut walls, width as i32 - 1, height);
        }
        lay_inner_row(&mut walls, 0, width);
        if height >= 2 {
            lay_inner_row(&mut walls, height as i32 - 1, width);
        }
        assert(cells(walls@) =~= border(width as nat, height as nat));
    }
    proof {
        lemma_border_is_the_ring(width as nat, height as nat);
    }
    walls
}

/// Where the player starts in the built-in level.
pub fn player_start() -> (p: Position)
    ensures
        p@ == (Cell { x: 3, y: 3 }),
{
    Position { x: 3, y: 3 }
}

/// Where the boxes start in the built-in level.
pub fn box_starts() -> (boxes: Vec<Position>)
    ensures
        cells(boxes@) == seq![Cell { x: 3, y: 4 }, Cell { x: 3, y: 5 }],
{
    let mut boxes: Vec<Position> = Vec::new();
    boxes.push(Position { x: 3, y: 4 });
    boxes.push(Position { x: 3, y: 5 });
    assert(cells(boxes@) =~= seq![Cell { x: 3, y: 4 }, Cell { x: 3, y: 5 }]);
    boxes
}

/// Where the holes lie in the built-in level.
pub fn hole_positions() -> (holes: Vec<Position>)
    ensures
        cells(holes@) == seq![Cell { x: 3, y: 6 }],
{
    let mut holes: Vec<Position> = Vec::new();
    holes.push(Position { x: 3, y: 6 });
    assert(cells(holes@) =~= seq![Cell { x: 3, y: 6 }]);
    holes
}

/// The built-in level: an 8 by 8 map ringed by 28 walls, one on each cell of
/// its outermost ring, the player at (3,3), boxes at (3,4) and (3,5), and a
/// hole at (3,6).
pub fn reference_level() -> (level: Level)
    ensures
        level@.player == (Cell { x: 3, y: 3 }),
        level@.direction == Direction::Idle,
        level@.gate_open,
        level@.boxes == seq![
            Pushable { cell: Cell { x: 3, y: 4 }, push: Direction::Idle },
            Pushable { cell: Cell { x: 3, y: 5 }, push: Direction::Idle },
        ],
        level@.walls == border(MAP_WIDTH as nat, MAP_HEIGHT as nat),
        level@.walls.len() == 28,
        level@.walls.no_duplicates(),
        level@.holes == seq![Cell { x: 3, y: 6 }],
        level@.settled(),
{
    let walls = border_walls(MAP_WIDTH, MAP_HEIGHT);
    let boxes = box_starts();
    let ghost starts = boxes@;
    let level = Level::new(player_start(), boxes, walls, hole_positions());
    proof {
        assert(cells(starts).len() == starts.len());
        assert(cells(starts)[0] == starts[0]@ && cells(starts)[1] == starts[1]@);
        assert(level@.boxes =~= seq![
            Pushable { cell: Cell { x: 3, y: 4 }, push: Direction::Idle },
            Pushable { cell: Cell { x: 3, y: 5 }, push: Direction::Idle },
        ]);
        assert(!level@.wall_at(level@.player));
        assert(!level@.box_at(level@.player));
    }
    level
}

} // verus!
