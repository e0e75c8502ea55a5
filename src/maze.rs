use vstd::prelude::*;

verus! {

/// A grid of maze symbols, row by row.
pub type Maze = Vec<Vec<char>>;

pub open spec fn is_wall_spec(c: char) -> bool {
    c == '+' || c == '-' || c == '|' || c == 'g'
}

/// The symbols a maze file may hold: walls and the free cell `' '`.
pub open spec fn is_maze_symbol(c: char) -> bool {
    is_wall_spec(c) || c == ' '
}

/// Whether `c` is a wall symbol.
pub fn is_wall(c: char) -> (r: bool)
    ensures
        r == is_wall_spec(c),
{
    c == '+' || c == '-' || c == '|' || c == 'g'
}

/// A line of a maze file with everything but maze symbols dropped.
pub fn filter_maze_row(line: &Vec<char>) -> (r: Vec<char>)
    ensures
        r@ == line@.filter(|c: char| is_maze_symbol(c)),
{
    let mut out: Vec<char> = Vec::new();
    let mut i: usize = 0;
    while i < line.len()
        invariant
            0 <= i <= line@.len(),
            out@ == line@.take(i as int).filter(|c: char| is_maze_symbol(c)),
        decreases line@.len() - i,
    {
        let c = line[i];
        proof {
            reveal(Seq::filter);
            assert(line@.take(i + 1).drop_last() =~= line@.take(i as int));
            assert(line@.take(i + 1).last() == c);
        }
        if is_wall(c) || c == ' ' {
            out.push(c);
        }
        i += 1;
    }
    proof {
        assert(line@.take(line@.len() as int) =~= line@);
    }
    out
}

/// Whether cell `(x, y)` of `maze` is free.
pub open spec fn free_at(maze: Seq<Seq<char>>, x: int, y: int) -> bool {
    0 <= y < maze.len() && 0 <= x < maze[y].len() && maze[y][x] == ' '
}

/// The rows of a maze as sequences.
pub open spec fn grid(maze: &Maze) -> Seq<Seq<char>> {
    maze@.map_values(|row: Vec<char>| row@)
}

/// The first free cell in reading order, as `(column, row)`, or none.
pub fn find_first_free_cell(maze: &Maze) -> (r: Option<(usize, usize)>)
    ensures
        r is None <==> !exists|x: int, y: int| free_at(grid(maze), x, y),
        r matches Some((x, y)) ==> {
            &&& free_at(grid(maze), x as int, y as int)
            &&& forall|xx: int, yy: int|
                free_at(grid(maze), xx, yy) ==> (yy > y || (yy == y && xx >= x))
        },
{
    let ghost g = grid(maze);
    let mut y: usize = 0;
    while y < maze.len()
        invariant
            0 <= y <= maze@.len(),
            g == grid(maze),
            g.len() == maze@.len(),
            forall|xx: int, yy: int| 0 <= yy < y ==> !free_at(g, xx, yy),
        decreases maze@.len() - y,
    {
        let row = &maze[y];
        let mut x: usize = 0;
        while x < row.len()
            invariant
                0 <= x <= row@.len(),
                y < maze@.len(),
                row@ == g[y as int],
                g == grid(maze),
                g.len() == maze@.len(),
                forall|xx: int, yy: int| 0 <= yy < y ==> !free_at(g, xx, yy),
                forall|xx: int| 0 <= xx < x ==> !free_at(g, xx, y as int),
            decreases row@.len() - x,
        {
            if row[x] == ' ' {
                proof {
                    assert(free_at(g, x as int, y as int));
                }
                return Some((x, y));
            }
            x += 1;
        }
        proof {
            assert forall|xx: int, yy: int| 0 <= yy < y + 1 implies !free_at(g, xx, yy) by {
                if yy == y && 0 <= xx < x {
                    assert(!free_at(g, xx, y as int));
                }
            }
        }
        y += 1;
    }
    proof {
        assert forall|xx: int, yy: int| !free_at(grid(maze), xx, yy) by {
            if 0 <= yy < y {
                assert(!free_at(g, xx, yy));
            }
        }
    }
    None
}

/// Side of a maze cell on screen and the offsets that center the maze in a
/// `win_w x win_h` window: the largest side at which the maze fits, at least
/// one pixel; offsets are half the space left over, or zero where none is left.
pub fn calc_block_size_offset(maze: &Maze, win_w: u32, win_h: u32) -> (r: (u32, i32, i32))
    requires
        maze@.len() > 0,
        maze@[0]@.len() > 0,
        maze@.len() <= i32::MAX,
        maze@[0]@.len() <= i32::MAX,
        win_w <= i32::MAX,
        win_h <= i32::MAX,
    ensures
        ({
            let mw = maze@[0]@.len() as int;
            let mh = maze@.len() as int;
            let ww = win_w as int;
            let wh = win_h as int;
            let fit = if ww / mw <= wh / mh { ww / mw } else { wh / mh };
            let block = if fit == 0 { 1 } else { fit };
            &&& r.0 == block
            &&& r.1 == (if ww >= block * mw { (ww - block * mw) / 2 } else { 0 })
            &&& r.2 == (if wh >= block * mh { (wh - block * mh) / 2 } else { 0 })
        }),
{
    let maze_w = maze[0].len() as u32;
    let maze_h = maze.len() as u32;
    let fw = win_w / maze_w;
    let fh = win_h / maze_h;
    let mut block = if fw <= fh { fw } else { fh };
    if block == 0 {
        block = 1;
    }
    proof {
        assert(fw * maze_w <= win_w) by (nonlinear_arith)
            requires fw == win_w / maze_w, maze_w > 0;
        assert(fh * maze_h <= win_h) by (nonlinear_arith)
            requires fh == win_h / maze_h, maze_h > 0;
        if block == 1 {
            assert(block * maze_w == maze_w);
            assert(block * maze_h == maze_h);
        } else {
            assert(block * maze_w <= fw * maze_w) by (nonlinear_arith)
                requires block <= fw, maze_w > 0;
            assert(block * maze_h <= fh * maze_h) by (nonlinear_arith)
                requires block <= fh, maze_h > 0;
        }
    }
    let total_w = (block as u64) * (maze_w as u64);
    let total_h = (block as u64) * (maze_h as u64);
    let offset_x: i32 = if (win_w as u64) >= total_w { ((win_w as u64 - total_w) / 2) as i32 } else { 0 };
    let offset_y: i32 = if (win_h as u64) >= total_h { ((win_h as u64 - total_h) / 2) as i32 } else { 0 };
    (block, offset_x, offset_y)
}

/// Whether `(x, y)` is a cell of `maze` that holds no wall.
pub fn cell_is_free(maze: &Maze, x: isize, y: isize) -> (r: bool)
    ensures
        r == (0 <= y < maze@.len() && 0 <= x < maze@[y as int]@.len() && !is_wall_spec(maze@[y as int]@[x as int])),
{
    if x < 0 || y < 0 {
        return false;
    }
    let (ux, uy) = (x as usize, y as usize);
    if uy >= maze.len() {
        return false;
    }
    if ux >= maze[uy].len() {
        return false;
    }
    !is_wall(maze[uy][ux])
}

} // verus!
