//! The maze: a rectangular grid of cell symbols.

use vstd::prelude::*;
use crate::fixed::UNIT;
use crate::player::Player;

verus! {

/// The largest number of rows or columns a map may have, so that every cell
/// has coordinates that fit the 32-bit fixed-point range.
pub const MAX_SIDE: usize = 32_767;

/// The symbol of an empty cell, and of every place outside the grid.
pub const EMPTY: char = ' ';

/// The symbol at which the player enters the maze.
pub const PLAYER_START: char = 'p';

/// The symbol at which the enemy enters the maze.
pub const ENEMY_START: char = 'E';

/// The symbol of the cell the player has to reach.
pub const GOAL: char = 'g';

/// Whether a cell with this symbol blocks rays and movement.
pub open spec fn is_wall_symbol(c: char) -> bool {
    c == '+' || c == '-' || c == '|'
}

/// The symbol in column `x` of row `y`, or `EMPTY` outside the grid.
pub open spec fn cell_at(grid: Seq<Seq<char>>, x: int, y: int) -> char {
    if 0 <= y < grid.len() && 0 <= x < grid[y].len() {
        grid[y][x]
    } else {
        EMPTY
    }
}

/// The index of the cell that holds coordinate `c`. Coordinates below zero
/// are taken to the first cell.
pub open spec fn cell_index(c: int) -> int {
    if c < 0 {
        0
    } else {
        c / (UNIT as int)
    }
}

/// The coordinate of the middle of cell `i`.
pub open spec fn cell_centre(i: int) -> int {
    i * UNIT + UNIT / 2
}

/// Whether the grid holds `c` in column `x` of row `y`.
pub open spec fn holds_at(grid: Seq<Seq<char>>, c: char, x: int, y: int) -> bool {
    0 <= y < grid.len() && 0 <= x < grid[y].len() && grid[y][x] == c
}

/// Whether `c` occurs anywhere in the grid.
pub open spec fn occurs(grid: Seq<Seq<char>>, c: char) -> bool {
    exists|x: int, y: int| holds_at(grid, c, x, y)
}

/// Whether column `x` of row `y` is the first place, reading row by row, at
/// which the grid holds `c`.
pub open spec fn first_at(grid: Seq<Seq<char>>, c: char, x: int, y: int) -> bool {
    &&& holds_at(grid, c, x, y)
    &&& forall|i: int, j: int| #[trigger] holds_at(grid, c, i, j) ==> j > y || (j == y && i >= x)
}

/// The first place, reading row by row, at which the grid holds `c`, as
/// column and row.
pub open spec fn first_place(grid: Seq<Seq<char>>, c: char) -> (int, int) {
    choose|place: (int, int)| first_at(grid, c, place.0, place.1)
}

/// The middle of the first cell, reading row by row, that holds `c`.
pub open spec fn first_centre(grid: Seq<Seq<char>>, c: char) -> (int, int) {
    (cell_centre(first_place(grid, c).0), cell_centre(first_place(grid, c).1))
}

/// Only one place is the first at which the grid holds `c`.
pub proof fn lemma_first_place(grid: Seq<Seq<char>>, c: char, x: int, y: int)
    requires
        first_at(grid, c, x, y),
    ensures
        first_place(grid, c) == (x, y),
{
    let place = first_place(grid, c);
    assert(first_at(grid, c, (x, y).0, (x, y).1));
    assert(first_at(grid, c, place.0, place.1));
    assert(holds_at(grid, c, x, y));
    assert(holds_at(grid, c, place.0, place.1));
}

/// Whether the grid has at least one cell, and as many in every row.
pub open spec fn rectangular(grid: Seq<Seq<char>>) -> bool {
    &&& grid.len() > 0
    &&& grid[0].len() > 0
    &&& forall|y: int| 0 <= y < grid.len() ==> (#[trigger] grid[y]).len() == grid[0].len()
}

/// What every `GridMap` satisfies: it is rectangular, no larger than `MAX_SIDE`
/// on either side, and it marks where the player starts.
pub open spec fn valid_grid(grid: Seq<Seq<char>>) -> bool {
    &&& rectangular(grid)
    &&& grid.len() <= MAX_SIDE
    &&& grid[0].len() <= MAX_SIDE
    &&& occurs(grid, PLAYER_START)
}

/// The rows of a nested vector as a sequence of sequences.
pub open spec fn rows_view(rows: Seq<Vec<char>>) -> Seq<Seq<char>> {
    Seq::new(rows.len(), |y: int| rows[y]@)
}

/// Why a grid cannot serve as a map.
#[derive(Clone, Copy, Debug, PartialEq, Eq, Structural)]
pub enum MapError {
    /// There is no row, or the first row has no cell.
    Empty,
    /// Some row is longer or shorter than the first.
    Ragged,
    /// There are more than `MAX_SIDE` rows or columns.
    TooLarge,
    /// No cell is marked as the player's start.
    NoPlayerStart,
}

/// The first fault found in a grid, if it has one. The faults are looked for
/// in the order in which `MapError` lists them.
pub open spec fn grid_fault(grid: Seq<Seq<char>>) -> Option<MapError> {
    if grid.len() == 0 || grid[0].len() == 0 {
        Some(MapError::Empty)
    } else if !rectangular(grid) {
        Some(MapError::Ragged)
    } else if grid.len() > MAX_SIDE || grid[0].len() > MAX_SIDE {
        Some(MapError::TooLarge)
    } else if !occurs(grid, PLAYER_START) {
        Some(MapError::NoPlayerStart)
    } else {
        None
    }
}

/// The place of the first line feed at or after `from`, or the end of the
/// text if there is none.
pub open spec fn line_end(text: Seq<char>, from: int) -> int
    decreases text.len() - from,
{
    if from >= text.len() || text[from] == '\n' {
        from
    } else {
        line_end(text, from + 1)
    }
}

/// A line without the carriage return that may stand before its line feed.
pub open spec fn strip_cr(line: Seq<char>) -> Seq<char> {
    if line.len() > 0 && line.last() == '\r' {
        line.drop_last()
    } else {
        line
    }
}

/// The lines of `text` from place `from` on. A line ends before a line
/// feed, or before a carriage return and a line feed, or at the end of the
/// text; a text that ends in a line feed has no empty line after it, and a
/// last line without a line feed is kept as it stands.
pub open spec fn lines_from(text: Seq<char>, from: int) -> Seq<Seq<char>>
    decreases text.len() - from,
{
    if from < 0 || from >= text.len() {
        Seq::empty()
    } else {
        proof {
            lemma_line_end_bounds(text, from);
        }
        let end = line_end(text, from);
        if end >= text.len() {
            seq![text.subrange(from, end)]
        } else {
            seq![strip_cr(text.subrange(from, end))] + lines_from(text, end + 1)
        }
    }
}

/// The lines of `text`, each a row of cell symbols.
pub open spec fn text_lines(text: Seq<char>) -> Seq<Seq<char>> {
    lines_from(text, 0)
}

/// A line ends at or after the place where it starts, and within the text.
pub proof fn lemma_line_end_bounds(text: Seq<char>, from: int)
    requires
        0 <= from <= text.len(),
    ensures
        from <= line_end(text, from) <= text.len(),
        line_end(text, from) < text.len() ==> text[line_end(text, from)] == '\n',
        forall|j: int| from <= j < line_end(text, from) ==> text[j] != '\n',
    decreases text.len() - from,
{
    if from < text.len() && text[from] != '\n' {
        lemma_line_end_bounds(text, from + 1);
    }
}

/// A stretch without a line feed that is followed by one, or by the end of
/// the text, is a line.
pub proof fn lemma_line_end_is(text: Seq<char>, from: int, end: int)
    requires
        0 <= from <= end <= text.len(),
        forall|j: int| from <= j < end ==> text[j] != '\n',
        end == text.len() || text[end] == '\n',
    ensures
        line_end(text, from) == end,
    decreases end - from,
{
    if from < end {
        lemma_line_end_is(text, from + 1, end);
    }
}

/// A maze. Rows run from top to bottom, columns from left to right.
pub struct GridMap {
    data: Vec<Vec<char>>,
}

impl View for GridMap {
    type V = Seq<Seq<char>>;

    closed spec fn view(&self) -> Seq<Seq<char>> {
        rows_view(self.data@)
    }
}

impl GridMap {
    #[verifier::type_invariant]
    pub open spec fn wf(&self) -> bool {
        valid_grid(self@)
    }

    /// Reads a map from text, one row of cell symbols on each line.
    pub fn load(text: &str) -> (map: Result<GridMap, MapError>)
        ensures
            match map {
                Ok(m) => m@ == text_lines(text@) && grid_fault(m@) is None,
                Err(e) => grid_fault(text_lines(text@)) == Some(e),
            },
    {
        GridMap::from_rows(load_maze(text))
    }

    /// Takes `rows` as the map if they form a valid grid.
    pub fn from_rows(rows: Vec<Vec<char>>) -> (map: Result<GridMap, MapError>)
        ensures
            match map {
                Ok(m) => m@ == rows_view(rows@) && grid_fault(m@) is None,
                Err(e) => grid_fault(rows_view(rows@)) == Some(e),
            },
    {
        let ghost grid = rows_view(rows@);
        if rows.len() == 0 {
            return Err(MapError::Empty);
        }
        assert(grid[0] == rows@[0]@);
        let width = rows[0].len();
        if width == 0 {
            return Err(MapError::Empty);
        }
        let mut y: usize = 1;
        while y < rows.len()
            invariant
                1 <= y <= rows.len(),
                grid == rows_view(rows@),
                width == grid[0].len(),
                width > 0,
                forall|j: int| 0 <= j < y ==> (#[trigger] grid[j]).len() == width,
            decreases rows.len() - y,
        {
            assert(grid[y as int] == rows@[y as int]@);
            if rows[y].len() != width {
                assert(grid[y as int].len() != grid[0].len());
                return Err(MapError::Ragged);
            }
            y += 1;
        }
        assert(rectangular(grid));
        if rows.len() > MAX_SIDE || width > MAX_SIDE {
            return Err(MapError::TooLarge);
        }
        let mut found = false;
        let mut y: usize = 0;
        while y < rows.len() && !found
            invariant
                y <= rows.len(),
                grid == rows_view(rows@),
                found ==> occurs(grid, PLAYER_START),
                !found ==> forall|i: int, j: int| #[trigger]
                    holds_at(grid, PLAYER_START, i, j) ==> j >= y,
            decreases rows.len() - y,
        {
            assert(grid[y as int] == rows@[y as int]@);
            let mut x: usize = 0;
            while x < rows[y].len() && !found
                invariant
                    y < rows.len(),
                    x <= rows[y as int].len(),
                    grid == rows_view(rows@),
                    grid[y as int] == rows@[y as int]@,
                    found ==> occurs(grid, PLAYER_START),
                    !found ==> forall|i: int, j: int| #[trigger]
                        holds_at(grid, PLAYER_START, i, j) ==> j > y || (j == y && i >= x),
                decreases rows[y as int].len() - x,
            {
                if rows[y][x] == PLAYER_START {
                    assert(holds_at(grid, PLAYER_START, x as int, y as int));
                    found = true;
                }
                x += 1;
            }
            y += 1;
        }
        if !found {
            return Err(MapError::NoPlayerStart);
        }
        Ok(GridMap { data: rows })
    }

    /// The number of columns.
    pub fn width(&self) -> (w: usize)
        ensures
            w == self@[0].len(),
            0 < w <= MAX_SIDE,
    {
        proof {
            use_type_invariant(self);
        }
        assert(self@[0] == self.data@[0]@);
        self.data[0].len()
    }

    /// The number of rows.
    pub fn height(&self) -> (h: usize)
        ensures
            h == self@.len(),
            0 < h <= MAX_SIDE,
    {
        proof {
            use_type_invariant(self);
        }
        self.data.len()
    }

    /// The symbol in column `x` of row `y`, or `EMPTY` outside the grid.
    pub fn get_cell(&self, x: usize, y: usize) -> (c: char)
        ensures
            c == cell_at(self@, x as int, y as int),
    {
        if y < self.data.len() {
            assert(self@[y as int] == self.data@[y as int]@);
            if x < self.data[y].len() {
                return self.data[y][x];
            }
        }
        EMPTY
    }

    /// Whether the point `(x, y)` lies in a wall cell.
    pub fn is_wall(&self, x: i32, y: i32) -> (wall: bool)
        ensures
            wall == is_wall_symbol(cell_at(self@, cell_index(x as int), cell_index(y as int))),
    {
        let c = self.get_cell(cell_of(x), cell_of(y));
        c == '+' || c == '-' || c == '|'
    }

    /// Whether the player stands in the goal cell.
    pub fn is_player_at_goal(&self, player: &Player) -> (reached: bool)
        ensures
            reached == (cell_at(self@, cell_index(player.x as int), cell_index(player.y as int))
                == GOAL),
    {
        self.get_cell(cell_of(player.x), cell_of(player.y)) == GOAL
    }

    /// The first place, reading row by row, at which the map holds `symbol`.
    fn find_symbol(&self, symbol: char) -> (place: Option<(usize, usize)>)
        ensures
            match place {
                Some((x, y)) => first_at(self@, symbol, x as int, y as int),
                None => !occurs(self@, symbol),
            },
    {
        let mut y: usize = 0;
        while y < self.data.len()
            invariant
                y <= self.data.len(),
                forall|i: int, j: int| #[trigger] holds_at(self@, symbol, i, j) ==> j >= y,
            decreases self.data.len() - y,
        {
            assert(self@[y as int] == self.data@[y as int]@);
            let mut x: usize = 0;
            while x < self.data[y].len()
                invariant
                    y < self.data.len(),
                    x <= self.data[y as int].len(),
                    self@[y as int] == self.data@[y as int]@,
                    forall|i: int, j: int| #[trigger]
                        holds_at(self@, symbol, i, j) ==> j > y || (j == y && i >= x),
                decreases self.data[y as int].len() - x,
            {
                if self.data[y][x] == symbol {
                    return Some((x, y));
                }
                x += 1;
            }
            y += 1;
        }
        None
    }

    /// The middle of the first cell, reading row by row, marked as the
    /// player's start.
    pub fn find_player_start(&self) -> (start: (i32, i32))
        ensures
            occurs(self@, PLAYER_START),
            (start.0 as int, start.1 as int) == first_centre(self@, PLAYER_START),
    {
        proof {
            use_type_invariant(self);
        }
        match self.find_symbol(PLAYER_START) {
            Some((x, y)) => {
                proof {
                    lemma_first_place(self@, PLAYER_START, x as int, y as int);
                }
                (centre_of(x), centre_of(y))
            },
            None => (0, 0),
        }
    }

    /// The middle of the first cell, reading row by row, marked as the
    /// enemy's start, if there is one.
    pub fn find_enemy_start(&self) -> (start: Option<(i32, i32)>)
        ensures
            start is None <==> !occurs(self@, ENEMY_START),
            start is Some ==> (start.unwrap().0 as int, start.unwrap().1 as int) == first_centre(
                self@,
                ENEMY_START,
            ),
    {
        proof {
            use_type_invariant(self);
        }
        match self.find_symbol(ENEMY_START) {
            Some((x, y)) => {
                proof {
                    lemma_first_place(self@, ENEMY_START, x as int, y as int);
                }
                Some((centre_of(x), centre_of(y)))
            },
            None => None,
        }
    }
}

/// The index of the cell that holds coordinate `c`.
pub fn cell_of(c: i32) -> (i: usize)
    ensures
        i == cell_index(c as int),
{
    if c < 0 {
        0
    } else {
        (c / (UNIT as i32)) as usize
    }
}

/// The coordinate of the middle of cell `i`.
pub fn centre_of(i: usize) -> (c: i32)
    requires
        i <= MAX_SIDE,
    ensures
        c == cell_centre(i as int),
{
    let unit: i32 = UNIT as i32;
    assert(unit == 65536);
    (i as i32) * unit + unit / 2
}

/// Reads the rows of a maze from `text`, one row of cell symbols on each
/// line.
pub fn load_maze(text: &str) -> (rows: Vec<Vec<char>>)
    ensures
        rows_view(rows@) == text_lines(text@),
{
    let mut rows: Vec<Vec<char>> = Vec::new();
    let mut row: Vec<char> = Vec::new();
    let ghost mut start: int = 0;
    for c in it: text.chars()
        invariant
            it.seq() == text@,
            0 <= start <= it.index(),
            row@ == text@.subrange(start, it.index() as int),
            forall|j: int| start <= j < it.index() ==> text@[j] != '\n',
            text_lines(text@) == rows_view(rows@) + lines_from(text@, start),
    {
        let ghost at = it.index() as int;
        if c == '\n' {
            proof {
                lemma_line_end_is(text@, start, at);
            }
            let ghost line = row@;
            if row.len() > 0 && row[row.len() - 1] == '\r' {
                row.pop();
            }
            assert(row@ == strip_cr(line));
            let ghost before = rows@;
            rows.push(row);
            assert(rows_view(rows@) =~= rows_view(before) + seq![strip_cr(line)]);
            assert(rows_view(before) + (seq![strip_cr(line)] + lines_from(text@, at + 1))
                =~= rows_view(before) + seq![strip_cr(line)] + lines_from(text@, at + 1));
            row = Vec::new();
            proof {
                start = at + 1;
            }
            assert(row@ =~= text@.subrange(start, at + 1));
        } else {
            let ghost before = row@;
            row.push(c);
            assert(row@ =~= text@.subrange(start, at + 1));
        }
    }
    let ghost len = text@.len() as int;
    if row.len() > 0 {
        proof {
            lemma_line_end_is(text@, start, len);
        }
        let ghost line = row@;
        let ghost before = rows@;
        rows.push(row);
        assert(rows_view(rows@) =~= rows_view(before) + seq![line]);
    } else {
        assert(start == len);
        assert(rows_view(rows@) + lines_from(text@, start) =~= rows_view(rows@));
    }
    rows
}

} // verus!
