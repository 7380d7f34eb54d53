//! The terminal screen: a fixed grid of characters with a cursor, and the
//! effect that each action of a control stream has on it.

use crate::text::{string_of, text_of, trim_end, trimmed_end};
use vstd::prelude::*;

verus! {

/// Number of columns of the screen.
pub const WIDTH: usize = 160;

/// Number of rows of the screen.
pub const HEIGHT: usize = 24;

/// The mathematical model of a screen: its cells by row and column, and
/// the cursor. The cursor may stand outside the cells; what is printed
/// there is dropped.
pub struct Grid {
    pub cells: Seq<Seq<char>>,
    pub cursor_x: nat,
    pub cursor_y: nat,
}

/// The number that a cursor-position sequence gives for coordinate `index`:
/// the first value of that parameter, or 1 where it is absent, less one and
/// not below zero.
pub open spec fn coordinate(params: Seq<Seq<u16>>, index: int) -> nat {
    let value: int = if index < params.len() && params[index].len() > 0 {
        params[index][0] as int
    } else {
        1
    };
    if value >= 1 {
        (value - 1) as nat
    } else {
        0
    }
}

impl Grid {
    /// The grid has `HEIGHT` rows of `WIDTH` cells.
    pub open spec fn wf(self) -> bool {
        &&& self.cells.len() == HEIGHT
        &&& forall|r: int| 0 <= r < HEIGHT ==> (#[trigger] self.cells[r]).len() == WIDTH
    }

    /// The cleared screen: every cell a space, the cursor at the origin.
    pub open spec fn blank() -> Grid {
        Grid {
            cells: Seq::new(HEIGHT as nat, |r: int| Seq::new(WIDTH as nat, |c: int| ' ')),
            cursor_x: 0,
            cursor_y: 0,
        }
    }

    /// Prints `c` at the cursor if the cursor is on the grid, and moves the
    /// cursor one column right; off the grid nothing changes.
    pub open spec fn print(self, c: char) -> Grid {
        if self.cursor_y < HEIGHT && self.cursor_x < WIDTH {
            Grid {
                cells: self.cells.update(
                    self.cursor_y as int,
                    self.cells[self.cursor_y as int].update(self.cursor_x as int, c),
                ),
                cursor_x: self.cursor_x + 1,
                cursor_y: self.cursor_y,
            }
        } else {
            self
        }
    }

    /// Executes a control byte: line feed, carriage return or form feed;
    /// any other byte changes nothing.
    pub open spec fn execute(self, byte: u8) -> Grid {
        if byte == 0x0a {
            Grid {
                cells: self.cells,
                cursor_x: 0,
                cursor_y: if self.cursor_y + 1 < HEIGHT {
                    self.cursor_y + 1
                } else {
                    (HEIGHT - 1) as nat
                },
            }
        } else if byte == 0x0d {
            Grid { cells: self.cells, cursor_x: 0, cursor_y: self.cursor_y }
        } else if byte == 0x0c {
            Grid::blank()
        } else {
            self
        }
    }

    /// Performs a control sequence: `H` and `f` place the cursor, `J` clears
    /// the screen; any other changes nothing.
    pub open spec fn csi_dispatch(self, params: Seq<Seq<u16>>, action: char) -> Grid {
        if action == 'H' || action == 'f' {
            Grid {
                cells: self.cells,
                cursor_x: coordinate(params, 1),
                cursor_y: coordinate(params, 0),
            }
        } else if action == 'J' {
            Grid::blank()
        } else {
            self
        }
    }

    /// The text of row `row` without trailing white space.
    pub open spec fn row_text(self, row: int) -> Seq<char> {
        trim_end(self.cells[row])
    }
}

/// The values of the parameters of a control sequence.
pub open spec fn param_values(params: Vec<Vec<u16>>) -> Seq<Seq<u16>> {
    Seq::new(params.len() as nat, |i: int| params[i]@)
}

/// One action that a control stream asks of the screen.
#[derive(Debug, PartialEq, Eq)]
pub enum TermAction {
    /// Print a character at the cursor.
    Print(char),
    /// Execute a control byte.
    Execute(u8),
    /// Perform a control sequence: its parameters, each with its
    /// subparameters, and its final character.
    CsiDispatch { params: Vec<Vec<u16>>, action: char },
}

impl Grid {
    /// The grid after one action.
    pub open spec fn perform(self, action: TermAction) -> Grid {
        match action {
            TermAction::Print(c) => self.print(c),
            TermAction::Execute(byte) => self.execute(byte),
            TermAction::CsiDispatch { params, action } => self.csi_dispatch(
                param_values(params),
                action,
            ),
        }
    }

    /// The grid after a sequence of actions, performed in order.
    pub open spec fn run(self, actions: Seq<TermAction>) -> Grid
        decreases actions.len(),
    {
        if actions.len() == 0 {
            self
        } else {
            self.run(actions.drop_last()).perform(actions.last())
        }
    }
}

/// Every action keeps the grid at its size.
pub proof fn lemma_perform_wf(grid: Grid, action: TermAction)
    requires
        grid.wf(),
    ensures
        grid.perform(action).wf(),
{
}

/// Every sequence of actions keeps the grid at its size: nothing is ever
/// written outside it, and it never grows.
pub proof fn lemma_run_wf(grid: Grid, actions: Seq<TermAction>)
    requires
        grid.wf(),
    ensures
        grid.run(actions).wf(),
    decreases actions.len(),
{
    if actions.len() > 0 {
        lemma_run_wf(grid, actions.drop_last());
        lemma_perform_wf(grid.run(actions.drop_last()), actions.last());
    }
}

/// Running two sequences of actions one after the other is running their
/// concatenation.
pub proof fn lemma_run_concat(grid: Grid, first: Seq<TermAction>, second: Seq<TermAction>)
    ensures
        grid.run(first + second) == grid.run(first).run(second),
    decreases second.len(),
{
    if second.len() == 0 {
        assert(first + second == first);
    } else {
        assert((first + second).drop_last() == first + second.drop_last());
        lemma_run_concat(grid, first, second.drop_last());
    }
}

/// Printing a run of characters with the cursor on a row of the grid, at
/// or before the right edge, moves the cursor right by the length of the
/// run but not past the edge, writes the characters that fit into the
/// cells from the cursor on, and changes no other cell: what does not fit
/// is dropped and the grid keeps its size.
pub proof fn lemma_print_run(grid: Grid, actions: Seq<TermAction>)
    requires
        grid.wf(),
        grid.cursor_y < HEIGHT,
        grid.cursor_x <= WIDTH,
        forall|i: int| 0 <= i < actions.len() ==> #[trigger] actions[i] is Print,
    ensures
        grid.run(actions).wf(),
        grid.run(actions).cursor_y == grid.cursor_y,
        grid.run(actions).cursor_x == if grid.cursor_x + actions.len() <= WIDTH {
            grid.cursor_x + actions.len()
        } else {
            WIDTH as nat
        },
        forall|r: int, c: int|
            0 <= r < HEIGHT && 0 <= c < WIDTH ==> #[trigger] grid.run(actions).cells[r][c] == if r
                == grid.cursor_y && grid.cursor_x <= c < grid.cursor_x + actions.len() {
                actions[c - grid.cursor_x]->Print_0
            } else {
                grid.cells[r][c]
            },
    decreases actions.len(),
{
    if actions.len() > 0 {
        let head = actions.drop_last();
        lemma_print_run(grid, head);
        let before = grid.run(head);
        let after = before.print(actions.last()->Print_0);
        assert(grid.run(actions) == after);
        assert forall|r: int, c: int| 0 <= r < HEIGHT && 0 <= c < WIDTH implies #[trigger] after.cells[r][c]
            == if r == grid.cursor_y && grid.cursor_x <= c < grid.cursor_x + actions.len() {
            actions[c - grid.cursor_x]->Print_0
        } else {
            grid.cells[r][c]
        } by {
            assert(before.cells[r][c] == if r == grid.cursor_y && grid.cursor_x <= c
                < grid.cursor_x + head.len() {
                head[c - grid.cursor_x]->Print_0
            } else {
                grid.cells[r][c]
            });
        }
    }
}

/// A form feed and a clear-display sequence both leave the screen as a
/// new one is: every cell blank, the cursor at the origin.
pub proof fn lemma_clear_gives_blank(grid: Grid, params: Seq<Seq<u16>>)
    ensures
        grid.execute(0x0c) == Grid::blank(),
        grid.csi_dispatch(params, 'J') == Grid::blank(),
        Grid::blank().wf(),
        forall|r: int, c: int|
            0 <= r < HEIGHT && 0 <= c < WIDTH ==> #[trigger] Grid::blank().cells[r][c] == ' ',
        Grid::blank().cursor_x == 0 && Grid::blank().cursor_y == 0,
{
}

/// The screen of the terminal.
pub struct Screen {
    rows: Vec<Vec<char>>,
    cursor_x: usize,
    cursor_y: usize,
}

impl View for Screen {
    type V = Grid;

    closed spec fn view(&self) -> Grid {
        Grid {
            cells: Seq::new(self.rows.len() as nat, |r: int| self.rows[r]@),
            cursor_x: self.cursor_x as nat,
            cursor_y: self.cursor_y as nat,
        }
    }
}

fn blank_row() -> (row: Vec<char>)
    ensures
        row@ == Seq::new(WIDTH as nat, |c: int| ' '),
{
    let mut row: Vec<char> = Vec::new();
    while row.len() < WIDTH
        invariant
            row.len() <= WIDTH,
            forall|c: int| 0 <= c < row.len() ==> row[c] == ' ',
        decreases WIDTH - row.len(),
    {
        row.push(' ');
    }
    assert(row@ =~= Seq::new(WIDTH as nat, |c: int| ' '));
    row
}

fn blank_rows() -> (rows: Vec<Vec<char>>)
    ensures
        rows.len() == HEIGHT,
        forall|r: int| 0 <= r < HEIGHT ==> rows[r]@ == Seq::new(WIDTH as nat, |c: int| ' '),
{
    let mut rows: Vec<Vec<char>> = Vec::new();
    while rows.len() < HEIGHT
        invariant
            rows.len() <= HEIGHT,
            forall|r: int|
                0 <= r < rows.len() ==> rows[r]@ == Seq::new(WIDTH as nat, |c: int| ' '),
        decreases HEIGHT - rows.len(),
    {
        rows.push(blank_row());
    }
    rows
}

impl Screen {
    /// A cleared screen.
    pub fn new() -> (screen: Screen)
        ensures
            screen@ == Grid::blank(),
            screen@.wf(),
    {
        let screen = Screen { rows: blank_rows(), cursor_x: 0, cursor_y: 0 };
        assert(screen@.cells =~= Grid::blank().cells);
        screen
    }

    /// Clears the screen and puts the cursor at the origin.
    pub fn reset(&mut self)
        ensures
            final(self)@ == Grid::blank(),
            final(self)@.wf(),
    {
        self.rows = blank_rows();
        self.cursor_x = 0;
        self.cursor_y = 0;
        assert(self@.cells =~= Grid::blank().cells);
    }

    /// The column of the cursor, counted from 0.
    pub fn cursor_x(&self) -> (x: usize)
        ensures
            x == self@.cursor_x,
    {
        self.cursor_x
    }

    /// The row of the cursor, counted from 0.
    pub fn cursor_y(&self) -> (y: usize)
        ensures
            y == self@.cursor_y,
    {
        self.cursor_y
    }

    /// The text of a row without trailing white space, if the row exists.
    pub fn get_row(&self, row: usize) -> (r: Option<String>)
        ensures
            text_of(r) == if row < self@.cells.len() {
                Some(self@.row_text(row as int))
            } else {
                None
            },
    {
        if row < self.rows.len() {
            Some(string_of(&trimmed_end(&self.rows[row])))
        } else {
            None
        }
    }

    /// Prints a character at the cursor.
    pub fn print(&mut self, c: char)
        requires
            old(self)@.wf(),
        ensures
            final(self)@ == old(self)@.print(c),
            final(self)@.wf(),
    {
        if self.cursor_y < HEIGHT && self.cursor_x < WIDTH {
            assert(self@.cells[self.cursor_y as int] == self.rows[self.cursor_y as int]@);
            self.rows[self.cursor_y][self.cursor_x] = c;
            self.cursor_x += 1;
            assert(self@.cells =~= old(self)@.print(c).cells);
        }
    }

    /// Executes a control byte.
    pub fn execute(&mut self, byte: u8)
        requires
            old(self)@.wf(),
        ensures
            final(self)@ == old(self)@.execute(byte),
            final(self)@.wf(),
    {
        match byte {
            0x0a => {
                if self.cursor_y < HEIGHT - 1 {
                    self.cursor_y += 1;
                } else {
                    self.cursor_y = HEIGHT - 1;
                }
                self.cursor_x = 0;
            },
            0x0d => {
                self.cursor_x = 0;
            },
            0x0c => {
                self.reset();
            },
            _ => {},
        }
    }

    /// Performs a control sequence with the given parameters and final
    /// character.
    pub fn csi_dispatch(&mut self, params: &Vec<Vec<u16>>, action: char)
        requires
            old(self)@.wf(),
        ensures
            final(self)@ == old(self)@.csi_dispatch(param_values(*params), action),
            final(self)@.wf(),
    {
        match action {
            'H' | 'f' => {
                self.cursor_y = coordinate_of(params, 0);
                self.cursor_x = coordinate_of(params, 1);
            },
            'J' => {
                self.reset();
            },
            _ => {},
        }
    }

    /// Performs one action.
    pub fn apply(&mut self, action: &TermAction)
        requires
            old(self)@.wf(),
        ensures
            final(self)@ == old(self)@.perform(*action),
            final(self)@.wf(),
    {
        match action {
            TermAction::Print(c) => self.print(*c),
            TermAction::Execute(byte) => self.execute(*byte),
            TermAction::CsiDispatch { params, action } => self.csi_dispatch(params, *action),
        }
    }

    /// Performs a sequence of actions in order.
    pub fn apply_all(&mut self, actions: &Vec<TermAction>)
        requires
            old(self)@.wf(),
        ensures
            final(self)@ == old(self)@.run(actions@),
            final(self)@.wf(),
    {
        let mut i: usize = 0;
        assert(actions@.take(0) == Seq::<TermAction>::empty());
        while i < actions.len()
            invariant
                i <= actions.len(),
                self@.wf(),
                self@ == old(self)@.run(actions@.take(i as int)),
            decreases actions.len() - i,
        {
            assert(actions@.take(i + 1).drop_last() == actions@.take(i as int));
            self.apply(&actions[i]);
            i += 1;
        }
        assert(actions@.take(i as int) == actions@);
    }
}

fn coordinate_of(params: &Vec<Vec<u16>>, index: usize) -> (r: usize)
    ensures
        r == coordinate(param_values(*params), index as int),
{
    let value: usize = if index < params.len() && params[index].len() > 0 {
        params[index][0] as usize
    } else {
        1
    };
    if value >= 1 {
        value - 1
    } else {
        0
    }
}

} // verus!
