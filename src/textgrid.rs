use vstd::prelude::*;

use crate::text::{rectangular, rows_view};

verus! {

/// An input the grid reacts to.
pub enum GridEvent {
    /// A pointer press on the cell at this column and row, as computed from
    /// the press position; it may lie outside the grid.
    Press(usize, usize),
    /// A typed character.
    Character(char),
    Up,
    Down,
    Left,
    Right,
    /// Any other input: consumed and ignored.
    Other,
}

/// What the grid asks its owner to do after an event.
pub enum GridAction {
    /// Write the character into the cell at (column, row).
    Edit(char, (usize, usize)),
    /// The selection moved to (column, row).
    Select((usize, usize)),
    /// Nothing changed.
    Ignore,
}

/// One cell as drawn: its place, its character, and whether it is selected.
pub struct CellView {
    pub col: usize,
    pub row: usize,
    pub ch: char,
    pub selected: bool,
}

impl CellView {
    /// The cell at (`col`, `row`) holding `ch`.
    pub fn new(col: usize, row: usize, ch: char, selected: bool) -> (r: CellView)
        ensures
            r.col == col,
            r.row == row,
            r.ch == ch,
            r.selected == selected,
    {
        CellView { col, row, ch, selected }
    }
}

/// The interactive view of a document's grid: `width` columns, `height` rows
/// and the selected (column, row).
pub struct TextGrid<'a> {
    pub working_str: &'a Vec<Vec<char>>,
    pub width: usize,
    pub height: usize,
    pub selected: (usize, usize),
}

/// One step up or left: stops at 0.
pub open spec fn step_back(x: usize) -> usize {
    if x == 0 {
        0
    } else {
        (x - 1) as usize
    }
}

/// One step down or right in a dimension of `n` cells: stops at `n - 1`.
pub open spec fn step_forward(x: usize, n: usize) -> usize {
    if n == 0 {
        x
    } else if x + 1 < n {
        (x + 1) as usize
    } else {
        (n - 1) as usize
    }
}

/// The selection after an event, on a grid of `w` x `h` cells.
pub open spec fn next_selection(sel: (usize, usize), w: usize, h: usize, ev: GridEvent) -> (usize, usize) {
    match ev {
        GridEvent::Press(c, r) => if c < w && r < h { (c, r) } else { sel },
        GridEvent::Up => (sel.0, step_back(sel.1)),
        GridEvent::Down => (sel.0, step_forward(sel.1, h)),
        GridEvent::Left => (step_back(sel.0), sel.1),
        GridEvent::Right => (step_forward(sel.0, w), sel.1),
        _ => sel,
    }
}

/// What the owner is told after an event, on a grid of `w` x `h` cells.
pub open spec fn action_of(sel: (usize, usize), w: usize, h: usize, ev: GridEvent) -> GridAction {
    match ev {
        GridEvent::Character(ch) => GridAction::Edit(ch, sel),
        GridEvent::Press(c, r) => if c < w && r < h { GridAction::Select((c, r)) } else { GridAction::Ignore },
        GridEvent::Other => GridAction::Ignore,
        _ => GridAction::Select(next_selection(sel, w, h, ev)),
    }
}

/// The down arrow on the last row leaves the selection where it is.
pub proof fn lemma_down_at_bottom(sel: (usize, usize), w: usize, h: usize)
    requires
        h > 0,
        sel.1 == h - 1,
    ensures
        next_selection(sel, w, h, GridEvent::Down) == sel,
{
}

/// Arrow keys never move the selection out of a grid it lies in.
pub proof fn lemma_arrows_stay_inside(sel: (usize, usize), w: usize, h: usize, ev: GridEvent)
    requires
        sel.0 < w,
        sel.1 < h,
    ensures
        next_selection(sel, w, h, ev).0 < w,
        next_selection(sel, w, h, ev).1 < h,
{
}

/// A press whose cell lies at or past the last column or row selects nothing.
pub proof fn lemma_press_outside_ignored(sel: (usize, usize), w: usize, h: usize, c: usize, r: usize)
    requires
        c >= w || r >= h,
    ensures
        next_selection(sel, w, h, GridEvent::Press(c, r)) == sel,
        action_of(sel, w, h, GridEvent::Press(c, r)) == GridAction::Ignore,
{
}

impl<'a> TextGrid<'a> {
    /// The grid's characters, as rows.
    pub open spec fn cells(&self) -> Seq<Seq<char>> {
        rows_view(self.working_str@)
    }

    /// The characters form `height` rows of `width` columns.
    pub open spec fn wf(&self) -> bool {
        &&& self.cells().len() == self.height
        &&& rectangular(self.cells(), self.width as nat)
    }

    /// A view of `s`, `w` x `h` cells, with `sele` selected.
    pub fn new(s: &'a Vec<Vec<char>>, w: usize, h: usize, sele: (usize, usize)) -> (r: Self)
        ensures
            r.working_str == s,
            r.width == w,
            r.height == h,
            r.selected == sele,
    {
        TextGrid { working_str: s, width: w, height: h, selected: sele }
    }

    /// Whether the characters match the stated size.
    pub fn is_consistent(&self) -> (r: bool)
        ensures
            r == self.wf(),
    {
        if self.working_str.len() != self.height {
            return false;
        }
        let mut i: usize = 0;
        while i < self.working_str.len()
            invariant
                i <= self.working_str.len(),
                self.working_str.len() == self.height,
                forall|k: int| 0 <= k < i ==> #[trigger] self.cells()[k].len() == self.width,
            decreases self.working_str.len() - i,
        {
            if self.working_str[i].len() != self.width {
                assert(self.cells()[i as int].len() != self.width);
                return false;
            }
            i += 1;
        }
        true
    }

    /// The cells of column `i`, top to bottom.
    fn draw_column(&self, i: usize) -> (column: Vec<CellView>)
        requires
            self.wf(),
            i < self.width,
        ensures
            column.len() == self.height,
            forall|b: int|
                0 <= b < self.height ==> {
                    let c = #[trigger] column[b];
                    &&& c.col == i
                    &&& c.row == b
                    &&& c.ch == self.cells()[b][i as int]
                    &&& c.selected == (self.selected == (i, b as usize))
                },
    {
        let mut column: Vec<CellView> = Vec::new();
        let mut j: usize = 0;
        while j < self.height
            invariant
                self.wf(),
                i < self.width,
                j <= self.height,
                column.len() == j,
                forall|b: int|
                    0 <= b < j ==> {
                        let c = #[trigger] column[b];
                        &&& c.col == i
                        &&& c.row == b
                        &&& c.ch == self.cells()[b][i as int]
                        &&& c.selected == (self.selected == (i, b as usize))
                    },
            decreases self.height - j,
        {
            let line: &Vec<char> = &self.working_str[j];
            assert(self.cells()[j as int] == line@);
            let selected = self.selected.0 == i && self.selected.1 == j;
            column.push(CellView::new(i, j, line[i], selected));
            j += 1;
        }
        column
    }

    /// The cells to draw, column by column: entry `[i][j]` is the cell in
    /// column `i` and row `j`.
    pub fn draw_cells(&self) -> (r: Vec<Vec<CellView>>)
        requires
            self.wf(),
        ensures
            r.len() == self.width,
            forall|i: int| 0 <= i < self.width ==> #[trigger] r[i].len() == self.height,
            forall|i: int, j: int|
                0 <= i < self.width && 0 <= j < self.height ==> {
                    let c = #[trigger] r[i][j];
                    &&& c.col == i
                    &&& c.row == j
                    &&& c.ch == self.cells()[j][i]
                    &&& c.selected == (self.selected == (i as usize, j as usize))
                },
    {
        let mut r: Vec<Vec<CellView>> = Vec::new();
        let mut i: usize = 0;
        while i < self.width
            invariant
                self.wf(),
                i <= self.width,
                r.len() == i,
                forall|a: int| 0 <= a < i ==> #[trigger] r[a].len() == self.height,
                forall|a: int, b: int|
                    0 <= a < i && 0 <= b < self.height ==> {
                        let c = #[trigger] r[a][b];
                        &&& c.col == a
                        &&& c.row == b
                        &&& c.ch == self.cells()[b][a]
                        &&& c.selected == (self.selected == (a as usize, b as usize))
                    },
            decreases self.width - i,
        {
            let column = self.draw_column(i);
            r.push(column);
            i += 1;
        }
        r
    }

    /// Reacts to an input: a press inside the grid or an arrow key moves the
    /// selection (arrows stop at the edges), a character asks for an edit of the
    /// selected cell, anything else is ignored.
    pub fn on_event(&mut self, ev: GridEvent) -> (r: GridAction)
        ensures
            final(self).selected == next_selection(old(self).selected, old(self).width, old(self).height, ev),
            r == action_of(old(self).selected, old(self).width, old(self).height, ev),
            final(self).working_str == old(self).working_str,
            final(self).width == old(self).width,
            final(self).height == old(self).height,
    {
        match ev {
            GridEvent::Press(c, r) => {
                if c < self.width && r < self.height {
                    self.selected = (c, r);
                    GridAction::Select((c, r))
                } else {
                    GridAction::Ignore
                }
            },
            GridEvent::Character(ch) => GridAction::Edit(ch, self.selected),
            GridEvent::Up => {
                if self.selected.1 > 0 {
                    self.selected.1 = self.selected.1 - 1;
                }
                GridAction::Select(self.selected)
            },
            GridEvent::Down => {
                if self.height > 0 {
                    self.selected.1 = if self.selected.1 < self.height - 1 {
                        self.selected.1 + 1
                    } else {
                        self.height - 1
                    };
                }
                GridAction::Select(self.selected)
            },
            GridEvent::Left => {
                if self.selected.0 > 0 {
                    self.selected.0 = self.selected.0 - 1;
                }
                GridAction::Select(self.selected)
            },
            GridEvent::Right => {
                if self.width > 0 {
                    self.selected.0 = if self.selected.0 < self.width - 1 {
                        self.selected.0 + 1
                    } else {
                        self.width - 1
                    };
                }
                GridAction::Select(self.selected)
            },
            GridEvent::Other => GridAction::Ignore,
        }
    }
}

} // verus!
