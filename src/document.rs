use std::path::PathBuf;
use vstd::prelude::*;

use crate::render::{render_svg, svg_of};
use crate::text::{
    fit, fit_all, lemma_lines_of_text, lemma_max_len_bound, lines_of, max_len, plain_row,
    rectangular, rows_to_text, rows_view, split_lines, text_of,
};

verus! {

#[verifier::external_type_specification]
#[verifier::external_body]
pub struct ExPathBuf(PathBuf);

/// Width and height of a new document.
pub const DEFAULT_SIZE: usize = 10;

/// `h` rows of `w` blanks.
pub open spec fn blank_rows(w: nat, h: nat) -> Seq<Seq<char>> {
    Seq::new(h, |_i: int| Seq::new(w, |_j: int| ' '))
}

/// A coordinate lies inside a dimension of `n` cells, or is 0 when there are none.
pub open spec fn in_range(x: usize, n: usize) -> bool {
    x < n || x == 0
}

/// The nearest coordinate inside a dimension of `n` cells.
pub open spec fn clamp_to(x: usize, n: usize) -> usize {
    if x < n {
        x
    } else if n == 0 {
        0
    } else {
        (n - 1) as usize
    }
}

/// The rows kept or added when the number of rows becomes `n`.
pub open spec fn fit_height(rows: Seq<Seq<char>>, w: nat, n: nat) -> Seq<Seq<char>> {
    Seq::new(n, |i: int| if i < rows.len() { rows[i] } else { Seq::new(w, |_j: int| ' ') })
}

/// The kind of file a document is written as.
pub enum SaveType {
    Text,
    Svg,
}

impl SaveType {
    /// The file-dialog filter: its name and its one extension.
    pub fn filter(&self) -> (r: (&'static str, &'static str))
        ensures
            *self is Text ==> r.0@ == "text"@ && r.1@ == "txt"@,
            *self is Svg ==> r.0@ == "svg"@ && r.1@ == "svg"@,
    {
        match self {
            SaveType::Text => ("text", "txt"),
            SaveType::Svg => ("svg", "svg"),
        }
    }
}

/// Where a save goes.
pub enum SaveTarget {
    /// The path already remembered by the document.
    KnownPath,
    /// A path the user picks, with a filter for this kind of file.
    Ask(SaveType),
}

/// What to write, where, and whether the chosen path becomes the document's.
pub struct SaveRequest {
    pub content: String,
    pub target: SaveTarget,
    pub remember: bool,
}

impl SaveRequest {
    /// The request that writes a rendered diagram to an image file the user
    /// picks, without remembering that path.
    pub fn export_of(svg: String) -> (r: SaveRequest)
        ensures
            r.content == svg,
            r.target == SaveTarget::Ask(SaveType::Svg),
            !r.remember,
    {
        SaveRequest { content: svg, target: SaveTarget::Ask(SaveType::Svg), remember: false }
    }
}

/// The editor's document: the character grid, its size, the selected cell and
/// the path it was last saved to.
pub struct Ascvg {
    pub path: Option<PathBuf>,
    pub working_str: Vec<Vec<char>>,
    pub width: usize,
    pub height: usize,
    pub selected: (usize, usize),
}

fn blank_row(w: usize) -> (r: Vec<char>)
    ensures
        r@ == Seq::new(w as nat, |_j: int| ' '),
{
    let mut r: Vec<char> = Vec::new();
    while r.len() < w
        invariant
            r.len() <= w,
            forall|j: int| 0 <= j < r.len() ==> r[j] == ' ',
        decreases w - r.len(),
    {
        r.push(' ');
    }
    assert(r@ =~= Seq::new(w as nat, |_j: int| ' '));
    r
}

fn blank_grid(w: usize, h: usize) -> (r: Vec<Vec<char>>)
    ensures
        rows_view(r@) == blank_rows(w as nat, h as nat),
{
    let mut r: Vec<Vec<char>> = Vec::new();
    while r.len() < h
        invariant
            r.len() <= h,
            forall|i: int| 0 <= i < r.len() ==> r[i]@ == Seq::new(w as nat, |_j: int| ' '),
        decreases h - r.len(),
    {
        r.push(blank_row(w));
    }
    assert(rows_view(r@) =~= blank_rows(w as nat, h as nat));
    r
}

/// A row cut or padded with blanks to `n` characters.
fn fit_row(row: &Vec<char>, n: usize) -> (r: Vec<char>)
    ensures
        r@ == fit(row@, n as nat),
{
    let mut r: Vec<char> = Vec::new();
    let mut j: usize = 0;
    while j < n
        invariant
            j <= n,
            r.len() == j,
            forall|k: int| 0 <= k < j ==> r[k] == fit(row@, n as nat)[k],
        decreases n - j,
    {
        if j < row.len() {
            r.push(row[j]);
        } else {
            r.push(' ');
        }
        j += 1;
    }
    assert(r@ =~= fit(row@, n as nat));
    r
}

/// Loading the text form of a rectangular grid gives back the same rows,
/// width and height, when no row holds a line break.
pub proof fn lemma_text_round_trip(rows: Seq<Seq<char>>, w: nat)
    requires
        rectangular(rows, w),
        forall|i: int| 0 <= i < rows.len() ==> plain_row(#[trigger] rows[i]),
        rows.len() > 0 || w == 0,
    ensures
        lines_of(text_of(rows)).len() == rows.len(),
        max_len(lines_of(text_of(rows))) == w,
        fit_all(lines_of(text_of(rows)), max_len(lines_of(text_of(rows)))) == rows,
{
    lemma_lines_of_text(rows);
    lemma_max_len_bound(rows);
    if rows.len() > 0 {
        let k = choose|k: int| 0 <= k < rows.len() && #[trigger] rows[k].len() == max_len(rows);
        assert(rows[k].len() == w);
    }
    assert forall|i: int| 0 <= i < rows.len() implies #[trigger] fit_all(rows, w)[i] == rows[i] by {
        assert(fit(rows[i], w) =~= rows[i]);
    }
    assert(fit_all(rows, w) =~= rows);
}

/// Narrowing every row and widening it back does not restore what was cut
/// off: those cells hold blanks; the cells kept are unchanged.
pub proof fn lemma_narrow_then_widen(rows: Seq<Seq<char>>, w: nat, n: nat)
    requires
        rectangular(rows, w),
        n <= w,
    ensures
        fit_all(fit_all(rows, n), w).len() == rows.len(),
        forall|i: int, j: int|
            0 <= i < rows.len() && n <= j < w ==> #[trigger] fit_all(fit_all(rows, n), w)[i][j] == ' ',
        forall|i: int, j: int|
            0 <= i < rows.len() && 0 <= j < n ==> #[trigger] fit_all(fit_all(rows, n), w)[i][j] == rows[i][j],
{
}

/// After a resize the selection is clamped into the new size: it stays
/// where it was when it still fits, else it moves to the last cell.
pub proof fn lemma_clamp_inside(x: usize, sz: usize)
    ensures
        sz > 0 ==> clamp_to(x, sz) < sz,
        in_range(clamp_to(x, sz), sz),
        x < sz ==> clamp_to(x, sz) == x,
{
}

impl Ascvg {
    /// The grid as rows of characters.
    pub open spec fn cells(&self) -> Seq<Seq<char>> {
        rows_view(self.working_str@)
    }

    /// `height` rows of `width` characters, and the selection inside them.
    pub open spec fn wf(&self) -> bool {
        &&& self.cells().len() == self.height
        &&& rectangular(self.cells(), self.width as nat)
        &&& in_range(self.selected.0, self.width)
        &&& in_range(self.selected.1, self.height)
    }

    /// A blank document of the default size, not yet saved anywhere.
    pub fn new() -> (r: Ascvg)
        ensures
            r.wf(),
            r.cells() == blank_rows(DEFAULT_SIZE as nat, DEFAULT_SIZE as nat),
            r.width == DEFAULT_SIZE,
            r.height == DEFAULT_SIZE,
            r.selected == (0usize, 0usize),
            r.path is None,
    {
        Ascvg {
            path: None,
            working_str: blank_grid(DEFAULT_SIZE, DEFAULT_SIZE),
            width: DEFAULT_SIZE,
            height: DEFAULT_SIZE,
            selected: (0, 0),
        }
    }

    /// Replaces the grid by `w` x `h` blanks and selects the first cell.
    pub fn reset(&mut self, w: usize, h: usize)
        ensures
            final(self).wf(),
            final(self).cells() == blank_rows(w as nat, h as nat),
            final(self).width == w,
            final(self).height == h,
            final(self).selected == (0usize, 0usize),
            final(self).path == old(self).path,
    {
        self.working_str = blank_grid(w, h);
        self.width = w;
        self.height = h;
        self.selected = (0, 0);
    }

    /// Starts a new blank document of the default size that has no path.
    pub fn new_file(&mut self)
        ensures
            final(self).wf(),
            final(self).cells() == blank_rows(DEFAULT_SIZE as nat, DEFAULT_SIZE as nat),
            final(self).width == DEFAULT_SIZE,
            final(self).height == DEFAULT_SIZE,
            final(self).selected == (0usize, 0usize),
            final(self).path is None,
    {
        self.reset(DEFAULT_SIZE, DEFAULT_SIZE);
        self.path = None;
    }

    /// Loads a text: one row per line, every row padded with blanks to the
    /// longest line; the first cell is selected and the path is kept.
    pub fn load_from_text(&mut self, content: &str)
        ensures
            final(self).wf(),
            final(self).cells() == fit_all(lines_of(content@), max_len(lines_of(content@))),
            final(self).width == max_len(lines_of(content@)),
            final(self).height == lines_of(content@).len(),
            final(self).selected == (0usize, 0usize),
            final(self).path == old(self).path,
    {
        let lines = split_lines(content);
        let ghost ls = lines_of(content@);
        let mut w: usize = 0;
        let mut i: usize = 0;
        while i < lines.len()
            invariant
                i <= lines.len(),
                rows_view(lines@) == ls,
                w == max_len(ls.take(i as int)),
            decreases lines.len() - i,
        {
            assert(ls.take(i + 1).drop_last() =~= ls.take(i as int));
            assert(ls[i as int] == lines[i as int]@);
            if lines[i].len() > w {
                w = lines[i].len();
            }
            i += 1;
        }
        assert(ls.take(i as int) =~= ls);
        let mut rows: Vec<Vec<char>> = Vec::new();
        let mut k: usize = 0;
        while k < lines.len()
            invariant
                k <= lines.len(),
                rows_view(lines@) == ls,
                rows.len() == k,
                forall|m: int| 0 <= m < k ==> rows[m]@ == fit(ls[m], w as nat),
            decreases lines.len() - k,
        {
            assert(ls[k as int] == lines[k as int]@);
            rows.push(fit_row(&lines[k], w));
            k += 1;
        }
        assert(rows_view(rows@) =~= fit_all(ls, w as nat));
        self.working_str = rows;
        self.width = w;
        self.height = lines.len();
        self.selected = (0, 0);
    }

    /// Cuts or pads every row to `sz` characters; characters cut off are gone.
    /// The selected column is clamped into the new width.
    pub fn resize_width(&mut self, sz: usize)
        requires
            old(self).wf(),
        ensures
            final(self).wf(),
            final(self).cells() == fit_all(old(self).cells(), sz as nat),
            final(self).width == sz,
            final(self).height == old(self).height,
            final(self).selected == (clamp_to(old(self).selected.0, sz), old(self).selected.1),
            final(self).path == old(self).path,
    {
        let mut rows: Vec<Vec<char>> = Vec::new();
        let mut k: usize = 0;
        while k < self.working_str.len()
            invariant
                k <= self.working_str.len(),
                rows.len() == k,
                forall|m: int| 0 <= m < k ==> rows[m]@ == fit(self.cells()[m], sz as nat),
            decreases self.working_str.len() - k,
        {
            rows.push(fit_row(&self.working_str[k], sz));
            k += 1;
        }
        assert(rows_view(rows@) =~= fit_all(self.cells(), sz as nat));
        self.working_str = rows;
        self.width = sz;
        if self.selected.0 >= sz {
            self.selected.0 = if sz == 0 { 0 } else { sz - 1 };
        }
    }

    /// Cuts rows off the bottom, or adds blank rows there, to have `sz` rows.
    /// The selected row is clamped into the new height.
    pub fn resize_height(&mut self, sz: usize)
        requires
            old(self).wf(),
        ensures
            final(self).wf(),
            final(self).cells() == fit_height(old(self).cells(), old(self).width as nat, sz as nat),
            final(self).width == old(self).width,
            final(self).height == sz,
            final(self).selected == (old(self).selected.0, clamp_to(old(self).selected.1, sz)),
            final(self).path == old(self).path,
    {
        let ghost before = self.cells();
        let w = self.width;
        if sz > self.height {
            while self.working_str.len() < sz
                invariant
                    self.height <= self.working_str.len() <= sz,
                    self.height == before.len(),
                    self.width == w,
                    self.selected == old(self).selected,
                    self.path == old(self).path,
                    forall|m: int| 0 <= m < self.working_str.len() ==> #[trigger] self.cells()[m]
                        == fit_height(before, w as nat, sz as nat)[m],
                decreases sz - self.working_str.len(),
            {
                let ghost prev = self.working_str@;
                let ghost prev_cells = self.cells();
                let n = self.working_str.len();
                self.working_str.push(blank_row(w));
                assert forall|m: int| 0 <= m < self.working_str.len() implies #[trigger] self.cells()[m]
                    == fit_height(before, w as nat, sz as nat)[m] by {
                    if m < n {
                        assert(self.working_str@[m] == prev[m]);
                        assert(prev_cells[m] == prev[m]@);
                    }
                }
            }
        } else {
            self.working_str.truncate(sz);
        }
        assert(self.cells() =~= fit_height(before, w as nat, sz as nat));
        assert forall|i: int| 0 <= i < self.cells().len() implies #[trigger] self.cells()[i].len() == w by {
            if i < before.len() {
                assert(before[i].len() == w);
            }
        }
        self.height = sz;
        if self.selected.1 >= sz {
            self.selected.1 = if sz == 0 { 0 } else { sz - 1 };
        }
    }

    /// Replaces the character of one cell.
    pub fn set_cell(&mut self, col: usize, row: usize, ch: char)
        requires
            old(self).wf(),
            col < old(self).width,
            row < old(self).height,
        ensures
            final(self).wf(),
            final(self).cells() == old(self).cells().update(
                row as int,
                old(self).cells()[row as int].update(col as int, ch),
            ),
            final(self).width == old(self).width,
            final(self).height == old(self).height,
            final(self).selected == old(self).selected,
            final(self).path == old(self).path,
    {
        let ghost before = self.cells();
        assert(self.cells()[row as int].len() == self.width);
        self.working_str[row][col] = ch;
        assert(self.cells() =~= before.update(row as int, before[row as int].update(col as int, ch)));
    }

    /// Types `ch` into the cell at `sel` and selects that cell.
    pub fn change_char(&mut self, ch: char, sel: (usize, usize))
        requires
            old(self).wf(),
            sel.0 < old(self).width,
            sel.1 < old(self).height,
        ensures
            final(self).wf(),
            final(self).cells() == old(self).cells().update(
                sel.1 as int,
                old(self).cells()[sel.1 as int].update(sel.0 as int, ch),
            ),
            final(self).width == old(self).width,
            final(self).height == old(self).height,
            final(self).selected == sel,
            final(self).path == old(self).path,
    {
        self.set_cell(sel.0, sel.1, ch);
        self.selected = sel;
    }

    /// Moves the selection to `sel` when that cell exists; otherwise keeps it.
    pub fn select(&mut self, sel: (usize, usize))
        requires
            old(self).wf(),
        ensures
            final(self).wf(),
            sel.0 < old(self).width && sel.1 < old(self).height ==> final(self).selected == sel,
            !(sel.0 < old(self).width && sel.1 < old(self).height) ==> final(self).selected
                == old(self).selected,
            final(self).working_str == old(self).working_str,
            final(self).width == old(self).width,
            final(self).height == old(self).height,
            final(self).path == old(self).path,
    {
        if sel.0 < self.width && sel.1 < self.height {
            self.selected = sel;
        }
    }

    /// The text form of the grid: each row followed by a newline, trailing
    /// blanks kept.
    pub fn to_text(&self) -> (r: String)
        ensures
            r@ == text_of(self.cells()),
    {
        rows_to_text(&self.working_str)
    }

    /// The grid drawn as a diagram.
    pub fn preview(&self) -> (r: String)
        ensures
            r@ == svg_of(text_of(self.cells())),
    {
        let t = self.to_text();
        render_svg(t.as_str())
    }

    /// Saves the text form: to the remembered path if there is one, else to a
    /// text file the user picks, which is then remembered.
    pub fn save_file(&self) -> (r: SaveRequest)
        ensures
            r.content@ == text_of(self.cells()),
            self.path is Some ==> r.target is KnownPath && !r.remember,
            self.path is None ==> r.target == SaveTarget::Ask(SaveType::Text) && r.remember,
    {
        if self.path.is_some() {
            SaveRequest { content: self.to_text(), target: SaveTarget::KnownPath, remember: false }
        } else {
            self.save_file_as()
        }
    }

    /// Saves the text form to a text file the user picks, which is then
    /// remembered.
    pub fn save_file_as(&self) -> (r: SaveRequest)
        ensures
            r.content@ == text_of(self.cells()),
            r.target == SaveTarget::Ask(SaveType::Text),
            r.remember,
    {
        SaveRequest { content: self.to_text(), target: SaveTarget::Ask(SaveType::Text), remember: true }
    }

    /// Writes the diagram to an image file the user picks; the remembered path
    /// stays as it is.
    pub fn export_file(&self) -> (r: SaveRequest)
        ensures
            r.content@ == svg_of(text_of(self.cells())),
            r.target == SaveTarget::Ask(SaveType::Svg),
            !r.remember,
    {
        SaveRequest::export_of(self.preview())
    }

    /// Records that a request was written to `p`.
    pub fn saved_to(&mut self, req: &SaveRequest, p: PathBuf)
        ensures
            final(self).working_str == old(self).working_str,
            final(self).width == old(self).width,
            final(self).height == old(self).height,
            final(self).selected == old(self).selected,
            req.remember ==> final(self).path == Some(p),
            !req.remember ==> final(self).path == old(self).path,
    {
        if req.remember {
            self.path = Some(p);
        }
    }
}

} // verus!
