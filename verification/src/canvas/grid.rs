//! A 2D grid of cells addressed by (display-column, row).
use vstd::prelude::*;

use crate::canvas::cell::Cell;
use crate::error::{ErrorView, UnidError};
use crate::textops::{
    is_ws,
    join, join_spec, push_str, seqs_of, string_from_chars, trim_end_chars, trim_end_spec,
};
use crate::width::{char_width, spec_char_width, spec_str_width};

verus! {

/// A 2D grid of cells addressed by (display-column, row).
pub struct Canvas {
    width: usize,
    height: usize,
    grid: Vec<Vec<Cell>>,
    /// Tracks which object index owns each cell (for collision reporting).
    owner: Vec<Vec<Option<usize>>>,
}

/// The value of a canvas: its size, its cells and the owner of each cell,
/// indexed by row, then column.
pub struct CanvasView {
    pub width: usize,
    pub height: usize,
    pub cells: Seq<Seq<Cell>>,
    pub owners: Seq<Seq<Option<usize>>>,
}

/// A canvas value of consistent shape.
pub open spec fn shaped(m: CanvasView) -> bool {
    &&& m.cells.len() == m.height
    &&& m.owners.len() == m.height
    &&& forall|r: int| 0 <= r < m.height ==> #[trigger] m.cells[r].len() == m.width
    &&& forall|r: int| 0 <= r < m.height ==> #[trigger] m.owners[r].len() == m.width
    &&& m.width < usize::MAX
    &&& m.height < usize::MAX
}

impl View for Canvas {
    type V = CanvasView;

    closed spec fn view(&self) -> CanvasView {
        CanvasView {
            width: self.width,
            height: self.height,
            cells: self.grid@.map_values(|r: Vec<Cell>| r@),
            owners: self.owner@.map_values(|r: Vec<Option<usize>>| r@),
        }
    }
}

/// A blank canvas value: every cell a space, no owners.
pub open spec fn blank(width: usize, height: usize) -> CanvasView {
    CanvasView {
        width,
        height,
        cells: Seq::new(height as nat, |r: int| Seq::new(width as nat, |c: int| Cell { ch: ' ', is_continuation: false })),
        owners: Seq::new(height as nat, |r: int| Seq::new(width as nat, |c: int| None::<usize>)),
    }
}

/// A cell that blocks drawing when collision detection is on.
pub open spec fn occupied(c: Cell) -> bool {
    c.ch != ' ' && !c.is_continuation
}

/// The error for drawing object `idx` on an occupied cell: one cell of
/// overlap, reported against the cell's owner (0 when it has none).
pub open spec fn cell_collision(m: CanvasView, col: int, row: int, idx: usize) -> ErrorView {
    ErrorView::Collision {
        incoming_idx: idx,
        incoming_desc: Seq::empty(),
        existing_idx: match m.owners[row][col] {
            Some(o) => o,
            None => 0,
        },
        existing_desc: Seq::empty(),
        overlap_col: col as usize,
        overlap_row: row as usize,
        overlap_end_col: col as usize,
        overlap_end_row: row as usize,
        overlap_w: 1,
        overlap_h: 1,
    }
}

/// `m` with cell (col, row) set to `cell`, owned by `idx`.
pub open spec fn place(m: CanvasView, col: int, row: int, cell: Cell, idx: usize) -> CanvasView {
    CanvasView {
        cells: m.cells.update(row, m.cells[row].update(col, cell)),
        owners: m.owners.update(row, m.owners[row].update(col, Some(idx))),
        ..m
    }
}

/// The result of putting `ch` at (col, row) for object `idx`: out of bounds
/// unless all its columns are on the canvas; with `collision`, refused on an
/// occupied cell; else the character (and for a wide character a
/// continuation cell) placed and owned by `idx`.
pub open spec fn put_spec(
    m: CanvasView,
    col: int,
    row: int,
    ch: char,
    collision: bool,
    idx: usize,
) -> Result<CanvasView, ErrorView> {
    let w = spec_char_width(ch);
    if col < 0 || row < 0 || col + w > m.width || row >= m.height {
        Err(
            ErrorView::OutOfBounds {
                col: col as usize,
                row: row as usize,
                canvas_width: m.width,
                canvas_height: m.height,
            },
        )
    } else if collision && occupied(m.cells[row][col]) {
        Err(cell_collision(m, col, row, idx))
    } else if collision && w == 2 && occupied(m.cells[row][col + 1]) {
        Err(cell_collision(m, col + 1, row, idx))
    } else {
        let m1 = place(m, col, row, Cell { ch, is_continuation: false }, idx);
        if w == 2 {
            Ok(place(m1, col + 1, row, Cell { ch: ' ', is_continuation: true }, idx))
        } else {
            Ok(m1)
        }
    }
}

/// What a put writes is read back: the character and its owner at the
/// position, a continuation cell after a wide character, and every other cell
/// and owner as before.
pub proof fn law_put_read_back(m: CanvasView, col: int, row: int, ch: char, collision: bool, idx: usize)
    requires
        shaped(m),
        put_spec(m, col, row, ch, collision, idx) is Ok,
    ensures
        ({
            let m2 = put_spec(m, col, row, ch, collision, idx)->Ok_0;
            let wide = spec_char_width(ch) == 2;
            &&& shaped(m2)
            &&& m2.width == m.width && m2.height == m.height
            &&& m2.cells[row][col] == (Cell { ch, is_continuation: false })
            &&& m2.owners[row][col] == Some(idx)
            &&& wide ==> m2.cells[row][col + 1] == (Cell { ch: ' ', is_continuation: true })
            &&& wide ==> m2.owners[row][col + 1] == Some(idx)
            &&& forall|r: int, c: int|
                0 <= r < m.height && 0 <= c < m.width && !(r == row && (c == col || (wide && c == col + 1)))
                    ==> #[trigger] m2.cells[r][c] == m.cells[r][c] && m2.owners[r][c] == m.owners[r][c]
        }),
{
}

/// Without collision checking a put fails only off the canvas; with it, it
/// also fails on an occupied cell, reporting a collision there.
pub proof fn law_put_failures(m: CanvasView, col: int, row: int, ch: char, collision: bool, idx: usize)
    requires
        shaped(m),
    ensures
        ({
            let w = spec_char_width(ch);
            let inside = 0 <= col && 0 <= row && col + w <= m.width && row < m.height;
            &&& !inside ==> put_spec(m, col, row, ch, collision, idx) is Err && put_spec(m, col, row, ch, collision, idx)->Err_0 is OutOfBounds
            &&& inside && !collision ==> put_spec(m, col, row, ch, collision, idx) is Ok
            &&& inside && collision && occupied(m.cells[row][col]) ==> put_spec(m, col, row, ch, collision, idx)
                == Err::<CanvasView, ErrorView>(cell_collision(m, col, row, idx))
        }),
{
}

/// One step of drawing: placing a character at (column, row), with or
/// without collision detection; or a failure that stops the drawing.
pub enum DrawStep {
    Put((int, int, char, bool)),
    Fail(ErrorView),
}

/// The canvas after performing `steps` in order for object `idx`, and the
/// error of the first step that failed (the canvas then holds the steps before it).
pub open spec fn apply_steps(m: CanvasView, steps: Seq<DrawStep>, idx: usize) -> (
    CanvasView,
    Option<ErrorView>,
)
    decreases steps.len(),
{
    if steps.len() == 0 {
        (m, None)
    } else {
        let (m1, e) = apply_steps(m, steps.drop_last(), idx);
        if e is Some {
            (m1, e)
        } else {
            match steps.last() {
                DrawStep::Put(op) => match put_spec(m1, op.0, op.1, op.2, op.3, idx) {
                    Ok(m2) => (m2, None),
                    Err(err) => (m1, Some(err)),
                },
                DrawStep::Fail(err) => (m1, Some(err)),
            }
        }
    }
}

/// Performing `a` then `b` is performing `a + b`.
pub proof fn lemma_apply_concat(m: CanvasView, a: Seq<DrawStep>, b: Seq<DrawStep>, idx: usize)
    ensures
        apply_steps(m, a + b, idx) == ({
            let (m1, e) = apply_steps(m, a, idx);
            if e is Some {
                (m1, e)
            } else {
                apply_steps(m1, b, idx)
            }
        }),
    decreases b.len(),
{
    if b.len() == 0 {
        assert(a + b == a);
    } else {
        lemma_apply_concat(m, a, b.drop_last(), idx);
        assert((a + b).drop_last() == a + b.drop_last());
        assert((a + b).last() == b.last());
    }
}

/// The steps that write `s` from (col, row) rightwards, each character at
/// the column after the display width of the characters before it.
pub open spec fn str_steps(col: int, row: int, s: Seq<char>, collision: bool) -> Seq<DrawStep>
    decreases s.len(),
{
    if s.len() == 0 {
        Seq::empty()
    } else {
        str_steps(col, row, s.drop_last(), collision).push(
            DrawStep::Put(
                (col + spec_str_width(s.drop_last()), row, s.last(), collision),
            ),
        )
    }
}

/// When a prefix of the steps fails, the whole sequence ends the same way.
pub proof fn lemma_apply_prefix_failed(m: CanvasView, steps: Seq<DrawStep>, k: int, idx: usize)
    requires
        0 <= k <= steps.len(),
        apply_steps(m, steps.take(k), idx).1 is Some,
    ensures
        apply_steps(m, steps, idx) == apply_steps(m, steps.take(k), idx),
    decreases steps.len() - k,
{
    if k == steps.len() {
        assert(steps.take(k) == steps);
    } else {
        assert(steps.drop_last().take(k) == steps.take(k));
        lemma_apply_prefix_failed(m, steps.drop_last(), k, idx);
    }
}

/// The characters of a row that are displayed (continuation cells skipped).
pub open spec fn visible(row: Seq<Cell>) -> Seq<char>
    decreases row.len(),
{
    if row.len() == 0 {
        Seq::empty()
    } else if row.last().is_continuation {
        visible(row.drop_last())
    } else {
        visible(row.drop_last()).push(row.last().ch)
    }
}

/// The lines without the empty lines at their end.
pub open spec fn drop_trailing_empty(ls: Seq<Seq<char>>) -> Seq<Seq<char>>
    decreases ls.len(),
{
    if ls.len() > 0 && ls.last().len() == 0 {
        drop_trailing_empty(ls.drop_last())
    } else {
        ls
    }
}

/// The text of a canvas: each row's displayed characters without trailing
/// whitespace, trailing empty rows dropped, rows joined by newlines.
pub open spec fn render_spec(m: CanvasView) -> Seq<char> {
    join_spec(
        drop_trailing_empty(m.cells.map_values(|r: Seq<Cell>| trim_end_spec(visible(r)))),
        "\n"@,
    )
}

proof fn lemma_trim_end_clean(s: Seq<char>)
    ensures
        trim_end_spec(s).len() == 0 || !is_ws(trim_end_spec(s).last()),
    decreases s.len(),
{
    if s.len() > 0 && is_ws(s.last()) {
        lemma_trim_end_clean(s.drop_last());
    }
}

proof fn lemma_drop_trailing_empty(ls: Seq<Seq<char>>)
    ensures
        drop_trailing_empty(ls).len() <= ls.len(),
        drop_trailing_empty(ls) == ls.take(drop_trailing_empty(ls).len() as int),
        drop_trailing_empty(ls).len() == 0 || drop_trailing_empty(ls).last().len() > 0,
    decreases ls.len(),
{
    if ls.len() > 0 && ls.last().len() == 0 {
        lemma_drop_trailing_empty(ls.drop_last());
        let d = drop_trailing_empty(ls.drop_last());
        assert(ls.drop_last().take(d.len() as int) == ls.take(d.len() as int));
    } else {
        assert(ls.take(ls.len() as int) == ls);
    }
}

/// The rendered text is its lines joined by newlines, where no line ends in
/// whitespace and the last line, if any, is not empty.
pub proof fn law_render_tidy(m: CanvasView)
    ensures
        ({
            let ls = drop_trailing_empty(m.cells.map_values(|r: Seq<Cell>| trim_end_spec(visible(r))));
            &&& render_spec(m) == join_spec(ls, "\n"@)
            &&& ls.len() <= m.cells.len()
            &&& ls.len() == 0 || ls.last().len() > 0
            &&& forall|i: int| 0 <= i < ls.len() ==> #[trigger] ls[i].len() == 0 || !is_ws(ls[i].last())
        }),
{
    let all = m.cells.map_values(|r: Seq<Cell>| trim_end_spec(visible(r)));
    let ls = drop_trailing_empty(all);
    lemma_drop_trailing_empty(all);
    assert forall|i: int| 0 <= i < ls.len() implies #[trigger] ls[i].len() == 0 || !is_ws(ls[i].last()) by {
        assert(ls[i] == all[i]);
        lemma_trim_end_clean(visible(m.cells[i]));
    }
}

impl Canvas {
    /// The canvas has the shape its view describes.
    pub closed spec fn wf(&self) -> bool {
        &&& shaped(self@)
        &&& self.grid@.len() == self.height
        &&& self.owner@.len() == self.height
    }

    /// Creates a new canvas filled with spaces.
    pub fn new(width: usize, height: usize) -> (c: Self)
        requires
            width < usize::MAX,
            height < usize::MAX,
        ensures
            c.wf(),
            c@ == blank(width, height),
    {
        let mut grid: Vec<Vec<Cell>> = Vec::new();
        let mut owner: Vec<Vec<Option<usize>>> = Vec::new();
        let mut r: usize = 0;
        while r < height
            invariant
                r <= height,
                grid@.len() == r,
                owner@.len() == r,
                forall|i: int| 0 <= i < r ==> #[trigger] grid@[i]@ == Seq::new(width as nat, |c: int| Cell { ch: ' ', is_continuation: false }),
                forall|i: int| 0 <= i < r ==> #[trigger] owner@[i]@ == Seq::new(width as nat, |c: int| None::<usize>),
            decreases height - r,
        {
            let mut row: Vec<Cell> = Vec::new();
            let mut orow: Vec<Option<usize>> = Vec::new();
            let mut c: usize = 0;
            while c < width
                invariant
                    c <= width,
                    row@ == Seq::new(c as nat, |k: int| Cell { ch: ' ', is_continuation: false }),
                    orow@ == Seq::new(c as nat, |k: int| None::<usize>),
                decreases width - c,
            {
                row.push(Cell::space());
                orow.push(None);
                c = c + 1;
            }
            grid.push(row);
            owner.push(orow);
            r = r + 1;
        }
        let canvas = Canvas { width, height, grid, owner };
        assert(canvas@.cells =~= blank(width, height).cells);
        assert(canvas@.owners =~= blank(width, height).owners);
        canvas
    }

    pub fn width(&self) -> (w: usize)
        ensures
            w == self@.width,
    {
        self.width
    }

    pub fn height(&self) -> (h: usize)
        ensures
            h == self@.height,
    {
        self.height
    }

    /// Returns the owner object index at (col, row), if any.
    pub fn owner_at(&self, col: usize, row: usize) -> (o: Option<usize>)
        requires
            self.wf(),
        ensures
            o == (if row < self@.height && col < self@.width {
                self@.owners[row as int][col as int]
            } else {
                None
            }),
    {
        if row < self.height && col < self.width {
            assert(self.owner@[row as int]@ == self@.owners[row as int]);
            self.owner[row][col]
        } else {
            None
        }
    }

    /// Returns the cell at (col, row), if it is on the canvas.
    pub fn cell_at(&self, col: usize, row: usize) -> (c: Option<Cell>)
        requires
            self.wf(),
        ensures
            c == (if row < self@.height && col < self@.width {
                Some(self@.cells[row as int][col as int])
            } else {
                None
            }),
    {
        if row < self.height && col < self.width {
            assert(self.grid@[row as int]@ == self@.cells[row as int]);
            Some(self.grid[row][col])
        } else {
            None
        }
    }

    /// Sets cell (col, row) and its owner.
    fn set_cell(&mut self, col: usize, row: usize, cell: Cell, idx: usize)
        requires
            old(self).wf(),
            row < old(self)@.height,
            col < old(self)@.width,
        ensures
            final(self).wf(),
            final(self)@ == place(old(self)@, col as int, row as int, cell, idx),
    {
        let ghost m0 = self@;
        assert(self.grid@[row as int]@ == self@.cells[row as int]);
        assert(self.owner@[row as int]@ == self@.owners[row as int]);
        self.grid[row][col] = cell;
        self.owner[row][col] = Some(idx);
        assert(self@.cells =~= place(m0, col as int, row as int, cell, idx).cells);
        assert(self@.owners =~= place(m0, col as int, row as int, cell, idx).owners);
    }

    /// Places a single character at (col, row) owned by `object_idx`.
    /// For wide characters (CJK), also places a continuation cell at col+1.
    pub fn put_char(
        &mut self,
        col: usize,
        row: usize,
        ch: char,
        collision: bool,
        object_idx: usize,
    ) -> (res: Result<(), UnidError>)
        requires
            old(self).wf(),
        ensures
            final(self).wf(),
            match put_spec(old(self)@, col as int, row as int, ch, collision, object_idx) {
                Ok(m) => res is Ok && final(self)@ == m,
                Err(e) => res matches Err(err) && err@ == e && final(self)@ == old(self)@,
            },
    {
        let w = char_width(ch);
        if col >= self.width || w > self.width - col || row >= self.height {
            return Err(
                UnidError::OutOfBounds {
                    col,
                    row,
                    canvas_width: self.width,
                    canvas_height: self.height,
                },
            );
        }
        assert(self.grid@[row as int]@ == self@.cells[row as int]);
        if collision {
            let existing = self.grid[row][col];
            if existing.ch != ' ' && !existing.is_continuation {
                return Err(self.collision_error(col, row, object_idx));
            }
            if w == 2 {
                let next = self.grid[row][col + 1];
                if next.ch != ' ' && !next.is_continuation {
                    return Err(self.collision_error(col + 1, row, object_idx));
                }
            }
        }
        self.set_cell(col, row, Cell::new(ch), object_idx);
        if w == 2 {
            self.set_cell(col + 1, row, Cell::continuation(), object_idx);
        }
        Ok(())
    }

    /// Places a string starting at (col, row), advancing by each character's display width.
    pub fn put_str(
        &mut self,
        col: usize,
        row: usize,
        s: &str,
        collision: bool,
        object_idx: usize,
    ) -> (res: Result<(), UnidError>)
        requires
            old(self).wf(),
        ensures
            final(self).wf(),
            ({
                let (m, e) = apply_steps(
                    old(self)@,
                    str_steps(col as int, row as int, s@, collision),
                    object_idx,
                );
                &&& final(self)@ == m
                &&& match e {
                    Some(err) => res matches Err(x) && x@ == err,
                    None => res is Ok,
                }
            }),
    {
        let chars = crate::textops::chars_of(s);
        self.put_chars(col, row, chars.as_slice(), collision, object_idx)
    }

    /// Places the characters of `s` starting at (col, row).
    pub fn put_chars(
        &mut self,
        col: usize,
        row: usize,
        s: &[char],
        collision: bool,
        object_idx: usize,
    ) -> (res: Result<(), UnidError>)
        requires
            old(self).wf(),
        ensures
            final(self).wf(),
            ({
                let (m, e) = apply_steps(
                    old(self)@,
                    str_steps(col as int, row as int, s@, collision),
                    object_idx,
                );
                &&& final(self)@ == m
                &&& match e {
                    Some(err) => res matches Err(x) && x@ == err,
                    None => res is Ok,
                }
            }),
    {
        let ghost m0 = self@;
        let ghost steps = str_steps(col as int, row as int, s@, collision);
        assert(s@.take(0) == Seq::<char>::empty());
        let mut current_col: usize = col;
        let mut i: usize = 0;
        while i < s.len()
            invariant
                self.wf(),
                i <= s@.len(),
                m0 == old(self)@,
                steps == str_steps(col as int, row as int, s@, collision),
                current_col == col + spec_str_width(s@.take(i as int)),
                apply_steps(m0, str_steps(col as int, row as int, s@.take(i as int), collision), object_idx)
                    == (self@, None::<ErrorView>),
            decreases s.len() - i,
        {
            let ch = s[i];
            assert(s@.take(i + 1).drop_last() == s@.take(i as int));
            assert(s@.take(i + 1).last() == ch);
            let ghost op = (current_col as int, row as int, ch, collision);
            proof {
                lemma_str_steps_step(col as int, row as int, s@.take(i + 1), collision);
            }
            assert(str_steps(col as int, row as int, s@.take(i + 1), collision) == str_steps(
                col as int,
                row as int,
                s@.take(i as int),
                collision,
            ).push(DrawStep::Put(op)));
            let ghost before = str_steps(col as int, row as int, s@.take(i as int), collision);
            assert(str_steps(col as int, row as int, s@.take(i + 1), collision).drop_last() == before);
            let r = self.put_char(current_col, row, ch, collision, object_idx);
            match r {
                Err(e) => {
                    proof {
                        lemma_str_steps_prefix(col as int, row as int, s@, collision, i + 1);
                        lemma_str_steps_len(col as int, row as int, s@, collision);
                        lemma_apply_prefix_failed(m0, steps, i + 1, object_idx);
                    }
                    return Err(e);
                },
                Ok(()) => {},
            }
            current_col = current_col + char_width(ch);
            i = i + 1;
        }
        assert(s@.take(s@.len() as int) == s@);
        Ok(())
    }

    /// Renders the canvas to a string.
    pub fn render(&self) -> (s: String)
        requires
            self.wf(),
        ensures
            s@ == render_spec(self@),
    {
        let ghost rows = self@.cells.map_values(|r: Seq<Cell>| trim_end_spec(visible(r)));
        let mut lines: Vec<Vec<char>> = Vec::new();
        let mut r: usize = 0;
        while r < self.grid.len()
            invariant
                self.wf(),
                r <= self.grid@.len(),
                rows == self@.cells.map_values(|r: Seq<Cell>| trim_end_spec(visible(r))),
                seqs_of(lines@) == rows.take(r as int),
            decreases self.grid.len() - r,
        {
            let row = &self.grid[r];
            assert(row@ == self@.cells[r as int]);
            let mut line: Vec<char> = Vec::new();
            let mut c: usize = 0;
            while c < row.len()
                invariant
                    c <= row@.len(),
                    line@ == visible(row@.take(c as int)),
                decreases row.len() - c,
            {
                assert(row@.take(c + 1).drop_last() == row@.take(c as int));
                assert(row@.take(c + 1).last() == row@[c as int]);
                if !row[c].is_continuation {
                    line.push(row[c].ch);
                }
                c = c + 1;
            }
            assert(row@.take(row@.len() as int) == row@);
            let trimmed = trim_end_chars(line.as_slice());
            let ghost before = lines@;
            lines.push(trimmed);
            assert(seqs_of(lines@) =~= rows.take(r + 1)) by {
                assert(seqs_of(lines@) =~= seqs_of(before).push(trimmed@));
            }
            r = r + 1;
        }
        assert(rows.take(self.grid@.len() as int) == rows);
        // Remove trailing empty lines
        while lines.len() > 0 && lines[lines.len() - 1].len() == 0
            invariant
                drop_trailing_empty(seqs_of(lines@)) == drop_trailing_empty(rows),
            decreases lines.len(),
        {
            let ghost before = lines@;
            lines.pop();
            assert(seqs_of(lines@) =~= seqs_of(before).drop_last());
        }
        assert(drop_trailing_empty(seqs_of(lines@)) == seqs_of(lines@));
        let mut sep: Vec<char> = Vec::new();
        push_str(&mut sep, "\n");
        let joined = join(&lines, sep.as_slice());
        string_from_chars(joined.as_slice())
    }

    /// Creates a partial collision error with cell-level info.
    fn collision_error(&self, col: usize, row: usize, incoming_idx: usize) -> (e: UnidError)
        requires
            self.wf(),
            row < self@.height,
            col < self@.width,
        ensures
            e@ == cell_collision(self@, col as int, row as int, incoming_idx),
    {
        assert(self.owner@[row as int]@ == self@.owners[row as int]);
        let existing_idx = match self.owner[row][col] {
            Some(o) => o,
            None => 0,
        };
        UnidError::Collision {
            incoming_idx,
            incoming_desc: String::new(),
            existing_idx,
            existing_desc: String::new(),
            overlap_col: col,
            overlap_row: row,
            overlap_end_col: col,
            overlap_end_row: row,
            overlap_w: 1,
            overlap_h: 1,
        }
    }
}

impl Canvas {
    /// A well-formed canvas has the shape its view describes.
    pub proof fn lemma_wf_shaped(&self)
        requires
            self.wf(),
        ensures
            shaped(self@),
    {
    }
}


/// The outcome of putting the characters of `s` one after another, each at
/// the column after the previous one's display width, stopping at the first
/// put that fails: the canvas then keeps the characters placed before it.
pub open spec fn puts_in_order(
    m: CanvasView,
    col: int,
    row: int,
    s: Seq<char>,
    collision: bool,
    idx: usize,
) -> (CanvasView, Option<ErrorView>)
    decreases s.len(),
{
    if s.len() == 0 {
        (m, None)
    } else {
        match put_spec(m, col, row, s[0], collision, idx) {
            Err(e) => (m, Some(e)),
            Ok(m1) => puts_in_order(m1, col + spec_char_width(s[0]), row, s.drop_first(), collision, idx),
        }
    }
}

/// The steps of a text are its first character's, then the rest's from the
/// column after it.
proof fn lemma_str_steps_first(col: int, row: int, c: char, t: Seq<char>, collision: bool)
    ensures
        str_steps(col, row, seq![c] + t, collision) == seq![DrawStep::Put((col, row, c, collision))]
            + str_steps(col + spec_char_width(c), row, t, collision),
    decreases t.len(),
{
    crate::width::lemma_str_width_single(c);
    let s = seq![c] + t;
    if t.len() == 0 {
        assert(s == seq![c]);
        assert(s.drop_last() == Seq::<char>::empty());
        assert(str_steps(col, row, Seq::<char>::empty(), collision) == Seq::<DrawStep>::empty());
        assert(str_steps(col + spec_char_width(c), row, t, collision) == Seq::<DrawStep>::empty());
    } else {
        let t1 = t.drop_last();
        lemma_str_steps_first(col, row, c, t1, collision);
        assert(s.drop_last() == seq![c] + t1);
        assert(s.last() == t.last());
        crate::width::lemma_str_width_concat(seq![c], t1);
        assert(seq![c].drop_last() == Seq::<char>::empty());
        assert(str_steps(col, row, s, collision) == (seq![DrawStep::Put((col, row, c, collision))]
            + str_steps(col + spec_char_width(c), row, t, collision)));
    }
}

/// Writing a text is writing its characters one by one: the canvas and the
/// error after `put_str` are those of `put_char` on each character in turn,
/// at the column after the display width of the characters before it,
/// stopping at the first failure (characters placed before it remain).
pub proof fn law_put_str_in_order(m: CanvasView, col: int, row: int, s: Seq<char>, collision: bool, idx: usize)
    ensures
        apply_steps(m, str_steps(col, row, s, collision), idx) == puts_in_order(m, col, row, s, collision, idx),
    decreases s.len(),
{
    if s.len() > 0 {
        let c = s[0];
        let t = s.drop_first();
        assert(s == seq![c] + t);
        lemma_str_steps_first(col, row, c, t, collision);
        let first = seq![DrawStep::Put((col, row, c, collision))];
        lemma_apply_concat(m, first, str_steps(col + spec_char_width(c), row, t, collision), idx);
        assert(first.drop_last() == Seq::<DrawStep>::empty());
        assert(apply_steps(m, Seq::<DrawStep>::empty(), idx) == (m, None::<ErrorView>));
        match put_spec(m, col, row, c, collision, idx) {
            Ok(m1) => {
                law_put_str_in_order(m1, col + spec_char_width(c), row, t, collision, idx);
            },
            Err(e) => {},
        }
    }
}

/// The steps of a non-empty text are those of all but its last character,
/// then the last character.
pub proof fn lemma_str_steps_step(col: int, row: int, s: Seq<char>, collision: bool)
    requires
        s.len() > 0,
    ensures
        str_steps(col, row, s, collision) == str_steps(col, row, s.drop_last(), collision).push(
            DrawStep::Put(
                (col + spec_str_width(s.drop_last()), row, s.last(), collision),
            ),
        ),
{
}

proof fn lemma_str_steps_len(col: int, row: int, s: Seq<char>, collision: bool)
    ensures
        str_steps(col, row, s, collision).len() == s.len(),
    decreases s.len(),
{
    if s.len() > 0 {
        lemma_str_steps_len(col, row, s.drop_last(), collision);
    }
}

/// The steps of a prefix are a prefix of the steps.
pub proof fn lemma_str_steps_prefix(col: int, row: int, s: Seq<char>, collision: bool, k: int)
    requires
        0 <= k <= s.len(),
    ensures
        str_steps(col, row, s.take(k), collision) == str_steps(col, row, s, collision).take(k),
    decreases s.len() - k,
{
    lemma_str_steps_len(col, row, s, collision);
    if k == s.len() {
        assert(s.take(k) == s);
        assert(str_steps(col, row, s, collision).take(k) == str_steps(col, row, s, collision));
    } else {
        lemma_str_steps_prefix(col, row, s, collision, k + 1);
        assert(s.take(k + 1).drop_last() == s.take(k));
        lemma_str_steps_len(col, row, s.take(k + 1), collision);
        assert(str_steps(col, row, s, collision).take(k + 1).drop_last() == str_steps(
            col,
            row,
            s,
            collision,
        ).take(k));
    }
}

/// An executable drawing step: place a character at (column, row), with or
/// without collision detection; or fail with an error.
pub enum DrawOp {
    Put((usize, usize, char, bool)),
    Fail(UnidError),
}

impl View for DrawOp {
    type V = DrawStep;

    open spec fn view(&self) -> DrawStep {
        match self {
            DrawOp::Put(t) => DrawStep::Put((t.0 as int, t.1 as int, t.2, t.3)),
            DrawOp::Fail(e) => DrawStep::Fail(e@),
        }
    }
}

/// The steps that a list of operations stands for.
pub open spec fn ops_view(v: Seq<DrawOp>) -> Seq<DrawStep> {
    v.map_values(|o: DrawOp| o@)
}

impl Canvas {
    /// Performs `ops` in order for object `idx`, stopping at the first one that fails.
    pub fn apply_ops(&mut self, ops: Vec<DrawOp>, idx: usize) -> (res: Result<(), UnidError>)
        requires
            old(self).wf(),
        ensures
            final(self).wf(),
            ({
                let (m, e) = apply_steps(old(self)@, ops_view(ops@), idx);
                &&& final(self)@ == m
                &&& match e {
                    Some(err) => res matches Err(x) && x@ == err,
                    None => res is Ok,
                }
            }),
    {
        let ghost m0 = self@;
        let ghost steps = ops_view(ops@);
        let mut list = ops;
        let ghost all = list@;
        let mut i: usize = 0;
        assert(steps.take(0) == Seq::<DrawStep>::empty());
        while i < list.len()
            invariant
                self.wf(),
                i <= all.len(),
                list@ == all,
                all == ops@,
                steps == ops_view(all),
                m0 == old(self)@,
                apply_steps(m0, steps.take(i as int), idx) == (self@, None::<ErrorView>),
            decreases list.len() - i,
        {
            assert(steps.take(i + 1).drop_last() == steps.take(i as int));
            assert(steps.take(i + 1).last() == all[i as int]@);
            let failed: bool = match &list[i] {
                DrawOp::Put(t) => {
                    let (c, r, ch, coll) = *t;
                    let ghost before = self@;
                    assert(steps.take(i + 1).last() == DrawStep::Put((c as int, r as int, ch, coll)));
                    let res = self.put_char_checked(c, r, ch, coll, idx);
                    match res {
                        Ok(()) => false,
                        Err(e) => {
                            assert(apply_steps(m0, steps.take(i + 1), idx) == (before, Some(e@)));
                            proof {
                                lemma_apply_prefix_failed(m0, steps, i + 1, idx);
                            }
                            return Err(e);
                        },
                    }
                },
                DrawOp::Fail(_) => true,
            };
            if failed {
                let op = list.remove(i);
                assert(op == all[i as int]);
                proof {
                    lemma_apply_prefix_failed(m0, steps, i + 1, idx);
                }
                match op {
                    DrawOp::Fail(e) => {
                        return Err(e);
                    },
                    DrawOp::Put(_) => {
                        return Ok(());
                    },
                }
            }
            i = i + 1;
        }
        assert(steps.take(all.len() as int) == steps);
        Ok(())
    }

    /// [`Canvas::put_char`] for any column: a column too large for the
    /// character's width to be added is out of bounds.
    fn put_char_checked(
        &mut self,
        col: usize,
        row: usize,
        ch: char,
        collision: bool,
        object_idx: usize,
    ) -> (res: Result<(), UnidError>)
        requires
            old(self).wf(),
        ensures
            final(self).wf(),
            match put_spec(old(self)@, col as int, row as int, ch, collision, object_idx) {
                Ok(m) => res is Ok && final(self)@ == m,
                Err(e) => res matches Err(err) && err@ == e && final(self)@ == old(self)@,
            },
    {
        self.put_char(col, row, ch, collision, object_idx)
    }
}

} // verus!
