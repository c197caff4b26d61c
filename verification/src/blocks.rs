//! Telegram text blocks: an ordered set of lines (plain text, table rows of
//! aligned cells, or blank separators) whose layout is decided at render
//! time.
//!
//! Column widths come from every row of the block, so rows align without
//! hand-computed padding; the same block renders as plain text or as a
//! fenced monospace code block.

use crate::text::push_char;
use crate::width::{display_width, str_width};
use vstd::prelude::*;
use vstd::std_specs::convert::FromSpecImpl;
use vstd::string::*;

verus! {

/// Horizontal alignment of a [`Cell`] within its column.
#[derive(Debug, Clone, Copy, PartialEq, Eq, Structural)]
pub enum Align {
    Left,
    Right,
    Center,
}

/// A table cell: text plus column alignment.
#[derive(Debug, Clone)]
pub struct Cell {
    text: String,
    align: Align,
}

/// What a cell holds.
pub struct CellView {
    pub text: Seq<char>,
    pub align: Align,
}

impl View for Cell {
    type V = CellView;

    closed spec fn view(&self) -> CellView {
        CellView { text: self.text@, align: self.align }
    }
}

/// A single line of a [`Block`]: plain text, a table row, or a blank line.
#[derive(Debug, Clone)]
pub enum Line {
    /// A single line of text (heading, key-value, raw).
    Text(String),
    /// A table row; cells align across rows sharing the same column index.
    Row(Vec<Cell>),
    /// An empty separator line.
    Blank,
}

/// What a line holds.
pub enum LineView {
    Text(Seq<char>),
    Row(Seq<CellView>),
    Blank,
}

/// The views of a sequence of cells.
pub open spec fn cells_view(cells: Seq<Cell>) -> Seq<CellView> {
    cells.map_values(|c: Cell| c@)
}

impl View for Line {
    type V = LineView;

    open spec fn view(&self) -> LineView {
        match self {
            Line::Text(t) => LineView::Text(t@),
            Line::Row(cells) => LineView::Row(cells_view(cells@)),
            Line::Blank => LineView::Blank,
        }
    }
}

/// An ordered document of lines, rendered to a `String`.
#[derive(Debug, Clone)]
pub struct Block {
    lines: Vec<Line>,
}

/// The views of a sequence of lines.
pub open spec fn lines_view(lines: Seq<Line>) -> Seq<LineView> {
    lines.map_values(|l: Line| l@)
}

impl View for Block {
    type V = Seq<LineView>;

    closed spec fn view(&self) -> Seq<LineView> {
        lines_view(self.lines@)
    }
}

/// Render modes for a [`Block`].
#[derive(Debug, Clone, Copy, PartialEq, Eq, Structural)]
pub enum Render {
    /// Plain text with two-space column gutters.
    Plain,
    /// A fenced code block; monospace keeps table alignment.
    Monospace,
}

// ---------------------------------------------------------------------------
// The layout model
// ---------------------------------------------------------------------------

/// The display width of a cell's text.
pub open spec fn cell_width(c: CellView) -> int {
    display_width(c.text) as int
}

/// Column widths after taking one more row into account: every column is
/// as wide as its widest cell so far.
pub open spec fn merge_widths(w: Seq<int>, cells: Seq<CellView>) -> Seq<int> {
    let n = if w.len() >= cells.len() { w.len() } else { cells.len() };
    Seq::new(
        n,
        |i: int|
            {
                let a = if i < w.len() { w[i] } else { 0 };
                let b = if i < cells.len() { cell_width(cells[i]) } else { 0 };
                if a >= b { a } else { b }
            },
    )
}

/// The width of every column: the widest cell of that column over all rows.
pub open spec fn col_widths(lines: Seq<LineView>) -> Seq<int>
    decreases lines.len(),
{
    if lines.len() == 0 {
        Seq::empty()
    } else {
        let w = col_widths(lines.drop_last());
        match lines.last() {
            LineView::Row(cells) => merge_widths(w, cells),
            _ => w,
        }
    }
}

/// `n` spaces.
pub open spec fn spaces(n: int) -> Seq<char> {
    Seq::new(n as nat, |i: int| ' ')
}

/// How many spaces pad a cell to `width` columns (none when it is wider).
pub open spec fn pad_of(c: CellView, width: int) -> int {
    if width > cell_width(c) { width - cell_width(c) } else { 0 }
}

/// A cell padded to `width` display columns according to its alignment;
/// a centered cell puts the odd space on the right.
pub open spec fn padded(c: CellView, width: int) -> Seq<char> {
    let pad = pad_of(c, width);
    match c.align {
        Align::Left => c.text + spaces(pad),
        Align::Right => spaces(pad) + c.text,
        Align::Center => spaces(pad / 2) + c.text + spaces(pad - pad / 2),
    }
}

/// The two-space gutter between columns.
pub open spec fn gutter() -> Seq<char> {
    seq![' ', ' ']
}

/// A row's cells, each padded to its column width, joined by gutters.
pub open spec fn row_text(cells: Seq<CellView>, widths: Seq<int>) -> Seq<char>
    decreases cells.len(),
{
    if cells.len() == 0 {
        Seq::empty()
    } else {
        let i = cells.len() - 1;
        let sep = if i > 0 { gutter() } else { Seq::empty() };
        row_text(cells.drop_last(), widths) + sep + padded(cells[i], widths[i])
    }
}

/// One rendered line, newline included.
pub open spec fn line_text(l: LineView, widths: Seq<int>) -> Seq<char> {
    match l {
        LineView::Blank => seq!['\n'],
        LineView::Text(t) => t.push('\n'),
        LineView::Row(cells) => row_text(cells, widths).push('\n'),
    }
}

/// Every line rendered in order, each followed by a newline.
pub open spec fn body(lines: Seq<LineView>, widths: Seq<int>) -> Seq<char>
    decreases lines.len(),
{
    if lines.len() == 0 {
        Seq::empty()
    } else {
        body(lines.drop_last(), widths) + line_text(lines.last(), widths)
    }
}

/// `s` without its trailing newlines.
pub open spec fn strip_newlines(s: Seq<char>) -> Seq<char>
    decreases s.len(),
{
    if s.len() > 0 && s.last() == '\n' {
        strip_newlines(s.drop_last())
    } else {
        s
    }
}

/// The plain rendering of a block.
pub open spec fn render_plain(lines: Seq<LineView>) -> Seq<char> {
    strip_newlines(body(lines, col_widths(lines)))
}

/// The code fence that opens and closes a monospace rendering.
pub open spec fn fence() -> Seq<char> {
    seq!['`', '`', '`']
}

/// The rendering of a block in the given mode.
pub open spec fn render_spec(lines: Seq<LineView>, mode: Render) -> Seq<char> {
    match mode {
        Render::Plain => render_plain(lines),
        Render::Monospace => fence().push('\n') + render_plain(lines) + seq!['\n'] + fence(),
    }
}

/// The display width of a block's plain rendering.
pub open spec fn rendered_width_spec(lines: Seq<LineView>) -> int {
    display_width(render_plain(lines)) as int
}


/// The ellipsis that marks cut or dropped content.
pub open spec fn ellipsis() -> char {
    '\u{2026}'
}

/// How many leading characters of `t` a cut keeps: characters are taken in
/// order, from index `k` on, while the kept prefix plus the next character
/// stays within `keep` display columns.
pub open spec fn cut_len(t: Seq<char>, keep: int, k: int) -> int
    decreases t.len() - k,
{
    if k < 0 || k >= t.len() {
        t.len() as int
    } else if display_width(t.take(k)) + display_width(seq![t[k]]) > keep {
        k
    } else {
        cut_len(t, keep, k + 1)
    }
}

/// `t` cut to `max` display columns: unchanged when it fits, else its
/// longest fitting prefix (one column is reserved) followed by an ellipsis.
pub open spec fn cut_spec(t: Seq<char>, max: int) -> Seq<char> {
    if display_width(t) <= max {
        t
    } else {
        let keep = if max >= 1 { max - 1 } else { 0 };
        t.take(cut_len(t, keep, 0)).push(ellipsis())
    }
}

/// The texts of a row's cells joined by two spaces.
pub open spec fn join_texts(cells: Seq<CellView>) -> Seq<char>
    decreases cells.len(),
{
    if cells.len() == 0 {
        Seq::empty()
    } else {
        let prev = join_texts(cells.drop_last());
        let sep = if cells.len() > 1 { gutter() } else { Seq::empty() };
        prev + sep + cells.last().text
    }
}

/// A line truncated to `max` display columns: text is cut, a row becomes
/// its cut joined text, a blank line stays blank.
pub open spec fn ellipsize_spec(l: LineView, max: int) -> LineView {
    match l {
        LineView::Text(t) => LineView::Text(cut_spec(t, max)),
        LineView::Row(cells) => LineView::Text(cut_spec(join_texts(cells), max)),
        LineView::Blank => LineView::Blank,
    }
}

/// The line that marks dropped content.
pub open spec fn marker() -> LineView {
    LineView::Text(seq![ellipsis()])
}

/// How many leading lines truncation keeps: lines are dropped from the tail,
/// starting with `n` lines, while the rest is too wide and more than one
/// line is left.
pub open spec fn kept(lines: Seq<LineView>, max: int, n: int) -> int
    decreases n,
{
    if 1 < n <= lines.len() && rendered_width_spec(lines.take(n)) > max {
        kept(lines, max, n - 1)
    } else {
        n
    }
}

/// A block truncated to `max` display columns.
pub open spec fn truncate_spec(lines: Seq<LineView>, max: int) -> Seq<LineView> {
    if rendered_width_spec(lines) <= max {
        lines
    } else {
        let n = kept(lines, max, lines.len() as int);
        let t = lines.take(n);
        if rendered_width_spec(t) > max {
            if n > 0 {
                t.update(0, ellipsize_spec(t[0], max))
            } else {
                t
            }
        } else if n < lines.len() {
            t.push(marker())
        } else {
            t
        }
    }
}

/// The widths of a `Vec<usize>` as integers.
pub open spec fn ints(v: Seq<usize>) -> Seq<int> {
    v.map_values(|x: usize| x as int)
}

proof fn lemma_merge_len(w: Seq<int>, cells: Seq<CellView>)
    ensures
        merge_widths(w, cells).len() >= w.len(),
        merge_widths(w, cells).len() >= cells.len(),
{
}

/// Taking one more cell of a row into account updates (or adds) one column.
proof fn lemma_merge_step(w0: Seq<int>, cs: Seq<CellView>, k: int)
    requires
        0 <= k < cs.len(),
        forall|i: int| 0 <= i < w0.len() ==> w0[i] >= 0,
    ensures
        ({
            let m = merge_widths(w0, cs.take(k));
            let old_k = if k < m.len() { m[k] } else { 0 };
            let nv = if old_k >= cell_width(cs[k]) { old_k } else { cell_width(cs[k]) };
            &&& m.len() >= k
            &&& merge_widths(w0, cs.take(k + 1)) =~= (if k < m.len() { m.update(k, nv) } else { m.push(nv) })
        }),
{
    let m = merge_widths(w0, cs.take(k));
    let m2 = merge_widths(w0, cs.take(k + 1));
    assert forall|i: int| 0 <= i < k implies #[trigger] cs.take(k + 1)[i] == cs.take(k)[i] by {}
    assert(cs.take(k + 1)[k] == cs[k]);
}

/// Every row fits within the column widths of its block.
proof fn lemma_widths_cover(lines: Seq<LineView>, k: int)
    requires
        0 <= k < lines.len(),
    ensures
        lines[k] matches LineView::Row(cells) ==> col_widths(lines).len() >= cells.len(),
    decreases lines.len(),
{
    let w = col_widths(lines.drop_last());
    if let LineView::Row(cells) = lines.last() {
        lemma_merge_len(w, cells);
    }
    if k < lines.len() - 1 {
        lemma_widths_cover(lines.drop_last(), k);
        assert(lines.drop_last()[k] == lines[k]);
    }
}

/// Appends `n` spaces.
fn push_spaces(out: &mut String, n: usize)
    ensures
        final(out)@ == old(out)@ + spaces(n as int),
{
    let ghost start = out@;
    let mut i: usize = 0;
    while i < n
        invariant
            i <= n,
            out@ == start + spaces(i as int),
        decreases n - i,
    {
        push_char(out, ' ');
        i = i + 1;
        assert(start + spaces(i as int) =~= (start + spaces((i - 1) as int)).push(' '));
    }
}

/// Appends every character of `s`.
fn extend_chars(out: &mut Vec<char>, s: &str)
    ensures
        final(out)@ == old(out)@ + s@,
{
    let ghost start = out@;
    let n = s.unicode_len();
    let mut i: usize = 0;
    while i < n
        invariant
            n == s@.len(),
            i <= n,
            out@ == start + s@.take(i as int),
        decreases n - i,
    {
        out.push(s.get_char(i));
        i = i + 1;
        assert(start + s@.take(i as int) =~= (start + s@.take((i - 1) as int)).push(s@[i - 1]));
    }
    assert(s@.take(n as int) =~= s@);
}

/// The first `k` characters of `v` as a string.
fn string_of(v: &Vec<char>, k: usize) -> (r: String)
    requires
        k <= v@.len(),
    ensures
        r@ == v@.take(k as int),
{
    let mut out = String::new();
    let mut i: usize = 0;
    while i < k
        invariant
            k <= v@.len(),
            i <= k,
            out@ == v@.take(i as int),
        decreases k - i,
    {
        push_char(&mut out, v[i]);
        i = i + 1;
        assert(v@.take(i as int) =~= v@.take((i - 1) as int).push(v@[i - 1]));
    }
    out
}

impl Cell {
    /// A left-aligned cell.
    pub fn new(text: &str) -> (c: Cell)
        ensures
            c@ == (CellView { text: text@, align: Align::Left }),
    {
        Cell { text: text.to_owned(), align: Align::Left }
    }

    /// A left-aligned cell.
    pub fn left(text: &str) -> (c: Cell)
        ensures
            c@ == (CellView { text: text@, align: Align::Left }),
    {
        Self::new(text)
    }

    /// A right-aligned cell (for numbers).
    pub fn right(text: &str) -> (c: Cell)
        ensures
            c@ == (CellView { text: text@, align: Align::Right }),
    {
        Cell { text: text.to_owned(), align: Align::Right }
    }

    /// A centered cell.
    pub fn center(text: &str) -> (c: Cell)
        ensures
            c@ == (CellView { text: text@, align: Align::Center }),
    {
        Cell { text: text.to_owned(), align: Align::Center }
    }

    /// This cell's text.
    pub fn text(&self) -> (t: &str)
        ensures
            t@ == self@.text,
    {
        self.text.as_str()
    }

    /// This cell padded to `width` display columns per its alignment.
    pub fn render_padded(&self, width: usize) -> (r: String)
        ensures
            r@ == padded(self@, width as int),
    {
        let w = str_width(self.text.as_str());
        let pad = width.saturating_sub(w);
        assert(pad as int == pad_of(self@, width as int));
        let mut out = String::new();
        match self.align {
            Align::Left => {
                out.append(self.text.as_str());
                push_spaces(&mut out, pad);
            },
            Align::Right => {
                push_spaces(&mut out, pad);
                out.append(self.text.as_str());
            },
            Align::Center => {
                let left = pad / 2;
                let right = pad - left;
                push_spaces(&mut out, left);
                out.append(self.text.as_str());
                push_spaces(&mut out, right);
            },
        }
        out
    }
}

/// The widths of every column of `lines`.
fn column_widths(lines: &Vec<Line>) -> (w: Vec<usize>)
    ensures
        ints(w@) == col_widths(lines_view(lines@)),
{
    let ghost lv = lines_view(lines@);
    let mut widths: Vec<usize> = Vec::new();
    let mut li: usize = 0;
    assert(lv.take(0) =~= Seq::<LineView>::empty());
    assert(ints(widths@) =~= col_widths(lv.take(0)));
    while li < lines.len()
        invariant
            lv == lines_view(lines@),
            li <= lines.len(),
            ints(widths@) == col_widths(lv.take(li as int)),
        decreases lines.len() - li,
    {
        let ghost w0 = ints(widths@);
        assert(forall|i: int| 0 <= i < w0.len() ==> w0[i] >= 0);
        assert(lv.take(li + 1).drop_last() =~= lv.take(li as int));
        assert(lv.take(li + 1).last() == lines@[li as int]@);
        match &lines[li] {
            Line::Row(cells) => {
                let ghost cv = cells_view(cells@);
                let mut ci: usize = 0;
                assert(merge_widths(w0, cv.take(0)) =~= w0);
                while ci < cells.len()
                    invariant
                        cv == cells_view(cells@),
                        ci <= cells.len(),
                        forall|i: int| 0 <= i < w0.len() ==> w0[i] >= 0,
                        ints(widths@) == merge_widths(w0, cv.take(ci as int)),
                    decreases cells.len() - ci,
                {
                    let ghost before = ints(widths@);
                    proof {
                        lemma_merge_step(w0, cv, ci as int);
                    }
                    assert(widths@.len() == before.len());
                    if widths.len() <= ci {
                        widths.push(0);
                    }
                    assert(widths@.len() > ci);
                    let w = str_width(cells[ci].text.as_str());
                    let cur = widths[ci];
                    if w > cur {
                        widths.set(ci, w);
                    }
                    assert(cv[ci as int] == cells@[ci as int]@);
                    ci = ci + 1;
                    assert(ints(widths@) =~= merge_widths(w0, cv.take(ci as int)));
                }
                assert(cv.take(cells.len() as int) =~= cv);
            },
            _ => {},
        }
        li = li + 1;
    }
    assert(lv.take(lines.len() as int) =~= lv);
    widths
}


/// Every line of `lines` rendered against `widths`, newline-terminated.
fn render_body(lines: &Vec<Line>, widths: &Vec<usize>) -> (out: Vec<char>)
    requires
        ints(widths@) == col_widths(lines_view(lines@)),
    ensures
        out@ == body(lines_view(lines@), ints(widths@)),
{
    let ghost lv = lines_view(lines@);
    let ghost wv = ints(widths@);
    let mut out: Vec<char> = Vec::new();
    let mut li: usize = 0;
    assert(lv.take(0) =~= Seq::<LineView>::empty());
    while li < lines.len()
        invariant
            lv == lines_view(lines@),
            wv == ints(widths@),
            wv == col_widths(lv),
            li <= lines.len(),
            out@ == body(lv.take(li as int), wv),
        decreases lines.len() - li,
    {
        let ghost before = out@;
        assert(lv.take(li + 1).drop_last() =~= lv.take(li as int));
        assert(lv.take(li + 1).last() == lines@[li as int]@);
        match &lines[li] {
            Line::Blank => {
                out.push('\n');
            },
            Line::Text(t) => {
                extend_chars(&mut out, t.as_str());
                out.push('\n');
            },
            Line::Row(cells) => {
                let ghost cv = cells_view(cells@);
                proof {
                    lemma_widths_cover(lv, li as int);
                }
                let mut ci: usize = 0;
                assert(cv.take(0) =~= Seq::<CellView>::empty());
                assert(before + row_text(cv.take(0), wv) =~= before);
                while ci < cells.len()
                    invariant
                        cv == cells_view(cells@),
                        wv == ints(widths@),
                        ci <= cells.len(),
                        widths@.len() >= cells.len(),
                        out@ == before + row_text(cv.take(ci as int), wv),
                    decreases cells.len() - ci,
                {
                    if ci > 0 {
                        out.push(' ');
                        out.push(' ');
                    }
                    let piece = cells[ci].render_padded(widths[ci]);
                    extend_chars(&mut out, piece.as_str());
                    assert(cv.take(ci + 1).drop_last() =~= cv.take(ci as int));
                    assert(cv.take(ci + 1)[ci as int] == cells@[ci as int]@);
                    ci = ci + 1;
                    assert(out@ =~= before + row_text(cv.take(ci as int), wv));
                }
                assert(cv.take(cells.len() as int) =~= cv);
                out.push('\n');
            },
        }
        li = li + 1;
        assert(out@ =~= body(lv.take(li as int), wv));
    }
    assert(lv.take(lines.len() as int) =~= lv);
    out
}

/// The length of `s` once its trailing newlines are dropped.
fn stripped_len(s: &Vec<char>) -> (k: usize)
    ensures
        k <= s@.len(),
        s@.take(k as int) == strip_newlines(s@),
{
    let mut k = s.len();
    assert(s@.take(k as int) =~= s@);
    while k > 0 && s[k - 1] == '\n'
        invariant
            k <= s@.len(),
            strip_newlines(s@.take(k as int)) == strip_newlines(s@),
        decreases k,
    {
        assert(s@.take(k as int).drop_last() =~= s@.take(k - 1));
        k = k - 1;
    }
    k
}

/// The texts of `cells` joined by two spaces.
fn join_cells(cells: &Vec<Cell>) -> (r: String)
    ensures
        r@ == join_texts(cells_view(cells@)),
{
    let ghost cv = cells_view(cells@);
    let mut out = String::new();
    let mut i: usize = 0;
    assert(cv.take(0) =~= Seq::<CellView>::empty());
    while i < cells.len()
        invariant
            cv == cells_view(cells@),
            i <= cells.len(),
            out@ == join_texts(cv.take(i as int)),
        decreases cells.len() - i,
    {
        if i > 0 {
            push_char(&mut out, ' ');
            push_char(&mut out, ' ');
        }
        out.append(cells[i].text.as_str());
        assert(cv.take(i + 1).drop_last() =~= cv.take(i as int));
        assert(cv.take(i + 1).last() == cells@[i as int]@);
        i = i + 1;
        assert(out@ =~= join_texts(cv.take(i as int)));
    }
    assert(cv.take(cells.len() as int) =~= cv);
    out
}

impl Line {
    /// A text line.
    pub fn text(text: &str) -> (l: Line)
        ensures
            l@ == LineView::Text(text@),
    {
        Line::Text(text.to_owned())
    }

    /// A table row.
    pub fn row(cells: Vec<Cell>) -> (l: Line)
        ensures
            l@ == LineView::Row(cells_view(cells@)),
    {
        Line::Row(cells)
    }

    /// A blank separator line.
    pub fn blank() -> (l: Line)
        ensures
            l@ == LineView::Blank,
    {
        Line::Blank
    }

    /// Cut `text` to `max` display columns, appending an ellipsis when
    /// truncated.
    pub fn cut(text: String, max: usize) -> (r: String)
        ensures
            r@ == cut_spec(text@, max as int),
    {
        if str_width(text.as_str()) <= max {
            return text;
        }
        let ghost t = text@;
        let keep = max.saturating_sub(1);
        let n = text.as_str().unicode_len();
        let mut out = String::new();
        let mut k: usize = 0;
        assert(t.take(0) =~= Seq::<char>::empty());
        while k < n
            invariant
                t == text@,
                n == t.len(),
                k <= n,
                out@ == t.take(k as int),
                cut_len(t, keep as int, 0) == cut_len(t, keep as int, k as int),
            ensures
                out@ == t.take(cut_len(t, keep as int, 0)),
            decreases n - k,
        {
            let ch = text.as_str().get_char(k);
            let ow = str_width(out.as_str());
            let mut one = String::new();
            push_char(&mut one, ch);
            assert(one@ =~= seq![t[k as int]]);
            let cw = str_width(one.as_str());
            if (ow as u128) + (cw as u128) > (keep as u128) {
                assert(cut_len(t, keep as int, k as int) == k);
                break;
            }
            push_char(&mut out, ch);
            k = k + 1;
            assert(out@ =~= t.take(k as int));
        }
        push_char(&mut out, '\u{2026}');
        assert(out@ == cut_spec(t, max as int));
        out
    }

    /// Truncate this line to `max` display columns, appending an ellipsis.
    pub fn ellipsize(&mut self, max: usize)
        ensures
            final(self)@ == ellipsize_spec(old(self)@, max as int),
    {
        let replacement: Option<Line> = match &*self {
            Line::Text(t) => Some(Line::Text(Self::cut(t.clone(), max))),
            Line::Row(cells) => Some(Line::Text(Self::cut(join_cells(cells), max))),
            Line::Blank => None,
        };
        if let Some(l) = replacement {
            *self = l;
        }
    }
}

impl Block {
    /// An empty block.
    pub fn new() -> (b: Block)
        ensures
            b@ == Seq::<LineView>::empty(),
    {
        let b = Block { lines: Vec::new() };
        assert(b@ =~= Seq::<LineView>::empty());
        b
    }

    /// Append a line directly (e.g. after [`Line::ellipsize`]).
    pub fn push(&mut self, line: Line) -> (r: &mut Self)
        ensures
            r@ == old(self)@.push(line@),
            *final(self) == *final(r),
    {
        self.lines.push(line);
        assert(self@ =~= old(self)@.push(line@));
        self
    }

    /// Append a text line.
    pub fn line(&mut self, text: &str) -> (r: &mut Self)
        ensures
            r@ == old(self)@.push(LineView::Text(text@)),
            *final(self) == *final(r),
    {
        self.push(Line::Text(text.to_owned()))
    }

    /// Append a `"key: value"` line.
    pub fn kv(&mut self, key: &str, value: &str) -> (r: &mut Self)
        ensures
            r@ == old(self)@.push(LineView::Text(key@ + seq![':', ' '] + value@)),
            *final(self) == *final(r),
    {
        let mut text = key.to_owned();
        text.append(": ");
        text.append(value);
        proof {
            reveal_strlit(": ");
        }
        assert(text@ =~= key@ + seq![':', ' '] + value@);
        self.push(Line::Text(text))
    }

    /// Append a table row.
    pub fn row(&mut self, cells: Vec<Cell>) -> (r: &mut Self)
        ensures
            r@ == old(self)@.push(LineView::Row(cells_view(cells@))),
            *final(self) == *final(r),
    {
        self.push(Line::Row(cells))
    }

    /// Append a blank separator line.
    pub fn blank(&mut self) -> (r: &mut Self)
        ensures
            r@ == old(self)@.push(LineView::Blank),
            *final(self) == *final(r),
    {
        self.push(Line::Blank)
    }

    /// Append every line of another block.
    pub fn push_block(&mut self, other: Block) -> (r: &mut Self)
        ensures
            r@ == old(self)@ + other@,
            *final(self) == *final(r),
    {
        let ghost before = self.lines@;
        let ghost added = other.lines@;
        let mut other = other;
        self.lines.append(&mut other.lines);
        assert(self.lines@ =~= before + added);
        assert(lines_view(before + added) =~= lines_view(before) + lines_view(added));
        self
    }

    /// Render as plain text.
    pub fn build(&self) -> (r: String)
        ensures
            r@ == render_plain(self@),
    {
        self.render(Render::Plain)
    }

    /// Render as a fenced monospace code block (keeps table alignment on
    /// Telegram's variable-width font).
    pub fn render_monospace(&self) -> (r: String)
        ensures
            r@ == render_spec(self@, Render::Monospace),
    {
        self.render(Render::Monospace)
    }

    /// Rendered width in display columns (plain mode).
    pub fn rendered_width(&self) -> (w: usize)
        ensures
            w as int == rendered_width_spec(self@),
    {
        let s = self.build();
        str_width(s.as_str())
    }

    /// Keep only the first lines that fit within `max` display columns.
    ///
    /// Whole lines are dropped from the tail (never cut in half); a trailing
    /// ellipsis line marks dropped content. A single line longer than `max`
    /// is cut.
    pub fn truncate(self, max: usize) -> (r: Block)
        ensures
            r@ == truncate_spec(self@, max as int),
    {
        let mut b = self;
        if b.rendered_width() <= max {
            return b;
        }
        let ghost lv = b@;
        let total = b.lines.len();
        assert(lv.take(total as int) =~= lv);
        while b.rendered_width() > max && b.lines.len() > 1
            invariant
                total == lv.len(),
                b.lines.len() <= total,
                b@ == lv.take(b.lines.len() as int),
                kept(lv, max as int, total as int) == kept(lv, max as int, b.lines.len() as int),
            decreases b.lines.len(),
        {
            let ghost n = b.lines.len();
            b.lines.pop();
            assert(b@ =~= lv.take(n - 1));
        }
        let n = b.lines.len();
        assert(kept(lv, max as int, n as int) == n);
        if b.rendered_width() > max {
            if n > 0 {
                let mut first = b.lines.pop().unwrap();
                first.ellipsize(max);
                b.lines.push(first);
                assert(b@ =~= lv.take(n as int).update(0, ellipsize_spec(lv.take(n as int)[0], max as int)));
            }
        } else if n < total {
            proof {
                reveal_strlit("\u{2026}");
            }
            let dots = "\u{2026}";
            assert(dots@ =~= seq![ellipsis()]);
            let m = Line::text(dots);
            assert(m@ == marker());
            b.lines.push(m);
            assert(b@ =~= lv.take(n as int).push(marker()));
        }
        b
    }

    /// Render in the given mode.
    pub fn render(&self, mode: Render) -> (r: String)
        ensures
            r@ == render_spec(self@, mode),
    {
        let widths = column_widths(&self.lines);
        let out = render_body(&self.lines, &widths);
        let k = stripped_len(&out);
        let plain = string_of(&out, k);
        match mode {
            Render::Plain => plain,
            Render::Monospace => {
                let mut fenced = String::new();
                fenced.append("```\n");
                fenced.append(plain.as_str());
                fenced.append("\n```");
                proof {
                    reveal_strlit("```\n");
                    reveal_strlit("\n```");
                }
                assert(fenced@ =~= render_spec(self@, mode));
                fenced
            },
        }
    }
}


fn copy_cells(cells: &Vec<Cell>) -> (r: Vec<Cell>)
    ensures
        cells_view(r@) == cells_view(cells@),
{
    let mut out: Vec<Cell> = Vec::new();
    let mut i: usize = 0;
    while i < cells.len()
        invariant
            i <= cells.len(),
            cells_view(out@) == cells_view(cells@.take(i as int)),
        decreases cells.len() - i,
    {
        let c = Cell { text: cells[i].text.clone(), align: cells[i].align };
        assert(c@ == cells@[i as int]@);
        let ghost prev = out@;
        out.push(c);
        assert(cells@.take(i + 1) =~= cells@.take(i as int).push(cells@[i as int]));
        assert(cells_view(out@) =~= cells_view(prev).push(c@));
        i = i + 1;
        assert(cells_view(out@) =~= cells_view(cells@.take(i as int)));
    }
    assert(cells@.take(cells.len() as int) =~= cells@);
    out
}

fn copy_line(l: &Line) -> (r: Line)
    ensures
        r@ == l@,
{
    match l {
        Line::Text(t) => Line::Text(t.clone()),
        Line::Row(cells) => Line::Row(copy_cells(cells)),
        Line::Blank => Line::Blank,
    }
}

impl Block {
    /// A copy of this block with the same lines.
    pub fn duplicate(&self) -> (r: Block)
        ensures
            r@ == self@,
    {
        let mut lines: Vec<Line> = Vec::new();
        let mut i: usize = 0;
        while i < self.lines.len()
            invariant
                i <= self.lines.len(),
                lines_view(lines@) == lines_view(self.lines@.take(i as int)),
            decreases self.lines.len() - i,
        {
            let l = copy_line(&self.lines[i]);
            let ghost prev = lines@;
            lines.push(l);
            assert(self.lines@.take(i + 1) =~= self.lines@.take(i as int).push(self.lines@[i as int]));
            assert(lines_view(lines@) =~= lines_view(prev).push(l@));
            i = i + 1;
            assert(lines_view(lines@) =~= lines_view(self.lines@.take(i as int)));
        }
        assert(self.lines@.take(self.lines.len() as int) =~= self.lines@);
        Block { lines }
    }
}

impl<'a> From<&'a str> for Cell {
    /// A left-aligned cell.
    fn from(text: &'a str) -> (c: Cell)
        ensures
            c@ == (CellView { text: text@, align: Align::Left }),
    {
        Cell::new(text)
    }
}

impl<'a> FromSpecImpl<&'a str> for Cell {
    open spec fn obeys_from_spec() -> bool {
        false
    }

    closed spec fn from_spec(v: &'a str) -> Cell {
        arbitrary()
    }
}

impl From<String> for Cell {
    /// A left-aligned cell.
    fn from(text: String) -> (c: Cell)
        ensures
            c@ == (CellView { text: text@, align: Align::Left }),
    {
        Cell { text, align: Align::Left }
    }
}

impl FromSpecImpl<String> for Cell {
    open spec fn obeys_from_spec() -> bool {
        false
    }

    closed spec fn from_spec(v: String) -> Cell {
        arbitrary()
    }
}

impl Default for Block {
    fn default() -> (b: Block)
        ensures
            b@ == Seq::<LineView>::empty(),
    {
        Block::new()
    }
}

/// Types that can render themselves into a [`Block`].
///
/// Implement this for data types (quotes, metrics, ...) so commands can
/// compose them with [`Block::push_block`].
pub trait RenderBlock {
    /// Append this value's lines to `out`.
    fn render_block(&self, out: &mut Block);

    /// Render this value as a standalone block.
    fn to_block(&self) -> Block {
        let mut out = Block::new();
        self.render_block(&mut out);
        out
    }
}

// ---------------------------------------------------------------------------
// Laws
// ---------------------------------------------------------------------------

proof fn lemma_kept(lines: Seq<LineView>, max: int, m: int)
    requires
        0 <= m <= lines.len(),
    ensures
        0 <= kept(lines, max, m) <= m,
        m >= 1 ==> kept(lines, max, m) >= 1,
        kept(lines, max, m) <= 1 || rendered_width_spec(lines.take(kept(lines, max, m))) <= max,
        forall|j: int|
            kept(lines, max, m) < j <= m ==> rendered_width_spec(#[trigger] lines.take(j)) > max,
    decreases m,
{
    if 1 < m <= lines.len() && rendered_width_spec(lines.take(m)) > max {
        lemma_kept(lines, max, m - 1);
    }
}

/// A block that already fits within `max` columns is returned unchanged by
/// truncation.
pub proof fn law_truncate_keeps_fitting_blocks(lines: Seq<LineView>, max: int)
    requires
        rendered_width_spec(lines) <= max,
    ensures
        truncate_spec(lines, max) == lines,
{
}

/// Truncation drops whole lines from the tail, never more than it must: the
/// result is the block unchanged, or a prefix of it that fits followed by
/// the ellipsis marker (every longer prefix is too wide), or, when even a
/// single line is too wide, that line cut to `max` columns.
pub proof fn law_truncate_drops_tail_lines(lines: Seq<LineView>, max: int)
    ensures
        ({
            let r = truncate_spec(lines, max);
            ||| r == lines
            ||| exists|n: int|
                {
                    &&& 0 <= n < lines.len()
                    &&& rendered_width_spec(lines.take(n)) <= max
                    &&& r == lines.take(n).push(marker())
                    &&& forall|j: int| n < j <= lines.len() ==> rendered_width_spec(#[trigger] lines.take(j)) > max
                }
            ||| (lines.len() >= 1 && r == seq![ellipsize_spec(lines[0], max)])
        }),
{
    if rendered_width_spec(lines) > max {
        let n = kept(lines, max, lines.len() as int);
        lemma_kept(lines, max, lines.len() as int);
        let t = lines.take(n);
        if rendered_width_spec(t) > max {
            if n > 0 {
                assert(n == 1);
                assert(truncate_spec(lines, max) =~= seq![ellipsize_spec(lines[0], max)]);
            } else {
                assert(lines.len() == 0);
                assert(lines.take(0) =~= lines);
            }
        } else if n < lines.len() {
            assert(rendered_width_spec(lines.take(n)) <= max);
        } else {
            assert(lines.take(n) =~= lines);
        }
    }
}

/// Cutting keeps text that fits; otherwise it keeps the longest prefix whose
/// characters each still fit within one column less than `max`, and appends
/// an ellipsis.
pub proof fn law_cut_keeps_fitting_prefix(t: Seq<char>, max: int)
    ensures
        display_width(t) <= max ==> cut_spec(t, max) == t,
        display_width(t) > max ==> exists|k: int|
            #![trigger t.take(k)]
            {
                let keep = if max >= 1 { max - 1 } else { 0 };
                &&& 0 <= k <= t.len()
                &&& cut_spec(t, max) == t.take(k).push(ellipsis())
                &&& forall|j: int|
                    0 <= j < k ==> display_width(#[trigger] t.take(j)) + display_width(seq![t[j]]) <= keep
                &&& (k == t.len() || display_width(t.take(k)) + display_width(seq![t[k]]) > keep)
            },
{
    if display_width(t) > max {
        let keep = if max >= 1 { max - 1 } else { 0 };
        lemma_cut_len(t, keep, 0);
    }
}

proof fn lemma_cut_len(t: Seq<char>, keep: int, k: int)
    requires
        0 <= k <= t.len(),
    ensures
        k <= cut_len(t, keep, k) <= t.len(),
        forall|j: int|
            k <= j < cut_len(t, keep, k) ==> display_width(#[trigger] t.take(j)) + display_width(seq![t[j]])
                <= keep,
        cut_len(t, keep, k) == t.len() || display_width(t.take(cut_len(t, keep, k))) + display_width(
            seq![t[cut_len(t, keep, k)]],
        ) > keep,
    decreases t.len() - k,
{
    if k < t.len() && display_width(t.take(k)) + display_width(seq![t[k]]) <= keep {
        lemma_cut_len(t, keep, k + 1);
    }
}

/// The monospace rendering is the plain rendering inside a code fence.
pub proof fn law_monospace_wraps_plain(lines: Seq<LineView>)
    ensures
        render_spec(lines, Render::Monospace) == fence().push('\n') + render_spec(lines, Render::Plain)
            + seq!['\n'] + fence(),
{
}

proof fn lemma_col_widths_nonneg(lines: Seq<LineView>)
    ensures
        forall|i: int| 0 <= i < col_widths(lines).len() ==> col_widths(lines)[i] >= 0,
    decreases lines.len(),
{
    if lines.len() > 0 {
        let w = col_widths(lines.drop_last());
        lemma_col_widths_nonneg(lines.drop_last());
        if let LineView::Row(cells) = lines.last() {
            let m = merge_widths(w, cells);
            assert forall|i: int| 0 <= i < m.len() implies m[i] >= 0 by {
                if i < cells.len() {
                    assert(cell_width(cells[i]) >= 0);
                }
            }
        }
    }
}

/// Every column is at least as wide as each of its cells, so every cell of
/// every row is padded out to the same column width.
pub proof fn law_columns_hold_every_cell(lines: Seq<LineView>, k: int, i: int)
    requires
        0 <= k < lines.len(),
        lines[k] matches LineView::Row(cells) && 0 <= i < cells.len(),
    ensures
        lines[k] matches LineView::Row(cells) && i < col_widths(lines).len() && col_widths(lines)[i]
            >= cell_width(cells[i]),
    decreases lines.len(),
{
    lemma_widths_cover(lines, k);
    let w = col_widths(lines.drop_last());
    lemma_col_widths_nonneg(lines.drop_last());
    if k < lines.len() - 1 {
        assert(lines.drop_last()[k] == lines[k]);
        law_columns_hold_every_cell(lines.drop_last(), k, i);
        if let LineView::Row(last) = lines.last() {
            lemma_merge_len(w, last);
        }
    }
}


/// Every column width is the width of some cell in that column of some
/// table row: text lines and blank lines never widen a column, and no
/// column exists without a row that reaches it. (With
/// [`law_columns_hold_every_cell`], each column is exactly as wide as its
/// widest row cell.)
pub proof fn law_widths_come_from_rows(lines: Seq<LineView>, i: int)
    requires
        0 <= i < col_widths(lines).len(),
    ensures
        exists|k: int|
            0 <= k < lines.len() && (#[trigger] lines[k] matches LineView::Row(cells) && i < cells.len()
                && col_widths(lines)[i] == cell_width(cells[i])),
    decreases lines.len(),
{
    let d = lines.drop_last();
    let w = col_widths(d);
    lemma_col_widths_nonneg(d);
    let last = lines.len() - 1;
    match lines.last() {
        LineView::Row(cells) => {
            let a = if i < w.len() { w[i] } else { 0 };
            let b = if i < cells.len() { cell_width(cells[i]) } else { 0 };
            if i < w.len() && a >= b {
                law_widths_come_from_rows(d, i);
                let k = choose|k: int|
                    0 <= k < d.len() && (#[trigger] d[k] matches LineView::Row(cs) && i < cs.len()
                        && w[i] == cell_width(cs[i]));
                assert(lines[k] == d[k]);
            } else {
                assert(i < cells.len());
                assert(lines[last] == lines.last());
            }
        },
        _ => {
            law_widths_come_from_rows(d, i);
            let k = choose|k: int|
                0 <= k < d.len() && (#[trigger] d[k] matches LineView::Row(cs) && i < cs.len()
                    && w[i] == cell_width(cs[i]));
            assert(lines[k] == d[k]);
        },
    }
}

/// Inserting a text line or a blank line anywhere in a block leaves every
/// column width unchanged, so the table rows render exactly as before.
pub proof fn law_non_row_lines_leave_widths(lines: Seq<LineView>, k: int, l: LineView)
    requires
        0 <= k <= lines.len(),
        !(l is Row),
    ensures
        col_widths(lines.insert(k, l)) == col_widths(lines),
    decreases lines.len(),
{
    let ins = lines.insert(k, l);
    if k == lines.len() {
        assert(ins.drop_last() =~= lines);
        assert(ins.last() == l);
    } else {
        assert(ins.drop_last() =~= lines.drop_last().insert(k, l));
        assert(ins.last() == lines.last());
        law_non_row_lines_leave_widths(lines.drop_last(), k, l);
    }
}

} // verus!
