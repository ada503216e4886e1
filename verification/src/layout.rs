//! The layout engine: breaks the document into rows at newlines and at a
//! wrap limit, attaches per-column pixel geometry to every row, and
//! answers the geometric queries (offset to position, position to offset,
//! row-relative navigation) that position-aware editing needs.
//!
//! Geometry is monospaced and held in whole pixel units, so every row
//! carries one x-offset per column boundary and rows stack at a fixed
//! height.

use vstd::prelude::*;
use crate::selection::Selection;
use crate::selection::selection_valid;
use crate::selection::sorted_spec;
use crate::text::TextBuffer;

verus! {

/// Shaping parameters for one layout: the wrap limit in columns and the
/// pixel size of one glyph cell.
#[derive(Clone, Copy, Debug, PartialEq, Eq, Structural)]
pub struct LayoutParams {
    pub wrap_cols: usize,
    pub char_width: u64,
    pub row_height: u64,
}

impl LayoutParams {
    /// Sane shaping parameters: at least one column, glyph cells of a
    /// positive size, and row pixel spans that cannot overflow.
    pub open spec fn wf(self) -> bool {
        &&& self.wrap_cols >= 1
        &&& self.wrap_cols < usize::MAX
        &&& self.char_width >= 1
        &&& self.row_height >= 1
        &&& (self.wrap_cols as int) * (self.char_width as int) + (self.row_height as int)
            <= u64::MAX as int
    }

    /// Checks the `wf` conditions at run time.
    pub fn check(&self) -> (r: bool)
        ensures
            r == self.wf(),
    {
        self.wrap_cols >= 1 && self.wrap_cols < usize::MAX && self.char_width >= 1
            && self.row_height >= 1 && {
            let w = self.wrap_cols as u128;
            let c = self.char_width as u128;
            let h = self.row_height as u128;
            proof {
                vstd::arithmetic::mul::lemma_mul_upper_bound(
                    w as int,
                    u64::MAX as int,
                    c as int,
                    u64::MAX as int,
                );
            }
            w * c + h <= u64::MAX as u128
        }
    }
}

/// The mathematical span of one row: the character offsets it covers and
/// whether it was ended by a newline character (then that newline is the
/// last character of the span).
pub ghost struct RowSpan {
    pub start: int,
    pub end: int,
    pub newline: bool,
}

/// The number of visible glyphs in a row: a terminating newline takes no
/// cell.
pub open spec fn glyphs_of(s: RowSpan) -> int {
    s.end - s.start - (if s.newline {
        1int
    } else {
        0int
    })
}

/// The length of the first layout row of `t`: characters up to and
/// including the first newline, but at most `wrap` characters.
pub open spec fn first_row_len(t: Seq<char>, wrap: nat) -> nat
    decreases t.len(),
{
    if t.len() == 0 {
        0
    } else if t[0] == '\n' {
        1
    } else if wrap <= 1 {
        1
    } else {
        (1 + first_row_len(t.drop_first(), (wrap - 1) as nat)) as nat
    }
}

/// The row break is the one place satisfying the stopping conditions: no
/// interior newline, and the row ends with a newline or at the wrap limit
/// or at the end of the text.
pub proof fn lemma_first_row_len_unique(t: Seq<char>, wrap: nat, k: int)
    requires
        t.len() > 0,
        wrap >= 1,
        1 <= k <= t.len(),
        k <= wrap,
        forall|j: int| 0 <= j < k - 1 ==> t[j] != '\n',
        t[k - 1] == '\n' || k == wrap || k == t.len(),
    ensures
        k == first_row_len(t, wrap),
    decreases t.len(),
{
    if t[0] == '\n' {
        assert(k == 1);
    } else if wrap <= 1 {
        assert(k == 1);
    } else if k == 1 {
        assert(t.len() == 1);
        assert(first_row_len(t, wrap) == 1 + first_row_len(t.drop_first(), (wrap - 1) as nat));
    } else {
        let t1 = t.drop_first();
        assert(forall|j: int| 0 <= j < k - 2 ==> t1[j] != '\n');
        assert(t1[k - 2] == t[k - 1]);
        lemma_first_row_len_unique(t1, (wrap - 1) as nat, k - 1);
    }
}

/// The lengths and newline flags of all layout rows of `t`, first row
/// first.  The trailing empty row after a final newline is not included.
pub open spec fn row_lens(t: Seq<char>, wrap: nat) -> Seq<(nat, bool)>
    decreases t.len(),
{
    if t.len() == 0 {
        Seq::empty()
    } else {
        let k0 = first_row_len(t, wrap);
        let k = if k0 <= t.len() {
            k0
        } else {
            t.len()
        };
        seq![(k, t[k - 1] == '\n')] + row_lens(t.skip(k as int), wrap)
    }
}

/// Row lengths turned into absolute spans, starting at offset `base`.
pub open spec fn spans_from(lens: Seq<(nat, bool)>, base: int) -> Seq<RowSpan>
    decreases lens.len(),
{
    if lens.len() == 0 {
        Seq::empty()
    } else {
        seq![RowSpan { start: base, end: base + lens[0].0, newline: lens[0].1 }] + spans_from(
            lens.drop_first(),
            base + lens[0].0,
        )
    }
}

/// The row spans of the layout of `t` at wrap limit `wrap`.  There is
/// always at least one row, the rows partition `[0, t.len())` in order,
/// and a final empty row stands after a trailing newline (and is the only
/// row of an empty document), so that every offset in `0..=len` falls on
/// a row and the last row never ends in a newline.
pub open spec fn layout_spans(t: Seq<char>, wrap: nat) -> Seq<RowSpan> {
    let body = spans_from(row_lens(t, wrap), 0);
    if body.len() == 0 || body.last().newline {
        body.push(RowSpan { start: t.len() as int, end: t.len() as int, newline: false })
    } else {
        body
    }
}

/// Monospace column geometry: `n` x-offsets spaced `cw` pixels apart.
pub open spec fn uniform_xs(n: int, cw: int) -> Seq<u64> {
    Seq::new(n as nat, |c: int| (c * cw) as u64)
}

/// One laid-out row: the character offsets it covers, whether a newline
/// ended it, and one x-offset per column boundary (`glyphs + 1` entries).
pub struct Row {
    pub start: usize,
    pub end: usize,
    pub newline: bool,
    pub xs: Vec<u64>,
}

impl Row {
    /// The mathematical span of this row.
    pub open spec fn span(&self) -> RowSpan {
        RowSpan { start: self.start as int, end: self.end as int, newline: self.newline }
    }
}

/// A laid-out document: rows in order with their geometry.  Immutable
/// once produced; a new layout is built whenever text or parameters
/// change.
pub struct Layout {
    pub rows: Vec<Row>,
    pub params: LayoutParams,
    pub text_len: usize,
}

impl Layout {
    /// The mathematical spans of all rows.
    pub open spec fn spans(&self) -> Seq<RowSpan> {
        Seq::new(self.rows@.len(), |i: int| self.rows@[i].span())
    }

    /// Structural soundness: the rows partition `[0, text_len)` in
    /// order, only the final row is empty or newline-free at the end,
    /// and every row carries monospace geometry within the wrap limit.
    pub open spec fn wf(&self) -> bool {
        &&& self.params.wf()
        &&& self.rows@.len() >= 1
        &&& self.spans()[0].start == 0
        &&& self.spans().last().end == self.text_len
        &&& !self.spans().last().newline
        &&& forall|i: int|
            0 <= i < self.rows@.len() - 1 ==> (#[trigger] self.spans()[i]).end == self.spans()[
                i + 1
            ].start
        &&& forall|i: int|
            0 <= i < self.rows@.len() - 1 ==> (#[trigger] self.spans()[i]).start < self.spans()[
                i
            ].end
        &&& forall|i: int|
            0 <= i < self.rows@.len() ==> (#[trigger] self.spans()[i]).start <= self.spans()[i].end
        &&& forall|i: int|
            0 <= i < self.rows@.len() ==> (#[trigger] self.spans()[i]).end <= self.text_len
        &&& forall|i: int|
            0 <= i < self.rows@.len() ==> (#[trigger] self.spans()[i]).newline ==> self.spans()[
                i
            ].start < self.spans()[i].end
        &&& forall|i: int|
            0 <= i < self.rows@.len() ==> glyphs_of(#[trigger] self.spans()[i])
                <= self.params.wrap_cols
        &&& forall|i: int|
            0 <= i < self.rows@.len() ==> (#[trigger] self.rows@[i]).xs@ == uniform_xs(
                glyphs_of(self.spans()[i]) + 1,
                self.params.char_width as int,
            )
    }

    /// The layout describes exactly the text `t`.
    pub open spec fn is_layout_for(&self, t: Seq<char>) -> bool {
        &&& self.wf()
        &&& self.text_len == t.len()
        &&& self.spans() == layout_spans(t, self.params.wrap_cols as nat)
    }
}

/// Builds the monospace x-offsets for a row of `glyphs` visible glyphs.
fn build_xs(glyphs: usize, params: LayoutParams) -> (r: Vec<u64>)
    requires
        params.wf(),
        glyphs <= params.wrap_cols,
    ensures
        r@ == uniform_xs(glyphs + 1, params.char_width as int),
{
    let mut xs: Vec<u64> = Vec::new();
    let mut c: usize = 0;
    while c <= glyphs
        invariant
            params.wf(),
            glyphs <= params.wrap_cols,
            c <= glyphs + 1,
            xs@ == uniform_xs(c as int, params.char_width as int),
        decreases glyphs + 1 - c,
    {
        proof {
            vstd::arithmetic::mul::lemma_mul_inequality(
                c as int,
                params.wrap_cols as int,
                params.char_width as int,
            );
        }
        xs.push((c as u64) * params.char_width);
        assert(xs@ =~= uniform_xs(c + 1 as int, params.char_width as int));
        c = c + 1;
    }
    xs
}

/// Lays the text out: rows broken at newlines and at the wrap limit,
/// with monospace geometry.
pub fn build_layout(text: &TextBuffer, params: LayoutParams) -> (r: Layout)
    requires
        params.wf(),
    ensures
        r.is_layout_for(text@),
        r.params == params,
{
    let len = text.len();
    let ghost wrap: nat = params.wrap_cols as nat;
    let ghost all: Seq<RowSpan> = spans_from(row_lens(text@, wrap), 0);
    let mut rows: Vec<Row> = Vec::new();
    let mut pos: usize = 0;
    proof {
        assert(text@.skip(0) =~= text@);
        assert(Seq::new(0, |i: int| rows@[i].span()) =~= Seq::<RowSpan>::empty());
        assert(Seq::<RowSpan>::empty() + spans_from(row_lens(text@, wrap), 0) =~= all);
    }
    while pos < len
        invariant
            params.wf(),
            wrap == params.wrap_cols as nat,
            all == spans_from(row_lens(text@, wrap), 0),
            len == text@.len(),
            pos <= len,
            Seq::new(rows@.len(), |i: int| rows@[i].span()) + spans_from(
                row_lens(text@.skip(pos as int), wrap),
                pos as int,
            ) == all,
            rows@.len() >= 1 ==> rows@[0].span().start == 0,
            rows@.len() >= 1 ==> rows@[rows@.len() - 1].span().end == pos,
            rows@.len() == 0 ==> pos == 0,
            forall|i: int|
                0 <= i < rows@.len() - 1 ==> (#[trigger] rows@[i].span()).end == rows@[
                    i + 1
                ].span().start,
            forall|i: int|
                0 <= i < rows@.len() ==> (#[trigger] rows@[i].span()).start < rows@[i].span().end,
            forall|i: int|
                0 <= i < rows@.len() ==> (#[trigger] rows@[i].span()).end <= pos,
            forall|i: int|
                0 <= i < rows@.len() ==> (#[trigger] rows@[i].span()).newline ==> rows@[
                    i
                ].span().start < rows@[i].span().end,
            forall|i: int|
                0 <= i < rows@.len() ==> glyphs_of(#[trigger] rows@[i].span())
                    <= params.wrap_cols,
            forall|i: int|
                0 <= i < rows@.len() ==> (#[trigger] rows@[i]).xs@ == uniform_xs(
                    glyphs_of(rows@[i].span()) + 1,
                    params.char_width as int,
                ),
        decreases len - pos,
    {
        let rem = len - pos;
        let lim = if params.wrap_cols < rem {
            params.wrap_cols
        } else {
            rem
        };
        let mut j: usize = 0;
        while j < lim && text.char_at(pos + j) != '\n'
            invariant
                pos + lim <= len,
                len == text@.len(),
                j <= lim,
                forall|m: int| 0 <= m < j ==> #[trigger] text@[pos + m] != '\n',
            decreases lim - j,
        {
            j = j + 1;
        }
        let k: usize = if j < lim {
            j + 1
        } else {
            j
        };
        let nl: bool = j < lim;
        let ghost u: Seq<char> = text@.skip(pos as int);
        proof {
            assert(u.len() == rem);
            assert(forall|m: int| 0 <= m < u.len() ==> u[m] == text@[pos + m]);
            assert(nl ==> u[k - 1] == '\n');
            assert(!nl ==> k == lim && u[k - 1] != '\n');
            assert(k - 1 <= j);
            assert(forall|m: int| 0 <= m < k - 1 ==> u[m] != '\n');
            assert(k == wrap || k == u.len() || u[k - 1] == '\n');
            lemma_first_row_len_unique(u, wrap, k as int);
            assert(first_row_len(u, wrap) == k);
            assert(row_lens(u, wrap) == seq![((k as nat), u[k - 1] == '\n')] + row_lens(
                u.skip(k as int),
                wrap,
            ));
            assert(u[k - 1] == '\n' <==> nl);
            assert(u.skip(k as int) =~= text@.skip(pos + k));
            assert(spans_from(row_lens(u, wrap), pos as int) == seq![
                RowSpan { start: pos as int, end: pos + k, newline: nl },
            ] + spans_from(row_lens(text@.skip(pos + k), wrap), pos + k)) by {
                let lens = row_lens(u, wrap);
                assert(lens[0] == ((k as nat), nl));
                assert(lens.drop_first() =~= row_lens(text@.skip(pos + k), wrap));
            }
        }
        let glyphs = if nl {
            k - 1
        } else {
            k
        };
        let xs = build_xs(glyphs, params);
        let row = Row { start: pos, end: pos + k, newline: nl, xs };
        assert(row.span() == RowSpan { start: pos as int, end: pos + k, newline: nl });
        rows.push(row);
        proof {
            assert(Seq::new(rows@.len(), |i: int| rows@[i].span()) =~= Seq::new(
                (rows@.len() - 1) as nat,
                |i: int| rows@[i].span(),
            ).push(rows@[rows@.len() - 1].span()));
            assert(Seq::new(rows@.len(), |i: int| rows@[i].span()) + spans_from(
                row_lens(text@.skip(pos + k), wrap),
                pos + k,
            ) =~= all);
        }
        pos = pos + k;
    }
    // After a trailing newline, and for an empty document, one final
    // empty row carries the caret.
    let ghost body: Seq<RowSpan> = spans_from(row_lens(text@, wrap), 0);
    proof {
        assert(text@.skip(len as int) =~= Seq::<char>::empty());
        assert(row_lens(Seq::<char>::empty(), wrap) == Seq::<(nat, bool)>::empty());
        assert(spans_from(Seq::<(nat, bool)>::empty(), len as int) == Seq::<RowSpan>::empty());
        assert(Seq::new(rows@.len(), |i: int| rows@[i].span()) =~= Seq::new(
            rows@.len(),
            |i: int| rows@[i].span(),
        ) + Seq::<RowSpan>::empty());
        assert(Seq::new(rows@.len(), |i: int| rows@[i].span()) == body);
    }
    let needs_tail = if rows.len() == 0 {
        true
    } else {
        rows[rows.len() - 1].newline
    };
    if needs_tail {
        let xs = build_xs(0, params);
        let row = Row { start: len, end: len, newline: false, xs };
        rows.push(row);
        proof {
            assert(Seq::new(rows@.len(), |i: int| rows@[i].span()) =~= body.push(
                RowSpan { start: len as int, end: len as int, newline: false },
            ));
        }
    }
    let r = Layout { rows, params, text_len: len };
    proof {
        assert(r.spans() =~= Seq::new(r.rows@.len(), |i: int| r.rows@[i].span()));
        if needs_tail {
            assert(body.len() == 0 || body.last().newline);
            assert(r.spans() == layout_spans(text@, wrap));
        } else {
            assert(body.len() >= 1 && !body.last().newline);
            assert(r.spans() =~= body);
            assert(r.spans() == layout_spans(text@, wrap));
        }
    }
    r
}

/// Copies a geometry vector element for element.
fn copy_xs(v: &Vec<u64>) -> (r: Vec<u64>)
    ensures
        r@ == v@,
{
    let mut out: Vec<u64> = Vec::new();
    let mut i: usize = 0;
    while i < v.len()
        invariant
            i <= v@.len(),
            out@ == v@.subrange(0, i as int),
        decreases v@.len() - i,
    {
        out.push(v[i]);
        assert(out@ =~= v@.subrange(0, i + 1 as int));
        i = i + 1;
    }
    assert(out@ =~= v@);
    out
}

impl Layout {
    /// An element-for-element copy of this layout.
    pub fn duplicate(&self) -> (r: Layout)
        ensures
            r.params == self.params,
            r.text_len == self.text_len,
            r.spans() == self.spans(),
            r.rows@.len() == self.rows@.len(),
            forall|i: int|
                0 <= i < r.rows@.len() ==> (#[trigger] r.rows@[i]).xs@ == self.rows@[i].xs@,
            self.wf() ==> r.wf(),
    {
        let mut rows: Vec<Row> = Vec::new();
        let mut i: usize = 0;
        while i < self.rows.len()
            invariant
                i <= self.rows@.len(),
                rows@.len() == i,
                forall|q: int|
                    0 <= q < i ==> (#[trigger] rows@[q]).span() == self.rows@[q].span(),
                forall|q: int| 0 <= q < i ==> (#[trigger] rows@[q]).xs@ == self.rows@[q].xs@,
            decreases self.rows@.len() - i,
        {
            let src = &self.rows[i];
            let row = Row { start: src.start, end: src.end, newline: src.newline, xs: copy_xs(
                &src.xs,
            ) };
            rows.push(row);
            i = i + 1;
        }
        let r = Layout { rows, params: self.params, text_len: self.text_len };
        proof {
            assert(r.spans() =~= self.spans());
            if self.wf() {
                assert forall|q: int| 0 <= q < r.rows@.len() implies (#[trigger] r.rows@[q]).xs@
                    == uniform_xs(glyphs_of(r.spans()[q]) + 1, r.params.char_width as int) by {
                    assert(self.rows@[q].xs@ == uniform_xs(
                        glyphs_of(self.spans()[q]) + 1,
                        self.params.char_width as int,
                    ));
                }
            }
        }
        r
    }
}

/// The index of the row that carries a caret at offset `o`: the first
/// row whose end lies beyond `o`, and the last row for the offset at the
/// very end of the document.
pub open spec fn row_of_offset(spans: Seq<RowSpan>, o: int) -> int
    decreases spans.len(),
{
    if spans.len() <= 1 {
        0
    } else if o < spans[0].end {
        0
    } else {
        1 + row_of_offset(spans.drop_first(), o)
    }
}

/// Pixel distance between two x-coordinates.
pub open spec fn pixel_dist(a: int, b: int) -> int {
    if a >= b {
        a - b
    } else {
        b - a
    }
}

/// The column of the row geometry `xs` whose x-offset lies nearest to
/// `x`; the leftmost such column when two are equally near.
pub open spec fn nearest_col(xs: Seq<u64>, x: int) -> int
    decreases xs.len(),
{
    if xs.len() <= 1 {
        0
    } else {
        let b = 1 + nearest_col(xs.drop_first(), x);
        if pixel_dist(xs[0] as int, x) <= pixel_dist(xs[b] as int, x) {
            0
        } else {
            b
        }
    }
}

pub proof fn lemma_nearest_col_bounds(xs: Seq<u64>, x: int)
    requires
        xs.len() >= 1,
    ensures
        0 <= nearest_col(xs, x) < xs.len(),
    decreases xs.len(),
{
    if xs.len() > 1 {
        lemma_nearest_col_bounds(xs.drop_first(), x);
    }
}

/// No column of the row lies nearer to `x` than the chosen one, and no
/// column left of the chosen one lies equally near: the caret lands on
/// the visually nearest column boundary.
pub proof fn lemma_nearest_col_min(xs: Seq<u64>, x: int)
    requires
        xs.len() >= 1,
    ensures
        forall|c: int|
            0 <= c < xs.len() ==> pixel_dist(xs[nearest_col(xs, x)] as int, x) <= pixel_dist(
                #[trigger] xs[c] as int,
                x,
            ),
        forall|c: int|
            0 <= c < nearest_col(xs, x) ==> pixel_dist(#[trigger] xs[c] as int, x) > pixel_dist(
                xs[nearest_col(xs, x)] as int,
                x,
            ),
    decreases xs.len(),
{
    lemma_nearest_col_bounds(xs, x);
    if xs.len() > 1 {
        let rest = xs.drop_first();
        lemma_nearest_col_bounds(rest, x);
        lemma_nearest_col_min(rest, x);
        assert(forall|c: int| 1 <= c < xs.len() ==> #[trigger] xs[c] == rest[c - 1]);
    }
}

/// A downward caret move from a row that is not the last lands on the
/// column of the row below whose x-offset lies nearest to the caret's
/// pixel x-coordinate before the move — not necessarily on the same
/// column index.  (An upward move uses the same nearest-column choice.)
pub proof fn lemma_down_lands_nearest(spans: Seq<RowSpan>, cw: int, o: int, len: int)
    requires
        0 <= row_of_offset(spans, o) < spans.len() - 1,
        glyphs_of(spans[row_of_offset(spans, o) + 1]) >= 0,
    ensures
        ({
            let d = spans[row_of_offset(spans, o) + 1];
            let xs = uniform_xs(glyphs_of(d) + 1, cw);
            let x = x_of_spec(spans, cw, o);
            let c = down_spec(spans, cw, o, len) - d.start;
            &&& 0 <= c < xs.len()
            &&& forall|c2: int|
                0 <= c2 < xs.len() ==> pixel_dist(xs[c] as int, x) <= pixel_dist(
                    #[trigger] xs[c2] as int,
                    x,
                )
        }),
{
    let d = spans[row_of_offset(spans, o) + 1];
    let xs = uniform_xs(glyphs_of(d) + 1, cw);
    let x = x_of_spec(spans, cw, o);
    lemma_nearest_col_bounds(xs, x);
    lemma_nearest_col_min(xs, x);
}

/// The offset where the row holding `o` begins.
pub open spec fn row_begin_spec(spans: Seq<RowSpan>, o: int) -> int {
    spans[row_of_offset(spans, o)].start
}

/// The offset just past the last glyph of the row holding `o`, before
/// any terminating newline.
pub open spec fn row_end_spec(spans: Seq<RowSpan>, o: int) -> int {
    let s = spans[row_of_offset(spans, o)];
    s.start + glyphs_of(s)
}

/// The caret x-coordinate of offset `o` under monospace geometry.
pub open spec fn x_of_spec(spans: Seq<RowSpan>, cw: int, o: int) -> int {
    (o - spans[row_of_offset(spans, o)].start) * cw
}

/// Where the caret lands one row up from `o`: the document start from
/// the first row, else the column of the row above nearest to the
/// caret's pixel x-coordinate.
pub open spec fn up_spec(spans: Seq<RowSpan>, cw: int, o: int) -> int {
    let r = row_of_offset(spans, o);
    if r == 0 {
        0
    } else {
        let d = spans[r - 1];
        d.start + nearest_col(uniform_xs(glyphs_of(d) + 1, cw), x_of_spec(spans, cw, o))
    }
}

/// Where the caret lands one row down from `o`: the document end from
/// the last row, else the column of the row below nearest to the
/// caret's pixel x-coordinate.
pub open spec fn down_spec(spans: Seq<RowSpan>, cw: int, o: int, len: int) -> int {
    let r = row_of_offset(spans, o);
    if r == spans.len() - 1 {
        len
    } else {
        let d = spans[r + 1];
        d.start + nearest_col(uniform_xs(glyphs_of(d) + 1, cw), x_of_spec(spans, cw, o))
    }
}

/// The offset a pointer position picks: the row at that height (clamped
/// to the last row) and the column nearest to the pointer's x.
pub open spec fn pointer_offset_spec(spans: Seq<RowSpan>, cw: int, rh: int, x: int, y: int) -> int {
    let r0 = y / rh;
    let r = if r0 < spans.len() - 1 {
        r0
    } else {
        spans.len() - 1
    };
    spans[r].start + nearest_col(uniform_xs(glyphs_of(spans[r]) + 1, cw), x)
}

impl Layout {
    /// The number of rows.
    pub fn row_count(&self) -> (r: usize)
        ensures
            r == self.rows@.len(),
    {
        self.rows.len()
    }

    /// The index of the row carrying a caret at `offset`.
    pub fn find_row(&self, offset: usize) -> (r: usize)
        requires
            self.wf(),
            offset <= self.text_len,
        ensures
            r == row_of_offset(self.spans(), offset as int),
            r < self.rows@.len(),
            self.spans()[r as int].start <= offset,
            offset - self.spans()[r as int].start <= glyphs_of(self.spans()[r as int]),
    {
        let n = self.rows.len();
        let mut r: usize = 0;
        proof {
            assert(self.spans().skip(0) =~= self.spans());
        }
        while r + 1 < n && self.rows[r].end <= offset
            invariant
                self.wf(),
                offset <= self.text_len,
                n == self.rows@.len(),
                r < n,
                self.spans()[r as int].start <= offset,
                row_of_offset(self.spans(), offset as int) == r + row_of_offset(
                    self.spans().skip(r as int),
                    offset as int,
                ),
            decreases n - r,
        {
            proof {
                let sk = self.spans().skip(r as int);
                assert(sk.len() >= 2);
                assert(sk[0] == self.spans()[r as int]);
                assert(!(offset < sk[0].end));
                assert(sk.drop_first() =~= self.spans().skip(r + 1));
                assert(self.spans()[r as int].end == self.spans()[r + 1].start);
            }
            r = r + 1;
        }
        proof {
            let sk = self.spans().skip(r as int);
            if r + 1 < n {
                assert(offset < self.rows@[r as int].end);
                assert(sk[0] == self.spans()[r as int]);
                assert(row_of_offset(sk, offset as int) == 0);
            } else {
                assert(sk.len() == 1);
                assert(row_of_offset(sk, offset as int) == 0);
                assert(self.spans()[r as int].end == self.text_len);
                assert(!self.spans()[r as int].newline);
            }
        }
        r
    }

    /// The caret x-coordinate of `offset`.
    pub fn x_of_offset(&self, offset: usize) -> (x: u64)
        requires
            self.wf(),
            offset <= self.text_len,
        ensures
            x as int == x_of_spec(self.spans(), self.params.char_width as int, offset as int),
    {
        let r = self.find_row(offset);
        let col = offset - self.rows[r].start;
        proof {
            assert(self.rows@[r as int].xs@ == uniform_xs(
                glyphs_of(self.spans()[r as int]) + 1,
                self.params.char_width as int,
            ));
            vstd::arithmetic::mul::lemma_mul_inequality(
                col as int,
                self.params.wrap_cols as int,
                self.params.char_width as int,
            );
            vstd::arithmetic::mul::lemma_mul_nonnegative(col as int, self.params.char_width as int);
        }
        self.rows[r].xs[col]
    }

    /// The column of row `row` whose x-offset lies nearest to `x`
    /// (leftmost on a tie).
    pub fn nearest_column(&self, row: usize, x: u64) -> (c: usize)
        requires
            self.wf(),
            row < self.rows@.len(),
        ensures
            c == nearest_col(self.rows@[row as int].xs@, x as int),
            c <= glyphs_of(self.spans()[row as int]),
    {
        let xs = &self.rows[row].xs;
        proof {
            assert(xs@.len() == glyphs_of(self.spans()[row as int]) + 1);
            lemma_nearest_col_bounds(xs@, x as int);
        }
        let n = xs.len();
        let mut i: usize = n - 1;
        let mut b: usize = n - 1;
        proof {
            assert(xs@.skip(i as int).len() == 1);
        }
        while i > 0
            invariant
                n == xs@.len(),
                n >= 1,
                i < n,
                i <= b < n,
                b - i == nearest_col(xs@.skip(i as int), x as int),
            decreases i,
        {
            i = i - 1;
            let di = if xs[i] >= x {
                xs[i] - x
            } else {
                x - xs[i]
            };
            let db = if xs[b] >= x {
                xs[b] - x
            } else {
                x - xs[b]
            };
            proof {
                let sk = xs@.skip(i as int);
                assert(sk.len() >= 2);
                assert(sk.drop_first() =~= xs@.skip(i + 1));
                lemma_nearest_col_bounds(xs@.skip(i + 1), x as int);
                let brel = 1 + nearest_col(xs@.skip(i + 1), x as int);
                assert(sk[0] == xs@[i as int]);
                assert(sk[brel] == xs@[i + brel]);
                assert(i + brel == b);
                assert(di as int == pixel_dist(xs@[i as int] as int, x as int));
                assert(db as int == pixel_dist(xs@[b as int] as int, x as int));
            }
            if di <= db {
                b = i;
            }
        }
        proof {
            assert(xs@.skip(0) =~= xs@);
        }
        b
    }

    /// The offset where the row holding `offset` begins.
    pub fn row_begin(&self, offset: usize) -> (r: usize)
        requires
            self.wf(),
            offset <= self.text_len,
        ensures
            r == row_begin_spec(self.spans(), offset as int),
            r <= offset,
    {
        let row = self.find_row(offset);
        self.rows[row].start
    }

    /// The offset just past the last glyph of the row holding `offset`,
    /// before any terminating newline.
    pub fn row_end(&self, offset: usize) -> (r: usize)
        requires
            self.wf(),
            offset <= self.text_len,
        ensures
            r == row_end_spec(self.spans(), offset as int),
            r <= self.text_len,
    {
        let row = self.find_row(offset);
        if self.rows[row].newline {
            self.rows[row].end - 1
        } else {
            self.rows[row].end
        }
    }

    /// The offset one row up from `offset`, holding to the caret's pixel
    /// x-coordinate; the document start from the first row.
    pub fn offset_up(&self, offset: usize) -> (r: usize)
        requires
            self.wf(),
            offset <= self.text_len,
        ensures
            r == up_spec(self.spans(), self.params.char_width as int, offset as int),
            r <= self.text_len,
    {
        let row = self.find_row(offset);
        if row == 0 {
            0
        } else {
            let x = self.x_of_offset(offset);
            let c = self.nearest_column(row - 1, x);
            proof {
                assert(self.rows@[row - 1].xs@ == uniform_xs(
                    glyphs_of(self.spans()[row - 1]) + 1,
                    self.params.char_width as int,
                ));
                assert(self.spans()[row - 1].start + glyphs_of(self.spans()[row - 1])
                    <= self.spans()[row - 1].end);
            }
            self.rows[row - 1].start + c
        }
    }

    /// The offset one row down from `offset`, holding to the caret's
    /// pixel x-coordinate; the document end from the last row.
    pub fn offset_down(&self, offset: usize) -> (r: usize)
        requires
            self.wf(),
            offset <= self.text_len,
        ensures
            r == down_spec(
                self.spans(),
                self.params.char_width as int,
                offset as int,
                self.text_len as int,
            ),
            r <= self.text_len,
    {
        let row = self.find_row(offset);
        if row == self.rows.len() - 1 {
            self.text_len
        } else {
            let x = self.x_of_offset(offset);
            let c = self.nearest_column(row + 1, x);
            proof {
                assert(self.rows@[row + 1].xs@ == uniform_xs(
                    glyphs_of(self.spans()[row + 1]) + 1,
                    self.params.char_width as int,
                ));
                assert(self.spans()[row + 1].start + glyphs_of(self.spans()[row + 1])
                    <= self.spans()[row + 1].end);
            }
            self.rows[row + 1].start + c
        }
    }

    /// The offset a pointer at pixel position `(x, y)` picks.
    pub fn offset_of_pos(&self, x: u64, y: u64) -> (r: usize)
        requires
            self.wf(),
        ensures
            r == pointer_offset_spec(
                self.spans(),
                self.params.char_width as int,
                self.params.row_height as int,
                x as int,
                y as int,
            ),
            r <= self.text_len,
    {
        let n = self.rows.len();
        let r0 = y / self.params.row_height;
        let row: usize = if r0 < (n - 1) as u64 {
            r0 as usize
        } else {
            n - 1
        };
        proof {
            assert(row as int == ({
                let q = (y as int) / (self.params.row_height as int);
                if q < self.spans().len() - 1 {
                    q
                } else {
                    self.spans().len() - 1
                }
            }));
        }
        let c = self.nearest_column(row, x);
        proof {
            assert(self.spans()[row as int].start + glyphs_of(self.spans()[row as int])
                <= self.spans()[row as int].end);
        }
        self.rows[row].start + c
    }
}

/// An axis-aligned pixel rectangle handed to the rendering shell.
#[derive(Clone, Copy, Debug, PartialEq, Eq, Structural)]
pub struct PixelRect {
    pub left: u64,
    pub right: u64,
    pub top: u64,
    pub bottom: u64,
}

/// The mathematical value of a pixel rectangle.
pub ghost struct RectSpec {
    pub left: int,
    pub right: int,
    pub top: int,
    pub bottom: int,
}

pub open spec fn rect_matches(p: PixelRect, s: RectSpec) -> bool {
    p.left as int == s.left && p.right as int == s.right && p.top as int == s.top && p.bottom as int
        == s.bottom
}

/// The highlight rectangle of row `i` for the selection `[omin, omax)`:
/// from the selection start on its first row and from the row's left
/// edge below, to the selection end on its last row and to the row's
/// right edge above, widened by half a row after a selected newline.
pub open spec fn selection_rect_spec(
    spans: Seq<RowSpan>,
    cw: int,
    rh: int,
    omin: int,
    omax: int,
    i: int,
) -> RectSpec {
    let rmin = row_of_offset(spans, omin);
    let rmax = row_of_offset(spans, omax);
    let left = if i == rmin {
        x_of_spec(spans, cw, omin)
    } else {
        0
    };
    let right = if i == rmax {
        x_of_spec(spans, cw, omax)
    } else {
        glyphs_of(spans[i]) * cw + (if spans[i].newline {
            rh / 2
        } else {
            0
        })
    };
    RectSpec { left, right, top: i * rh, bottom: i * rh + rh }
}

/// A caret further right in the document never sits on an earlier row.
pub proof fn lemma_row_of_offset_mono(spans: Seq<RowSpan>, a: int, b: int)
    requires
        a <= b,
    ensures
        row_of_offset(spans, a) <= row_of_offset(spans, b),
    decreases spans.len(),
{
    if spans.len() > 1 && !(a < spans[0].end) {
        lemma_row_of_offset_mono(spans.drop_first(), a, b);
    } else if spans.len() > 1 && a < spans[0].end {
        lemma_row_of_offset_nonneg(spans.drop_first(), b);
    }
}

pub proof fn lemma_row_of_offset_nonneg(spans: Seq<RowSpan>, o: int)
    ensures
        0 <= row_of_offset(spans, o),
        spans.len() >= 1 ==> row_of_offset(spans, o) < spans.len(),
    decreases spans.len(),
{
    if spans.len() > 1 && !(o < spans[0].end) {
        lemma_row_of_offset_nonneg(spans.drop_first(), o);
    }
}

impl Layout {
    /// The caret rectangle of `offset`: a zero-width bar spanning the
    /// full height of its row.
    pub fn caret_rect(&self, offset: usize) -> (r: PixelRect)
        requires
            self.wf(),
            offset <= self.text_len,
            (self.rows@.len() as int) * (self.params.row_height as int) <= u64::MAX as int,
        ensures
            ({
                let row = row_of_offset(self.spans(), offset as int);
                let x = x_of_spec(self.spans(), self.params.char_width as int, offset as int);
                let rh = self.params.row_height as int;
                rect_matches(r, RectSpec { left: x, right: x, top: row * rh, bottom: row * rh + rh })
            }),
    {
        let row = self.find_row(offset);
        let x = self.x_of_offset(offset);
        let rh = self.params.row_height;
        proof {
            vstd::arithmetic::mul::lemma_mul_inequality(
                row + 1,
                self.rows@.len() as int,
                rh as int,
            );
            vstd::arithmetic::mul::lemma_mul_is_distributive_add_other_way(
                rh as int,
                row as int,
                1,
            );
            vstd::arithmetic::mul::lemma_mul_nonnegative(row as int, rh as int);
        }
        let top = (row as u64) * rh;
        PixelRect { left: x, right: x, top, bottom: top + rh }
    }

    /// One highlight rectangle for every row the selection covers, top
    /// row first; an empty selection has no rectangles.
    #[verifier::rlimit(60)]
    pub fn selection_rects(&self, sel: &Selection) -> (v: Vec<PixelRect>)
        requires
            self.wf(),
            selection_valid(*sel, self.text_len as int),
            (self.rows@.len() as int) * (self.params.row_height as int) <= u64::MAX as int,
        ensures
            sel.primary == sel.secondary ==> v@.len() == 0,
            sel.primary != sel.secondary ==> ({
                let omin = sorted_spec(*sel).0;
                let omax = sorted_spec(*sel).1;
                let rmin = row_of_offset(self.spans(), omin);
                let rmax = row_of_offset(self.spans(), omax);
                &&& v@.len() == rmax - rmin + 1
                &&& forall|q: int|
                    0 <= q < v@.len() ==> rect_matches(
                        #[trigger] v@[q],
                        selection_rect_spec(
                            self.spans(),
                            self.params.char_width as int,
                            self.params.row_height as int,
                            omin,
                            omax,
                            rmin + q,
                        ),
                    )
            }),
    {
        let mut v: Vec<PixelRect> = Vec::new();
        if sel.primary == sel.secondary {
            return v;
        }
        let (omin, omax) = sel.sorted();
        let rmin = self.find_row(omin);
        let rmax = self.find_row(omax);
        proof {
            lemma_row_of_offset_mono(self.spans(), omin as int, omax as int);
        }
        let xmin = self.x_of_offset(omin);
        let xmax = self.x_of_offset(omax);
        let rh = self.params.row_height;
        let n = self.rows.len();
        let mut i: usize = rmin;
        while i <= rmax
            invariant
                self.wf(),
                n == self.rows@.len(),
                selection_valid(*sel, self.text_len as int),
                (self.rows@.len() as int) * (self.params.row_height as int) <= u64::MAX as int,
                sel.primary != sel.secondary,
                omin as int == sorted_spec(*sel).0,
                omax as int == sorted_spec(*sel).1,
                rmin as int == row_of_offset(self.spans(), omin as int),
                rmax as int == row_of_offset(self.spans(), omax as int),
                rmin <= i <= rmax + 1,
                rmax < n,
                rh == self.params.row_height,
                xmin as int == x_of_spec(self.spans(), self.params.char_width as int, omin as int),
                xmax as int == x_of_spec(self.spans(), self.params.char_width as int, omax as int),
                v@.len() == i - rmin,
                forall|q: int|
                    0 <= q < v@.len() ==> rect_matches(
                        #[trigger] v@[q],
                        selection_rect_spec(
                            self.spans(),
                            self.params.char_width as int,
                            self.params.row_height as int,
                            omin as int,
                            omax as int,
                            rmin + q,
                        ),
                    ),
            decreases rmax + 1 - i,
        {
            let left: u64 = if i == rmin {
                xmin
            } else {
                0
            };
            let right: u64 = if i == rmax {
                xmax
            } else {
                let g = self.rows[i].xs.len() - 1;
                proof {
                    assert(self.rows@[i as int].xs@ == uniform_xs(
                        glyphs_of(self.spans()[i as int]) + 1,
                        self.params.char_width as int,
                    ));
                    vstd::arithmetic::mul::lemma_mul_inequality(
                        g as int,
                        self.params.wrap_cols as int,
                        self.params.char_width as int,
                    );
                    vstd::arithmetic::mul::lemma_mul_nonnegative(
                        g as int,
                        self.params.char_width as int,
                    );
                }
                let edge = self.rows[i].xs[g];
                if self.rows[i].newline {
                    edge + rh / 2
                } else {
                    edge
                }
            };
            proof {
                vstd::arithmetic::mul::lemma_mul_inequality(
                    i + 1,
                    self.rows@.len() as int,
                    rh as int,
                );
                vstd::arithmetic::mul::lemma_mul_is_distributive_add_other_way(
                    rh as int,
                    i as int,
                    1,
                );
                vstd::arithmetic::mul::lemma_mul_nonnegative(i as int, rh as int);
            }
            let top = (i as u64) * rh;
            let rect = PixelRect { left, right, top, bottom: top + rh };
            v.push(rect);
            assert(rect_matches(
                rect,
                selection_rect_spec(
                    self.spans(),
                    self.params.char_width as int,
                    self.params.row_height as int,
                    omin as int,
                    omax as int,
                    i as int,
                ),
            ));
            i = i + 1;
        }
        v
    }
}

} // verus!
