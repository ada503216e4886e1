//! Cosmetic token highlighting and its per-cycle cache.
//!
//! The highlighter splits the document at single blanks and colors the
//! words alternately; the separators stay plain.  The styled result is
//! paired with the layout of the same text, and a memoizing cache keyed
//! by the exact text content avoids recomputing it while the text does
//! not change.

use vstd::prelude::*;
use crate::layout::Layout;
use crate::layout::LayoutParams;
use crate::layout::build_layout;
use crate::text::TextBuffer;

verus! {

/// The color bucket of one highlight span.
#[derive(Clone, Copy, Debug, PartialEq, Eq, Structural)]
pub enum TokenColor {
    /// Words at even positions.
    Primary,
    /// Words at odd positions.
    Secondary,
    /// The blank separators between words.
    Plain,
}

/// One styled run of characters, `[start, end)` in character offsets.
#[derive(Clone, Copy, Debug, PartialEq, Eq, Structural)]
pub struct Span {
    pub start: usize,
    pub end: usize,
    pub color: TokenColor,
}

/// The mathematical value of one styled run.
pub ghost struct SpanModel {
    pub start: int,
    pub end: int,
    pub color: TokenColor,
}

/// The color of the word at position `idx` in the document.
pub open spec fn color_of_word(idx: nat) -> TokenColor {
    if idx % 2 == 0 {
        TokenColor::Primary
    } else {
        TokenColor::Secondary
    }
}

/// The length of the leading run of non-blank characters.
pub open spec fn word_len(t: Seq<char>) -> nat
    decreases t.len(),
{
    if t.len() == 0 {
        0
    } else if t[0] == ' ' {
        0
    } else {
        (1 + word_len(t.drop_first())) as nat
    }
}

/// The leading word ends exactly at the first blank, or at the end of
/// the text.
pub proof fn lemma_word_len_unique(t: Seq<char>, k: int)
    requires
        0 <= k <= t.len(),
        forall|j: int| 0 <= j < k ==> t[j] != ' ',
        k == t.len() || t[k] == ' ',
    ensures
        k == word_len(t),
    decreases t.len(),
{
    if t.len() > 0 && t[0] != ' ' {
        assert(k >= 1);
        let t1 = t.drop_first();
        assert(forall|j: int| 0 <= j < k - 1 ==> t1[j] == t[j + 1]);
        if k < t.len() {
            assert(t1[k - 1] == t[k]);
        }
        lemma_word_len_unique(t1, k - 1);
    }
}

/// The lengths and colors of all highlight spans of `t`, starting at
/// word position `idx`: words (possibly empty) alternating with their
/// single-blank separators, ending with a word.
pub open spec fn span_lens(t: Seq<char>, idx: nat) -> Seq<(nat, TokenColor)>
    decreases t.len(),
{
    let w0 = word_len(t);
    let w = if w0 <= t.len() {
        w0
    } else {
        t.len()
    };
    if w == t.len() {
        seq![(w, color_of_word(idx))]
    } else {
        seq![(w, color_of_word(idx)), (1nat, TokenColor::Plain)] + span_lens(
            t.skip(w as int + 1),
            idx + 1,
        )
    }
}

/// Span lengths turned into absolute spans, starting at offset `base`.
pub open spec fn hl_spans_from(lens: Seq<(nat, TokenColor)>, base: int) -> Seq<SpanModel>
    decreases lens.len(),
{
    if lens.len() == 0 {
        Seq::empty()
    } else {
        seq![SpanModel { start: base, end: base + lens[0].0, color: lens[0].1 }] + hl_spans_from(
            lens.drop_first(),
            base + lens[0].0,
        )
    }
}

/// The highlight spans of the whole document.
pub open spec fn highlight_spans(t: Seq<char>) -> Seq<SpanModel> {
    hl_spans_from(span_lens(t, 0), 0)
}

/// The mathematical values of a span list.
pub open spec fn span_models(spans: Seq<Span>) -> Seq<SpanModel> {
    Seq::new(
        spans.len(),
        |i: int|
            SpanModel {
                start: spans[i].start as int,
                end: spans[i].end as int,
                color: spans[i].color,
            },
    )
}

/// Splits the document at blanks and colors the words alternately.
pub fn highlight_text(text: &TextBuffer) -> (r: Vec<Span>)
    ensures
        span_models(r@) == highlight_spans(text@),
{
    let len = text.len();
    let ghost all: Seq<SpanModel> = highlight_spans(text@);
    let mut spans: Vec<Span> = Vec::new();
    let mut pos: usize = 0;
    let mut even: bool = true;
    let ghost idx: nat = 0;
    let mut done = false;
    proof {
        assert(text@.skip(0) =~= text@);
    }
    while !done
        invariant
            len == text@.len(),
            pos <= len,
            all == highlight_spans(text@),
            even <==> idx % 2 == 0,
            !done ==> span_models(spans@) + hl_spans_from(
                span_lens(text@.skip(pos as int), idx),
                pos as int,
            ) == all,
            done ==> span_models(spans@) == all,
        decreases len - pos, (if done {
            0int
        } else {
            1int
        }),
    {
        let ghost u: Seq<char> = text@.skip(pos as int);
        let mut j: usize = pos;
        while j < len && text.char_at(j) != ' '
            invariant
                pos <= j <= len,
                len == text@.len(),
                forall|m: int| pos <= m < j ==> #[trigger] text@[m] != ' ',
            decreases len - j,
        {
            j = j + 1;
        }
        let w = j - pos;
        proof {
            assert(forall|m: int| 0 <= m < u.len() ==> u[m] == text@[pos + m]);
            lemma_word_len_unique(u, w as int);
            assert(word_len(u) == w);
        }
        let color = if even {
            TokenColor::Primary
        } else {
            TokenColor::Secondary
        };
        assert(color == color_of_word(idx));
        spans.push(Span { start: pos, end: j, color });
        if j == len {
            proof {
                let lens = span_lens(u, idx);
                assert(lens == seq![((w as nat), color_of_word(idx))]);
                assert(lens.drop_first() =~= Seq::<(nat, TokenColor)>::empty());
                assert(hl_spans_from(lens.drop_first(), len as int) == Seq::<SpanModel>::empty());
                assert(hl_spans_from(lens, pos as int) =~= seq![
                    SpanModel { start: pos as int, end: len as int, color },
                ]);
                assert(span_models(spans@) =~= span_models(spans@.drop_last()).push(
                    SpanModel { start: pos as int, end: len as int, color },
                ));
                assert(span_models(spans@) =~= all);
            }
            done = true;
            pos = len;
        } else {
            spans.push(Span { start: j, end: j + 1, color: TokenColor::Plain });
            proof {
                assert(span_lens(u, idx) == seq![((w as nat), color_of_word(idx)), (
                    1nat,
                    TokenColor::Plain,
                )] + span_lens(u.skip(w + 1), idx + 1));
                assert(u.skip(w + 1) =~= text@.skip(j + 1));
                let lens = span_lens(u, idx);
                assert(lens.drop_first() =~= seq![(1nat, TokenColor::Plain)] + span_lens(
                    text@.skip(j + 1),
                    idx + 1,
                ));
                assert(seq![(1nat, TokenColor::Plain)].drop_first() =~= Seq::<(
                    nat,
                    TokenColor,
                )>::empty());
                assert((seq![(1nat, TokenColor::Plain)] + span_lens(
                    text@.skip(j + 1),
                    idx + 1,
                )).drop_first() =~= span_lens(text@.skip(j + 1), idx + 1));
                assert(lens[0] == ((w as nat), color_of_word(idx)));
                assert(hl_spans_from(lens, pos as int) == seq![
                    SpanModel { start: pos as int, end: j as int, color },
                ] + hl_spans_from(lens.drop_first(), j as int));
                assert(lens.drop_first()[0] == (1nat, TokenColor::Plain));
                assert(hl_spans_from(lens.drop_first(), j as int) == seq![
                    SpanModel { start: j as int, end: j + 1, color: TokenColor::Plain },
                ] + hl_spans_from(lens.drop_first().drop_first(), j + 1));
                assert(lens.drop_first().drop_first() =~= span_lens(text@.skip(j + 1), idx + 1));
                assert(hl_spans_from(span_lens(u, idx), pos as int) =~= seq![
                    SpanModel { start: pos as int, end: j as int, color },
                    SpanModel { start: j as int, end: j + 1, color: TokenColor::Plain },
                ] + hl_spans_from(span_lens(text@.skip(j + 1), idx + 1), j + 1));
                assert(span_models(spans@) =~= span_models(
                    spans@.subrange(0, spans@.len() - 2),
                ) + seq![
                    SpanModel { start: pos as int, end: j as int, color },
                    SpanModel { start: j as int, end: j + 1, color: TokenColor::Plain },
                ]);
                assert(span_models(spans@) + hl_spans_from(
                    span_lens(text@.skip(j + 1), idx + 1),
                    j + 1,
                ) =~= all);
            }
            pos = j + 1;
            even = !even;
            proof {
                idx = idx + 1;
            }
        }
    }
    spans
}

/// A styled, laid-out document: the highlight spans and the row layout
/// of one and the same text.
pub struct StyledLayout {
    pub spans: Vec<Span>,
    pub layout: Layout,
}

/// The mathematical value of a styled layout: everything a renderer
/// reads from it.
pub ghost struct StyledModel {
    pub spans: Seq<SpanModel>,
    pub rows: Seq<crate::layout::RowSpan>,
    pub params: LayoutParams,
    pub text_len: int,
}

impl StyledLayout {
    pub open spec fn model(&self) -> StyledModel {
        StyledModel {
            spans: span_models(self.spans@),
            rows: self.layout.spans(),
            params: self.layout.params,
            text_len: self.layout.text_len as int,
        }
    }

    /// The styled layout describes exactly the text `t`, shaped with
    /// `params`.
    pub open spec fn is_styled_for(&self, t: Seq<char>, params: LayoutParams) -> bool {
        &&& self.layout.is_layout_for(t)
        &&& self.layout.params == params
        &&& span_models(self.spans@) == highlight_spans(t)
    }
}

/// Styles and lays out the text in one pass.
pub fn compute_styled(text: &TextBuffer, params: LayoutParams) -> (r: StyledLayout)
    requires
        params.wf(),
    ensures
        r.is_styled_for(text@, params),
{
    let spans = highlight_text(text);
    let layout = build_layout(text, params);
    StyledLayout { spans, layout }
}

/// Compares two character vectors element for element.
fn chars_eq(a: &Vec<char>, b: &Vec<char>) -> (r: bool)
    ensures
        r <==> a@ == b@,
{
    if a.len() != b.len() {
        return false;
    }
    let mut i: usize = 0;
    while i < a.len()
        invariant
            a@.len() == b@.len(),
            i <= a@.len(),
            forall|q: int| 0 <= q < i ==> a@[q] == b@[q],
        decreases a@.len() - i,
    {
        if a[i] != b[i] {
            return false;
        }
        i = i + 1;
    }
    proof {
        assert(a@ =~= b@);
    }
    true
}

/// Copies a character vector element for element.
fn copy_chars(v: &Vec<char>) -> (r: Vec<char>)
    ensures
        r@ == v@,
{
    let mut out: Vec<char> = Vec::new();
    let mut i: usize = 0;
    while i < v.len()
        invariant
            i <= v@.len(),
            out@ == v@.subrange(0, i as int),
        decreases v@.len() - i,
    {
        out.push(v[i]);
        assert(out@ =~= v@.subrange(0, i + 1 as int));
        i = i + 1;
    }
    assert(out@ =~= v@);
    out
}

/// Copies a span vector element for element.
fn copy_spans(v: &Vec<Span>) -> (r: Vec<Span>)
    ensures
        r@ == v@,
{
    let mut out: Vec<Span> = Vec::new();
    let mut i: usize = 0;
    while i < v.len()
        invariant
            i <= v@.len(),
            out@ == v@.subrange(0, i as int),
        decreases v@.len() - i,
    {
        out.push(v[i]);
        assert(out@ =~= v@.subrange(0, i + 1 as int));
        i = i + 1;
    }
    assert(out@ =~= v@);
    out
}

/// An element-for-element copy of a styled layout.
fn duplicate_styled(s: &StyledLayout) -> (r: StyledLayout)
    ensures
        r.model() == s.model(),
        forall|t: Seq<char>, p: LayoutParams| s.is_styled_for(t, p) ==> r.is_styled_for(t, p),
{
    let r = StyledLayout { spans: copy_spans(&s.spans), layout: s.layout.duplicate() };
    proof {
        assert(span_models(r.spans@) =~= span_models(s.spans@));
        assert forall|t: Seq<char>, p: LayoutParams| s.is_styled_for(t, p) implies r.is_styled_for(
            t,
            p,
        ) by {
            assert forall|i: int| 0 <= i < r.layout.rows@.len() implies (
            #[trigger] r.layout.rows@[i]).xs@ == crate::layout::uniform_xs(
                crate::layout::glyphs_of(r.layout.spans()[i]) + 1,
                r.layout.params.char_width as int,
            ) by {
                assert(s.layout.rows@[i].xs@ == crate::layout::uniform_xs(
                    crate::layout::glyphs_of(s.layout.spans()[i]) + 1,
                    s.layout.params.char_width as int,
                ));
            }
        }
    }
    r
}

struct CacheEntry {
    text: Vec<char>,
    styled: StyledLayout,
}

/// A memoizing cache for the styled layout of the current text, scoped
/// to one redraw cycle.  It holds at most one entry, keyed by the exact
/// text content: asking again for unchanged text returns the stored
/// result without recomputation, and asking for different text always
/// recomputes.
pub struct HighlightCache {
    params: LayoutParams,
    entry: Option<CacheEntry>,
    misses: u64,
}

impl HighlightCache {
    /// The shaping parameters the cache was created with.
    pub closed spec fn spec_params(&self) -> LayoutParams {
        self.params
    }

    /// The text of the stored entry, if one is stored.
    pub closed spec fn cached_text(&self) -> Option<Seq<char>> {
        match self.entry {
            Option::Some(e) => Option::Some(e.text@),
            Option::None => Option::None,
        }
    }

    /// The mathematical value of the stored entry; meaningful only
    /// while an entry is stored.
    pub closed spec fn cached_model(&self) -> StyledModel {
        match self.entry {
            Option::Some(e) => e.styled.model(),
            Option::None => StyledModel {
                spans: Seq::empty(),
                rows: Seq::empty(),
                params: self.params,
                text_len: 0,
            },
        }
    }

    /// How many calls had to recompute.
    pub closed spec fn spec_misses(&self) -> int {
        self.misses as int
    }

    /// The stored entry, if any, really is the styled layout of its key.
    pub closed spec fn wf(&self) -> bool {
        &&& self.params.wf()
        &&& match self.entry {
            Option::Some(e) => e.styled.is_styled_for(e.text@, self.params),
            Option::None => true,
        }
    }

    /// An empty cache for one redraw cycle.
    pub fn new(params: LayoutParams) -> (r: HighlightCache)
        requires
            params.wf(),
        ensures
            r.wf(),
            r.spec_params() == params,
            r.cached_text() is None,
            r.spec_misses() == 0,
    {
        HighlightCache { params, entry: Option::None, misses: 0 }
    }

    /// How many calls had to recompute.
    pub fn miss_count(&self) -> (r: u64)
        ensures
            r as int == self.spec_misses(),
    {
        self.misses
    }

    /// The styled layout of `text`: the stored result if `text` is the
    /// stored key, freshly computed (and stored) otherwise.  Asking
    /// twice for unchanged text hands out equal results and recomputes
    /// nothing.
    pub fn get(&mut self, text: &TextBuffer) -> (r: StyledLayout)
        requires
            old(self).wf(),
        ensures
            final(self).wf(),
            final(self).spec_params() == old(self).spec_params(),
            r.is_styled_for(text@, old(self).spec_params()),
            final(self).cached_text() == Option::Some(text@),
            final(self).cached_model() == r.model(),
            old(self).cached_text() == Option::Some(text@) ==> final(self).spec_misses() == old(
                self,
            ).spec_misses() && r.model() == old(self).cached_model(),
            old(self).cached_text() != Option::Some(text@) ==> final(self).spec_misses() == (
            if old(self).spec_misses() < u64::MAX as int {
                old(self).spec_misses() + 1
            } else {
                old(self).spec_misses()
            }),
    {
        let mut from_store: Option<StyledLayout> = Option::None;
        match &self.entry {
            Option::Some(e) => {
                if chars_eq(&e.text, text.as_chars()) {
                    from_store = Option::Some(duplicate_styled(&e.styled));
                }
            },
            Option::None => {},
        }
        match from_store {
            Option::Some(r) => r,
            Option::None => {
                let styled = compute_styled(text, self.params);
                let stored = duplicate_styled(&styled);
                self.entry = Option::Some(
                    CacheEntry { text: copy_chars(text.as_chars()), styled: stored },
                );
                if self.misses < u64::MAX {
                    self.misses = self.misses + 1;
                }
                styled
            },
        }
    }
}

} // verus!
