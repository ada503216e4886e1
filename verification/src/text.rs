//! The text buffer: a sequence of unicode scalar values addressed by
//! character offsets, with insertion and deletion by offset, by single
//! character and by word.

use vstd::prelude::*;

verus! {

/// Classification of a character for word-oriented editing.  Whitespace,
/// word characters and punctuation form separate runs, and "delete word"
/// treats each run as one deletable unit.
#[derive(Clone, Copy, Debug, PartialEq, Eq, Structural)]
pub enum CharClass {
    Whitespace,
    Word,
    Punctuation,
}

/// Whitespace for the purposes of word boundaries: blank, tab, newline,
/// carriage return.
pub open spec fn is_whitespace_char(c: char) -> bool {
    c == ' ' || c == '\t' || c == '\n' || c == '\r'
}

/// Word characters: ASCII letters and digits, and every character outside
/// the ASCII range.  Remaining ASCII characters count as punctuation.
pub open spec fn is_word_char(c: char) -> bool {
    !is_whitespace_char(c) && {
        let u = c as u32;
        (48 <= u && u <= 57) || (65 <= u && u <= 90) || (97 <= u && u <= 122) || u >= 128
    }
}

pub open spec fn class_of(c: char) -> CharClass {
    if is_whitespace_char(c) {
        CharClass::Whitespace
    } else if is_word_char(c) {
        CharClass::Word
    } else {
        CharClass::Punctuation
    }
}

/// Classifies one character.
pub fn classify(c: char) -> (r: CharClass)
    ensures
        r == class_of(c),
{
    if c == ' ' || c == '\t' || c == '\n' || c == '\r' {
        CharClass::Whitespace
    } else {
        let u = c as u32;
        if (48 <= u && u <= 57) || (65 <= u && u <= 90) || (97 <= u && u <= 122) || u >= 128 {
            CharClass::Word
        } else {
            CharClass::Punctuation
        }
    }
}

/// The document content: a growable sequence of characters.  Offsets are
/// character indices in `0..=len`, never byte positions.
pub struct TextBuffer {
    chars: Vec<char>,
}

impl View for TextBuffer {
    type V = Seq<char>;

    closed spec fn view(&self) -> Seq<char> {
        self.chars@
    }
}

/// The content after inserting `s` at offset `at`.
pub open spec fn insert_spec(t: Seq<char>, at: int, s: Seq<char>) -> Seq<char> {
    t.subrange(0, at) + s + t.subrange(at, t.len() as int)
}

/// The content after deleting the range `[start, end)`.
pub open spec fn delete_range_spec(t: Seq<char>, start: int, end: int) -> Seq<char> {
    t.subrange(0, start) + t.subrange(end, t.len() as int)
}

impl TextBuffer {
    /// An empty document.
    pub fn new() -> (r: TextBuffer)
        ensures
            r@ == Seq::<char>::empty(),
    {
        TextBuffer { chars: Vec::new() }
    }

    /// A document holding the given characters.
    pub fn from_chars(chars: Vec<char>) -> (r: TextBuffer)
        ensures
            r@ == chars@,
    {
        TextBuffer { chars }
    }

    /// The number of characters.
    pub fn len(&self) -> (r: usize)
        ensures
            r == self@.len(),
    {
        self.chars.len()
    }

    /// The character at offset `i`.
    pub fn char_at(&self, i: usize) -> (r: char)
        requires
            i < self@.len(),
        ensures
            r == self@[i as int],
    {
        self.chars[i]
    }

    /// Read access to the characters, for rendering and conversion.
    pub fn as_chars(&self) -> (r: &Vec<char>)
        ensures
            r@ == self@,
    {
        &self.chars
    }

    /// Inserts the characters of `s` at offset `at`.
    pub fn insert(&mut self, at: usize, s: &Vec<char>)
        requires
            at <= old(self)@.len(),
        ensures
            final(self)@ == insert_spec(old(self)@, at as int, s@),
    {
        let mut out: Vec<char> = Vec::new();
        let mut i: usize = 0;
        while i < at
            invariant
                i <= at <= self@.len(),
                out@ == self@.subrange(0, i as int),
            decreases at - i,
        {
            out.push(self.chars[i]);
            assert(out@ =~= self@.subrange(0, i + 1 as int));
            i = i + 1;
        }
        let mut j: usize = 0;
        while j < s.len()
            invariant
                j <= s@.len(),
                at <= self@.len(),
                out@ == self@.subrange(0, at as int) + s@.subrange(0, j as int),
            decreases s@.len() - j,
        {
            out.push(s[j]);
            assert(out@ =~= self@.subrange(0, at as int) + s@.subrange(0, j + 1 as int));
            j = j + 1;
        }
        assert(s@.subrange(0, s@.len() as int) =~= s@);
        let mut k: usize = at;
        while k < self.chars.len()
            invariant
                at <= k <= self@.len(),
                out@ == self@.subrange(0, at as int) + s@ + self@.subrange(at as int, k as int),
            decreases self@.len() - k,
        {
            out.push(self.chars[k]);
            assert(out@ =~= self@.subrange(0, at as int) + s@ + self@.subrange(
                at as int,
                k + 1 as int,
            ));
            k = k + 1;
        }
        self.chars = out;
    }

    /// Deletes the characters in the range `[start, end)`.
    pub fn delete_range(&mut self, start: usize, end: usize)
        requires
            start <= end <= old(self)@.len(),
        ensures
            final(self)@ == delete_range_spec(old(self)@, start as int, end as int),
    {
        let mut out: Vec<char> = Vec::new();
        let mut i: usize = 0;
        while i < start
            invariant
                i <= start <= self@.len(),
                out@ == self@.subrange(0, i as int),
            decreases start - i,
        {
            out.push(self.chars[i]);
            assert(out@ =~= self@.subrange(0, i + 1 as int));
            i = i + 1;
        }
        let mut k: usize = end;
        while k < self.chars.len()
            invariant
                start <= end <= k <= self@.len(),
                out@ == self@.subrange(0, start as int) + self@.subrange(end as int, k as int),
            decreases self@.len() - k,
        {
            out.push(self.chars[k]);
            assert(out@ =~= self@.subrange(0, start as int) + self@.subrange(
                end as int,
                k + 1 as int,
            ));
            k = k + 1;
        }
        self.chars = out;
    }

    /// Deletes the single character before `offset`, if any, and returns
    /// the new cursor offset.
    pub fn delete_char_before(&mut self, offset: usize) -> (r: usize)
        requires
            offset <= old(self)@.len(),
        ensures
            offset > 0 ==> final(self)@ == delete_range_spec(
                old(self)@,
                offset - 1,
                offset as int,
            ) && r == offset - 1,
            offset == 0 ==> final(self)@ == old(self)@ && r == 0,
    {
        if offset > 0 {
            self.delete_range(offset - 1, offset);
            offset - 1
        } else {
            0
        }
    }

    /// The offset where a word-wise step left from `offset` lands: before
    /// any trailing whitespace and the adjacent word or punctuation run.
    pub fn word_start_before(&self, offset: usize) -> (r: usize)
        requires
            offset <= self@.len(),
        ensures
            r == word_delete_start(self@, offset as int),
            r <= offset,
    {
        proof {
            lemma_skip_run_left_bounds(self@, offset as int, CharClass::Whitespace);
        }
        let mut p: usize = offset;
        while p > 0 && classify(self.chars[p - 1]) == CharClass::Whitespace
            invariant
                p <= offset <= self@.len(),
                skip_run_left(self@, offset as int, CharClass::Whitespace) == skip_run_left(
                    self@,
                    p as int,
                    CharClass::Whitespace,
                ),
            decreases p,
        {
            p = p - 1;
        }
        if p == 0 {
            return 0;
        }
        let cl = classify(self.chars[p - 1]);
        let ghost pg: int = p as int;
        proof {
            lemma_skip_run_left_bounds(self@, pg, cl);
        }
        let mut q: usize = p;
        while q > 0 && classify(self.chars[q - 1]) == cl
            invariant
                q <= p <= self@.len(),
                cl == class_of(self@[pg - 1]),
                skip_run_left(self@, pg, cl) == skip_run_left(self@, q as int, cl),
            decreases q,
        {
            q = q - 1;
        }
        q
    }

    /// The offset where a word-wise step right from `offset` lands: past
    /// any leading whitespace and the adjacent word or punctuation run.
    pub fn word_end_from(&self, offset: usize) -> (r: usize)
        requires
            offset <= self@.len(),
        ensures
            r == word_end_after(self@, offset as int),
            offset <= r <= self@.len(),
    {
        proof {
            lemma_skip_run_right_bounds(self@, offset as int, CharClass::Whitespace);
        }
        let mut p: usize = offset;
        while p < self.chars.len() && classify(self.chars[p]) == CharClass::Whitespace
            invariant
                offset <= p <= self@.len(),
                skip_run_right(self@, offset as int, CharClass::Whitespace) == skip_run_right(
                    self@,
                    p as int,
                    CharClass::Whitespace,
                ),
            decreases self@.len() - p,
        {
            p = p + 1;
        }
        if p == self.chars.len() {
            return p;
        }
        let cl = classify(self.chars[p]);
        let ghost pg: int = p as int;
        proof {
            lemma_skip_run_right_bounds(self@, pg, cl);
        }
        let mut q: usize = p;
        while q < self.chars.len() && classify(self.chars[q]) == cl
            invariant
                p <= q <= self@.len(),
                cl == class_of(self@[pg]),
                skip_run_right(self@, pg, cl) == skip_run_right(self@, q as int, cl),
            decreases self@.len() - q,
        {
            q = q + 1;
        }
        q
    }

    /// Deletes from the start of the layout row holding `offset` up to
    /// `offset` and returns the new cursor offset, the row's start.
    pub fn delete_line_prefix_before(&mut self, offset: usize, layout: &crate::layout::Layout) -> (r:
        usize)
        requires
            layout.is_layout_for(old(self)@),
            offset <= old(self)@.len(),
        ensures
            r == crate::layout::row_begin_spec(layout.spans(), offset as int),
            r <= offset,
            final(self)@ == delete_range_spec(old(self)@, r as int, offset as int),
    {
        let start = layout.row_begin(offset);
        self.delete_range(start, offset);
        start
    }

    /// Deletes the word-wise unit before `offset` (trailing whitespace
    /// plus the adjacent word or punctuation run) and returns the new
    /// cursor offset.
    pub fn delete_word_before(&mut self, offset: usize) -> (r: usize)
        requires
            offset <= old(self)@.len(),
        ensures
            r == word_delete_start(old(self)@, offset as int),
            r <= offset,
            final(self)@ == delete_range_spec(
                old(self)@,
                word_delete_start(old(self)@, offset as int),
                offset as int,
            ),
    {
        let start = self.word_start_before(offset);
        self.delete_range(start, offset);
        start
    }
}

/// The largest `r <= o` such that every character in `[r, o)` has class
/// `cl`: scanning left from `o` over one contiguous run.
pub open spec fn skip_run_left(t: Seq<char>, o: int, cl: CharClass) -> int
    decreases o,
{
    if 0 < o <= t.len() && class_of(t[o - 1]) == cl {
        skip_run_left(t, o - 1, cl)
    } else {
        o
    }
}

/// Where "delete word before `o`" stops: trailing whitespace is skipped
/// first, then the whole adjacent run of word or punctuation characters.
pub open spec fn word_delete_start(t: Seq<char>, o: int) -> int {
    let p = skip_run_left(t, o, CharClass::Whitespace);
    if p == 0 {
        0
    } else {
        skip_run_left(t, p, class_of(t[p - 1]))
    }
}

/// The mirror image of `skip_run_left`: the smallest `r >= o` such that
/// every character in `[o, r)` has class `cl`.
pub open spec fn skip_run_right(t: Seq<char>, o: int, cl: CharClass) -> int
    decreases t.len() - o,
{
    if 0 <= o < t.len() && class_of(t[o]) == cl {
        skip_run_right(t, o + 1, cl)
    } else {
        o
    }
}

/// Where "move one word right from `o`" stops: leading whitespace is
/// skipped first, then the whole adjacent run of word or punctuation
/// characters.
pub open spec fn word_end_after(t: Seq<char>, o: int) -> int {
    let p = skip_run_right(t, o, CharClass::Whitespace);
    if p == t.len() {
        t.len() as int
    } else {
        skip_run_right(t, p, class_of(t[p]))
    }
}

pub proof fn lemma_skip_run_left_bounds(t: Seq<char>, o: int, cl: CharClass)
    requires
        0 <= o,
    ensures
        0 <= skip_run_left(t, o, cl) <= o,
    decreases o,
{
    if 0 < o <= t.len() && class_of(t[o - 1]) == cl {
        lemma_skip_run_left_bounds(t, o - 1, cl);
    }
}

/// The scan stops at the start of the text or just right of a character
/// of another class, and every skipped character has class `cl`.
pub proof fn lemma_skip_run_left_stops(t: Seq<char>, o: int, cl: CharClass)
    requires
        0 <= o <= t.len(),
    ensures
        skip_run_left(t, o, cl) == 0 || class_of(t[skip_run_left(t, o, cl) - 1]) != cl,
        forall|j: int| skip_run_left(t, o, cl) <= j < o ==> class_of(t[j]) == cl,
    decreases o,
{
    if 0 < o <= t.len() && class_of(t[o - 1]) == cl {
        lemma_skip_run_left_stops(t, o - 1, cl);
    }
}

/// Scanning left reads only the characters below `o`, so a prefix that
/// still holds them gives the same result.
pub proof fn lemma_skip_run_left_prefix(t: Seq<char>, o: int, cl: CharClass, m: int)
    requires
        0 <= o <= m <= t.len(),
    ensures
        skip_run_left(t.subrange(0, m), o, cl) == skip_run_left(t, o, cl),
    decreases o,
{
    let s = t.subrange(0, m);
    if 0 < o <= t.len() && class_of(t[o - 1]) == cl {
        lemma_skip_run_left_prefix(t, o - 1, cl, m);
    } else {
        assert(s.len() == m);
    }
}

pub proof fn lemma_skip_run_right_bounds(t: Seq<char>, o: int, cl: CharClass)
    requires
        0 <= o <= t.len(),
    ensures
        o <= skip_run_right(t, o, cl) <= t.len(),
    decreases t.len() - o,
{
    if 0 <= o < t.len() && class_of(t[o]) == cl {
        lemma_skip_run_right_bounds(t, o + 1, cl);
    }
}

/// Inserting a character and deleting the character before the position
/// just after it restores the original content.
pub proof fn lemma_insert_delete_char_round_trip(t: Seq<char>, o: int, c: char)
    requires
        0 <= o <= t.len(),
    ensures
        delete_range_spec(insert_spec(t, o, seq![c]), o, o + 1) == t,
{
    assert(delete_range_spec(insert_spec(t, o, seq![c]), o, o + 1) =~= t);
}

/// The number of maximal runs of characters of one class.
pub open spec fn run_count(t: Seq<char>) -> nat
    decreases t.len(),
{
    if t.len() == 0 {
        0
    } else {
        let s0 = skip_run_left(t, t.len() as int, class_of(t[t.len() - 1]));
        let s = if 0 <= s0 < t.len() {
            s0
        } else {
            0
        };
        1 + run_count(t.subrange(0, s))
    }
}

/// Removing the last run lowers the run count by exactly one.
pub proof fn lemma_run_count_step(t: Seq<char>)
    requires
        t.len() > 0,
    ensures
        ({
            let s = skip_run_left(t, t.len() as int, class_of(t[t.len() - 1]));
            &&& 0 <= s < t.len()
            &&& run_count(t) == 1 + run_count(t.subrange(0, s))
        }),
{
    let cl = class_of(t[t.len() - 1]);
    let s = skip_run_left(t, t.len() as int, cl);
    lemma_skip_run_left_bounds(t, t.len() - 1, cl);
    assert(s == skip_run_left(t, t.len() - 1, cl));
}

/// The remaining content after one "delete word before the end".
pub open spec fn word_deleted(t: Seq<char>) -> Seq<char> {
    t.subrange(0, word_delete_start(t, t.len() as int))
}

/// One word-wise deletion at the end of a non-empty document removes at
/// least one whole run (the trailing whitespace counts as a second one).
pub proof fn lemma_word_delete_removes_runs(t: Seq<char>)
    requires
        t.len() > 0,
    ensures
        0 <= word_delete_start(t, t.len() as int) < t.len(),
        run_count(word_deleted(t)) < run_count(t),
{
    let n = t.len() as int;
    let p = skip_run_left(t, n, CharClass::Whitespace);
    lemma_skip_run_left_bounds(t, n, CharClass::Whitespace);
    lemma_skip_run_left_stops(t, n, CharClass::Whitespace);
    if class_of(t[n - 1]) != CharClass::Whitespace {
        // No trailing whitespace: exactly the last run goes.
        assert(p == n);
        let cl = class_of(t[n - 1]);
        let s = skip_run_left(t, n, cl);
        lemma_run_count_step(t);
        assert(word_deleted(t) == t.subrange(0, s));
    } else {
        // The whitespace run goes, and the run before it with it.
        assert(p == skip_run_left(t, n, class_of(t[n - 1])));
        lemma_run_count_step(t);
        if p == 0 {
            assert(word_deleted(t) =~= Seq::<char>::empty());
        } else {
            let t1 = t.subrange(0, p);
            assert(run_count(t) == 1 + run_count(t1));
            let cl = class_of(t[p - 1]);
            let s = skip_run_left(t, p, cl);
            lemma_skip_run_left_bounds(t, p, cl);
            lemma_skip_run_left_prefix(t, p, cl, p);
            assert(t1[p - 1] == t[p - 1]);
            assert(skip_run_left(t1, p, cl) == s);
            lemma_run_count_step(t1);
            assert(run_count(t1) == 1 + run_count(t1.subrange(0, s)));
            assert(t1.subrange(0, s) =~= t.subrange(0, s));
            assert(word_deleted(t) == t.subrange(0, s));
        }
    }
}

/// The content after `k` word-wise deletions at the end.
pub open spec fn iterate_word_delete(t: Seq<char>, k: nat) -> Seq<char>
    decreases k,
{
    if k == 0 {
        t
    } else {
        word_deleted(iterate_word_delete(t, (k - 1) as nat))
    }
}

/// Iterating one step more is iterating from the once-deleted content.
proof fn lemma_iterate_word_delete_shift(t: Seq<char>, k: nat)
    ensures
        iterate_word_delete(t, (k + 1) as nat) == iterate_word_delete(word_deleted(t), k),
    decreases k,
{
    assert(iterate_word_delete(t, (k + 1) as nat) == word_deleted(iterate_word_delete(t, k)));
    if k > 0 {
        lemma_iterate_word_delete_shift(t, (k - 1) as nat);
        assert(iterate_word_delete(word_deleted(t), k) == word_deleted(
            iterate_word_delete(word_deleted(t), (k - 1) as nat),
        ));
    }
}

/// An emptied document stays empty under further word-wise deletions.
proof fn lemma_iterate_word_delete_stays_empty(t: Seq<char>, k: nat, k2: nat)
    requires
        k <= k2,
        iterate_word_delete(t, k).len() == 0,
    ensures
        iterate_word_delete(t, k2).len() == 0,
    decreases k2 - k,
{
    if k2 > k {
        lemma_iterate_word_delete_stays_empty(t, k, (k2 - 1) as nat);
        let u = iterate_word_delete(t, (k2 - 1) as nat);
        assert(word_deleted(u) =~= Seq::<char>::empty());
    }
}

/// Deleting word by word from the end reaches the start of the document
/// after at most as many steps as the document has whitespace, word and
/// punctuation runs.
pub proof fn lemma_word_delete_reaches_start(t: Seq<char>)
    ensures
        iterate_word_delete(t, run_count(t)).len() == 0,
    decreases run_count(t),
{
    if t.len() == 0 {
        assert(run_count(t) == 0);
    } else {
        let n = run_count(t);
        assert(n >= 1);
        let t1 = word_deleted(t);
        lemma_word_delete_removes_runs(t);
        lemma_word_delete_reaches_start(t1);
        lemma_iterate_word_delete_stays_empty(t1, run_count(t1), (n - 1) as nat);
        lemma_iterate_word_delete_shift(t, (n - 1) as nat);
    }
}

} // verus!
