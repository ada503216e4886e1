//! The edit engine: a reducer that consumes one discrete input event per
//! call, mutates the buffer and the cursor/selection pair accordingly,
//! and reports the cursor change and any action the shell must carry
//! out.  Row- and word-aware operations resolve their geometry against
//! the layout of the current text, fetched from the highlight cache, so
//! no query ever runs against stale geometry.

use vstd::prelude::*;
use crate::bridge::FileMessage;
use crate::highlight::HighlightCache;
use crate::layout::LayoutParams;
use crate::layout::RowSpan;
use crate::layout::down_spec;
use crate::layout::layout_spans;
use crate::layout::pointer_offset_spec;
use crate::layout::row_begin_spec;
use crate::layout::row_end_spec;
use crate::layout::up_spec;
use crate::selection::Selection;
use crate::selection::selection_valid;
use crate::selection::sorted_spec;
use crate::text::TextBuffer;
use crate::text::delete_range_spec;
use crate::text::insert_spec;
use crate::text::word_delete_start;
use crate::text::word_end_after;

verus! {

/// The modifier keys held during a key event.  `command` is the
/// platform's line/document modifier.
#[derive(Clone, Copy, Debug, PartialEq, Eq, Structural)]
pub struct Modifiers {
    pub shift: bool,
    pub alt: bool,
    pub command: bool,
}

impl Modifiers {
    /// No modifier held.
    pub fn plain() -> (r: Modifiers)
        ensures
            r == (Modifiers { shift: false, alt: false, command: false }),
    {
        Modifiers { shift: false, alt: false, command: false }
    }
}

#[derive(Clone, Copy, Debug, PartialEq, Eq, Structural)]
pub enum ArrowKey {
    Left,
    Right,
    Up,
    Down,
}

/// One discrete input event, in the shape the shell delivers them.
pub enum InputEvent {
    /// Printable text arrived.  An empty payload and a bare newline or
    /// carriage return are ignored: line breaks arrive as `Enter`.
    TextInput { chars: Vec<char> },
    Tab,
    Enter,
    Backspace { mods: Modifiers },
    Arrow { key: ArrowKey, mods: Modifiers },
    PointerDown { x: u64, y: u64 },
    PointerDrag { x: u64, y: u64 },
    FocusGained,
    FocusLost,
    OpenRequested,
    SaveRequested,
}

/// What the shell must do after an event the core cannot serve itself.
#[derive(Clone, Copy, Debug, PartialEq, Eq, Structural)]
pub enum ShellAction {
    /// Present a file chooser and read the chosen file in the
    /// background.
    OpenDialog,
    /// Write the current text to the current file.
    SaveFile,
}

/// The result of applying one event: the new cursor pair if it changed
/// (the shell then scrolls the caret into view), and any shell action.
#[derive(Debug, PartialEq, Eq)]
pub struct ApplyOutcome {
    pub cursor: Option<Selection>,
    pub action: Option<ShellAction>,
}

/// The mathematical state of the editor.
pub ghost struct EditorModel {
    pub text: Seq<char>,
    pub sel: Selection,
    pub focused: bool,
}

/// One character step left, stopping at the document start.
pub open spec fn step_left(p: int) -> int {
    if p > 0 {
        p - 1
    } else {
        0
    }
}

/// One character step right, stopping at the document end.
pub open spec fn step_right(p: int, len: int) -> int {
    if p < len {
        p + 1
    } else {
        len
    }
}

/// Deleting the selected range and inserting `s` in its place: the new
/// text and the caret offset just after the insertion.
pub open spec fn insert_at_selection(t: Seq<char>, sel: Selection, s: Seq<char>) -> (Seq<char>, int) {
    let lo = sorted_spec(sel).0;
    let hi = sorted_spec(sel).1;
    (insert_spec(delete_range_spec(t, lo, hi), lo, s), lo + s.len())
}

/// Where a backspace with an empty selection starts deleting: the row
/// start under the line modifier, the word-unit start under alt, else
/// one character back.
pub open spec fn backspace_start(t: Seq<char>, p: int, mods: Modifiers, spans: Seq<RowSpan>) -> int {
    if mods.command {
        row_begin_spec(spans, p)
    } else if mods.alt {
        word_delete_start(t, p)
    } else {
        step_left(p)
    }
}

/// The destination of an unmodified arrow step from `p`.
pub open spec fn arrow_plain_dest(
    spans: Seq<RowSpan>,
    cw: int,
    p: int,
    len: int,
    key: ArrowKey,
) -> int {
    match key {
        ArrowKey::Left => step_left(p),
        ArrowKey::Right => step_right(p, len),
        ArrowKey::Up => up_spec(spans, cw, p),
        ArrowKey::Down => down_spec(spans, cw, p, len),
    }
}

/// A collapsed cursor at offset `o`.
pub open spec fn caret_at(o: int) -> Selection {
    Selection { primary: o as usize, secondary: o as usize }
}

/// The whole semantics of one event: the state after it, the cursor
/// change it reports, and the shell action it requests.  Geometry is
/// resolved against the layout of the current text at the given shaping
/// parameters.  Events that edit or navigate are served only while the
/// editor has focus; a pointer press also grants focus.  A key event
/// with an unexpected modifier combination changes nothing.
pub open spec fn event_outcome(m: EditorModel, params: LayoutParams, ev: InputEvent) -> (
    EditorModel,
    Option<Selection>,
    Option<ShellAction>,
) {
    let t = m.text;
    let len = t.len() as int;
    let spans = layout_spans(t, params.wrap_cols as nat);
    let cw = params.char_width as int;
    let rh = params.row_height as int;
    let p = m.sel.primary as int;
    match ev {
        InputEvent::TextInput { chars } => {
            if !m.focused || chars@.len() == 0 || chars@ == seq!['\n'] || chars@ == seq!['\r'] {
                (m, Option::<Selection>::None, Option::<ShellAction>::None)
            } else {
                let r = insert_at_selection(t, m.sel, chars@);
                let c = caret_at(r.1);
                (
                    EditorModel { text: r.0, sel: c, focused: true },
                    Option::Some(c),
                    Option::<ShellAction>::None,
                )
            }
        },
        InputEvent::Tab => {
            if !m.focused {
                (m, Option::<Selection>::None, Option::<ShellAction>::None)
            } else {
                let r = insert_at_selection(t, m.sel, seq!['\t']);
                let c = caret_at(r.1);
                (
                    EditorModel { text: r.0, sel: c, focused: true },
                    Option::Some(c),
                    Option::<ShellAction>::None,
                )
            }
        },
        InputEvent::Enter => {
            if !m.focused {
                (m, Option::<Selection>::None, Option::<ShellAction>::None)
            } else {
                let r = insert_at_selection(t, m.sel, seq!['\n']);
                let c = caret_at(r.1);
                (
                    EditorModel { text: r.0, sel: c, focused: true },
                    Option::Some(c),
                    Option::<ShellAction>::None,
                )
            }
        },
        InputEvent::Backspace { mods } => {
            if !m.focused {
                (m, Option::<Selection>::None, Option::<ShellAction>::None)
            } else if m.sel.primary != m.sel.secondary {
                let lo = sorted_spec(m.sel).0;
                let hi = sorted_spec(m.sel).1;
                let c = caret_at(lo);
                (
                    EditorModel { text: delete_range_spec(t, lo, hi), sel: c, focused: true },
                    Option::Some(c),
                    Option::<ShellAction>::None,
                )
            } else {
                let s = backspace_start(t, p, mods, spans);
                let c = caret_at(s);
                (
                    EditorModel { text: delete_range_spec(t, s, p), sel: c, focused: true },
                    Option::Some(c),
                    Option::<ShellAction>::None,
                )
            }
        },
        InputEvent::Arrow { key, mods } => {
            if !m.focused {
                (m, Option::<Selection>::None, Option::<ShellAction>::None)
            } else if !mods.shift && !mods.alt && !mods.command {
                let c = caret_at(arrow_plain_dest(spans, cw, p, len, key));
                (
                    EditorModel { text: t, sel: c, focused: true },
                    Option::Some(c),
                    Option::<ShellAction>::None,
                )
            } else if mods.shift && !mods.alt && !mods.command {
                let d = arrow_plain_dest(spans, cw, p, len, key);
                let c = Selection { primary: d as usize, secondary: m.sel.secondary };
                (
                    EditorModel { text: t, sel: c, focused: true },
                    Option::Some(c),
                    Option::<ShellAction>::None,
                )
            } else if mods.alt && !mods.shift && !mods.command {
                match key {
                    ArrowKey::Left => {
                        let c = caret_at(word_delete_start(t, p));
                        (
                            EditorModel { text: t, sel: c, focused: true },
                            Option::Some(c),
                            Option::<ShellAction>::None,
                        )
                    },
                    ArrowKey::Right => {
                        let c = caret_at(word_end_after(t, p));
                        (
                            EditorModel { text: t, sel: c, focused: true },
                            Option::Some(c),
                            Option::<ShellAction>::None,
                        )
                    },
                    _ => (m, Option::<Selection>::None, Option::<ShellAction>::None),
                }
            } else if mods.command && !mods.shift && !mods.alt {
                let d = match key {
                    ArrowKey::Left => row_begin_spec(spans, p),
                    ArrowKey::Right => row_end_spec(spans, p),
                    ArrowKey::Up => 0,
                    ArrowKey::Down => len,
                };
                let c = caret_at(d);
                (
                    EditorModel { text: t, sel: c, focused: true },
                    Option::Some(c),
                    Option::<ShellAction>::None,
                )
            } else {
                (m, Option::<Selection>::None, Option::<ShellAction>::None)
            }
        },
        InputEvent::PointerDown { x, y } => {
            let o = pointer_offset_spec(spans, cw, rh, x as int, y as int);
            let c = caret_at(o);
            (
                EditorModel { text: t, sel: c, focused: true },
                Option::Some(c),
                Option::<ShellAction>::None,
            )
        },
        InputEvent::PointerDrag { x, y } => {
            if !m.focused {
                (m, Option::<Selection>::None, Option::<ShellAction>::None)
            } else {
                let o = pointer_offset_spec(spans, cw, rh, x as int, y as int);
                let c = Selection { primary: o as usize, secondary: m.sel.secondary };
                (
                    EditorModel { text: t, sel: c, focused: true },
                    Option::Some(c),
                    Option::<ShellAction>::None,
                )
            }
        },
        InputEvent::FocusGained => (
            EditorModel { text: t, sel: m.sel, focused: true },
            Option::<Selection>::None,
            Option::<ShellAction>::None,
        ),
        InputEvent::FocusLost => (
            EditorModel { text: t, sel: m.sel, focused: false },
            Option::<Selection>::None,
            Option::<ShellAction>::None,
        ),
        InputEvent::OpenRequested => (m, Option::<Selection>::None, Option::Some(
            ShellAction::OpenDialog,
        )),
        InputEvent::SaveRequested => (m, Option::<Selection>::None, Option::Some(
            ShellAction::SaveFile,
        )),
    }
}

/// The editor state after a whole event batch, first event first.
pub open spec fn apply_batch(m: EditorModel, params: LayoutParams, evs: Seq<InputEvent>) -> EditorModel
    decreases evs.len(),
{
    if evs.len() == 0 {
        m
    } else {
        apply_batch(event_outcome(m, params, evs[0]).0, params, evs.drop_first())
    }
}

/// The editing core: the document, the cursor/selection pair, and the
/// focus flag.
pub struct Editor {
    buffer: TextBuffer,
    selection: Selection,
    focused: bool,
}

impl Editor {
    /// The mathematical state.
    pub closed spec fn model(&self) -> EditorModel {
        EditorModel { text: self.buffer@, sel: self.selection, focused: self.focused }
    }

    /// The document content.
    pub open spec fn text(&self) -> Seq<char> {
        self.model().text
    }

    /// The cursor/selection pair.
    pub open spec fn sel(&self) -> Selection {
        self.model().sel
    }

    /// Whether the editor has focus.
    pub open spec fn is_focused(&self) -> bool {
        self.model().focused
    }

    /// Both selection ends lie inside the document.
    pub open spec fn wf(&self) -> bool {
        selection_valid(self.sel(), self.text().len() as int)
    }

    /// An empty, unfocused editor.
    pub fn new() -> (r: Editor)
        ensures
            r.wf(),
            r.text() == Seq::<char>::empty(),
            r.sel() == caret_at(0),
            !r.is_focused(),
    {
        Editor { buffer: TextBuffer::new(), selection: Selection::caret(0), focused: false }
    }

    /// An unfocused editor holding the given characters, caret at the
    /// document start.
    pub fn with_text(chars: Vec<char>) -> (r: Editor)
        ensures
            r.wf(),
            r.text() == chars@,
            r.sel() == caret_at(0),
            !r.is_focused(),
    {
        Editor {
            buffer: TextBuffer::from_chars(chars),
            selection: Selection::caret(0),
            focused: false,
        }
    }

    /// Replaces the document with a freshly opened file's text.  Every
    /// offset computed against the old content is invalid against the
    /// new one, so the cursor collapses to the document start.
    pub fn load_message(&mut self, msg: FileMessage)
        ensures
            final(self).wf(),
            final(self).text() == msg.text@,
            final(self).sel() == caret_at(0),
            final(self).is_focused() == old(self).is_focused(),
    {
        self.buffer = TextBuffer::from_chars(msg.text);
        self.selection = Selection::caret(0);
    }

    /// Read access to the document.
    pub fn buffer(&self) -> (r: &TextBuffer)
        ensures
            r@ == self.text(),
    {
        &self.buffer
    }

    /// The current cursor/selection pair.
    pub fn selection(&self) -> (r: Selection)
        ensures
            r == self.sel(),
    {
        self.selection
    }

    /// Whether the editor has focus.
    pub fn focused(&self) -> (r: bool)
        ensures
            r == self.is_focused(),
    {
        self.focused
    }

    /// Deletes the selected range, inserts `chars` in its place, and
    /// collapses the cursor just after the insertion.
    fn insert_at_cursor(&mut self, chars: &Vec<char>)
        requires
            old(self).wf(),
        ensures
            final(self).wf(),
            ({
                let r = insert_at_selection(old(self).model().text, old(self).model().sel, chars@);
                &&& final(self).model().text == r.0
                &&& final(self).model().sel == caret_at(r.1)
                &&& final(self).model().focused == old(self).model().focused
            }),
    {
        let (lo, hi) = self.selection.sorted();
        let suffix = self.buffer.len() - hi;
        self.buffer.delete_range(lo, hi);
        self.buffer.insert(lo, chars);
        let caret = self.buffer.len() - suffix;
        assert(caret as int == lo + chars@.len());
        self.selection = Selection::caret(caret);
    }

    /// Applies one input event: mutates buffer, selection and focus as
    /// `event_outcome` prescribes, resolving geometry against the
    /// layout of the current text from `cache`, and returns the cursor
    /// change and any shell action.
    pub fn apply(&mut self, cache: &mut HighlightCache, event: InputEvent) -> (out: ApplyOutcome)
        requires
            old(self).wf(),
            old(cache).wf(),
        ensures
            final(self).wf(),
            final(cache).wf(),
            final(cache).spec_params() == old(cache).spec_params(),
            ({
                let r = event_outcome(old(self).model(), old(cache).spec_params(), event);
                &&& final(self).model() == r.0
                &&& out.cursor == r.1
                &&& out.action == r.2
            }),
    {
        let none_out = ApplyOutcome { cursor: Option::None, action: Option::None };
        match event {
            InputEvent::TextInput { chars } => {
                if !self.focused {
                    return none_out;
                }
                if chars.len() == 0 {
                    return none_out;
                }
                if chars.len() == 1 && (chars[0] == '\n' || chars[0] == '\r') {
                    proof {
                        if chars@[0] == '\n' {
                            assert(chars@ =~= seq!['\n']);
                        } else {
                            assert(chars@ =~= seq!['\r']);
                        }
                    }
                    return none_out;
                }
                proof {
                    assert(seq!['\n'].len() == 1);
                    assert(seq!['\r'].len() == 1);
                    if chars@.len() == 1 {
                        assert(chars@[0] != '\n' && chars@[0] != '\r');
                    }
                    assert(chars@ != seq!['\n']);
                    assert(chars@ != seq!['\r']);
                }
                self.insert_at_cursor(&chars);
                ApplyOutcome { cursor: Option::Some(self.selection), action: Option::None }
            },
            InputEvent::Tab => {
                if !self.focused {
                    return none_out;
                }
                let mut s: Vec<char> = Vec::new();
                s.push('\t');
                assert(s@ =~= seq!['\t']);
                self.insert_at_cursor(&s);
                ApplyOutcome { cursor: Option::Some(self.selection), action: Option::None }
            },
            InputEvent::Enter => {
                if !self.focused {
                    return none_out;
                }
                let mut s: Vec<char> = Vec::new();
                s.push('\n');
                assert(s@ =~= seq!['\n']);
                self.insert_at_cursor(&s);
                ApplyOutcome { cursor: Option::Some(self.selection), action: Option::None }
            },
            InputEvent::Backspace { mods } => {
                if !self.focused {
                    return none_out;
                }
                if !self.selection.is_empty() {
                    let (lo, hi) = self.selection.sorted();
                    self.buffer.delete_range(lo, hi);
                    self.selection = Selection::caret(lo);
                    return ApplyOutcome {
                        cursor: Option::Some(self.selection),
                        action: Option::None,
                    };
                }
                let p = self.selection.primary;
                let start: usize;
                if mods.command {
                    let styled = cache.get(&self.buffer);
                    start = self.buffer.delete_line_prefix_before(p, &styled.layout);
                } else if mods.alt {
                    start = self.buffer.delete_word_before(p);
                } else {
                    start = self.buffer.delete_char_before(p);
                    proof {
                        if p == 0 {
                            assert(delete_range_spec(old(self).model().text, 0, 0)
                                =~= old(self).model().text);
                        }
                    }
                }
                self.selection = Selection::caret(start);
                ApplyOutcome { cursor: Option::Some(self.selection), action: Option::None }
            },
            InputEvent::Arrow { key, mods } => {
                if !self.focused {
                    return none_out;
                }
                let p = self.selection.primary;
                let len = self.buffer.len();
                if !mods.alt && !mods.command {
                    let d: usize = match key {
                        ArrowKey::Left => if p > 0 {
                            p - 1
                        } else {
                            0
                        },
                        ArrowKey::Right => if p < len {
                            p + 1
                        } else {
                            len
                        },
                        ArrowKey::Up => {
                            let styled = cache.get(&self.buffer);
                            styled.layout.offset_up(p)
                        },
                        ArrowKey::Down => {
                            let styled = cache.get(&self.buffer);
                            styled.layout.offset_down(p)
                        },
                    };
                    if mods.shift {
                        self.selection = Selection { primary: d, secondary: self.selection.secondary };
                    } else {
                        self.selection = Selection::caret(d);
                    }
                    ApplyOutcome { cursor: Option::Some(self.selection), action: Option::None }
                } else if mods.alt && !mods.shift && !mods.command {
                    match key {
                        ArrowKey::Left => {
                            let d = self.buffer.word_start_before(p);
                            self.selection = Selection::caret(d);
                            ApplyOutcome { cursor: Option::Some(self.selection), action: Option::None }
                        },
                        ArrowKey::Right => {
                            let d = self.buffer.word_end_from(p);
                            self.selection = Selection::caret(d);
                            ApplyOutcome { cursor: Option::Some(self.selection), action: Option::None }
                        },
                        _ => none_out,
                    }
                } else if mods.command && !mods.shift && !mods.alt {
                    let d: usize = match key {
                        ArrowKey::Left => {
                            let styled = cache.get(&self.buffer);
                            styled.layout.row_begin(p)
                        },
                        ArrowKey::Right => {
                            let styled = cache.get(&self.buffer);
                            styled.layout.row_end(p)
                        },
                        ArrowKey::Up => 0,
                        ArrowKey::Down => len,
                    };
                    self.selection = Selection::caret(d);
                    ApplyOutcome { cursor: Option::Some(self.selection), action: Option::None }
                } else {
                    none_out
                }
            },
            InputEvent::PointerDown { x, y } => {
                let styled = cache.get(&self.buffer);
                let o = styled.layout.offset_of_pos(x, y);
                self.focused = true;
                self.selection = Selection::caret(o);
                ApplyOutcome { cursor: Option::Some(self.selection), action: Option::None }
            },
            InputEvent::PointerDrag { x, y } => {
                if !self.focused {
                    return none_out;
                }
                let styled = cache.get(&self.buffer);
                let o = styled.layout.offset_of_pos(x, y);
                self.selection = Selection { primary: o, secondary: self.selection.secondary };
                ApplyOutcome { cursor: Option::Some(self.selection), action: Option::None }
            },
            InputEvent::FocusGained => {
                self.focused = true;
                none_out
            },
            InputEvent::FocusLost => {
                self.focused = false;
                none_out
            },
            InputEvent::OpenRequested => ApplyOutcome {
                cursor: Option::None,
                action: Option::Some(ShellAction::OpenDialog),
            },
            InputEvent::SaveRequested => ApplyOutcome {
                cursor: Option::None,
                action: Option::Some(ShellAction::SaveFile),
            },
        }
    }

    /// Applies one tick's event batch in arrival order and collects the
    /// outcomes, one per event.
    pub fn apply_all(&mut self, cache: &mut HighlightCache, events: Vec<InputEvent>) -> (outs: Vec<
        ApplyOutcome,
    >)
        requires
            old(self).wf(),
            old(cache).wf(),
        ensures
            final(self).wf(),
            final(cache).wf(),
            final(cache).spec_params() == old(cache).spec_params(),
            final(self).model() == apply_batch(
                old(self).model(),
                old(cache).spec_params(),
                events@,
            ),
            outs@.len() == events@.len(),
    {
        let ghost m0: EditorModel = self.model();
        let ghost params: LayoutParams = cache.spec_params();
        let ghost evs0: Seq<InputEvent> = events@;
        let mut events = events;
        let mut outs: Vec<ApplyOutcome> = Vec::new();
        let ghost total: int = events@.len() as int;
        while events.len() > 0
            invariant
                self.wf(),
                cache.wf(),
                cache.spec_params() == params,
                apply_batch(m0, params, evs0) == apply_batch(self.model(), params, events@),
                outs@.len() + events@.len() == total,
            decreases events@.len(),
        {
            let ev = events.remove(0);
            let out = self.apply(cache, ev);
            outs.push(out);
        }
        outs
    }
}

impl Default for Editor {
    /// The same empty, unfocused editor `new` builds.
    fn default() -> (r: Editor)
        ensures
            r.wf(),
            r.text() == Seq::<char>::empty(),
            r.sel() == caret_at(0),
            !r.is_focused(),
    {
        Editor::new()
    }
}

} // verus!
