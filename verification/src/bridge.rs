//! The asynchronous file bridge: a one-slot, single-producer channel
//! carrying the result of a background file-open back into the update
//! cycle.  The bridge itself is the main-cycle bookkeeping: it accepts
//! one outstanding request at a time, takes one delivery for it, and
//! hands the message out once when polled.

use vstd::prelude::*;

verus! {

/// The result of one background file-open: the chosen path and the file
/// content, both as plain characters.
pub struct FileMessage {
    pub path: Vec<char>,
    pub text: Vec<char>,
}

/// The one-slot channel state: at most one request outstanding, at most
/// one undelivered message.
pub struct FileBridge {
    pending: bool,
    slot: Option<FileMessage>,
}

impl FileBridge {
    /// A request is outstanding and its message has not arrived yet.
    pub closed spec fn is_pending(&self) -> bool {
        self.pending
    }

    /// The undelivered message, if one waits: `(path, text)`.
    pub closed spec fn slot_model(&self) -> Option<(Seq<char>, Seq<char>)> {
        match self.slot {
            Option::Some(m) => Option::Some((m.path@, m.text@)),
            Option::None => Option::None,
        }
    }

    /// A message never waits while a request is still outstanding.
    pub closed spec fn wf(&self) -> bool {
        self.pending ==> self.slot is None
    }

    /// An idle bridge: nothing outstanding, nothing waiting.
    pub fn new() -> (r: FileBridge)
        ensures
            r.wf(),
            !r.is_pending(),
            r.slot_model() is None,
    {
        FileBridge { pending: false, slot: Option::None }
    }

    /// Whether a request is outstanding.
    pub fn pending(&self) -> (r: bool)
        ensures
            r == self.is_pending(),
    {
        self.pending
    }

    /// Starts a file-open request.  Rejected while an earlier request is
    /// outstanding or its message still waits, so a second concurrent
    /// request can never race on the single slot.
    pub fn request_open(&mut self) -> (accepted: bool)
        requires
            old(self).wf(),
        ensures
            final(self).wf(),
            accepted <==> (!old(self).is_pending() && old(self).slot_model() is None),
            accepted ==> final(self).is_pending() && final(self).slot_model() is None,
            !accepted ==> *final(self) == *old(self),
    {
        if self.pending {
            return false;
        }
        let occupied = match &self.slot {
            Option::Some(_) => true,
            Option::None => false,
        };
        if occupied {
            return false;
        }
        self.pending = true;
        true
    }

    /// Takes the message produced by the background worker.  Accepted
    /// exactly once per outstanding request; a delivery with no request
    /// outstanding is dropped.
    pub fn deliver(&mut self, msg: FileMessage) -> (accepted: bool)
        requires
            old(self).wf(),
        ensures
            final(self).wf(),
            accepted <==> old(self).is_pending(),
            accepted ==> !final(self).is_pending() && final(self).slot_model() == Option::Some(
                (msg.path@, msg.text@),
            ),
            !accepted ==> *final(self) == *old(self),
    {
        if self.pending {
            self.pending = false;
            self.slot = Option::Some(msg);
            true
        } else {
            false
        }
    }

    /// Reports that the outstanding request resolved without a file:
    /// the chooser was cancelled or the read failed.  No message is
    /// produced, the request is no longer outstanding, and a new one
    /// may be issued; the shell surfaces the failure to the user
    /// instead of silently doing nothing.
    pub fn resolve_failed(&mut self) -> (accepted: bool)
        requires
            old(self).wf(),
        ensures
            final(self).wf(),
            accepted <==> old(self).is_pending(),
            !final(self).is_pending(),
            final(self).slot_model() == old(self).slot_model(),
    {
        let was = self.pending;
        self.pending = false;
        was
    }

    /// Non-blocking poll, called once per update cycle: takes the
    /// waiting message, if any, so each message is consumed at most
    /// once.
    pub fn poll(&mut self) -> (r: Option<FileMessage>)
        requires
            old(self).wf(),
        ensures
            final(self).wf(),
            final(self).is_pending() == old(self).is_pending(),
            final(self).slot_model() is None,
            match r {
                Option::Some(m) => old(self).slot_model() == Option::Some((m.path@, m.text@)),
                Option::None => old(self).slot_model() is None,
            },
    {
        let mut taken: Option<FileMessage> = Option::None;
        core::mem::swap(&mut taken, &mut self.slot);
        taken
    }
}

impl Default for FileBridge {
    /// The same idle bridge `new` builds.
    fn default() -> (r: FileBridge)
        ensures
            r.wf(),
            !r.is_pending(),
            r.slot_model() is None,
    {
        FileBridge::new()
    }
}

} // verus!
