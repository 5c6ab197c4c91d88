//! The roster: the connections that a broadcast is written to.
//!
//! The roster holds one write handle for each connection that is taken to be
//! alive, in the order in which the connections were accepted. A broadcast goes
//! through the roster from its first entry to its last. For each entry the
//! caller writes the frame and reports whether the write succeeded, and an entry
//! stays on the roster exactly when it did.

use vstd::prelude::*;
use crate::frame::Frame;

pub mod laws;

verus! {

/// The write handles of the live connections, oldest first.
#[derive(Debug)]
pub struct Roster<H> {
    handles: Vec<H>,
}

impl<H> View for Roster<H> {
    type V = Seq<H>;

    closed spec fn view(&self) -> Seq<H> {
        self.handles@
    }
}

/// A broadcast under way: one frame on its way to every entry of a roster.
#[derive(Debug)]
pub struct Broadcast<H> {
    frame: Frame,
    waiting: Vec<H>,
    kept: Vec<H>,
}

/// How far a broadcast has come.
pub struct BroadcastView<H> {
    /// The bytes that each entry is sent.
    pub frame: Seq<u8>,
    /// The entries that have not been written to yet, next one first.
    pub waiting: Seq<H>,
    /// The entries whose write succeeded.
    pub kept: Seq<H>,
}

impl<H> View for Broadcast<H> {
    type V = BroadcastView<H>;

    closed spec fn view(&self) -> BroadcastView<H> {
        BroadcastView { frame: self.frame@, waiting: self.waiting@, kept: self.kept@ }
    }
}

/// A broadcast after the write to its next entry: the entry has left the
/// waiting ones, and has joined the kept ones if the write succeeded. With no
/// entry waiting nothing changes.
pub open spec fn settled<H>(pass: BroadcastView<H>, delivered: bool) -> BroadcastView<H> {
    if pass.waiting.len() == 0 {
        pass
    } else {
        BroadcastView {
            frame: pass.frame,
            waiting: pass.waiting.drop_first(),
            kept: if delivered {
                pass.kept.push(pass.waiting.first())
            } else {
                pass.kept
            },
        }
    }
}

impl<H> Roster<H> {
    /// A roster without entries.
    pub fn new() -> (roster: Self)
        ensures
            roster@ == Seq::<H>::empty(),
    {
        Roster { handles: Vec::new() }
    }

    /// Adds the write handle of a connection that was just accepted. It comes
    /// after all entries that are there.
    pub fn register(&mut self, handle: H)
        ensures
            final(self)@ == old(self)@.push(handle),
    {
        self.handles.push(handle);
    }

    /// Number of entries.
    pub fn len(&self) -> (count: usize)
        ensures
            count == self@.len(),
    {
        self.handles.len()
    }

    /// Whether the roster has no entry.
    pub fn is_empty(&self) -> (empty: bool)
        ensures
            empty == (self@.len() == 0),
    {
        self.handles.len() == 0
    }

    /// The entries, oldest first.
    pub fn as_slice(&self) -> (entries: &[H])
        ensures
            entries@ == self@,
    {
        self.handles.as_slice()
    }

    /// Starts a broadcast of `frame`: every entry waits for its write, and none
    /// is kept yet.
    pub fn broadcast(self, frame: Frame) -> (pass: Broadcast<H>)
        ensures
            pass@ == (BroadcastView { frame: frame@, waiting: self@, kept: Seq::<H>::empty() }),
    {
        Broadcast { frame, waiting: self.handles, kept: Vec::new() }
    }
}

impl<H> Broadcast<H> {
    /// The frame to write.
    pub fn frame(&self) -> (frame: &Frame)
        ensures
            frame@ == self@.frame,
    {
        &self.frame
    }

    /// The entry to write the frame to next, if any is waiting.
    pub fn target(&self) -> (handle: Option<&H>)
        ensures
            match handle {
                Some(entry) => self@.waiting.len() > 0 && *entry == self@.waiting.first(),
                None => self@.waiting.len() == 0,
            },
    {
        if self.waiting.len() > 0 {
            Some(&self.waiting[0])
        } else {
            None
        }
    }

    /// Records how the write to the entry that `target` gave went.
    pub fn settle(&mut self, delivered: bool)
        ensures
            final(self)@ == settled(old(self)@, delivered),
    {
        if self.waiting.len() > 0 {
            let entry = self.waiting.remove(0);
            if delivered {
                self.kept.push(entry);
            }
            assert(self.waiting@ =~= old(self).waiting@.drop_first());
        }
    }

    /// Ends the broadcast and gives the roster back: the entries whose write
    /// succeeded, followed by those that were not written to.
    pub fn finish(self) -> (roster: Roster<H>)
        ensures
            roster@ == self@.kept + self@.waiting,
    {
        let mut handles = self.kept;
        let mut rest = self.waiting;
        handles.append(&mut rest);
        Roster { handles }
    }
}

} // verus!
