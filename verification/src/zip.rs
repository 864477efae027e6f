//! The life of an archive writer handle: open, entry by entry, then finished for good.
//!
//! The bytes are written elsewhere. This module decides, for each request on a handle,
//! whether the underlying writer is to be called at all, and what the handle is once the
//! writer has reported.

use vstd::prelude::*;

verus! {

/// The signal that the host gets back from each operation.
#[derive(Clone, Copy, Debug, PartialEq, Eq, Structural)]
pub enum Atom {
    Okay,
    Error,
}

/// What the host can ask of an open handle.
#[derive(Clone, Copy, Debug, PartialEq, Eq, Structural)]
pub enum Request {
    /// Begin a new entry.
    StartFile,
    /// Append bytes to the entry begun last.
    Write,
    /// Write the central directory and close the archive.
    Finish,
}

/// What happens to a handle.
#[derive(Clone, Copy, Debug, PartialEq, Eq, Structural)]
pub enum Event {
    /// The host asks for an operation.
    Asked(Request),
    /// The underlying writer has carried the operation out.
    Done(Request),
    /// The underlying writer has reported a failure of the operation.
    Failed(Request),
}

/// What is to be done next.
#[derive(Clone, Copy, Debug, PartialEq, Eq, Structural)]
pub enum Action {
    /// Call the underlying writer, then report `Done` or `Failed`.
    Perform(Request),
    /// Hand the signal to the host.
    Reply(Atom),
}

/// The state of a handle, as a mathematical value.
pub enum Lifecycle {
    /// The archive takes entries: `entries` have been begun, and `in_entry` says whether
    /// the last of them takes bytes.
    Open { entries: nat, in_entry: bool },
    /// The archive is closed, with `entries` entries.
    Finished { entries: nat },
}

impl Lifecycle {
    /// The number of entries begun so far.
    pub open spec fn entry_count(self) -> nat {
        match self {
            Lifecycle::Open { entries, .. } => entries,
            Lifecycle::Finished { entries } => entries,
        }
    }

    /// Whether the underlying writer is to be called for `request`: never on a finished
    /// handle, and for bytes only while an entry takes them.
    pub open spec fn admits(self, request: Request) -> bool {
        match self {
            Lifecycle::Open { in_entry, .. } => request is Write ==> in_entry,
            Lifecycle::Finished { .. } => false,
        }
    }

    /// The state after the underlying writer has reported on an admitted `request`.
    pub open spec fn after(self, request: Request, done: bool) -> Lifecycle {
        match request {
            Request::StartFile => Lifecycle::Open {
                entries: if done {
                    self.entry_count() + 1
                } else {
                    self.entry_count()
                },
                in_entry: done,
            },
            Request::Write => self,
            Request::Finish => Lifecycle::Finished { entries: self.entry_count() },
        }
    }

    /// The state after `event`, and what is to be done next.
    ///
    /// A request that the state does not admit is answered with `Error` and changes
    /// nothing, also where a report on it comes in. An admitted request is handed to the
    /// underlying writer, and its report decides: `Okay` where the writer carried it out,
    /// else `Error`. After a report on `Finish`, whichever it is, the handle is finished.
    pub open spec fn step(self, event: Event) -> (Lifecycle, Action) {
        match event {
            Event::Asked(request) => if self.admits(request) {
                (self, Action::Perform(request))
            } else {
                (self, Action::Reply(Atom::Error))
            },
            Event::Done(request) => if self.admits(request) {
                (self.after(request, true), Action::Reply(Atom::Okay))
            } else {
                (self, Action::Reply(Atom::Error))
            },
            Event::Failed(request) => if self.admits(request) {
                (self.after(request, false), Action::Reply(Atom::Error))
            } else {
                (self, Action::Reply(Atom::Error))
            },
        }
    }
}

/// The state behind an archive writer handle.
pub struct WriterResource {
    finished: bool,
    in_entry: bool,
    entries: Ghost<nat>,
}

impl View for WriterResource {
    type V = Lifecycle;

    closed spec fn view(&self) -> Lifecycle {
        if self.finished {
            Lifecycle::Finished { entries: self.entries@ }
        } else {
            Lifecycle::Open { entries: self.entries@, in_entry: self.in_entry }
        }
    }
}

impl WriterResource {
    /// Whether the handle is finished.
    pub fn is_finished(&self) -> (finished: bool)
        ensures
            finished == (self@ is Finished),
    {
        self.finished
    }

    /// Whether the entry begun last takes bytes.
    pub fn in_entry(&self) -> (in_entry: bool)
        ensures
            in_entry == (self@ matches Lifecycle::Open { in_entry: true, .. }),
    {
        !self.finished && self.in_entry
    }

    /// Takes the handle from one state to the next, and says what is to be done.
    pub fn step(&mut self, event: Event) -> (action: Action)
        ensures
            (final(self)@, action) == old(self)@.step(event),
    {
        let (request, reported, done) = match event {
            Event::Asked(request) => (request, false, false),
            Event::Done(request) => (request, true, true),
            Event::Failed(request) => (request, true, false),
        };
        let admitted = !self.finished && match request {
            Request::Write => self.in_entry,
            _ => true,
        };
        if !admitted {
            return Action::Reply(Atom::Error);
        }
        if !reported {
            return Action::Perform(request);
        }
        match request {
            Request::StartFile => {
                self.in_entry = done;
                if done {
                    self.entries = Ghost((self.entries@ + 1) as nat);
                }
            },
            Request::Write => {},
            Request::Finish => {
                self.finished = true;
                self.in_entry = false;
            },
        }
        if done {
            Action::Reply(Atom::Okay)
        } else {
            Action::Reply(Atom::Error)
        }
    }
}

/// Makes the handle for an archive whose file has just been created, or reports that the
/// file could not be created: then there is no handle.
pub fn open_writer(created: bool) -> (opened: Result<WriterResource, Atom>)
    ensures
        created ==> (opened matches Ok(resource) && resource@ == fresh()),
        !created ==> opened == Err::<WriterResource, Atom>(Atom::Error),
{
    if created {
        Ok(WriterResource { finished: false, in_entry: false, entries: Ghost(0) })
    } else {
        Err(Atom::Error)
    }
}

/// The state of a handle that has just been opened.
pub open spec fn fresh() -> Lifecycle {
    Lifecycle::Open { entries: 0, in_entry: false }
}

/// A finished handle stays as it is whatever happens to it, and every request on it is
/// answered with an error: nothing brings it back.
pub proof fn lemma_finished_is_final(state: Lifecycle, event: Event)
    requires
        state is Finished,
    ensures
        state.step(event) == (state, Action::Reply(Atom::Error)),
{
}

/// No step takes an entry out of the archive, and only a report on `Finish` finishes a
/// handle.
pub proof fn lemma_step_goes_forward(state: Lifecycle, event: Event)
    ensures
        state.step(event).0.entry_count() >= state.entry_count(),
        state is Open && state.step(event).0 is Finished ==> event == Event::Done(Request::Finish)
            || event == Event::Failed(Request::Finish),
{
}

/// Of two calls of `Finish` on an open handle, the first goes to the underlying writer
/// and succeeds with it; the second is answered with an error at once, and leaves the
/// finished archive as the first one left it.
pub proof fn lemma_second_finish_is_refused(state: Lifecycle)
    requires
        state is Open,
    ensures
        state.step(Event::Asked(Request::Finish)) == (state, Action::Perform(Request::Finish)),
        state.step(Event::Done(Request::Finish)) == (
            Lifecycle::Finished { entries: state.entry_count() },
            Action::Reply(Atom::Okay),
        ),
        state.step(Event::Done(Request::Finish)).0.step(Event::Asked(Request::Finish)) == (
            Lifecycle::Finished { entries: state.entry_count() },
            Action::Reply(Atom::Error),
        ),
{
}

/// On a handle that has just been opened, `Write` is answered with an error at once, and
/// the archive stays without entries.
pub proof fn lemma_write_needs_an_entry()
    ensures
        fresh().step(Event::Asked(Request::Write)) == (fresh(), Action::Reply(Atom::Error)),
        fresh().entry_count() == 0,
{
}

} // verus!
