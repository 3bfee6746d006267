//! The decisions taken while one multipart upload request is consumed.
//!
//! The caller reads the body and writes the files; the session is told what
//! happened ([`PartEvent`]) and answers with what to do next ([`Action`]).
use vstd::prelude::*;
use crate::summary::{decimal, outcome_pairs, summary_message, summary_text, UploadOutcome};

verus! {

/// Why a request was given up as a whole.
#[derive(Clone, Copy, Debug, PartialEq, Eq, Structural)]
pub enum UploadError {
    /// The multipart framing of the body could not be read.
    MalformedBody,
    /// A part declared no filename, or an empty one.
    MissingFilename,
    /// An event came that the session was not waiting for.
    OutOfOrder,
}

/// What happened to the request body since the last step.
pub enum PartEvent {
    /// The next part arrived, with the filename that it declares, if any.
    Part { filename: Option<String> },
    /// The pending part was written to storage; it held this many bytes.
    Stored { byte_count: usize },
    /// Writing the pending part to storage failed.
    StoreFailed,
    /// The body holds no more parts.
    Exhausted,
    /// The body could not be read as multipart.
    Malformed,
}

/// What the caller does next.
pub enum Action {
    /// Read the pending part's payload and write it under this name.
    Store { filename: String },
    /// Ask the body for its next part.
    NextPart,
    /// Answer with the page that shows this summary.
    Respond { message: String },
    /// Give up the request with this error.
    Abort { error: UploadError },
}

/// Where the session stands.
pub enum Phase {
    AwaitingPart,
    Storing { filename: String },
    Done,
}

pub enum PhaseView {
    AwaitingPart,
    Storing(Seq<char>),
    Done,
}

pub enum EventView {
    Part(Option<Seq<char>>),
    Stored(nat),
    StoreFailed,
    Exhausted,
    Malformed,
}

pub enum ActionView {
    Store(Seq<char>),
    NextPart,
    Respond(Seq<char>),
    Abort(UploadError),
}

/// The phase of a session and the files that it has stored so far.
pub struct SessionView {
    pub phase: PhaseView,
    pub outcomes: Seq<(Seq<char>, nat)>,
}

impl View for Phase {
    type V = PhaseView;

    open spec fn view(&self) -> PhaseView {
        match self {
            Phase::AwaitingPart => PhaseView::AwaitingPart,
            Phase::Storing { filename } => PhaseView::Storing(filename@),
            Phase::Done => PhaseView::Done,
        }
    }
}

impl View for PartEvent {
    type V = EventView;

    open spec fn view(&self) -> EventView {
        match self {
            PartEvent::Part { filename } => EventView::Part(
                match filename {
                    Some(f) => Some(f@),
                    None => None,
                },
            ),
            PartEvent::Stored { byte_count } => EventView::Stored(*byte_count as nat),
            PartEvent::StoreFailed => EventView::StoreFailed,
            PartEvent::Exhausted => EventView::Exhausted,
            PartEvent::Malformed => EventView::Malformed,
        }
    }
}

impl View for Action {
    type V = ActionView;

    open spec fn view(&self) -> ActionView {
        match self {
            Action::Store { filename } => ActionView::Store(filename@),
            Action::NextPart => ActionView::NextPart,
            Action::Respond { message } => ActionView::Respond(message@),
            Action::Abort { error } => ActionView::Abort(*error),
        }
    }
}

/// A session that has given up or answered, keeping what it stored.
pub open spec fn finished(s: SessionView) -> SessionView {
    SessionView { phase: PhaseView::Done, outcomes: s.outcomes }
}

/// One step of an upload request.
///
/// While waiting for a part: a part with a non-empty filename is stored under
/// that name; a part without one ends the request; the end of the body answers
/// with the summary of what was stored. While a part is being stored: a
/// successful write records its name and length, a failed one is passed over,
/// and either way the next part is asked for. A body that cannot be read ends
/// the request in any phase, and so does an event that the phase does not
/// wait for.
pub open spec fn step_spec(s: SessionView, e: EventView) -> (SessionView, ActionView) {
    match s.phase {
        PhaseView::AwaitingPart => match e {
            EventView::Part(name) => if name is Some && name->0.len() > 0 {
                (
                    SessionView { phase: PhaseView::Storing(name->0), outcomes: s.outcomes },
                    ActionView::Store(name->0),
                )
            } else {
                (finished(s), ActionView::Abort(UploadError::MissingFilename))
            },
            EventView::Exhausted => (finished(s), ActionView::Respond(summary_text(s.outcomes))),
            EventView::Malformed => (finished(s), ActionView::Abort(UploadError::MalformedBody)),
            _ => (finished(s), ActionView::Abort(UploadError::OutOfOrder)),
        },
        PhaseView::Storing(name) => match e {
            EventView::Stored(n) => (
                SessionView { phase: PhaseView::AwaitingPart, outcomes: s.outcomes.push((name, n)) },
                ActionView::NextPart,
            ),
            EventView::StoreFailed => (
                SessionView { phase: PhaseView::AwaitingPart, outcomes: s.outcomes },
                ActionView::NextPart,
            ),
            EventView::Malformed => (finished(s), ActionView::Abort(UploadError::MalformedBody)),
            _ => (finished(s), ActionView::Abort(UploadError::OutOfOrder)),
        },
        PhaseView::Done => (s, ActionView::Abort(UploadError::OutOfOrder)),
    }
}

/// The state of one upload request.
pub struct UploadSession {
    phase: Phase,
    outcomes: Vec<UploadOutcome>,
}

impl View for UploadSession {
    type V = SessionView;

    closed spec fn view(&self) -> SessionView {
        SessionView { phase: self.phase@, outcomes: outcome_pairs(self.outcomes@) }
    }
}

impl UploadSession {
    /// A session that waits for the first part and has stored nothing.
    pub fn new() -> (r: UploadSession)
        ensures
            r@ == (SessionView { phase: PhaseView::AwaitingPart, outcomes: Seq::empty() }),
    {
        let r = UploadSession { phase: Phase::AwaitingPart, outcomes: Vec::new() };
        proof {
            assert(r@.outcomes =~= Seq::<(Seq<char>, nat)>::empty());
        }
        r
    }

    /// The files stored so far, in the order in which they were stored.
    pub fn outcomes(&self) -> (r: &Vec<UploadOutcome>)
        ensures
            outcome_pairs(r@) == self@.outcomes,
    {
        &self.outcomes
    }

    /// Whether the session has answered or given up.
    pub fn is_done(&self) -> (r: bool)
        ensures
            r == (self@.phase is Done),
    {
        match self.phase {
            Phase::Done => true,
            _ => false,
        }
    }

    fn finish(&mut self)
        ensures
            final(self)@ == finished(old(self)@),
    {
        self.phase = Phase::Done;
    }

    /// Takes one event of the request and says what to do next.
    pub fn step(&mut self, event: PartEvent) -> (r: Action)
        ensures
            (final(self)@, r@) == step_spec(old(self)@, event@),
    {
        let waiting = match self.phase {
            Phase::AwaitingPart => true,
            _ => false,
        };
        if waiting {
            match event {
                PartEvent::Part { filename } => match filename {
                    Some(name) => {
                        if name.as_str().is_empty() {
                            self.finish();
                            Action::Abort { error: UploadError::MissingFilename }
                        } else {
                            self.phase = Phase::Storing { filename: name.clone() };
                            Action::Store { filename: name }
                        }
                    },
                    None => {
                        self.finish();
                        Action::Abort { error: UploadError::MissingFilename }
                    },
                },
                PartEvent::Exhausted => {
                    let message = summary_message(&self.outcomes);
                    self.finish();
                    Action::Respond { message }
                },
                PartEvent::Malformed => {
                    self.finish();
                    Action::Abort { error: UploadError::MalformedBody }
                },
                _ => {
                    self.finish();
                    Action::Abort { error: UploadError::OutOfOrder }
                },
            }
        } else {
            let mut phase = Phase::Done;
            std::mem::swap(&mut phase, &mut self.phase);
            match phase {
                Phase::Storing { filename } => match event {
                    PartEvent::Stored { byte_count } => {
                        let ghost before = outcome_pairs(self.outcomes@);
                        let o = UploadOutcome { filename, byte_count };
                        self.outcomes.push(o);
                        proof {
                            assert(outcome_pairs(self.outcomes@) =~= before.push(o@));
                        }
                        self.phase = Phase::AwaitingPart;
                        Action::NextPart
                    },
                    PartEvent::StoreFailed => {
                        self.phase = Phase::AwaitingPart;
                        Action::NextPart
                    },
                    PartEvent::Malformed => Action::Abort { error: UploadError::MalformedBody },
                    _ => Action::Abort { error: UploadError::OutOfOrder },
                },
                _ => Action::Abort { error: UploadError::OutOfOrder },
            }
        }
    }
}

/// The events of a request whose parts `files` were each stored without
/// error: for each file, its part with its name, then its write.
pub open spec fn upload_events(files: Seq<(Seq<char>, nat)>) -> Seq<EventView>
    decreases files.len(),
{
    if files.len() == 0 {
        Seq::empty()
    } else {
        seq![EventView::Part(Some(files[0].0)), EventView::Stored(files[0].1)] + upload_events(
            files.drop_first(),
        )
    }
}

/// The state after taking the events `es` from `s`, and the last action.
pub open spec fn run(s: SessionView, es: Seq<EventView>) -> (SessionView, ActionView)
    decreases es.len(),
{
    if es.len() == 0 {
        (s, ActionView::NextPart)
    } else if es.len() == 1 {
        step_spec(s, es[0])
    } else {
        run(step_spec(s, es[0]).0, es.drop_first())
    }
}

/// A session that waits for the first part and has stored nothing.
pub open spec fn initial() -> SessionView {
    SessionView { phase: PhaseView::AwaitingPart, outcomes: Seq::empty() }
}

proof fn lemma_run_stored_from(o: Seq<(Seq<char>, nat)>, files: Seq<(Seq<char>, nat)>)
    requires
        forall|i: int| 0 <= i < files.len() ==> (#[trigger] files[i]).0.len() > 0,
    ensures
        run(
            SessionView { phase: PhaseView::AwaitingPart, outcomes: o },
            upload_events(files).push(EventView::Exhausted),
        ) == (SessionView { phase: PhaseView::Done, outcomes: o + files }, ActionView::Respond(
            summary_text(o + files),
        )),
    decreases files.len(),
{
    let s = SessionView { phase: PhaseView::AwaitingPart, outcomes: o };
    let es = upload_events(files).push(EventView::Exhausted);
    if files.len() == 0 {
        assert(es =~= seq![EventView::Exhausted]);
        assert(o + files =~= o);
    } else {
        let f0 = files[0];
        let rest = files.drop_first();
        assert forall|i: int| 0 <= i < rest.len() implies (#[trigger] rest[i]).0.len() > 0 by {
            assert(rest[i] == files[i + 1]);
        }
        lemma_run_stored_from(o.push(f0), rest);
        let tail = upload_events(rest).push(EventView::Exhausted);
        assert(es =~= seq![EventView::Part(Some(f0.0)), EventView::Stored(f0.1)] + tail);
        assert(es[0] == EventView::Part(Some(f0.0)));
        assert(es.drop_first() =~= seq![EventView::Stored(f0.1)] + tail);
        assert(es.drop_first()[0] == EventView::Stored(f0.1));
        assert(es.drop_first().drop_first() =~= tail);
        assert(o.push(f0) + rest =~= o + files);
        let s1 = step_spec(s, es[0]).0;
        assert(s1 == SessionView { phase: PhaseView::Storing(f0.0), outcomes: o });
        let s2 = step_spec(s1, EventView::Stored(f0.1)).0;
        assert(s2 == SessionView { phase: PhaseView::AwaitingPart, outcomes: o.push(f0) });
        assert(run(s, es) == run(s1, es.drop_first()));
        assert(run(s1, es.drop_first()) == run(s2, tail));
    }
}

/// When every part of a request declares a non-empty filename and is stored
/// without error, the request is answered with a summary that lists exactly
/// those files, with their lengths, in the order of the parts.
pub proof fn lemma_stored_parts_listed_in_order(files: Seq<(Seq<char>, nat)>)
    requires
        forall|i: int| 0 <= i < files.len() ==> (#[trigger] files[i]).0.len() > 0,
    ensures
        run(initial(), upload_events(files).push(EventView::Exhausted)) == (SessionView {
            phase: PhaseView::Done,
            outcomes: files,
        }, ActionView::Respond(summary_text(files))),
{
    lemma_run_stored_from(Seq::empty(), files);
    assert(Seq::<(Seq<char>, nat)>::empty() + files =~= files);
}

/// A body with no parts is answered with a summary of zero files.
pub proof fn lemma_empty_body_reports_zero()
    ensures
        run(initial(), seq![EventView::Exhausted]) == (SessionView {
            phase: PhaseView::Done,
            outcomes: Seq::empty(),
        }, ActionView::Respond(summary_text(Seq::empty()))),
        summary_text(Seq::empty()) == "Successfully uploaded "@ + seq!['0'] + " file(s):"@,
{
    reveal_with_fuel(decimal, 1);
    assert(summary_text(Seq::empty()) =~= "Successfully uploaded "@ + seq!['0'] + " file(s):"@);
}

} // verus!
