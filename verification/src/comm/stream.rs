//! The worker of one stream connection, as a machine: it takes what
//! happened on the connection and says what to do next.

use super::{answers_view, failure, respond, response_view, Answer, AnswerView};
use crate::buffer::bytes_seq;
use crate::protocol::error::{PacketError, TransactionError};
use crate::protocol::header::Rcode;
use crate::protocol::packet::{failure_view, frame_wire, parse_frame, Packet};
use crate::protocol::question::{Question, QuestionView};
use bytes::Bytes;
use vstd::prelude::*;

verus! {

/// Where a worker stands.
#[derive(Debug)]
pub enum State {
    /// It waits for the next message of a client in good standing.
    Reading,
    /// It waits for the next message of a client whose last message was
    /// malformed.
    Suspect,
    /// It has handed the question of this transaction id to the
    /// transaction engine and waits for the answer.
    Dispatching(u16, Question),
    /// It writes a response. The flags say what follows a successful
    /// write: whether the client is then suspect, and whether the
    /// connection is then closed.
    Responding(bool, bool),
    /// The connection is done.
    Closed,
}

/// Where a worker stands, as the specification sees it.
pub enum StateView {
    Reading,
    Suspect,
    Dispatching(u16, QuestionView),
    Responding(bool, bool),
    Closed,
}

impl View for State {
    type V = StateView;

    open spec fn view(&self) -> StateView {
        match self {
            State::Reading => StateView::Reading,
            State::Suspect => StateView::Suspect,
            State::Dispatching(id, q) => StateView::Dispatching(*id, q@),
            State::Responding(suspect, close) => StateView::Responding(*suspect, *close),
            State::Closed => StateView::Closed,
        }
    }
}

/// What happened on the connection.
#[derive(Debug)]
pub enum Event {
    /// A read ended: this is what came for one frame, all of it or what
    /// there was before the stream ended.
    Read(Bytes),
    /// The transaction engine has answered.
    Answers(Vec<Answer>),
    /// The write ended, well (`true`) or not.
    Written(bool),
    /// The pool asks the worker to stop.
    ShutDown,
}

/// What happened on the connection, as the specification sees it.
pub enum EventView {
    Read(Seq<u8>),
    Answers(Seq<AnswerView>),
    Written(bool),
    ShutDown,
}

impl View for Event {
    type V = EventView;

    open spec fn view(&self) -> EventView {
        match self {
            Event::Read(frame) => EventView::Read(bytes_seq(*frame)),
            Event::Answers(answers) => EventView::Answers(answers_view(answers@)),
            Event::Written(ok) => EventView::Written(*ok),
            Event::ShutDown => EventView::ShutDown,
        }
    }
}

/// What the worker is to do next.
#[derive(Debug)]
pub enum Action {
    /// Read the next frame.
    Read,
    /// Hand this question to the transaction engine.
    Dispatch(Question),
    /// Write these octets.
    Write(Bytes),
    /// Stop.
    Stop,
}

/// What the worker is to do next, as the specification sees it.
pub enum ActionView {
    Read,
    Dispatch(QuestionView),
    Write(Seq<u8>),
    Stop,
}

impl View for Action {
    type V = ActionView;

    open spec fn view(&self) -> ActionView {
        match self {
            Action::Read => ActionView::Read,
            Action::Dispatch(q) => ActionView::Dispatch(q@),
            Action::Write(b) => ActionView::Write(bytes_seq(*b)),
            Action::Stop => ActionView::Stop,
        }
    }
}

/// What the worker tells the pool after a step.
#[derive(Clone, Copy, Debug, PartialEq, Eq, Structural)]
pub enum Notice {
    /// The worker lives: keep it.
    Update,
    /// The worker is done: forget it.
    ShutDown,
}

/// The frame that reports a fault to the client.
pub open spec fn failure_frame(id: Option<u16>, rcode: Rcode) -> Seq<u8> {
    frame_wire(
        failure_view(
            match id {
                Some(id) => id,
                None => 0,
            },
            rcode,
        ),
    )
}

/// The step after a malformed message: the failure is written; a client
/// in good standing is then suspect, a suspect one is cut off.
pub open spec fn reject(suspect: bool, id: Option<u16>, rcode: Rcode) -> (StateView, ActionView) {
    (StateView::Responding(true, suspect), ActionView::Write(failure_frame(id, rcode)))
}

/// The step of a worker that reads: what a frame leads to.
pub open spec fn on_read(suspect: bool, frame: Seq<u8>) -> (StateView, ActionView) {
    match parse_frame(frame) {
        Err((id, rcode)) => if rcode == Rcode::ServFail {
            // the end of the stream
            (StateView::Closed, ActionView::Stop)
        } else {
            reject(suspect, id, rcode)
        },
        Ok(p) => if !p.header.is_query || p.questions.len() == 0 {
            reject(suspect, Some(p.header.id), Rcode::FormatError)
        } else {
            (
                StateView::Dispatching(p.header.id, p.questions[0]),
                ActionView::Dispatch(p.questions[0]),
            )
        },
    }
}

/// One step of a worker: from where it stands and what happened to where
/// it stands next and what it does.
///
/// A worker that reads takes a frame: the end of the stream closes it; a
/// malformed message or one that is no query is answered with a failure,
/// after which a client in good standing is suspect and a suspect one is
/// cut off; a query clears the suspicion and is dispatched. A worker
/// that waits for an answer writes the response. A worker that writes
/// goes on as the response said if the write went well, and closes if
/// not. A request to stop closes every worker. Anything else is out of
/// turn and closes the worker.
pub open spec fn step_spec(state: StateView, event: EventView) -> (StateView, ActionView) {
    match (state, event) {
        (StateView::Closed, _) => (StateView::Closed, ActionView::Stop),
        (_, EventView::ShutDown) => (StateView::Closed, ActionView::Stop),
        (StateView::Reading, EventView::Read(frame)) => on_read(false, frame),
        (StateView::Suspect, EventView::Read(frame)) => on_read(true, frame),
        (StateView::Dispatching(id, question), EventView::Answers(answers)) => (
            StateView::Responding(false, false),
            ActionView::Write(frame_wire(response_view(id, question, answers))),
        ),
        (StateView::Responding(suspect, close), EventView::Written(ok)) => if !ok || close {
            (StateView::Closed, ActionView::Stop)
        } else if suspect {
            (StateView::Suspect, ActionView::Read)
        } else {
            (StateView::Reading, ActionView::Read)
        },
        _ => (StateView::Closed, ActionView::Stop),
    }
}

/// A message that the worker refuses: one that does not parse, the end
/// of the stream apart, or one that is no query with a question.
pub open spec fn refused(frame: Seq<u8>) -> bool {
    match parse_frame(frame) {
        Err((_, rcode)) => rcode != Rcode::ServFail,
        Ok(p) => !p.header.is_query || p.questions.len() == 0,
    }
}

/// A worker that is done stays done, whatever happens.
pub proof fn lemma_closed_stays_closed(event: EventView)
    ensures
        step_spec(StateView::Closed, event) == (StateView::Closed, ActionView::Stop),
{
}

/// A write that fails closes the worker, whatever it was about to do.
pub proof fn lemma_failed_write_closes(suspect: bool, close: bool)
    ensures
        step_spec(StateView::Responding(suspect, close), EventView::Written(false)) == (
            StateView::Closed,
            ActionView::Stop,
        ),
{
}

/// A worker handles one query to its end before it reads the next: while
/// it waits for an answer it does nothing but write the response or stop,
/// and while it writes it does nothing but go back to reading or stop.
/// So the responses of a connection leave in the order in which its
/// queries came.
pub proof fn lemma_one_query_at_a_time(state: StateView, event: EventView)
    ensures
        state is Dispatching ==> step_spec(state, event).1 is Write || step_spec(state, event).1
            is Stop,
        state is Responding ==> step_spec(state, event).1 is Read || step_spec(state, event).1
            is Stop,
        step_spec(state, event).1 is Dispatch ==> state is Reading || state is Suspect,
{
}

/// The first message that is refused leaves the connection open and the
/// client suspect; the next one that is refused closes the connection.
/// Both are answered with a failure first.
pub proof fn lemma_second_refusal_closes(first: Seq<u8>, second: Seq<u8>)
    requires
        refused(first),
        refused(second),
    ensures
        ({
            let (s1, a1) = step_spec(StateView::Reading, EventView::Read(first));
            let (s2, a2) = step_spec(s1, EventView::Written(true));
            let (s3, a3) = step_spec(s2, EventView::Read(second));
            let (s4, a4) = step_spec(s3, EventView::Written(true));
            &&& a1 is Write
            &&& s2 == StateView::Suspect
            &&& a2 == ActionView::Read
            &&& a3 is Write
            &&& s4 == StateView::Closed
            &&& a4 == ActionView::Stop
        }),
{
}

/// A query that is answered puts the client in good standing, suspect or
/// not.
pub proof fn lemma_query_forgives(suspect: bool, frame: Seq<u8>, answers: Seq<AnswerView>)
    requires
        !refused(frame),
        parse_frame(frame) is Ok,
    ensures
        ({
            let start = if suspect {
                StateView::Suspect
            } else {
                StateView::Reading
            };
            let (s1, a1) = step_spec(start, EventView::Read(frame));
            let (s2, a2) = step_spec(s1, EventView::Answers(answers));
            let (s3, a3) = step_spec(s2, EventView::Written(true));
            &&& a1 is Dispatch
            &&& a2 is Write
            &&& s3 == StateView::Reading
            &&& a3 == ActionView::Read
        }),
{
}

impl State {
    /// Where a worker starts.
    pub fn new() -> (r: Self)
        ensures
            r@ == StateView::Reading,
    {
        State::Reading
    }

    /// Whether the worker is done.
    pub fn is_closed(&self) -> (r: bool)
        ensures
            r == (self@ == StateView::Closed),
    {
        match self {
            State::Closed => true,
            _ => false,
        }
    }

    /// What the worker tells the pool when it has come to stand here: that
    /// it is done, or that it lives.
    pub fn notice(&self) -> (r: Notice)
        ensures
            r == (if self@ == StateView::Closed {
                Notice::ShutDown
            } else {
                Notice::Update
            }),
    {
        match self {
            State::Closed => Notice::ShutDown,
            _ => Notice::Update,
        }
    }

    /// One step of the worker.
    pub fn step(self, event: Event) -> (r: (State, Action))
        ensures
            (r.0@, r.1@) == step_spec(self@, event@),
    {
        match (self, event) {
            (State::Closed, _) => (State::Closed, Action::Stop),
            (_, Event::ShutDown) => (State::Closed, Action::Stop),
            (State::Reading, Event::Read(frame)) => read_step(false, frame),
            (State::Suspect, Event::Read(frame)) => read_step(true, frame),
            (State::Dispatching(id, question), Event::Answers(answers)) => {
                let packet = respond(id, question, answers);
                (State::Responding(false, false), Action::Write(packet.into_frame()))
            },
            (State::Responding(suspect, close), Event::Written(ok)) => {
                if !ok || close {
                    (State::Closed, Action::Stop)
                } else if suspect {
                    (State::Suspect, Action::Read)
                } else {
                    (State::Reading, Action::Read)
                }
            },
            _ => (State::Closed, Action::Stop),
        }
    }
}

/// The step of a worker that reads.
fn read_step(suspect: bool, frame: Bytes) -> (r: (State, Action))
    ensures
        (r.0@, r.1@) == on_read(suspect, bytes_seq(frame)),
{
    match Packet::parse_stream(frame) {
        Err(err) => {
            match err.error {
                PacketError::ServFail => (State::Closed, Action::Stop),
                _ => {
                    let bytes = failure(err).into_frame();
                    (State::Responding(true, suspect), Action::Write(bytes))
                },
            }
        },
        Ok(packet) => {
            let id = packet.get_id();
            if !packet.is_query() || packet.questions.len() == 0 {
                let fail = TransactionError { id: Some(id), error: PacketError::FormatError };
                let bytes = failure(fail).into_frame();
                (State::Responding(true, suspect), Action::Write(bytes))
            } else {
                let question = packet.questions[0].clone();
                (State::Dispatching(id, question.clone()), Action::Dispatch(question))
            }
        },
    }
}

} // verus!
