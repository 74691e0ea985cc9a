//! The protocol of a session with the printer, without the transport.
//!
//! The printer answers a status query with a fixed number of lines and
//! nothing that frames them: what tells one reply from the next is only the
//! order in which the queries were sent and the number of lines that each one
//! is owed. A [`Session`] keeps that account. The caller owns the connection,
//! reports what happens on it as an [`Event`], and does what the returned
//! [`Action`] asks.

use crate::command::ZplCommand;
use crate::label::{expected_replies, line_counts, Label};
use std::collections::VecDeque;
use vstd::prelude::*;

verus! {

/// Where a session stands.
#[derive(Clone, Copy, Debug, PartialEq, Eq, Structural)]
pub enum Phase {
    /// No connection. A session starts here and ends here.
    Disconnected,
    /// The connection stands and nothing was sent on it yet.
    Connected,
    /// A job is being written to the printer.
    Sending,
    /// The job is written, and the printer still owes reply lines.
    AwaitingReplies,
    /// The job is written and answered. The connection can take another job.
    Idle,
}

/// What happened on the connection, or what the caller wants of it.
#[derive(Debug)]
pub enum Event {
    /// The connection to the printer was made.
    Connected,
    /// The caller hands over a job to send.
    Submit(Label),
    /// The whole text of the job was written.
    Sent,
    /// These bytes were read from the printer.
    Received(Vec<u8>),
    /// The printer closed its side: a read returned no bytes.
    Closed,
    /// The transport reported an error, on either side.
    Failed,
}

/// What the caller is to do after an event.
#[derive(Debug, PartialEq, Eq)]
pub enum Action {
    /// Nothing new: go on reading and writing.
    Wait,
    /// Write this text to the printer, whole and in order, and report `Sent`
    /// when it is written.
    Send(String),
    /// The job is written and every reply line is in: the session is idle.
    Done,
    /// The printer closed the connection in the given phase, while so many
    /// queries were still unanswered. This is how a session normally ends,
    /// and no error; with unanswered queries the job's replies are cut short.
    Closed { during: Phase, unanswered: usize },
    /// The transport failed in the given phase. Nothing is sent again: in
    /// `Connected` none of the job was sent, in `Sending` some of it may
    /// have been, in the later phases all of it.
    Failed { during: Phase },
    /// The event does not belong to the phase. The session has not changed.
    Refused,
}

/// An action as contracts see it: the text to send as a sequence of
/// characters.
pub enum ActionView {
    Wait,
    Send(Seq<char>),
    Done,
    Closed { during: Phase, unanswered: nat },
    Failed { during: Phase },
    Refused,
}

impl View for Action {
    type V = ActionView;

    open spec fn view(&self) -> ActionView {
        match *self {
            Action::Wait => ActionView::Wait,
            Action::Send(payload) => ActionView::Send(payload@),
            Action::Done => ActionView::Done,
            Action::Closed { during, unanswered } => ActionView::Closed {
                during,
                unanswered: unanswered as nat,
            },
            Action::Failed { during } => ActionView::Failed { during },
            Action::Refused => ActionView::Refused,
        }
    }
}

/// The byte that ends a line of the printer's replies: a line feed.
pub open spec fn is_line_end(byte: u8) -> bool {
    byte == 0x0a
}

/// How many lines end in `bytes`.
pub open spec fn line_count(bytes: Seq<u8>) -> nat {
    bytes.filter(|byte: u8| is_line_end(byte)).len()
}

/// The sum of the line counts in `pending`.
pub open spec fn total_lines(pending: Seq<nat>) -> nat
    decreases pending.len(),
{
    if pending.len() == 0 {
        0
    } else {
        pending[0] + total_lines(pending.drop_first())
    }
}

/// What is still owed after `lines` more lines have come in. The lines go to
/// the oldest query first; a query that has all its lines leaves the queue.
/// Lines beyond what is owed are dropped.
pub open spec fn drain(pending: Seq<nat>, lines: nat) -> Seq<nat>
    decreases pending.len(),
{
    if pending.len() == 0 || lines == 0 {
        pending
    } else if lines < pending[0] {
        pending.update(0, (pending[0] - lines) as nat)
    } else {
        drain(pending.drop_first(), (lines - pending[0]) as nat)
    }
}

/// A session as contracts see it: its phase, and for each query that is not
/// fully answered, oldest first, the number of lines that are still to come.
pub struct SessionView {
    pub phase: Phase,
    pub pending: Seq<nat>,
}

impl SessionView {
    /// What holds of every session: each query in the queue is owed at least
    /// one line; a session that awaits replies is owed some; and a session
    /// that is disconnected, connected or idle is owed none.
    pub open spec fn wf(self) -> bool {
        &&& forall|i: int| 0 <= i < self.pending.len() ==> self.pending[i] > 0
        &&& self.phase is AwaitingReplies ==> self.pending.len() > 0
        &&& (self.phase is Disconnected || self.phase is Connected || self.phase is Idle)
            ==> self.pending.len() == 0
    }

    /// The number of reply lines that the printer still owes.
    pub open spec fn outstanding(self) -> nat {
        total_lines(self.pending)
    }

    /// A session in the given phase that is owed nothing.
    pub open spec fn settled(phase: Phase) -> SessionView {
        SessionView { phase, pending: Seq::empty() }
    }

    /// The session after an event, and the action that answers the event.
    pub open spec fn step(self, event: Event) -> (SessionView, ActionView) {
        match event {
            Event::Connected => if self.phase is Disconnected {
                (Self::settled(Phase::Connected), ActionView::Wait)
            } else {
                (self, ActionView::Refused)
            },
            Event::Submit(label) => if self.phase is Connected || self.phase is Idle {
                (
                    SessionView {
                        phase: Phase::Sending,
                        pending: expected_replies(label.commands@),
                    },
                    ActionView::Send(label.text()),
                )
            } else {
                (self, ActionView::Refused)
            },
            Event::Sent => if self.phase is Sending {
                if self.pending.len() == 0 {
                    (Self::settled(Phase::Idle), ActionView::Done)
                } else {
                    (SessionView { phase: Phase::AwaitingReplies, ..self }, ActionView::Wait)
                }
            } else {
                (self, ActionView::Refused)
            },
            Event::Received(bytes) => {
                let left = drain(self.pending, line_count(bytes@));
                if self.phase is Sending {
                    (SessionView { pending: left, ..self }, ActionView::Wait)
                } else if self.phase is AwaitingReplies {
                    if left.len() == 0 {
                        (Self::settled(Phase::Idle), ActionView::Done)
                    } else {
                        (SessionView { pending: left, ..self }, ActionView::Wait)
                    }
                } else if self.phase is Disconnected {
                    (self, ActionView::Refused)
                } else {
                    (self, ActionView::Wait)
                }
            },
            Event::Closed => if self.phase is Disconnected {
                (self, ActionView::Refused)
            } else {
                (
                    Self::settled(Phase::Disconnected),
                    ActionView::Closed { during: self.phase, unanswered: self.pending.len() },
                )
            },
            Event::Failed => if self.phase is Disconnected {
                (self, ActionView::Refused)
            } else {
                (Self::settled(Phase::Disconnected), ActionView::Failed { during: self.phase })
            },
        }
    }
}

/// The phase of a session, with the queue of the phases that have one: for
/// each query that is not fully answered, oldest first, the number of lines
/// that are still to come.
enum State {
    Disconnected,
    Connected,
    Sending(VecDeque<u32>),
    AwaitingReplies(VecDeque<u32>),
    Idle,
}

impl State {
    spec fn model(self) -> SessionView {
        match self {
            State::Disconnected => SessionView::settled(Phase::Disconnected),
            State::Connected => SessionView::settled(Phase::Connected),
            State::Sending(queue) => SessionView {
                phase: Phase::Sending,
                pending: line_counts(queue@),
            },
            State::AwaitingReplies(queue) => SessionView {
                phase: Phase::AwaitingReplies,
                pending: line_counts(queue@),
            },
            State::Idle => SessionView::settled(Phase::Idle),
        }
    }
}

/// The account of one session with the printer.
pub struct Session {
    state: State,
}

impl View for Session {
    type V = SessionView;

    closed spec fn view(&self) -> SessionView {
        self.state.model()
    }
}

impl Session {
    #[verifier::type_invariant]
    spec fn well_formed(&self) -> bool {
        self@.wf()
    }

    /// A session without a connection.
    pub fn new() -> (session: Session)
        ensures
            session@ == SessionView::settled(Phase::Disconnected),
            session@.wf(),
    {
        Session { state: State::Disconnected }
    }

    /// The phase in which the session stands.
    pub fn phase(&self) -> (phase: Phase)
        ensures
            phase == self@.phase,
    {
        match &self.state {
            State::Disconnected => Phase::Disconnected,
            State::Connected => Phase::Connected,
            State::Sending(_) => Phase::Sending,
            State::AwaitingReplies(_) => Phase::AwaitingReplies,
            State::Idle => Phase::Idle,
        }
    }

    /// How many queries are not fully answered.
    pub fn unanswered(&self) -> (count: usize)
        ensures
            count == self@.pending.len(),
    {
        match &self.state {
            State::Sending(queue) => queue.len(),
            State::AwaitingReplies(queue) => queue.len(),
            _ => 0,
        }
    }

    /// Takes an event, moves the session on, and says what the caller is to
    /// do next.
    ///
    /// A job is taken on a connection that is fresh or idle. Its text is
    /// handed out to be written, and the reply lines that its queries are
    /// owed are queued in the order of the queries. Bytes that come in are
    /// counted by the lines that end in them and taken off the queue from the
    /// front, while the job is written and after. The session is idle once
    /// the job is written and the queue is empty. When the printer closes
    /// the connection or the transport fails, the session is disconnected
    /// and the action says in which phase that struck.
    pub fn step(&mut self, event: Event) -> (action: Action)
        ensures
            (final(self)@, action@) == old(self)@.step(event),
            final(self)@.wf(),
    {
        proof {
            use_type_invariant(&*self);
            lemma_step_keeps_wf(self@, event);
        }
        let mut state = State::Disconnected;
        core::mem::swap(&mut self.state, &mut state);
        let (next, action) = match event {
            Event::Connected => match state {
                State::Disconnected => (State::Connected, Action::Wait),
                other => (other, Action::Refused),
            },
            Event::Submit(label) => match state {
                State::Connected => (State::Sending(label.expected_replies()), Action::Send(
                    label.assemble(),
                )),
                State::Idle => (State::Sending(label.expected_replies()), Action::Send(
                    label.assemble(),
                )),
                other => (other, Action::Refused),
            },
            Event::Sent => match state {
                State::Sending(queue) => if queue.len() == 0 {
                    (State::Idle, Action::Done)
                } else {
                    (State::AwaitingReplies(queue), Action::Wait)
                },
                other => (other, Action::Refused),
            },
            Event::Received(bytes) => match state {
                State::Disconnected => (State::Disconnected, Action::Refused),
                State::Sending(mut queue) => {
                    drain_queue(&mut queue, count_lines(bytes.as_slice()));
                    (State::Sending(queue), Action::Wait)
                },
                State::AwaitingReplies(mut queue) => {
                    drain_queue(&mut queue, count_lines(bytes.as_slice()));
                    if queue.len() == 0 {
                        (State::Idle, Action::Done)
                    } else {
                        (State::AwaitingReplies(queue), Action::Wait)
                    }
                },
                other => (other, Action::Wait),
            },
            Event::Closed => match state {
                State::Disconnected => (State::Disconnected, Action::Refused),
                State::Connected => (
                    State::Disconnected,
                    Action::Closed { during: Phase::Connected, unanswered: 0 },
                ),
                State::Sending(queue) => (
                    State::Disconnected,
                    Action::Closed { during: Phase::Sending, unanswered: queue.len() },
                ),
                State::AwaitingReplies(queue) => (
                    State::Disconnected,
                    Action::Closed { during: Phase::AwaitingReplies, unanswered: queue.len() },
                ),
                State::Idle => (
                    State::Disconnected,
                    Action::Closed { during: Phase::Idle, unanswered: 0 },
                ),
            },
            Event::Failed => match state {
                State::Disconnected => (State::Disconnected, Action::Refused),
                State::Connected => (
                    State::Disconnected,
                    Action::Failed { during: Phase::Connected },
                ),
                State::Sending(_) => (State::Disconnected, Action::Failed { during: Phase::Sending }),
                State::AwaitingReplies(_) => (
                    State::Disconnected,
                    Action::Failed { during: Phase::AwaitingReplies },
                ),
                State::Idle => (State::Disconnected, Action::Failed { during: Phase::Idle }),
            },
        };
        self.state = next;
        action
    }
}

/// How many lines end in `bytes`.
pub fn count_lines(bytes: &[u8]) -> (lines: usize)
    ensures
        lines == line_count(bytes@),
{
    let mut lines: usize = 0;
    let mut next: usize = 0;
    proof {
        reveal(Seq::filter);
    }
    while next < bytes.len()
        invariant
            next <= bytes.len(),
            lines <= next,
            lines == line_count(bytes@.take(next as int)),
        decreases bytes.len() - next,
    {
        proof {
            bytes@.take(next as int).lemma_filter_push(
                bytes@[next as int],
                |byte: u8| is_line_end(byte),
            );
            assert(bytes@.take(next as int).push(bytes@[next as int]) =~= bytes@.take(next + 1));
        }
        if bytes[next] == 0x0a {
            lines = lines + 1;
        }
        next = next + 1;
    }
    assert(bytes@.take(next as int) =~= bytes@);
    lines
}

/// Takes `lines` lines off the queue, from the front.
fn drain_queue(queue: &mut VecDeque<u32>, lines: usize)
    ensures
        line_counts(final(queue)@) == drain(line_counts(old(queue)@), lines as nat),
{
    let mut left: usize = lines;
    while left > 0
        invariant
            drain(line_counts(queue@), left as nat) == drain(
                line_counts(old(queue)@),
                lines as nat,
            ),
        decreases left, queue@.len(),
    {
        let ghost before = queue@;
        match queue.pop_front() {
            None => {
                left = 0;
            },
            Some(head) => {
                assert(line_counts(queue@) =~= line_counts(before).drop_first());
                if (left as u64) < (head as u64) {
                    queue.push_front(head - left as u32);
                    assert(line_counts(queue@) =~= line_counts(before).update(
                        0,
                        (head - left) as nat,
                    ));
                    left = 0;
                } else {
                    left = left - head as usize;
                }
            },
        }
    }
}

/// Every step keeps a session well formed.
pub proof fn lemma_step_keeps_wf(session: SessionView, event: Event)
    requires
        session.wf(),
    ensures
        session.step(event).0.wf(),
{
    match event {
        Event::Submit(label) => {
            lemma_expected_replies_positive(label.commands@);
        },
        Event::Received(bytes) => {
            lemma_drain_keeps_order(session.pending, line_count(bytes@));
        },
        _ => {},
    }
}

/// Each query that a job is owed replies for is owed a line or more.
pub proof fn lemma_expected_replies_positive(commands: Seq<ZplCommand>)
    ensures
        forall|i: int|
            0 <= i < expected_replies(commands).len() ==> #[trigger] expected_replies(commands)[i]
                > 0,
{
    let counts = commands.map_values(|command: ZplCommand| command.reply_lines());
    let owed = |lines: nat| lines > 0;
    assert forall|i: int| 0 <= i < counts.filter(owed).len() implies #[trigger] counts.filter(
        owed,
    )[i] > 0 by {
        counts.lemma_filter_pred(owed, i);
    }
}

/// A session that awaits replies becomes idle with the bytes in which the
/// last line that it is owed ends, and not before: until then it goes on
/// awaiting, owed as many lines less as have come in.
pub proof fn lemma_idle_when_answered(session: SessionView, bytes: Vec<u8>)
    requires
        session.wf(),
        session.phase is AwaitingReplies,
    ensures
        session.outstanding() > 0,
        line_count(bytes@) >= session.outstanding() ==> session.step(Event::Received(bytes)) == (
            SessionView::settled(Phase::Idle),
            ActionView::Done,
        ),
        line_count(bytes@) < session.outstanding() ==> {
            let (next, action) = session.step(Event::Received(bytes));
            &&& next.phase is AwaitingReplies
            &&& next.outstanding() == session.outstanding() - line_count(bytes@)
            &&& action is Wait
        },
{
    let left = drain(session.pending, line_count(bytes@));
    lemma_total_zero(session.pending);
    lemma_drain_total(session.pending, line_count(bytes@));
    lemma_drain_keeps_order(session.pending, line_count(bytes@));
    lemma_total_zero(left);
}

/// Completion and closure are told apart. `Done` answers only the event
/// with which a job in progress is written and fully answered, and a session
/// becomes idle in no other way. When the printer closes the connection the
/// answer is `Closed`, never `Done`, with the number of queries that were
/// left unanswered; that number is zero exactly when no line was owed.
pub proof fn lemma_done_or_closed(session: SessionView, event: Event)
    requires
        session.wf(),
    ensures
        session.step(event).1 is Done <==> session.step(event).0.phase is Idle
            && !(session.phase is Idle),
        session.step(event).1 is Done ==> (session.phase is Sending
            || session.phase is AwaitingReplies) && session.step(event).0.outstanding() == 0,
        event is Closed && !(session.phase is Disconnected) ==> session.step(event) == (
            SessionView::settled(Phase::Disconnected),
            ActionView::Closed { during: session.phase, unanswered: session.pending.len() },
        ),
        session.pending.len() == 0 <==> session.outstanding() == 0,
{
    lemma_total_zero(session.pending);
    match event {
        Event::Received(bytes) => {
            lemma_drain_keeps_order(session.pending, line_count(bytes@));
        },
        _ => {},
    }
}

/// How the printer's bytes are cut into reads does not matter: a session
/// that takes them in two parts ends where it ends when it takes them in one.
pub proof fn lemma_received_in_parts(
    session: SessionView,
    first: Vec<u8>,
    second: Vec<u8>,
    whole: Vec<u8>,
)
    requires
        session.wf(),
        whole@ == first@ + second@,
    ensures
        session.step(Event::Received(first)).0.step(Event::Received(second)).0 == session.step(
            Event::Received(whole),
        ).0,
{
    lemma_line_count_concat(first@, second@);
    lemma_drain_in_parts(session.pending, line_count(first@), line_count(second@));
}

/// Draining takes lines off the total, down to nothing.
pub proof fn lemma_drain_total(pending: Seq<nat>, lines: nat)
    ensures
        total_lines(drain(pending, lines)) == if lines >= total_lines(pending) {
            0
        } else {
            total_lines(pending) - lines
        },
    decreases pending.len(),
{
    if pending.len() == 0 || lines == 0 {
    } else if lines < pending[0] {
        let left = pending.update(0, (pending[0] - lines) as nat);
        assert(left.drop_first() =~= pending.drop_first());
    } else {
        lemma_drain_total(pending.drop_first(), (lines - pending[0]) as nat);
    }
}

/// Where each query is owed a line or more, the queue is empty exactly when
/// nothing is owed in total.
pub proof fn lemma_total_zero(pending: Seq<nat>)
    requires
        forall|i: int| 0 <= i < pending.len() ==> pending[i] > 0,
    ensures
        total_lines(pending) == 0 <==> pending.len() == 0,
{
}

/// Draining leaves what is left of the queue as it was: the queries that
/// remain are the youngest, in their order, and only the oldest of them can
/// have lost lines. So each query that remains is still owed a line or more.
pub proof fn lemma_drain_keeps_order(pending: Seq<nat>, lines: nat)
    requires
        forall|i: int| 0 <= i < pending.len() ==> pending[i] > 0,
    ensures
        drain(pending, lines).len() <= pending.len(),
        forall|i: int|
            0 <= i < drain(pending, lines).len() ==> 0 < #[trigger] drain(pending, lines)[i]
                <= pending[pending.len() - drain(pending, lines).len() + i],
        forall|i: int|
            1 <= i < drain(pending, lines).len() ==> #[trigger] drain(pending, lines)[i]
                == pending[pending.len() - drain(pending, lines).len() + i],
    decreases pending.len(),
{
    if pending.len() == 0 || lines == 0 {
    } else if lines < pending[0] {
    } else {
        let rest = pending.drop_first();
        lemma_drain_keeps_order(rest, (lines - pending[0]) as nat);
        let left = drain(pending, lines);
        assert forall|i: int| 0 <= i < left.len() implies 0 < #[trigger] left[i] <= pending[pending.len()
            - left.len() + i] by {}
        assert forall|i: int| 1 <= i < left.len() implies #[trigger] left[i] == pending[pending.len()
            - left.len() + i] by {}
    }
}

/// Lines that come in two parts drain the queue as they would in one.
pub proof fn lemma_drain_in_parts(pending: Seq<nat>, first: nat, second: nat)
    ensures
        drain(drain(pending, first), second) == drain(pending, first + second),
    decreases pending.len(),
{
    if pending.len() == 0 || first == 0 {
    } else if first < pending[0] {
        let left = pending.update(0, (pending[0] - first) as nat);
        assert(left.drop_first() =~= pending.drop_first());
        if second == 0 {
        } else if second < left[0] {
            assert(left.update(0, (left[0] - second) as nat) =~= pending.update(
                0,
                (pending[0] - (first + second)) as nat,
            ));
        } else {
        }
    } else {
        lemma_drain_in_parts(pending.drop_first(), (first - pending[0]) as nat, second);
    }
}

/// The lines that end in two runs of bytes, one after the other, are those
/// of the first and those of the second.
pub proof fn lemma_line_count_concat(first: Seq<u8>, second: Seq<u8>)
    ensures
        line_count(first + second) == line_count(first) + line_count(second),
{
    Seq::filter_distributes_over_add(first, second, |byte: u8| is_line_end(byte));
}

} // verus!
