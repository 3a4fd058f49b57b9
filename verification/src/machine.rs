//! The dispatch state machine: what a line does to a call in flight.

use crate::classify::{classify, kind_of, payload_of, Classified, LineKind};
use vstd::prelude::*;
use vstd::string::*;

verus! {

/// Where a call stands. A synchronous call is over when it leaves
/// `AwaitingAcceptance`; an asynchronous call goes on to `AwaitingCompletion`
/// when the server accepts it.
#[derive(Clone, Copy, Debug, PartialEq, Eq, Structural)]
pub enum DispatchState {
    AwaitingAcceptance,
    AwaitingCompletion,
    Done,
}

/// What a line means to a call, whatever its payload.
#[derive(Clone, Copy, Debug, PartialEq, Eq, Structural)]
pub enum EventKind {
    /// The line has no meaning in this state: read on.
    Skipped,
    /// `OK` while awaiting acceptance.
    Accepted,
    /// `ERROR` while awaiting acceptance.
    Rejected,
    /// `NOTE` while awaiting completion.
    Noted,
    /// `FINISHED` while awaiting completion.
    Finished,
    /// `FAILED` while awaiting completion.
    Failed,
}

/// What a line means to a call, with the payload that is to be decoded.
#[derive(Clone, Debug, PartialEq, Eq)]
pub enum Event {
    Skipped,
    Accepted(String),
    Rejected(String),
    Noted(String),
    Finished(String),
    Failed(String),
}

/// The event that a line of the given kind is in the given state. A line
/// that the state does not wait for is skipped, as an unrecognized line is.
pub open spec fn event_kind_of(state: DispatchState, kind: LineKind) -> EventKind {
    match (state, kind) {
        (DispatchState::AwaitingAcceptance, LineKind::Okay) => EventKind::Accepted,
        (DispatchState::AwaitingAcceptance, LineKind::Error) => EventKind::Rejected,
        (DispatchState::AwaitingCompletion, LineKind::Note) => EventKind::Noted,
        (DispatchState::AwaitingCompletion, LineKind::Finished) => EventKind::Finished,
        (DispatchState::AwaitingCompletion, LineKind::Failed) => EventKind::Failed,
        _ => EventKind::Skipped,
    }
}

/// The state after an event.
pub open spec fn next_state(state: DispatchState, event: EventKind) -> DispatchState {
    match event {
        EventKind::Skipped => state,
        EventKind::Noted => state,
        EventKind::Accepted => DispatchState::AwaitingCompletion,
        EventKind::Rejected => DispatchState::Done,
        EventKind::Finished => DispatchState::Done,
        EventKind::Failed => DispatchState::Done,
    }
}

/// The event that `line` is in `state`.
pub open spec fn event_at(state: DispatchState, line: Seq<char>) -> EventKind {
    event_kind_of(state, kind_of(line))
}

/// Whether `line` ends the phase that `state` stands for.
pub open spec fn turns(state: DispatchState, line: Seq<char>) -> bool {
    next_state(state, event_at(state, line)) != state
}

/// The index of the first of `lines` that ends the phase of `state`.
pub open spec fn first_turn(state: DispatchState, lines: Seq<Seq<char>>) -> Option<int>
    decreases lines.len(),
{
    if lines.len() == 0 {
        None
    } else if turns(state, lines.first()) {
        Some(0)
    } else {
        match first_turn(state, lines.drop_first()) {
            Some(i) => Some(i + 1),
            None => None,
        }
    }
}

/// The payloads of the `NOTE` lines among `lines`, in order.
pub open spec fn notes_in(lines: Seq<Seq<char>>) -> Seq<Seq<char>>
    decreases lines.len(),
{
    if lines.len() == 0 {
        Seq::empty()
    } else if kind_of(lines.last()) == LineKind::Note {
        notes_in(lines.drop_last()).push(payload_of(lines.last()))
    } else {
        notes_in(lines.drop_last())
    }
}

impl Event {
    /// The kind of this event.
    pub open spec fn kind(&self) -> EventKind {
        match self {
            Event::Skipped => EventKind::Skipped,
            Event::Accepted(_) => EventKind::Accepted,
            Event::Rejected(_) => EventKind::Rejected,
            Event::Noted(_) => EventKind::Noted,
            Event::Finished(_) => EventKind::Finished,
            Event::Failed(_) => EventKind::Failed,
        }
    }

    /// The payload of this event; empty for `Skipped`.
    pub open spec fn payload(&self) -> Seq<char> {
        match self {
            Event::Skipped => Seq::empty(),
            Event::Accepted(s) => s@,
            Event::Rejected(s) => s@,
            Event::Noted(s) => s@,
            Event::Finished(s) => s@,
            Event::Failed(s) => s@,
        }
    }
}

/// One transition: the state after `line` has arrived in `state`, and the
/// event that the line is. From `Done` nothing leads away.
pub fn step(state: DispatchState, line: &str) -> (r: (DispatchState, Event))
    ensures
        r.1.kind() == event_at(state, line@),
        r.0 == next_state(state, r.1.kind()),
        r.1.kind() != EventKind::Skipped ==> r.1.payload() == payload_of(line@),
{
    match state {
        DispatchState::AwaitingAcceptance => match classify(line) {
            Classified::Okay(payload) => (DispatchState::AwaitingCompletion, Event::Accepted(payload)),
            Classified::Error(payload) => (DispatchState::Done, Event::Rejected(payload)),
            _ => (state, Event::Skipped),
        },
        DispatchState::AwaitingCompletion => match classify(line) {
            Classified::Note(payload) => (state, Event::Noted(payload)),
            Classified::Finished(payload) => (DispatchState::Done, Event::Finished(payload)),
            Classified::Failed(payload) => (DispatchState::Done, Event::Failed(payload)),
            _ => (state, Event::Skipped),
        },
        DispatchState::Done => (state, Event::Skipped),
    }
}

/// Where no line ends the phase, there is no first such line.
pub proof fn lemma_no_turn(state: DispatchState, lines: Seq<Seq<char>>)
    requires
        forall|j: int| 0 <= j < lines.len() ==> !turns(state, #[trigger] lines[j]),
    ensures
        first_turn(state, lines) is None,
    decreases lines.len(),
{
    if lines.len() > 0 {
        let rest = lines.drop_first();
        assert forall|j: int| 0 <= j < rest.len() implies !turns(state, #[trigger] rest[j]) by {
            assert(rest[j] == lines[j + 1]);
        }
        assert(!turns(state, lines[0]));
        lemma_no_turn(state, rest);
    }
}

/// The first line that ends the phase is the one before which none does.
pub proof fn lemma_first_turn(state: DispatchState, lines: Seq<Seq<char>>, k: int)
    requires
        0 <= k < lines.len(),
        forall|j: int| 0 <= j < k ==> !turns(state, #[trigger] lines[j]),
        turns(state, lines[k]),
    ensures
        first_turn(state, lines) == Some(k),
    decreases k,
{
    if k > 0 {
        let rest = lines.drop_first();
        assert forall|j: int| 0 <= j < k - 1 implies !turns(state, #[trigger] rest[j]) by {
            assert(rest[j] == lines[j + 1]);
        }
        assert(rest[k - 1] == lines[k]);
        assert(!turns(state, lines[0]));
        lemma_first_turn(state, rest, k - 1);
    }
}

/// What `first_turn` finds ends the phase, and nothing before it does.
pub proof fn lemma_first_turn_is_first(state: DispatchState, lines: Seq<Seq<char>>)
    ensures
        match first_turn(state, lines) {
            Some(k) => 0 <= k < lines.len() && turns(state, lines[k]) && forall|j: int|
                0 <= j < k ==> !turns(state, #[trigger] lines[j]),
            None => forall|j: int| 0 <= j < lines.len() ==> !turns(state, #[trigger] lines[j]),
        },
    decreases lines.len(),
{
    if lines.len() > 0 && !turns(state, lines.first()) {
        let rest = lines.drop_first();
        lemma_first_turn_is_first(state, rest);
        match first_turn(state, rest) {
            Some(i) => {
                assert(rest[i] == lines[i + 1]);
                assert forall|j: int| 0 <= j < i + 1 implies !turns(state, #[trigger] lines[j]) by {
                    if j > 0 {
                        assert(lines[j] == rest[j - 1]);
                    }
                }
            },
            None => {
                assert forall|j: int| 0 <= j < lines.len() implies !turns(
                    state,
                    #[trigger] lines[j],
                ) by {
                    if j > 0 {
                        assert(lines[j] == rest[j - 1]);
                    }
                }
            },
        }
    }
}

/// A line that the classifier does not recognize ends no phase.
pub proof fn lemma_unrecognized_turns_nothing(state: DispatchState, line: Seq<char>)
    requires
        kind_of(line) == LineKind::Unrecognized,
    ensures
        !turns(state, line),
        event_at(state, line) == EventKind::Skipped,
{
}

/// A line that ends no phase, put in before the first line that does, moves
/// that line one further and changes nothing else; put in after it, it
/// changes nothing; and where no line ends the phase, none does afterwards.
pub proof fn lemma_first_turn_insert(
    state: DispatchState,
    lines: Seq<Seq<char>>,
    i: int,
    junk: Seq<char>,
)
    requires
        0 <= i <= lines.len(),
        !turns(state, junk),
    ensures
        first_turn(state, lines.insert(i, junk)) == match first_turn(state, lines) {
            Some(k) => if i <= k {
                Some(k + 1)
            } else {
                Some(k)
            },
            None => None,
        },
{
    let inserted = lines.insert(i, junk);
    lemma_first_turn_is_first(state, lines);
    match first_turn(state, lines) {
        Some(k) => {
            if i <= k {
                assert(inserted[k + 1] == lines[k]);
                assert forall|j: int| 0 <= j < k + 1 implies !turns(state, #[trigger] inserted[j]) by {
                    if j < i {
                        assert(inserted[j] == lines[j]);
                    } else if j == i {
                        assert(inserted[j] == junk);
                    } else {
                        assert(inserted[j] == lines[j - 1]);
                    }
                }
                lemma_first_turn(state, inserted, k + 1);
            } else {
                assert(inserted[k] == lines[k]);
                assert forall|j: int| 0 <= j < k implies !turns(state, #[trigger] inserted[j]) by {
                    assert(inserted[j] == lines[j]);
                }
                lemma_first_turn(state, inserted, k);
            }
        },
        None => {
            assert forall|j: int| 0 <= j < inserted.len() implies !turns(
                state,
                #[trigger] inserted[j],
            ) by {
                if j < i {
                    assert(inserted[j] == lines[j]);
                } else if j == i {
                    assert(inserted[j] == junk);
                } else {
                    assert(inserted[j] == lines[j - 1]);
                }
            }
            lemma_no_turn(state, inserted);
        },
    }
}

/// A line that is no `NOTE`, put in anywhere, leaves the notes as they are.
pub proof fn lemma_notes_insert(lines: Seq<Seq<char>>, i: int, junk: Seq<char>)
    requires
        0 <= i <= lines.len(),
        kind_of(junk) != LineKind::Note,
    ensures
        notes_in(lines.insert(i, junk)) == notes_in(lines),
    decreases lines.len(),
{
    let inserted = lines.insert(i, junk);
    if i == lines.len() {
        assert(inserted.drop_last() =~= lines);
        assert(inserted.last() == junk);
    } else {
        assert(inserted.last() == lines.last());
        assert(inserted.drop_last() =~= lines.drop_last().insert(i, junk));
        lemma_notes_insert(lines.drop_last(), i, junk);
    }
}

} // verus!
