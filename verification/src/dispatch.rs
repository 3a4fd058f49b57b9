//! The dispatchers: one request on one connection, read to its outcome.

use crate::classify::{kind_of, lemma_line_of_round_trip, line_of, payload_of, LineKind};
use crate::command::command_line;
use crate::text::is_trimmed;
use crate::command::Command;
use crate::error::{ClientError, ConnectionError, ProtocolError};
use crate::machine::{
    first_turn, lemma_first_turn, lemma_first_turn_insert, lemma_first_turn_is_first,
    lemma_no_turn, lemma_notes_insert, lemma_unrecognized_turns_nothing, notes_in, step, turns,
    DispatchState, Event,
};
use crate::payload::{decoded_by, parse_response, payload_text_of};
use crate::results::{AsyncResult, FailedResult, Message, SyncResult, Task};
use crate::text::lines_of;
use crate::transcript::Transcript;
use vstd::prelude::*;
use vstd::string::*;

verus! {

/// The line that ended the acceptance phase, before its payload is decoded.
#[derive(Clone, Debug, PartialEq, Eq)]
pub enum SyncResponse {
    Okay(String),
    Error(String),
}

/// The line that ended the completion phase, before its payload is decoded.
#[derive(Clone, Debug, PartialEq, Eq)]
pub enum Completion {
    Finished(String),
    Failed(String),
}

impl SyncResponse {
    /// Whether this is what `line` says when it ends the acceptance phase.
    pub open spec fn is_reading_of(&self, line: Seq<char>) -> bool {
        match self {
            SyncResponse::Okay(payload) => kind_of(line) == LineKind::Okay && payload@
                == payload_of(line),
            SyncResponse::Error(payload) => kind_of(line) == LineKind::Error && payload@
                == payload_of(line),
        }
    }
}

impl Completion {
    /// Whether this is what `line` says when it ends the completion phase.
    pub open spec fn is_reading_of(&self, line: Seq<char>) -> bool {
        match self {
            Completion::Finished(payload) => kind_of(line) == LineKind::Finished && payload@
                == payload_of(line),
            Completion::Failed(payload) => kind_of(line) == LineKind::Failed && payload@
                == payload_of(line),
        }
    }
}

/// Reads until the server accepts or rejects the command. Lines that are
/// neither are skipped. The stream ending first is an error.
pub fn await_acceptance(conn: &mut Transcript) -> (r: Result<SyncResponse, ConnectionError>)
    ensures
        final(conn).written() == old(conn).written(),
        match first_turn(DispatchState::AwaitingAcceptance, old(conn).pending()) {
            Some(k) => {
                &&& r is Ok
                &&& r->Ok_0.is_reading_of(old(conn).pending()[k])
                &&& final(conn).pending() == old(conn).pending().skip(k + 1)
            },
            None => {
                &&& r == Err::<SyncResponse, ConnectionError>(ConnectionError::Closed)
                &&& final(conn).pending().len() == 0
            },
        },
{
    let ghost before = conn.pending();
    let ghost mut k: int = 0;
    assert(before.skip(0) =~= before);
    loop
        invariant
            conn.written() == old(conn).written(),
            before == old(conn).pending(),
            0 <= k <= before.len(),
            conn.pending() == before.skip(k),
            forall|j: int|
                0 <= j < k ==> !turns(DispatchState::AwaitingAcceptance, #[trigger] before[j]),
        decreases conn.pending().len(),
    {
        let line = match conn.read_line() {
            Ok(line) => line,
            Err(e) => {
                proof {
                    lemma_no_turn(DispatchState::AwaitingAcceptance, before);
                }
                return Err(e);
            },
        };
        assert(line@ == before[k]);
        assert(before.skip(k).skip(1) =~= before.skip(k + 1));
        let (_, event) = step(DispatchState::AwaitingAcceptance, line.as_str());
        match event {
            Event::Accepted(payload) => {
                proof {
                    lemma_first_turn(DispatchState::AwaitingAcceptance, before, k);
                }
                return Ok(SyncResponse::Okay(payload));
            },
            Event::Rejected(payload) => {
                proof {
                    lemma_first_turn(DispatchState::AwaitingAcceptance, before, k);
                }
                return Ok(SyncResponse::Error(payload));
            },
            _ => {
                proof {
                    k = k + 1;
                }
            },
        }
    }
}

/// Reads until the task finishes or fails. The payload of each `NOTE` line
/// on the way is appended to `notes`; other lines are skipped. The stream
/// ending first is an error.
pub fn await_completion(conn: &mut Transcript, notes: &mut Vec<String>) -> (r: Result<
    Completion,
    ConnectionError,
>)
    ensures
        final(conn).written() == old(conn).written(),
        match first_turn(DispatchState::AwaitingCompletion, old(conn).pending()) {
            Some(k) => {
                &&& r is Ok
                &&& r->Ok_0.is_reading_of(old(conn).pending()[k])
                &&& final(conn).pending() == old(conn).pending().skip(k + 1)
                &&& lines_of(final(notes)@) == lines_of(old(notes)@) + notes_in(
                    old(conn).pending().take(k),
                )
            },
            None => {
                &&& r == Err::<Completion, ConnectionError>(ConnectionError::Closed)
                &&& final(conn).pending().len() == 0
                &&& lines_of(final(notes)@) == lines_of(old(notes)@) + notes_in(old(conn).pending())
            },
        },
{
    let ghost before = conn.pending();
    let ghost mut k: int = 0;
    assert(before.skip(0) =~= before);
    assert(before.take(0) =~= Seq::<Seq<char>>::empty());
    assert(lines_of(notes@) =~= lines_of(old(notes)@) + notes_in(before.take(0)));
    loop
        invariant
            conn.written() == old(conn).written(),
            before == old(conn).pending(),
            0 <= k <= before.len(),
            conn.pending() == before.skip(k),
            forall|j: int|
                0 <= j < k ==> !turns(DispatchState::AwaitingCompletion, #[trigger] before[j]),
            lines_of(notes@) == lines_of(old(notes)@) + notes_in(before.take(k)),
        decreases conn.pending().len(),
    {
        let line = match conn.read_line() {
            Ok(line) => line,
            Err(e) => {
                proof {
                    lemma_no_turn(DispatchState::AwaitingCompletion, before);
                    assert(before.take(k) =~= before);
                }
                return Err(e);
            },
        };
        assert(line@ == before[k]);
        assert(before.skip(k).skip(1) =~= before.skip(k + 1));
        let (_, event) = step(DispatchState::AwaitingCompletion, line.as_str());
        match event {
            Event::Finished(payload) => {
                proof {
                    lemma_first_turn(DispatchState::AwaitingCompletion, before, k);
                }
                return Ok(Completion::Finished(payload));
            },
            Event::Failed(payload) => {
                proof {
                    lemma_first_turn(DispatchState::AwaitingCompletion, before, k);
                }
                return Ok(Completion::Failed(payload));
            },
            Event::Noted(payload) => {
                let ghost seen = notes@;
                notes.push(payload);
                proof {
                    assert(before.take(k + 1).drop_last() =~= before.take(k));
                    assert(before.take(k + 1).last() == before[k]);
                    assert(lines_of(notes@) =~= lines_of(seen).push(payload@));
                    k = k + 1;
                }
            },
            _ => {
                proof {
                    assert(before.take(k + 1).drop_last() =~= before.take(k));
                    assert(before.take(k + 1).last() == before[k]);
                    k = k + 1;
                }
            },
        }
    }
}

/// Whether `r` is what the synchronous dispatcher makes of the line that
/// ended the acceptance phase: the payload of an `OK` line decoded by `ok`,
/// that of an `ERROR` line by `error`; a payload that does not decode is a
/// protocol error.
pub open spec fn sync_reading<R, E>(
    line: Seq<char>,
    ok: spec_fn(Seq<char>, Result<R, ProtocolError>) -> bool,
    error: spec_fn(Seq<char>, Result<E, ProtocolError>) -> bool,
    r: Result<SyncResult<R, E>, ClientError>,
) -> bool {
    if kind_of(line) == LineKind::Okay {
        match r {
            Ok(SyncResult::Okay(value)) => ok(payload_of(line), Ok(value)),
            Err(ClientError::Protocol(e)) => ok(payload_of(line), Err(e)),
            _ => false,
        }
    } else {
        match r {
            Ok(SyncResult::Error(value)) => error(payload_of(line), Ok(value)),
            Err(ClientError::Protocol(e)) => error(payload_of(line), Err(e)),
            _ => false,
        }
    }
}

/// Whether a synchronous call that found the lines `before` unread leaves
/// `after` unread and ends in `r`: the first `OK` or `ERROR` line decides,
/// the lines before it change nothing, and without such a line the connection
/// has failed.
pub open spec fn sync_outcome<R, E>(
    before: Seq<Seq<char>>,
    after: Seq<Seq<char>>,
    ok: spec_fn(Seq<char>, Result<R, ProtocolError>) -> bool,
    error: spec_fn(Seq<char>, Result<E, ProtocolError>) -> bool,
    r: Result<SyncResult<R, E>, ClientError>,
) -> bool {
    match first_turn(DispatchState::AwaitingAcceptance, before) {
        Some(k) => after == before.skip(k + 1) && sync_reading(before[k], ok, error, r),
        None => after.len() == 0 && r matches Err(
            ClientError::Connection(ConnectionError::Closed),
        ),
    }
}

/// Whether `r` is what the asynchronous dispatcher makes of the line that
/// ended the completion phase.
pub open spec fn completion_reading<T, F>(
    line: Seq<char>,
    finished: spec_fn(Seq<char>, Result<T, ProtocolError>) -> bool,
    failed: spec_fn(Seq<char>, Result<FailedResult<F>, ProtocolError>) -> bool,
    r: Result<AsyncResult<T, F>, ClientError>,
) -> bool {
    if kind_of(line) == LineKind::Finished {
        match r {
            Ok(AsyncResult::Finished(value)) => finished(payload_of(line), Ok(value)),
            Err(ClientError::Protocol(e)) => finished(payload_of(line), Err(e)),
            _ => false,
        }
    } else {
        match r {
            Ok(AsyncResult::Failed(value)) => failed(payload_of(line), Ok(value)),
            Err(ClientError::Protocol(e)) => failed(payload_of(line), Err(e)),
            _ => false,
        }
    }
}

/// Whether the completion phase of a call that found the lines `before`
/// unread leaves `after` unread, has observed `noted` and ends in `r`: the
/// first `FINISHED` or `FAILED` line decides, each `NOTE` line before it is
/// observed, and without such a line the connection has failed.
pub open spec fn completion_outcome<T, F>(
    before: Seq<Seq<char>>,
    after: Seq<Seq<char>>,
    noted: Seq<Seq<char>>,
    finished: spec_fn(Seq<char>, Result<T, ProtocolError>) -> bool,
    failed: spec_fn(Seq<char>, Result<FailedResult<F>, ProtocolError>) -> bool,
    r: Result<AsyncResult<T, F>, ClientError>,
) -> bool {
    match first_turn(DispatchState::AwaitingCompletion, before) {
        Some(k) => after == before.skip(k + 1) && noted == notes_in(before.take(k))
            && completion_reading(before[k], finished, failed, r),
        None => after.len() == 0 && noted == notes_in(before) && r matches Err(
            ClientError::Connection(ConnectionError::Closed),
        ),
    }
}

/// Whether `answer` is what `task` makes of the payload of `line`.
pub open spec fn task_reading(
    line: Seq<char>,
    task: spec_fn(Seq<char>, Result<Task, ProtocolError>) -> bool,
    answer: Result<Task, ProtocolError>,
) -> bool {
    task(payload_of(line), answer)
}

/// Whether an asynchronous call that found the lines `before` unread leaves
/// `after` unread, has observed `noted` and ends in `r`. The first `OK` or
/// `ERROR` line ends the acceptance phase. After an `ERROR` line the call is
/// over, with the decoded message: nothing more is read. After an `OK` line
/// whose payload decodes as a task the completion phase follows on the lines
/// that remain.
pub open spec fn async_outcome<T, F>(
    before: Seq<Seq<char>>,
    after: Seq<Seq<char>>,
    noted: Seq<Seq<char>>,
    task: spec_fn(Seq<char>, Result<Task, ProtocolError>) -> bool,
    message: spec_fn(Seq<char>, Result<Message, ProtocolError>) -> bool,
    finished: spec_fn(Seq<char>, Result<T, ProtocolError>) -> bool,
    failed: spec_fn(Seq<char>, Result<FailedResult<F>, ProtocolError>) -> bool,
    r: Result<AsyncResult<T, F>, ClientError>,
) -> bool {
    match first_turn(DispatchState::AwaitingAcceptance, before) {
        Some(k) => if kind_of(before[k]) == LineKind::Okay {
            exists|answer: Result<Task, ProtocolError>| #[trigger]
                task_reading(before[k], task, answer) && match answer {
                    Ok(_) => completion_outcome(before.skip(k + 1), after, noted, finished, failed, r),
                    Err(e) => after == before.skip(k + 1) && noted.len() == 0 && r == Err::<
                        AsyncResult<T, F>,
                        ClientError,
                    >(ClientError::Protocol(e)),
                }
        } else {
            after == before.skip(k + 1) && noted.len() == 0 && match r {
                Ok(AsyncResult::Error(value)) => message(payload_of(before[k]), Ok(value)),
                Err(ClientError::Protocol(e)) => message(payload_of(before[k]), Err(e)),
                _ => false,
            }
        },
        None => after.len() == 0 && noted.len() == 0 && r matches Err(
            ClientError::Connection(ConnectionError::Closed),
        ),
    }
}

/// Dispatches the synchronous command `cmd` on `conn` and returns the result.
///
/// Writes the line of `cmd`, then reads until the server answers `OK` or
/// `ERROR`, skipping every other line, and decodes the payload of the answer
/// with `decode_ok` or `decode_error`.
pub fn dispatch_sync<R, E, DR, DE>(
    cmd: &Command,
    conn: &mut Transcript,
    decode_ok: DR,
    decode_error: DE,
) -> (r: Result<SyncResult<R, E>, ClientError>) where
    DR: FnOnce(&str) -> Result<R, String>,
    DE: FnOnce(&str) -> Result<E, String>,

    requires
        forall|text: &str| call_requires(decode_ok, (text,)),
        forall|text: &str| call_requires(decode_error, (text,)),
    ensures
        final(conn).written() == old(conn).written() + vstd::utf8::encode_utf8(cmd.line()),
        sync_outcome(
            old(conn).pending(),
            final(conn).pending(),
            |payload: Seq<char>, d: Result<R, ProtocolError>| decoded_by(decode_ok, payload, d),
            |payload: Seq<char>, d: Result<E, ProtocolError>| decoded_by(decode_error, payload, d),
            r,
        ),
{
    conn.write_line(&cmd.as_bytes());
    match await_acceptance(conn) {
        Err(e) => Err(ClientError::Connection(e)),
        Ok(SyncResponse::Okay(payload)) => match parse_response(payload.as_str(), decode_ok) {
            Ok(value) => Ok(SyncResult::Okay(value)),
            Err(e) => Err(ClientError::Protocol(e)),
        },
        Ok(SyncResponse::Error(payload)) => match parse_response(payload.as_str(), decode_error) {
            Ok(value) => Ok(SyncResult::Error(value)),
            Err(e) => Err(ClientError::Protocol(e)),
        },
    }
}

/// The completion phase of an asynchronous call whose task the server has
/// accepted: reads until the server reports `FINISHED` or `FAILED` and
/// decodes the payload of the report with `decode_finished` or
/// `decode_failed`. The payload of each `NOTE` line on the way is appended to
/// `notes`.
pub fn complete_async<T, F, DT, DF>(
    conn: &mut Transcript,
    notes: &mut Vec<String>,
    decode_finished: DT,
    decode_failed: DF,
) -> (r: Result<AsyncResult<T, F>, ClientError>) where
    DT: FnOnce(&str) -> Result<T, String>,
    DF: FnOnce(&str) -> Result<FailedResult<F>, String>,

    requires
        forall|text: &str| call_requires(decode_finished, (text,)),
        forall|text: &str| call_requires(decode_failed, (text,)),
    ensures
        final(conn).written() == old(conn).written(),
        lines_of(final(notes)@).len() >= lines_of(old(notes)@).len(),
        lines_of(final(notes)@).take(old(notes)@.len() as int) == lines_of(old(notes)@),
        completion_outcome(
            old(conn).pending(),
            final(conn).pending(),
            lines_of(final(notes)@).skip(old(notes)@.len() as int),
            |payload: Seq<char>, d: Result<T, ProtocolError>|
                decoded_by(decode_finished, payload, d),
            |payload: Seq<char>, d: Result<FailedResult<F>, ProtocolError>|
                decoded_by(decode_failed, payload, d),
            r,
        ),
{
    let ghost seen = lines_of(notes@);
    let completion = await_completion(conn, notes);
    proof {
        let added = lines_of(notes@).skip(seen.len() as int);
        assert(lines_of(notes@).take(seen.len() as int) =~= seen);
        match first_turn(DispatchState::AwaitingCompletion, old(conn).pending()) {
            Some(k) => {
                assert(added =~= notes_in(old(conn).pending().take(k)));
            },
            None => {
                assert(added =~= notes_in(old(conn).pending()));
            },
        }
    }
    match completion {
        Err(e) => Err(ClientError::Connection(e)),
        Ok(Completion::Finished(payload)) => match parse_response(
            payload.as_str(),
            decode_finished,
        ) {
            Ok(value) => Ok(AsyncResult::Finished(value)),
            Err(e) => Err(ClientError::Protocol(e)),
        },
        Ok(Completion::Failed(payload)) => match parse_response(payload.as_str(), decode_failed) {
            Ok(value) => Ok(AsyncResult::Failed(value)),
            Err(e) => Err(ClientError::Protocol(e)),
        },
    }
}

/// Dispatches the asynchronous command `cmd` on `conn` and waits for its
/// task to finish or fail.
///
/// The command is first dispatched as a synchronous one, which starts the
/// task. If the server rejects it, the call ends there with the message.
/// Otherwise the completion phase follows.
pub fn dispatch_async<T, F, DK, DM, DT, DF>(
    cmd: &Command,
    conn: &mut Transcript,
    notes: &mut Vec<String>,
    decode_task: DK,
    decode_message: DM,
    decode_finished: DT,
    decode_failed: DF,
) -> (r: Result<AsyncResult<T, F>, ClientError>) where
    DK: FnOnce(&str) -> Result<Task, String>,
    DM: FnOnce(&str) -> Result<Message, String>,
    DT: FnOnce(&str) -> Result<T, String>,
    DF: FnOnce(&str) -> Result<FailedResult<F>, String>,

    requires
        forall|text: &str| call_requires(decode_task, (text,)),
        forall|text: &str| call_requires(decode_message, (text,)),
        forall|text: &str| call_requires(decode_finished, (text,)),
        forall|text: &str| call_requires(decode_failed, (text,)),
    ensures
        final(conn).written() == old(conn).written() + vstd::utf8::encode_utf8(cmd.line()),
        lines_of(final(notes)@).len() >= lines_of(old(notes)@).len(),
        lines_of(final(notes)@).take(old(notes)@.len() as int) == lines_of(old(notes)@),
        async_outcome(
            old(conn).pending(),
            final(conn).pending(),
            lines_of(final(notes)@).skip(old(notes)@.len() as int),
            |payload: Seq<char>, d: Result<Task, ProtocolError>|
                decoded_by(decode_task, payload, d),
            |payload: Seq<char>, d: Result<Message, ProtocolError>|
                decoded_by(decode_message, payload, d),
            |payload: Seq<char>, d: Result<T, ProtocolError>|
                decoded_by(decode_finished, payload, d),
            |payload: Seq<char>, d: Result<FailedResult<F>, ProtocolError>|
                decoded_by(decode_failed, payload, d),
            r,
        ),
{
    let ghost before = conn.pending();
    let ghost task_rel = |payload: Seq<char>, d: Result<Task, ProtocolError>|
        decoded_by(decode_task, payload, d);
    assert(lines_of(notes@).take(notes@.len() as int) =~= lines_of(notes@));
    assert(lines_of(notes@).skip(notes@.len() as int).len() == 0);
    match dispatch_sync(cmd, conn, decode_task, decode_message) {
        Err(e) => {
            proof {
                if let Some(k) = first_turn(DispatchState::AwaitingAcceptance, before) {
                    if kind_of(before[k]) == LineKind::Okay {
                        let answer = Err::<Task, ProtocolError>(e->Protocol_0);
                        assert(task_reading(before[k], task_rel, answer));
                    }
                }
            }
            Err(e)
        },
        Ok(SyncResult::Error(message)) => Ok(AsyncResult::Error(message)),
        Ok(SyncResult::Okay(task)) => {
            let r = complete_async(conn, notes, decode_finished, decode_failed);
            proof {
                let k = first_turn(DispatchState::AwaitingAcceptance, before)->Some_0;
                let answer = Ok::<Task, ProtocolError>(task);
                assert(task_reading(before[k], task_rel, answer));
            }
            r
        },
    }
}

/// One line of a synchronous call, for a caller that reads the lines itself:
/// nothing where the line is to be skipped, and the end of the call where
/// the line is the server's `OK` or `ERROR`, with its payload decoded.
pub fn sync_feed<R, E, DR, DE>(line: &str, decode_ok: DR, decode_error: DE) -> (r: Option<
    Result<SyncResult<R, E>, ClientError>,
>) where DR: FnOnce(&str) -> Result<R, String>, DE: FnOnce(&str) -> Result<E, String>
    requires
        forall|text: &str| call_requires(decode_ok, (text,)),
        forall|text: &str| call_requires(decode_error, (text,)),
    ensures
        r is Some <==> turns(DispatchState::AwaitingAcceptance, line@),
        r is Some ==> sync_reading(
            line@,
            |payload: Seq<char>, d: Result<R, ProtocolError>| decoded_by(decode_ok, payload, d),
            |payload: Seq<char>, d: Result<E, ProtocolError>| decoded_by(decode_error, payload, d),
            r->Some_0,
        ),
{
    let (_, event) = step(DispatchState::AwaitingAcceptance, line);
    match event {
        Event::Accepted(payload) => match parse_response(payload.as_str(), decode_ok) {
            Ok(value) => Some(Ok(SyncResult::Okay(value))),
            Err(e) => Some(Err(ClientError::Protocol(e))),
        },
        Event::Rejected(payload) => match parse_response(payload.as_str(), decode_error) {
            Ok(value) => Some(Ok(SyncResult::Error(value))),
            Err(e) => Some(Err(ClientError::Protocol(e))),
        },
        _ => None,
    }
}

/// The notes that a line of the completion phase adds to those observed:
/// its payload where it is a `NOTE` line, nothing else.
pub open spec fn note_of(line: Seq<char>) -> Seq<Seq<char>> {
    if kind_of(line) == LineKind::Note {
        seq![payload_of(line)]
    } else {
        Seq::empty()
    }
}

/// One line of the completion phase, for a caller that reads the lines
/// itself: nothing where the line is to be skipped, after its payload has
/// been appended to `notes` if it is a `NOTE` line, and the end of the call
/// where the line is the server's `FINISHED` or `FAILED`, with its payload
/// decoded.
pub fn completion_feed<T, F, DT, DF>(
    line: &str,
    notes: &mut Vec<String>,
    decode_finished: DT,
    decode_failed: DF,
) -> (r: Option<Result<AsyncResult<T, F>, ClientError>>) where
    DT: FnOnce(&str) -> Result<T, String>,
    DF: FnOnce(&str) -> Result<FailedResult<F>, String>,

    requires
        forall|text: &str| call_requires(decode_finished, (text,)),
        forall|text: &str| call_requires(decode_failed, (text,)),
    ensures
        r is Some <==> turns(DispatchState::AwaitingCompletion, line@),
        lines_of(final(notes)@) == lines_of(old(notes)@) + note_of(line@),
        r is Some ==> completion_reading(
            line@,
            |payload: Seq<char>, d: Result<T, ProtocolError>|
                decoded_by(decode_finished, payload, d),
            |payload: Seq<char>, d: Result<FailedResult<F>, ProtocolError>|
                decoded_by(decode_failed, payload, d),
            r->Some_0,
        ),
{
    let (_, event) = step(DispatchState::AwaitingCompletion, line);
    assert(lines_of(notes@) + Seq::<Seq<char>>::empty() =~= lines_of(notes@));
    match event {
        Event::Finished(payload) => match parse_response(payload.as_str(), decode_finished) {
            Ok(value) => Some(Ok(AsyncResult::Finished(value))),
            Err(e) => Some(Err(ClientError::Protocol(e))),
        },
        Event::Failed(payload) => match parse_response(payload.as_str(), decode_failed) {
            Ok(value) => Some(Ok(AsyncResult::Failed(value))),
            Err(e) => Some(Err(ClientError::Protocol(e))),
        },
        Event::Noted(payload) => {
            let ghost seen = notes@;
            notes.push(payload);
            assert(lines_of(notes@) =~= lines_of(seen) + seq![payload@]);
            None
        },
        _ => None,
    }
}

/// Whether a synchronous call that finds the lines `before` unread can end
/// in `r`.
pub open spec fn sync_ends_in<R, E>(
    before: Seq<Seq<char>>,
    ok: spec_fn(Seq<char>, Result<R, ProtocolError>) -> bool,
    error: spec_fn(Seq<char>, Result<E, ProtocolError>) -> bool,
    r: Result<SyncResult<R, E>, ClientError>,
) -> bool {
    exists|after: Seq<Seq<char>>| sync_outcome(before, after, ok, error, r)
}

/// Whether the completion phase of a call that finds the lines `before`
/// unread can observe `noted` and end in `r`.
pub open spec fn completion_ends_in<T, F>(
    before: Seq<Seq<char>>,
    noted: Seq<Seq<char>>,
    finished: spec_fn(Seq<char>, Result<T, ProtocolError>) -> bool,
    failed: spec_fn(Seq<char>, Result<FailedResult<F>, ProtocolError>) -> bool,
    r: Result<AsyncResult<T, F>, ClientError>,
) -> bool {
    exists|after: Seq<Seq<char>>| completion_outcome(before, after, noted, finished, failed, r)
}

/// Whether an asynchronous call that finds the lines `before` unread can
/// observe `noted` and end in `r`.
pub open spec fn async_ends_in<T, F>(
    before: Seq<Seq<char>>,
    noted: Seq<Seq<char>>,
    task: spec_fn(Seq<char>, Result<Task, ProtocolError>) -> bool,
    message: spec_fn(Seq<char>, Result<Message, ProtocolError>) -> bool,
    finished: spec_fn(Seq<char>, Result<T, ProtocolError>) -> bool,
    failed: spec_fn(Seq<char>, Result<FailedResult<F>, ProtocolError>) -> bool,
    r: Result<AsyncResult<T, F>, ClientError>,
) -> bool {
    exists|after: Seq<Seq<char>>|
        async_outcome(before, after, noted, task, message, finished, failed, r)
}

/// The lines that a phase leaves unread: those after the first line that
/// ends it, or none where no line does.
pub open spec fn unread_after(state: DispatchState, before: Seq<Seq<char>>) -> Seq<Seq<char>> {
    match first_turn(state, before) {
        Some(k) => before.skip(k + 1),
        None => Seq::empty(),
    }
}

/// An unrecognized line among those that a synchronous call reads does not
/// change how the call ends: with the line `junk` put in at any place, the
/// call can end in `r` exactly where it could without.
pub proof fn lemma_sync_skips_unrecognized<R, E>(
    before: Seq<Seq<char>>,
    i: int,
    junk: Seq<char>,
    ok: spec_fn(Seq<char>, Result<R, ProtocolError>) -> bool,
    error: spec_fn(Seq<char>, Result<E, ProtocolError>) -> bool,
    r: Result<SyncResult<R, E>, ClientError>,
)
    requires
        0 <= i <= before.len(),
        kind_of(junk) == LineKind::Unrecognized,
    ensures
        sync_ends_in(before.insert(i, junk), ok, error, r) <==> sync_ends_in(before, ok, error, r),
{
    let state = DispatchState::AwaitingAcceptance;
    let inserted = before.insert(i, junk);
    lemma_unrecognized_turns_nothing(state, junk);
    lemma_first_turn_insert(state, before, i, junk);
    lemma_first_turn_is_first(state, before);
    if let Some(k) = first_turn(state, before) {
        if i <= k {
            assert(inserted[k + 1] == before[k]);
        } else {
            assert(inserted[k] == before[k]);
        }
    }
    if sync_ends_in(before, ok, error, r) {
        assert(sync_outcome(inserted, unread_after(state, inserted), ok, error, r));
    }
    if sync_ends_in(inserted, ok, error, r) {
        assert(sync_outcome(before, unread_after(state, before), ok, error, r));
    }
}

/// An unrecognized line among those that the completion phase reads changes
/// neither what the phase observes nor how it ends.
pub proof fn lemma_completion_skips_unrecognized<T, F>(
    before: Seq<Seq<char>>,
    i: int,
    junk: Seq<char>,
    noted: Seq<Seq<char>>,
    finished: spec_fn(Seq<char>, Result<T, ProtocolError>) -> bool,
    failed: spec_fn(Seq<char>, Result<FailedResult<F>, ProtocolError>) -> bool,
    r: Result<AsyncResult<T, F>, ClientError>,
)
    requires
        0 <= i <= before.len(),
        kind_of(junk) == LineKind::Unrecognized,
    ensures
        completion_ends_in(before.insert(i, junk), noted, finished, failed, r)
            <==> completion_ends_in(before, noted, finished, failed, r),
{
    let state = DispatchState::AwaitingCompletion;
    let inserted = before.insert(i, junk);
    lemma_unrecognized_turns_nothing(state, junk);
    lemma_first_turn_insert(state, before, i, junk);
    lemma_first_turn_is_first(state, before);
    match first_turn(state, before) {
        Some(k) => {
            if i <= k {
                assert(inserted[k + 1] == before[k]);
                assert(inserted.take(k + 1) =~= before.take(k).insert(i, junk));
                lemma_notes_insert(before.take(k), i, junk);
            } else {
                assert(inserted[k] == before[k]);
                assert(inserted.take(k) =~= before.take(k));
            }
        },
        None => {
            lemma_notes_insert(before, i, junk);
        },
    }
    if completion_ends_in(before, noted, finished, failed, r) {
        assert(completion_outcome(
            inserted,
            unread_after(state, inserted),
            noted,
            finished,
            failed,
            r,
        ));
    }
    if completion_ends_in(inserted, noted, finished, failed, r) {
        assert(completion_outcome(before, unread_after(state, before), noted, finished, failed, r));
    }
}

proof fn lemma_async_insert_one_way<T, F>(
    before: Seq<Seq<char>>,
    inserted: Seq<Seq<char>>,
    noted: Seq<Seq<char>>,
    task: spec_fn(Seq<char>, Result<Task, ProtocolError>) -> bool,
    message: spec_fn(Seq<char>, Result<Message, ProtocolError>) -> bool,
    finished: spec_fn(Seq<char>, Result<T, ProtocolError>) -> bool,
    failed: spec_fn(Seq<char>, Result<FailedResult<F>, ProtocolError>) -> bool,
    r: Result<AsyncResult<T, F>, ClientError>,
)
    requires
        async_ends_in(before, noted, task, message, finished, failed, r),
        match first_turn(DispatchState::AwaitingAcceptance, before) {
            Some(k) => {
                &&& 0 <= k < before.len()
                &&& first_turn(DispatchState::AwaitingAcceptance, inserted) is Some
                &&& first_turn(DispatchState::AwaitingAcceptance, inserted)->Some_0 < inserted.len()
                &&& inserted[first_turn(DispatchState::AwaitingAcceptance, inserted)->Some_0]
                    == before[k]
                &&& forall|n: Seq<Seq<char>>, x: Result<AsyncResult<T, F>, ClientError>|
                    completion_ends_in(before.skip(k + 1), n, finished, failed, x)
                        ==> #[trigger] completion_ends_in(
                        unread_after(DispatchState::AwaitingAcceptance, inserted),
                        n,
                        finished,
                        failed,
                        x,
                    )
            },
            None => first_turn(DispatchState::AwaitingAcceptance, inserted) is None,
        },
    ensures
        async_ends_in(inserted, noted, task, message, finished, failed, r),
{
    let state = DispatchState::AwaitingAcceptance;
    let after = choose|after: Seq<Seq<char>>|
        async_outcome(before, after, noted, task, message, finished, failed, r);
    match first_turn(state, before) {
        Some(k) => {
            let m = first_turn(state, inserted)->Some_0;
            let rest = unread_after(state, inserted);
            if kind_of(before[k]) == LineKind::Okay {
                let answer = choose|answer: Result<Task, ProtocolError>| #[trigger]
                    task_reading(before[k], task, answer) && match answer {
                        Ok(_) => completion_outcome(
                            before.skip(k + 1),
                            after,
                            noted,
                            finished,
                            failed,
                            r,
                        ),
                        Err(e) => after == before.skip(k + 1) && noted.len() == 0 && r == Err::<
                            AsyncResult<T, F>,
                            ClientError,
                        >(ClientError::Protocol(e)),
                    };
                assert(task_reading(inserted[m], task, answer));
                match answer {
                    Ok(_) => {
                        assert(completion_ends_in(before.skip(k + 1), noted, finished, failed, r));
                        assert(completion_ends_in(rest, noted, finished, failed, r));
                        let left = choose|left: Seq<Seq<char>>|
                            completion_outcome(rest, left, noted, finished, failed, r);
                        assert(async_outcome(
                            inserted,
                            left,
                            noted,
                            task,
                            message,
                            finished,
                            failed,
                            r,
                        ));
                    },
                    Err(e) => {
                        assert(async_outcome(
                            inserted,
                            rest,
                            noted,
                            task,
                            message,
                            finished,
                            failed,
                            r,
                        ));
                    },
                }
            } else {
                assert(async_outcome(inserted, rest, noted, task, message, finished, failed, r));
            }
        },
        None => {
            assert(async_outcome(
                inserted,
                Seq::<Seq<char>>::empty(),
                noted,
                task,
                message,
                finished,
                failed,
                r,
            ));
        },
    }
}

/// An unrecognized line among those that an asynchronous call reads changes
/// neither what the call observes nor how it ends: with the line `junk` put
/// in at any place, the call can observe `noted` and end in `r` exactly where
/// it could without.
pub proof fn lemma_async_skips_unrecognized<T, F>(
    before: Seq<Seq<char>>,
    i: int,
    junk: Seq<char>,
    noted: Seq<Seq<char>>,
    task: spec_fn(Seq<char>, Result<Task, ProtocolError>) -> bool,
    message: spec_fn(Seq<char>, Result<Message, ProtocolError>) -> bool,
    finished: spec_fn(Seq<char>, Result<T, ProtocolError>) -> bool,
    failed: spec_fn(Seq<char>, Result<FailedResult<F>, ProtocolError>) -> bool,
    r: Result<AsyncResult<T, F>, ClientError>,
)
    requires
        0 <= i <= before.len(),
        kind_of(junk) == LineKind::Unrecognized,
    ensures
        async_ends_in(before.insert(i, junk), noted, task, message, finished, failed, r)
            <==> async_ends_in(before, noted, task, message, finished, failed, r),
{
    let state = DispatchState::AwaitingAcceptance;
    let inserted = before.insert(i, junk);
    lemma_unrecognized_turns_nothing(state, junk);
    lemma_first_turn_insert(state, before, i, junk);
    lemma_first_turn_is_first(state, before);
    lemma_first_turn_is_first(state, inserted);
    if let Some(k) = first_turn(state, before) {
        let rest = before.skip(k + 1);
        let rest_inserted = unread_after(state, inserted);
        if i <= k {
            assert(inserted[k + 1] == before[k]);
            assert(rest_inserted =~= rest);
        } else {
            assert(inserted[k] == before[k]);
            assert(rest_inserted =~= rest.insert(i - k - 1, junk));
            assert forall|n: Seq<Seq<char>>, x: Result<AsyncResult<T, F>, ClientError>|
                completion_ends_in(rest, n, finished, failed, x) == #[trigger] completion_ends_in(
                    rest_inserted,
                    n,
                    finished,
                    failed,
                    x,
                ) by {
                lemma_completion_skips_unrecognized(rest, i - k - 1, junk, n, finished, failed, x);
            }
        }
    }
    if async_ends_in(before, noted, task, message, finished, failed, r) {
        lemma_async_insert_one_way(before, inserted, noted, task, message, finished, failed, r);
    }
    if async_ends_in(inserted, noted, task, message, finished, failed, r) {
        lemma_async_insert_one_way(inserted, before, noted, task, message, finished, failed, r);
    }
}

/// What a command carries as its argument comes back unchanged where the
/// server answers `OK` and that argument: the command line holds the JSON
/// text `json` between the space and the newline, and a synchronous call
/// that reads the answer ends in what the decoder for `OK` makes of exactly
/// that text. The text is one that a JSON writer gives: not empty, with no
/// whitespace at either end.
pub proof fn lemma_sync_round_trip<R, E>(
    name: Seq<char>,
    json: Seq<char>,
    ok: spec_fn(Seq<char>, Result<R, ProtocolError>) -> bool,
    error: spec_fn(Seq<char>, Result<E, ProtocolError>) -> bool,
    r: Result<SyncResult<R, E>, ClientError>,
)
    requires
        json.len() > 0,
        is_trimmed(json),
    ensures
        command_line(name, Some(json)) == name + seq![' '] + json + seq!['\n'],
        payload_text_of(payload_of(line_of(LineKind::Okay, json))) == json,
        sync_ends_in(seq![line_of(LineKind::Okay, json)], ok, error, r) <==> match r {
            Ok(SyncResult::Okay(value)) => ok(json, Ok(value)),
            Err(ClientError::Protocol(e)) => ok(json, Err(e)),
            _ => false,
        },
{
    let line = line_of(LineKind::Okay, json);
    let lines = seq![line];
    lemma_line_of_round_trip(LineKind::Okay, json);
    assert(lines[0] == line);
    assert(turns(DispatchState::AwaitingAcceptance, lines[0]));
    lemma_first_turn(DispatchState::AwaitingAcceptance, lines, 0);
    if sync_reading(line, ok, error, r) {
        assert(sync_outcome(lines, lines.skip(1), ok, error, r));
    }
}

} // verus!
