//! The client: who to talk to, the handshake, and the commands.

use crate::command::{command_line, Command};
use crate::commands::{CancelArgs, PurgeTheoryArgs, SessionBuildArgs, SessionStopArgs};
use crate::dispatch::{
    async_outcome, dispatch_async, dispatch_sync, sync_outcome,
};
use crate::error::{ClientError, ConnectionError, ProtocolError};
use crate::json::{decode_text, decode_unit, json_of_text, text_of_json, unit_of_json};
use crate::number::{append_decimal, decimal_of};
use crate::payload::{decoded_by, payload_text_of};
use crate::results::{
    AsyncResult, FailedResult, Message, PurgeTheoryResults, SessionStartResult, SessionStopResult,
    SyncResult, Task, UseTheoryResults,
};
use crate::text::{chars_of, has_prefix};
use crate::text::lines_of;
use crate::transcript::Transcript;
use vstd::prelude::*;
use vstd::string::*;
use vstd::utf8::encode_utf8;

verus! {

/// Provides interaction with Isabelle servers.
pub struct IsabelleClient {
    addr: String,
    pass: String,
}

/// The address that is used where none is given.
pub open spec fn default_address() -> Seq<char> {
    seq!['1', '2', '7', '.', '0', '.', '0', '.', '1']
}

/// The address of a server and its port, as one text.
pub open spec fn socket_address(address: Option<Seq<char>>, port: u32) -> Seq<char> {
    let host = match address {
        Some(host) => host,
        None => default_address(),
    };
    host + seq![':'] + decimal_of(port as nat)
}

/// What the client writes to open the handshake: the secret and a newline.
pub open spec fn handshake_line(secret: Seq<char>) -> Seq<char> {
    secret + seq!['\n']
}

/// Whether the server's answer to the secret authenticates the connection:
/// it begins with `OK`.
pub open spec fn authenticates(reply: Seq<char>) -> bool {
    seq!['O', 'K'].is_prefix_of(reply)
}

/// Whether the first of the lines `pending` authenticates the connection.
pub open spec fn handshake_succeeds(pending: Seq<Seq<char>>) -> bool {
    pending.len() > 0 && authenticates(pending[0])
}

/// The lines that the handshake leaves unread.
pub open spec fn after_handshake(pending: Seq<Seq<char>>) -> Seq<Seq<char>> {
    if pending.len() > 0 {
        pending.skip(1)
    } else {
        pending
    }
}

/// Whether `d` is what becomes of a payload that is to hold a JSON string.
pub open spec fn reads_as_text(payload: Seq<char>, d: Result<String, ProtocolError>) -> bool {
    let text = payload_text_of(payload);
    match text_of_json(text) {
        Ok(value) => d is Ok && d->Ok_0@ == value,
        Err(diagnostic) => d is Err && d->Err_0.text@ == text && d->Err_0.diagnostic@
            == diagnostic,
    }
}

/// Whether `d` is what becomes of a payload that is to hold nothing.
pub open spec fn reads_as_unit(payload: Seq<char>, d: Result<(), ProtocolError>) -> bool {
    let text = payload_text_of(payload);
    match unit_of_json(text) {
        Ok(value) => d is Ok,
        Err(diagnostic) => d is Err && d->Err_0.text@ == text && d->Err_0.diagnostic@
            == diagnostic,
    }
}

/// Whether a whole synchronous call with the given secret and command line,
/// on a fresh connection that held `before.0` unread and `before.1` written,
/// leaves `after` and ends in `r`. Where the handshake fails, the secret is
/// all that was written, and the call ends in `Authentication`.
pub open spec fn sync_call_outcome<R, E>(
    secret: Seq<char>,
    line: Seq<char>,
    before: (Seq<Seq<char>>, Seq<u8>),
    after: (Seq<Seq<char>>, Seq<u8>),
    ok: spec_fn(Seq<char>, Result<R, ProtocolError>) -> bool,
    error: spec_fn(Seq<char>, Result<E, ProtocolError>) -> bool,
    r: Result<SyncResult<R, E>, ClientError>,
) -> bool {
    if handshake_succeeds(before.0) {
        &&& after.1 == before.1 + encode_utf8(handshake_line(secret)) + encode_utf8(line)
        &&& sync_outcome(before.0.skip(1), after.0, ok, error, r)
    } else {
        &&& after.1 == before.1 + encode_utf8(handshake_line(secret))
        &&& after.0 == after_handshake(before.0)
        &&& r matches Err(ClientError::Authentication)
    }
}

/// Whether a whole asynchronous call with the given secret and command line,
/// on a fresh connection that held `before.0` unread and `before.1` written,
/// leaves `after`, has observed `noted` and ends in `r`.
pub open spec fn async_call_outcome<T, F>(
    secret: Seq<char>,
    line: Seq<char>,
    before: (Seq<Seq<char>>, Seq<u8>),
    after: (Seq<Seq<char>>, Seq<u8>),
    noted: Seq<Seq<char>>,
    task: spec_fn(Seq<char>, Result<Task, ProtocolError>) -> bool,
    message: spec_fn(Seq<char>, Result<Message, ProtocolError>) -> bool,
    finished: spec_fn(Seq<char>, Result<T, ProtocolError>) -> bool,
    failed: spec_fn(Seq<char>, Result<FailedResult<F>, ProtocolError>) -> bool,
    r: Result<AsyncResult<T, F>, ClientError>,
) -> bool {
    if handshake_succeeds(before.0) {
        &&& after.1 == before.1 + encode_utf8(handshake_line(secret)) + encode_utf8(line)
        &&& async_outcome(before.0.skip(1), after.0, noted, task, message, finished, failed, r)
    } else {
        &&& after.1 == before.1 + encode_utf8(handshake_line(secret))
        &&& after.0 == after_handshake(before.0)
        &&& noted.len() == 0
        &&& r matches Err(ClientError::Authentication)
    }
}

/// Judges the server's answer to the secret. Anything but a line that begins
/// with `OK` fails the handshake, a failure of the transport too.
pub fn check_handshake(reply: &Result<String, ConnectionError>) -> (r: Result<(), ClientError>)
    ensures
        r is Ok <==> reply is Ok && authenticates(reply->Ok_0@),
        r is Err ==> r->Err_0 == ClientError::Authentication,
{
    match reply {
        Ok(line) => {
            let v = chars_of(line.as_str());
            let token = chars_of("OK");
            proof {
                reveal_strlit("OK");
                assert(token@ =~= seq!['O', 'K']);
                assert(v@.subrange(0, v.len() as int) =~= line@);
            }
            if has_prefix(&v, 0, v.len(), &token) {
                Ok(())
            } else {
                Err(ClientError::Authentication)
            }
        },
        Err(_) => Err(ClientError::Authentication),
    }
}

impl IsabelleClient {
    /// The address of the server, with its port.
    pub closed spec fn address_view(&self) -> Seq<char> {
        self.addr@
    }

    /// The shared secret.
    pub closed spec fn secret(&self) -> Seq<char> {
        self.pass@
    }

    /// Connect to an Isabelle server.
    ///
    /// - `address`: specifies the server address. If it is `None`, "127.0.0.1" is use as a default
    /// - `port`: specifies the server port
    /// - `pass`: the password
    pub fn connect(address: Option<&str>, port: u32, pass: &str) -> (client: Self)
        ensures
            client.secret() == pass@,
            client.address_view() == socket_address(
                match address {
                    Some(host) => Some(host@),
                    None => None,
                },
                port,
            ),
    {
        proof {
            reveal_strlit("127.0.0.1");
            reveal_strlit(":");
        }
        let mut addr = match address {
            Some(host) => host.to_owned(),
            None => "127.0.0.1".to_owned(),
        };
        addr.append(":");
        append_decimal(&mut addr, port as u64);
        let client = IsabelleClient { addr, pass: pass.to_owned() };
        assert(client.address_view() =~= socket_address(
            match address {
                Some(host) => Some(host@),
                None => None,
            },
            port,
        ));
        client
    }

    /// The address of the server, with its port.
    pub fn address(&self) -> (addr: &str)
        ensures
            addr@ == self.address_view(),
    {
        self.addr.as_str()
    }

    /// The shared secret.
    pub fn password(&self) -> (pass: &str)
        ensures
            pass@ == self.secret(),
    {
        self.pass.as_str()
    }

    /// The bytes that open the handshake: the secret and a newline.
    pub fn handshake_bytes(&self) -> (bytes: Vec<u8>)
        ensures
            bytes@ == encode_utf8(handshake_line(self.secret())),
    {
        proof {
            reveal_strlit("\n");
        }
        let mut line = self.pass.clone();
        line.append("\n");
        assert(line@ =~= handshake_line(self.secret()));
        line.as_str().as_bytes_vec()
    }

    /// Performs the initial password exchange between a new client and the
    /// server: writes the secret, reads one line, and judges it.
    pub fn handshake(&self, conn: &mut Transcript) -> (r: Result<(), ClientError>)
        ensures
            final(conn).written() == old(conn).written() + encode_utf8(
                handshake_line(self.secret()),
            ),
            final(conn).pending() == after_handshake(old(conn).pending()),
            r is Ok <==> handshake_succeeds(old(conn).pending()),
            r is Err ==> r->Err_0 == ClientError::Authentication,
    {
        conn.write_line(&self.handshake_bytes());
        let reply = conn.read_line();
        check_handshake(&reply)
    }

    /// One synchronous call on a fresh connection: the handshake, then the
    /// command, read to its answer.
    pub fn call_sync<R, E, DR, DE>(
        &self,
        cmd: &Command,
        conn: &mut Transcript,
        decode_ok: DR,
        decode_error: DE,
    ) -> (r: Result<SyncResult<R, E>, ClientError>) where
        DR: FnOnce(&str) -> Result<R, String>,
        DE: FnOnce(&str) -> Result<E, String>,

        requires
            forall|text: &str| call_requires(decode_ok, (text,)),
            forall|text: &str| call_requires(decode_error, (text,)),
        ensures
            sync_call_outcome(
                self.secret(),
                cmd.line(),
                (old(conn).pending(), old(conn).written()),
                (final(conn).pending(), final(conn).written()),
                |payload: Seq<char>, d: Result<R, ProtocolError>|
                    decoded_by(decode_ok, payload, d),
                |payload: Seq<char>, d: Result<E, ProtocolError>|
                    decoded_by(decode_error, payload, d),
                r,
            ),
    {
        match self.handshake(conn) {
            Err(e) => Err(e),
            Ok(()) => dispatch_sync(cmd, conn, decode_ok, decode_error),
        }
    }

    /// One asynchronous call on a fresh connection: the handshake, then the
    /// command, read until its task has finished or failed.
    pub fn call_async<T, F, DK, DM, DT, DF>(
        &self,
        cmd: &Command,
        conn: &mut Transcript,
        notes: &mut Vec<String>,
        decode_task: DK,
        decode_message: DM,
        decode_finished: DT,
        decode_failed: DF,
    ) -> (r: Result<AsyncResult<T, F>, ClientError>) where
        DK: FnOnce(&str) -> Result<Task, String>,
        DM: FnOnce(&str) -> Result<Message, String>,
        DT: FnOnce(&str) -> Result<T, String>,
        DF: FnOnce(&str) -> Result<FailedResult<F>, String>,

        requires
            forall|text: &str| call_requires(decode_task, (text,)),
            forall|text: &str| call_requires(decode_message, (text,)),
            forall|text: &str| call_requires(decode_finished, (text,)),
            forall|text: &str| call_requires(decode_failed, (text,)),
        ensures
            lines_of(final(notes)@).len() >= lines_of(old(notes)@).len(),
            lines_of(final(notes)@).take(old(notes)@.len() as int) == lines_of(old(notes)@),
            async_call_outcome(
                self.secret(),
                cmd.line(),
                (old(conn).pending(), old(conn).written()),
                (final(conn).pending(), final(conn).written()),
                lines_of(final(notes)@).skip(old(notes)@.len() as int),
                |payload: Seq<char>, d: Result<Task, ProtocolError>|
                    decoded_by(decode_task, payload, d),
                |payload: Seq<char>, d: Result<Message, ProtocolError>|
                    decoded_by(decode_message, payload, d),
                |payload: Seq<char>, d: Result<T, ProtocolError>|
                    decoded_by(decode_finished, payload, d),
                |payload: Seq<char>, d: Result<FailedResult<F>, ProtocolError>|
                    decoded_by(decode_failed, payload, d),
                r,
            ),
    {
        assert(lines_of(notes@).take(notes@.len() as int) =~= lines_of(notes@));
        match self.handshake(conn) {
            Err(e) => Err(e),
            Ok(()) => dispatch_async(
                cmd,
                conn,
                notes,
                decode_task,
                decode_message,
                decode_finished,
                decode_failed,
            ),
        }
    }

    /// Identity function: Returns its argument as result
    pub fn echo(&self, conn: &mut Transcript, echo: &str) -> (r: Result<
        SyncResult<String, String>,
        ClientError,
    >)
        ensures
            sync_call_outcome(
                self.secret(),
                command_line("echo"@, Some(json_of_text(echo@))),
                (old(conn).pending(), old(conn).written()),
                (final(conn).pending(), final(conn).written()),
                |payload: Seq<char>, d: Result<String, ProtocolError>| reads_as_text(payload, d),
                |payload: Seq<char>, d: Result<String, ProtocolError>| reads_as_text(payload, d),
                r,
            ),
    {
        let cmd = Command::echo(echo);
        self.call_sync(&cmd, conn, decode_text, decode_text)
    }

    /// Forces a shut- down of the connected server process, stopping all open sessions and closing the server socket.
    /// This may disrupt pending commands on other connections.
    pub fn shutdown(&self, conn: &mut Transcript) -> (r: Result<
        SyncResult<(), String>,
        ClientError,
    >)
        ensures
            sync_call_outcome(
                self.secret(),
                command_line("shutdown"@, None),
                (old(conn).pending(), old(conn).written()),
                (final(conn).pending(), final(conn).written()),
                |payload: Seq<char>, d: Result<(), ProtocolError>| reads_as_unit(payload, d),
                |payload: Seq<char>, d: Result<String, ProtocolError>| reads_as_text(payload, d),
                r,
            ),
    {
        let cmd = Command::shutdown();
        self.call_sync(&cmd, conn, decode_unit, decode_text)
    }

    /// Attempts to cancel the specified task.
    /// Cancellation is merely a hint that the client prefers an ongoing process to be stopped.
    pub fn cancel(&self, conn: &mut Transcript, task_id: String) -> (r: Result<
        SyncResult<(), ()>,
        ClientError,
    >)
        ensures
            sync_call_outcome(
                self.secret(),
                command_line("cancel"@, Some((CancelArgs { task: task_id }).json())),
                (old(conn).pending(), old(conn).written()),
                (final(conn).pending(), final(conn).written()),
                |payload: Seq<char>, d: Result<(), ProtocolError>| reads_as_unit(payload, d),
                |payload: Seq<char>, d: Result<(), ProtocolError>| reads_as_unit(payload, d),
                r,
            ),
    {
        let cmd = Command::cancel(&CancelArgs { task: task_id });
        self.call_sync(&cmd, conn, decode_unit, decode_unit)
    }

    /// Updates the identified session by removing theories.
    /// Theories that are used in pending use_theories tasks or imported by other theories are retained.
    /// The result is decoded with `decode_ok`.
    pub fn purge_theories<DR>(&self, conn: &mut Transcript, args: PurgeTheoryArgs, decode_ok: DR) -> (r: Result<
        SyncResult<PurgeTheoryResults, ()>,
        ClientError,
    >) where
        DR: FnOnce(&str) -> Result<PurgeTheoryResults, String>,

        requires
            forall|text: &str| call_requires(decode_ok, (text,)),
        ensures
            sync_call_outcome(
                self.secret(),
                command_line("purge_theories"@, Some(args.json())),
                (old(conn).pending(), old(conn).written()),
                (final(conn).pending(), final(conn).written()),
                |payload: Seq<char>, d: Result<PurgeTheoryResults, ProtocolError>| decoded_by(decode_ok, payload, d),
                |payload: Seq<char>, d: Result<(), ProtocolError>| reads_as_unit(payload, d),
                r,
            ),
    {
        let cmd = Command::purge_theories(&args);
        self.call_sync(&cmd, conn, decode_ok, decode_unit)
    }

    /// Prepares a session image for interactive use of theories.
    /// The payloads are decoded with the given decoders; the payload of each
    /// `NOTE` line is appended to `notes`.
    pub fn session_build<T, F, DK, DM, DT, DF>(
        &self,
        conn: &mut Transcript,
        notes: &mut Vec<String>,
        args: &SessionBuildArgs,
        decode_task: DK,
        decode_message: DM,
        decode_finished: DT,
        decode_failed: DF,
    ) -> (r: Result<AsyncResult<T, F>, ClientError>) where
        DK: FnOnce(&str) -> Result<Task, String>,
        DM: FnOnce(&str) -> Result<Message, String>,
        DT: FnOnce(&str) -> Result<T, String>,
        DF: FnOnce(&str) -> Result<FailedResult<F>, String>,

        requires
            forall|text: &str| call_requires(decode_task, (text,)),
            forall|text: &str| call_requires(decode_message, (text,)),
            forall|text: &str| call_requires(decode_finished, (text,)),
            forall|text: &str| call_requires(decode_failed, (text,)),
        ensures
            lines_of(final(notes)@).len() >= lines_of(old(notes)@).len(),
            lines_of(final(notes)@).take(old(notes)@.len() as int) == lines_of(old(notes)@),
            async_call_outcome(
                self.secret(),
                command_line("session_build"@, Some(args.json())),
                (old(conn).pending(), old(conn).written()),
                (final(conn).pending(), final(conn).written()),
                lines_of(final(notes)@).skip(old(notes)@.len() as int),
                |payload: Seq<char>, d: Result<Task, ProtocolError>|
                    decoded_by(decode_task, payload, d),
                |payload: Seq<char>, d: Result<Message, ProtocolError>|
                    decoded_by(decode_message, payload, d),
                |payload: Seq<char>, d: Result<T, ProtocolError>|
                    decoded_by(decode_finished, payload, d),
                |payload: Seq<char>, d: Result<FailedResult<F>, ProtocolError>|
                    decoded_by(decode_failed, payload, d),
                r,
            ),
    {
        let cmd = Command::session_build(args);
        self.call_async(
            &cmd,
            conn,
            notes,
            decode_task,
            decode_message,
            decode_finished,
            decode_failed,
        )
    }

    /// Starts a new Isabelle/PIDE session with underlying Isabelle/ML process, based on a session image that it produces on demand using `session_build`.
    /// Returns the `session_id`, which provides the internal identification of the session object within the server process.
    /// The payloads are decoded with the given decoders; the payload of each
    /// `NOTE` line is appended to `notes`.
    pub fn session_start<DK, DM, DT, DF>(
        &self,
        conn: &mut Transcript,
        notes: &mut Vec<String>,
        args: &SessionBuildArgs,
        decode_task: DK,
        decode_message: DM,
        decode_finished: DT,
        decode_failed: DF,
    ) -> (r: Result<AsyncResult<SessionStartResult, ()>, ClientError>) where
        DK: FnOnce(&str) -> Result<Task, String>,
        DM: FnOnce(&str) -> Result<Message, String>,
        DT: FnOnce(&str) -> Result<SessionStartResult, String>,
        DF: FnOnce(&str) -> Result<FailedResult<()>, String>,

        requires
            forall|text: &str| call_requires(decode_task, (text,)),
            forall|text: &str| call_requires(decode_message, (text,)),
            forall|text: &str| call_requires(decode_finished, (text,)),
            forall|text: &str| call_requires(decode_failed, (text,)),
        ensures
            lines_of(final(notes)@).len() >= lines_of(old(notes)@).len(),
            lines_of(final(notes)@).take(old(notes)@.len() as int) == lines_of(old(notes)@),
            async_call_outcome(
                self.secret(),
                command_line("session_start"@, Some(args.json())),
                (old(conn).pending(), old(conn).written()),
                (final(conn).pending(), final(conn).written()),
                lines_of(final(notes)@).skip(old(notes)@.len() as int),
                |payload: Seq<char>, d: Result<Task, ProtocolError>|
                    decoded_by(decode_task, payload, d),
                |payload: Seq<char>, d: Result<Message, ProtocolError>|
                    decoded_by(decode_message, payload, d),
                |payload: Seq<char>, d: Result<SessionStartResult, ProtocolError>|
                    decoded_by(decode_finished, payload, d),
                |payload: Seq<char>, d: Result<FailedResult<()>, ProtocolError>|
                    decoded_by(decode_failed, payload, d),
                r,
            ),
    {
        let cmd = Command::session_start(args);
        self.call_async(
            &cmd,
            conn,
            notes,
            decode_task,
            decode_message,
            decode_finished,
            decode_failed,
        )
    }

    /// Forces a shutdown of the identified session.
    /// The payloads are decoded with the given decoders; the payload of each
    /// `NOTE` line is appended to `notes`.
    pub fn session_stop<DK, DM, DT, DF>(
        &self,
        conn: &mut Transcript,
        notes: &mut Vec<String>,
        args: &SessionStopArgs,
        decode_task: DK,
        decode_message: DM,
        decode_finished: DT,
        decode_failed: DF,
    ) -> (r: Result<AsyncResult<SessionStopResult, SessionStopResult>, ClientError>) where
        DK: FnOnce(&str) -> Result<Task, String>,
        DM: FnOnce(&str) -> Result<Message, String>,
        DT: FnOnce(&str) -> Result<SessionStopResult, String>,
        DF: FnOnce(&str) -> Result<FailedResult<SessionStopResult>, String>,

        requires
            forall|text: &str| call_requires(decode_task, (text,)),
            forall|text: &str| call_requires(decode_message, (text,)),
            forall|text: &str| call_requires(decode_finished, (text,)),
            forall|text: &str| call_requires(decode_failed, (text,)),
        ensures
            lines_of(final(notes)@).len() >= lines_of(old(notes)@).len(),
            lines_of(final(notes)@).take(old(notes)@.len() as int) == lines_of(old(notes)@),
            async_call_outcome(
                self.secret(),
                command_line("session_stop"@, Some(args.json())),
                (old(conn).pending(), old(conn).written()),
                (final(conn).pending(), final(conn).written()),
                lines_of(final(notes)@).skip(old(notes)@.len() as int),
                |payload: Seq<char>, d: Result<Task, ProtocolError>|
                    decoded_by(decode_task, payload, d),
                |payload: Seq<char>, d: Result<Message, ProtocolError>|
                    decoded_by(decode_message, payload, d),
                |payload: Seq<char>, d: Result<SessionStopResult, ProtocolError>|
                    decoded_by(decode_finished, payload, d),
                |payload: Seq<char>, d: Result<FailedResult<SessionStopResult>, ProtocolError>|
                    decoded_by(decode_failed, payload, d),
                r,
            ),
    {
        let cmd = Command::session_stop(args);
        self.call_async(
            &cmd,
            conn,
            notes,
            decode_task,
            decode_message,
            decode_finished,
            decode_failed,
        )
    }

    /// Updates the identified session by adding the current version of theory files to it, while dependencies are resolved implicitly.
    /// The arguments are given as JSON text.
    /// The payloads are decoded with the given decoders; the payload of each
    /// `NOTE` line is appended to `notes`.
    pub fn use_theories<DK, DM, DT, DF>(
        &self,
        conn: &mut Transcript,
        notes: &mut Vec<String>,
        args_json: &str,
        decode_task: DK,
        decode_message: DM,
        decode_finished: DT,
        decode_failed: DF,
    ) -> (r: Result<AsyncResult<UseTheoryResults, ()>, ClientError>) where
        DK: FnOnce(&str) -> Result<Task, String>,
        DM: FnOnce(&str) -> Result<Message, String>,
        DT: FnOnce(&str) -> Result<UseTheoryResults, String>,
        DF: FnOnce(&str) -> Result<FailedResult<()>, String>,

        requires
            forall|text: &str| call_requires(decode_task, (text,)),
            forall|text: &str| call_requires(decode_message, (text,)),
            forall|text: &str| call_requires(decode_finished, (text,)),
            forall|text: &str| call_requires(decode_failed, (text,)),
        ensures
            lines_of(final(notes)@).len() >= lines_of(old(notes)@).len(),
            lines_of(final(notes)@).take(old(notes)@.len() as int) == lines_of(old(notes)@),
            async_call_outcome(
                self.secret(),
                command_line("use_theories"@, Some(args_json@)),
                (old(conn).pending(), old(conn).written()),
                (final(conn).pending(), final(conn).written()),
                lines_of(final(notes)@).skip(old(notes)@.len() as int),
                |payload: Seq<char>, d: Result<Task, ProtocolError>|
                    decoded_by(decode_task, payload, d),
                |payload: Seq<char>, d: Result<Message, ProtocolError>|
                    decoded_by(decode_message, payload, d),
                |payload: Seq<char>, d: Result<UseTheoryResults, ProtocolError>|
                    decoded_by(decode_finished, payload, d),
                |payload: Seq<char>, d: Result<FailedResult<()>, ProtocolError>|
                    decoded_by(decode_failed, payload, d),
                r,
            ),
    {
        let cmd = Command::use_theories(args_json);
        self.call_async(
            &cmd,
            conn,
            notes,
            decode_task,
            decode_message,
            decode_finished,
            decode_failed,
        )
    }
}

/// Where the first line that the server sends does not begin with `OK`, or
/// the server sends none, a synchronous call ends in `Authentication`, and
/// the secret is all that was written: no byte of the command.
pub proof fn lemma_refused_sync_call<R, E>(
    secret: Seq<char>,
    line: Seq<char>,
    before: (Seq<Seq<char>>, Seq<u8>),
    after: (Seq<Seq<char>>, Seq<u8>),
    ok: spec_fn(Seq<char>, Result<R, ProtocolError>) -> bool,
    error: spec_fn(Seq<char>, Result<E, ProtocolError>) -> bool,
    r: Result<SyncResult<R, E>, ClientError>,
)
    requires
        sync_call_outcome(secret, line, before, after, ok, error, r),
        before.0.len() == 0 || !seq!['O', 'K'].is_prefix_of(before.0[0]),
    ensures
        r matches Err(ClientError::Authentication),
        after.1 == before.1 + encode_utf8(handshake_line(secret)),
{
}

/// Where the first line that the server sends does not begin with `OK`, or
/// the server sends none, an asynchronous call ends in `Authentication`,
/// and the secret is all that was written: no byte of the command.
pub proof fn lemma_refused_async_call<T, F>(
    secret: Seq<char>,
    line: Seq<char>,
    before: (Seq<Seq<char>>, Seq<u8>),
    after: (Seq<Seq<char>>, Seq<u8>),
    noted: Seq<Seq<char>>,
    task: spec_fn(Seq<char>, Result<Task, ProtocolError>) -> bool,
    message: spec_fn(Seq<char>, Result<Message, ProtocolError>) -> bool,
    finished: spec_fn(Seq<char>, Result<T, ProtocolError>) -> bool,
    failed: spec_fn(Seq<char>, Result<FailedResult<F>, ProtocolError>) -> bool,
    r: Result<AsyncResult<T, F>, ClientError>,
)
    requires
        async_call_outcome(secret, line, before, after, noted, task, message, finished, failed, r),
        before.0.len() == 0 || !seq!['O', 'K'].is_prefix_of(before.0[0]),
    ensures
        r matches Err(ClientError::Authentication),
        after.1 == before.1 + encode_utf8(handshake_line(secret)),
        noted.len() == 0,
{
}

/// An empty payload and the payload `null` read alike, as a text and as
/// nothing.
pub proof fn lemma_empty_reads_as_null(
    as_text: Result<String, ProtocolError>,
    as_unit: Result<(), ProtocolError>,
)
    ensures
        reads_as_text(Seq::empty(), as_text) <==> reads_as_text(seq!['n', 'u', 'l', 'l'], as_text),
        reads_as_unit(Seq::empty(), as_unit) <==> reads_as_unit(seq!['n', 'u', 'l', 'l'], as_unit),
{
}

} // verus!
