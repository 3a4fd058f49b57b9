//! The arguments of the commands, the JSON text that carries them, and the
//! command that each request is.

use crate::command::{command_line, Command};
use crate::json::{
    encode_text, json_array, json_member, json_object, json_of_text, json_texts, member, object,
    text_array,
};
use crate::number::{bool_text, bool_text_of};
use crate::text::lines_of;
use vstd::prelude::*;
use vstd::string::*;

verus! {

/// Arguments for `cancel` command
#[derive(Clone, Debug, PartialEq, Eq)]
pub struct CancelArgs {
    /// Id of the task to try to cancel
    pub task: String,
}

/// Arguments for `session_build` and `session_start` commands
#[derive(Clone, Debug, PartialEq, Eq)]
pub struct SessionBuildArgs {
    /// Specifies the target session name. The build process will produce all required ancestor images according to the overall session graph.
    pub session: String,
    /// Environment of Isabelle system options is determined from preferences
    pub preferences: Option<String>,
    /// List of individual updates to the Isabelle system environment of the form `name=value` or `name`.
    pub options: Option<Vec<String>>,
    /// Specifies additional directories for session `ROOT`and `ROOTS` files
    pub dirs: Option<Vec<String>>,
    /// Specifies sessions whose theories should be included in the overall name space of session-qualified theory names.
    /// Corresponds to `session` specification in `ROOT` files.
    pub include_sessions: Vec<String>,
}

/// The arguments of `session_build` and `session_start`, under the name that
/// tells of both.
pub type SessionBuildStartArgs = SessionBuildArgs;

/// Arguments for `session_stop` command
#[derive(Clone, Debug, PartialEq, Eq)]
pub struct SessionStopArgs {
    /// Id of the session to stop
    pub session_id: String,
}

/// Arguments for `purge_theories` command
#[derive(Clone, Debug, PartialEq, Eq)]
pub struct PurgeTheoryArgs {
    pub session_id: String,
    pub theories: Vec<String>,
    pub master_dir: Option<String>,
    pub all: Option<bool>,
}

/// The member for `key` where `value` is present, and nothing where it is not.
pub open spec fn optional_text(key: Seq<char>, value: Option<String>) -> Seq<Seq<char>> {
    match value {
        Some(text) => seq![json_member(key, json_of_text(text@))],
        None => Seq::empty(),
    }
}

/// The member for `key` where `value` is present, and nothing where it is not.
pub open spec fn optional_texts(key: Seq<char>, value: Option<Vec<String>>) -> Seq<Seq<char>> {
    match value {
        Some(texts) => seq![json_member(key, json_array(json_texts(lines_of(texts@))))],
        None => Seq::empty(),
    }
}

/// The member for `key` where `value` is present, and nothing where it is not.
pub open spec fn optional_bool(key: Seq<char>, value: Option<bool>) -> Seq<Seq<char>> {
    match value {
        Some(b) => seq![json_member(key, bool_text_of(b))],
        None => Seq::empty(),
    }
}

/// The member for `key` where `value` holds anything, and nothing where it is
/// empty.
pub open spec fn nonempty_texts(key: Seq<char>, value: Vec<String>) -> Seq<Seq<char>> {
    if value@.len() > 0 {
        seq![json_member(key, json_array(json_texts(lines_of(value@))))]
    } else {
        Seq::empty()
    }
}

fn push_optional_text(members: &mut Vec<String>, key: &str, value: &Option<String>)
    ensures
        lines_of(final(members)@) == lines_of(old(members)@) + optional_text(key@, *value),
{
    match value {
        Some(text) => {
            members.push(member(key, encode_text(text.as_str()).as_str()));
        },
        None => {},
    }
    assert(lines_of(final(members)@) =~= lines_of(old(members)@) + optional_text(key@, *value));
}

fn push_optional_texts(members: &mut Vec<String>, key: &str, value: &Option<Vec<String>>)
    ensures
        lines_of(final(members)@) == lines_of(old(members)@) + optional_texts(key@, *value),
{
    match value {
        Some(texts) => {
            members.push(member(key, text_array(texts).as_str()));
        },
        None => {},
    }
    assert(lines_of(final(members)@) =~= lines_of(old(members)@) + optional_texts(key@, *value));
}

fn push_optional_bool(members: &mut Vec<String>, key: &str, value: &Option<bool>)
    ensures
        lines_of(final(members)@) == lines_of(old(members)@) + optional_bool(key@, *value),
{
    match value {
        Some(b) => {
            members.push(member(key, bool_text(*b).as_str()));
        },
        None => {},
    }
    assert(lines_of(final(members)@) =~= lines_of(old(members)@) + optional_bool(key@, *value));
}

fn push_nonempty_texts(members: &mut Vec<String>, key: &str, value: &Vec<String>)
    ensures
        lines_of(final(members)@) == lines_of(old(members)@) + nonempty_texts(key@, *value),
{
    if value.len() > 0 {
        members.push(member(key, text_array(value).as_str()));
    }
    assert(lines_of(final(members)@) =~= lines_of(old(members)@) + nonempty_texts(key@, *value));
}

fn owned_texts(texts: &[&str]) -> (owned: Vec<String>)
    ensures
        owned@.len() == texts@.len(),
        forall|i: int| 0 <= i < texts@.len() ==> (#[trigger] owned@[i])@ == texts@[i]@,
{
    let mut owned: Vec<String> = Vec::new();
    let mut i: usize = 0;
    while i < texts.len()
        invariant
            i <= texts@.len(),
            owned@.len() == i,
            forall|j: int| 0 <= j < i ==> (#[trigger] owned@[j])@ == texts@[j]@,
        decreases texts@.len() - i,
    {
        owned.push(texts[i].to_owned());
        i = i + 1;
    }
    owned
}

impl CancelArgs {
    /// The JSON text of these arguments.
    pub open spec fn json(&self) -> Seq<char> {
        json_object(seq![json_member("task"@, json_of_text(self.task@))])
    }

    /// Writes these arguments as JSON.
    pub fn to_json(&self) -> (text: String)
        ensures
            text@ == self.json(),
    {
        let mut members: Vec<String> = Vec::new();
        members.push(member("task", encode_text(self.task.as_str()).as_str()));
        assert(lines_of(members@) =~= seq![json_member("task"@, json_of_text(self.task@))]);
        object(&members)
    }
}

impl SessionStopArgs {
    /// The JSON text of these arguments.
    pub open spec fn json(&self) -> Seq<char> {
        json_object(seq![json_member("session_id"@, json_of_text(self.session_id@))])
    }

    /// Writes these arguments as JSON.
    pub fn to_json(&self) -> (text: String)
        ensures
            text@ == self.json(),
    {
        let mut members: Vec<String> = Vec::new();
        members.push(member("session_id", encode_text(self.session_id.as_str()).as_str()));
        assert(lines_of(members@) =~= seq![
            json_member("session_id"@, json_of_text(self.session_id@)),
        ]);
        object(&members)
    }
}

impl SessionBuildArgs {
    /// Arguments that name the session and leave everything else out.
    pub fn session(session: &str) -> (args: Self)
        ensures
            args.session@ == session@,
            args.preferences is None,
            args.options is None,
            args.dirs is None,
            args.include_sessions@.len() == 0,
    {
        SessionBuildArgs {
            session: session.to_owned(),
            preferences: None,
            options: None,
            dirs: None,
            include_sessions: Vec::new(),
        }
    }

    /// The JSON text of these arguments: the session, then each of the
    /// optional members that is present, and the included sessions where
    /// there are any.
    pub open spec fn json(&self) -> Seq<char> {
        json_object(
            seq![json_member("session"@, json_of_text(self.session@))] + optional_text(
                "preferences"@,
                self.preferences,
            ) + optional_texts("options"@, self.options) + optional_texts("dirs"@, self.dirs)
                + nonempty_texts("include_sessions"@, self.include_sessions),
        )
    }

    /// Writes these arguments as JSON.
    pub fn to_json(&self) -> (text: String)
        ensures
            text@ == self.json(),
    {
        let mut members: Vec<String> = Vec::new();
        members.push(member("session", encode_text(self.session.as_str()).as_str()));
        assert(lines_of(members@) =~= seq![json_member("session"@, json_of_text(self.session@))]);
        push_optional_text(&mut members, "preferences", &self.preferences);
        push_optional_texts(&mut members, "options", &self.options);
        push_optional_texts(&mut members, "dirs", &self.dirs);
        push_nonempty_texts(&mut members, "include_sessions", &self.include_sessions);
        object(&members)
    }
}

impl PurgeTheoryArgs {
    /// Arguments that name the session and the theories and leave
    /// everything else out.
    pub fn for_session(session_id: &str, theories: &[&str]) -> (args: Self)
        ensures
            args.session_id@ == session_id@,
            args.theories@.len() == theories@.len(),
            forall|i: int| 0 <= i < theories@.len() ==> (#[trigger] args.theories@[i])@ == theories@[i]@,
            args.master_dir is None,
            args.all is None,
    {
        PurgeTheoryArgs {
            session_id: session_id.to_owned(),
            theories: owned_texts(theories),
            master_dir: None,
            all: None,
        }
    }

    /// The JSON text of these arguments: the session and the theories, then
    /// each of the optional members that is present.
    pub open spec fn json(&self) -> Seq<char> {
        json_object(
            seq![
                json_member("session_id"@, json_of_text(self.session_id@)),
                json_member("theories"@, json_array(json_texts(lines_of(self.theories@)))),
            ] + optional_text("master_dir"@, self.master_dir) + optional_bool("all"@, self.all),
        )
    }

    /// Writes these arguments as JSON.
    pub fn to_json(&self) -> (text: String)
        ensures
            text@ == self.json(),
    {
        let mut members: Vec<String> = Vec::new();
        members.push(member("session_id", encode_text(self.session_id.as_str()).as_str()));
        members.push(member("theories", text_array(&self.theories).as_str()));
        assert(lines_of(members@) =~= seq![
            json_member("session_id"@, json_of_text(self.session_id@)),
            json_member("theories"@, json_array(json_texts(lines_of(self.theories@)))),
        ]);
        push_optional_text(&mut members, "master_dir", &self.master_dir);
        push_optional_bool(&mut members, "all", &self.all);
        object(&members)
    }
}

impl Command {
    /// The `echo` command: the server hands the text back.
    pub fn echo(echo: &str) -> (cmd: Command)
        ensures
            cmd.line() == command_line("echo"@, Some(json_of_text(echo@))),
    {
        Command::new("echo", Some(encode_text(echo)))
    }

    /// The `shutdown` command, which takes no argument.
    pub fn shutdown() -> (cmd: Command)
        ensures
            cmd.line() == command_line("shutdown"@, None),
    {
        Command::new("shutdown", None)
    }

    /// The `cancel` command.
    pub fn cancel(args: &CancelArgs) -> (cmd: Command)
        ensures
            cmd.line() == command_line("cancel"@, Some(args.json())),
    {
        Command::new("cancel", Some(args.to_json()))
    }

    /// The `session_build` command.
    pub fn session_build(args: &SessionBuildArgs) -> (cmd: Command)
        ensures
            cmd.line() == command_line("session_build"@, Some(args.json())),
    {
        Command::new("session_build", Some(args.to_json()))
    }

    /// The `session_start` command.
    pub fn session_start(args: &SessionBuildArgs) -> (cmd: Command)
        ensures
            cmd.line() == command_line("session_start"@, Some(args.json())),
    {
        Command::new("session_start", Some(args.to_json()))
    }

    /// The `session_stop` command.
    pub fn session_stop(args: &SessionStopArgs) -> (cmd: Command)
        ensures
            cmd.line() == command_line("session_stop"@, Some(args.json())),
    {
        Command::new("session_stop", Some(args.to_json()))
    }

    /// The `use_theories` command, on the JSON text of its arguments.
    pub fn use_theories(args_json: &str) -> (cmd: Command)
        ensures
            cmd.line() == command_line("use_theories"@, Some(args_json@)),
    {
        Command::new("use_theories", Some(args_json.to_owned()))
    }

    /// The `purge_theories` command.
    pub fn purge_theories(args: &PurgeTheoryArgs) -> (cmd: Command)
        ensures
            cmd.line() == command_line("purge_theories"@, Some(args.json())),
    {
        Command::new("purge_theories", Some(args.to_json()))
    }
}

} // verus!
