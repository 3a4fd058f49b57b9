//! The command encoder: one command, one line.

use vstd::prelude::*;
use vstd::string::*;

verus! {

/// A command for the server: its name and, where it takes an argument, the
/// JSON text of the argument.
#[derive(Clone, Debug, PartialEq, Eq)]
pub struct Command {
    pub name: String,
    pub args: Option<String>,
}

/// The line that carries a command: the name, one space, the JSON text of the
/// argument or nothing, and a newline.
pub open spec fn command_line(name: Seq<char>, args: Option<Seq<char>>) -> Seq<char> {
    let json = match args {
        Some(json) => json,
        None => Seq::empty(),
    };
    name + seq![' '] + json + seq!['\n']
}

impl Command {
    /// The JSON text of the argument, if there is one.
    pub open spec fn args_view(&self) -> Option<Seq<char>> {
        match self.args {
            Some(json) => Some(json@),
            None => None,
        }
    }

    /// The line that carries this command.
    pub open spec fn line(&self) -> Seq<char> {
        command_line(self.name@, self.args_view())
    }

    /// A command with the given name and argument.
    pub fn new(name: &str, args: Option<String>) -> (cmd: Command)
        ensures
            cmd.name@ == name@,
            cmd.args == args,
    {
        Command { name: name.to_owned(), args }
    }

    /// Converts the command to the newline-terminated line that the server
    /// understands.
    pub fn as_string(&self) -> (line: String)
        ensures
            line@ == self.line(),
    {
        proof {
            reveal_strlit(" ");
            reveal_strlit("\n");
        }
        let mut line = self.name.clone();
        line.append(" ");
        match &self.args {
            Some(json) => {
                line.append(json.as_str());
            },
            None => {},
        }
        line.append("\n");
        assert(line@ =~= self.line());
        line
    }

    /// Converts the command to the bytes of its line.
    pub fn as_bytes(&self) -> (bytes: Vec<u8>)
        ensures
            bytes@ == vstd::utf8::encode_utf8(self.line()),
    {
        self.as_string().as_str().as_bytes_vec()
    }
}

} // verus!
