use crate::text::str_eq;
use vstd::prelude::*;

verus! {

/// The commands that the shell carries out itself. The set is closed.
#[derive(Clone, Copy, Debug, PartialEq, Eq, Structural)]
pub enum ShellCommand {
    Echo,
    Type,
    Exit,
    Pwd,
    Cd,
}

impl ShellCommand {
    /// The name under which the command is invoked.
    pub open spec fn name(self) -> Seq<char> {
        match self {
            ShellCommand::Echo => "echo"@,
            ShellCommand::Type => "type"@,
            ShellCommand::Exit => "exit"@,
            ShellCommand::Pwd => "pwd"@,
            ShellCommand::Cd => "cd"@,
        }
    }

    /// The command whose name is exactly `s`, if there is one.
    pub open spec fn named(s: Seq<char>) -> Option<ShellCommand> {
        if s == "echo"@ {
            Some(ShellCommand::Echo)
        } else if s == "type"@ {
            Some(ShellCommand::Type)
        } else if s == "exit"@ {
            Some(ShellCommand::Exit)
        } else if s == "pwd"@ {
            Some(ShellCommand::Pwd)
        } else if s == "cd"@ {
            Some(ShellCommand::Cd)
        } else {
            None
        }
    }

    /// The name under which the command is invoked.
    pub fn as_str(&self) -> (r: &'static str)
        ensures
            r@ == self.name(),
    {
        match self {
            ShellCommand::Echo => "echo",
            ShellCommand::Type => "type",
            ShellCommand::Exit => "exit",
            ShellCommand::Pwd => "pwd",
            ShellCommand::Cd => "cd",
        }
    }

    /// The command whose name is exactly `input`. No other spelling is
    /// accepted: not another case, nor white space around the name.
    pub fn from_str(input: &str) -> (r: Option<ShellCommand>)
        ensures
            r == Self::named(input@),
    {
        if str_eq(input, "echo") {
            Some(ShellCommand::Echo)
        } else if str_eq(input, "type") {
            Some(ShellCommand::Type)
        } else if str_eq(input, "exit") {
            Some(ShellCommand::Exit)
        } else if str_eq(input, "pwd") {
            Some(ShellCommand::Pwd)
        } else if str_eq(input, "cd") {
            Some(ShellCommand::Cd)
        } else {
            None
        }
    }
}

/// Every command is found again under its own name, and under no other string.
pub proof fn lemma_names_identify(c: ShellCommand, s: Seq<char>)
    ensures
        ShellCommand::named(c.name()) == Some(c),
        ShellCommand::named(s) == Some(c) <==> s == c.name(),
{
    reveal_strlit("echo");
    reveal_strlit("type");
    reveal_strlit("exit");
    reveal_strlit("pwd");
    reveal_strlit("cd");
    assert("echo"@.len() == 4 && "echo"@[1] == 'c');
    assert("type"@.len() == 4 && "type"@[1] == 'y');
    assert("exit"@.len() == 4 && "exit"@[1] == 'x');
    assert("pwd"@.len() == 3);
    assert("cd"@.len() == 2);
}

} // verus!
