use crate::piece::{plain, plain_text};
use crate::printer::{
    can_print, lemma_tokenizer_prints_all, print_tokens, printable, printed, Line, Profile,
    SpecLine,
};
use crate::scanner::{has_error, interpret_tokens, scan};
use crate::text::same_text;
use vstd::prelude::*;

verus! {

/// What is to be done with a source file.
#[derive(Debug, PartialEq, Eq, Clone, Copy)]
pub enum Command {
    /// Describe every token, and mark the end of the input.
    Tokenize,
    /// Write the value of every token.
    Parse,
}

/// The command that goes by `name`.
pub open spec fn command_named(name: Seq<char>) -> Option<Command> {
    if name == "tokenize"@ {
        Some(Command::Tokenize)
    } else if name == "parse"@ {
        Some(Command::Parse)
    } else {
        None
    }
}

/// The exit status after a run: 65 where a line had a lexical error, else 0.
pub open spec fn exit_status(failed: bool) -> int {
    if failed {
        65
    } else {
        0
    }
}

/// The lines that end the output of `command`: under `Tokenize` the marker of
/// the end of the input, under `Parse` none.
pub open spec fn closing_lines(command: Command) -> Seq<SpecLine> {
    match command {
        Command::Tokenize => seq![SpecLine::Output(plain("EOF  null"@))],
        Command::Parse => Seq::empty(),
    }
}

impl Command {
    /// Looks up the command that goes by `name`.
    pub fn named(name: &str) -> (command: Option<Command>)
        ensures
            command == command_named(name@),
    {
        if same_text(name, "tokenize") {
            Some(Command::Tokenize)
        } else if same_text(name, "parse") {
            Some(Command::Parse)
        } else {
            None
        }
    }

    /// The profile under which the command renders tokens.
    pub open spec fn spec_profile(self) -> Profile {
        match self {
            Command::Tokenize => Profile::Tokenizer,
            Command::Parse => Profile::Parser,
        }
    }

    /// The profile under which the command renders tokens.
    #[verifier::when_used_as_spec(spec_profile)]
    pub fn profile(self) -> (profile: Profile)
        ensures
            profile == self.spec_profile(),
    {
        match self {
            Command::Tokenize => Profile::Tokenizer,
            Command::Parse => Profile::Parser,
        }
    }
}

/// The run of one command over the lines of one source file.
pub struct Session {
    command: Command,
    failed: bool,
}

impl Session {
    /// The command that the session runs.
    pub closed spec fn command(&self) -> Command {
        self.command
    }

    /// Whether a line that the session was fed had a lexical error.
    pub closed spec fn failed(&self) -> bool {
        self.failed
    }

    /// Begins a run of `command`: no line has been fed, none has failed.
    pub fn new(command: Command) -> (session: Session)
        ensures
            session.command() == command,
            !session.failed(),
    {
        Session { command, failed: false }
    }

    /// Scans the line `line` with number `line_number` and renders its
    /// tokens.
    ///
    /// Gives the lines to write. Gives `None` where the command cannot
    /// render one of the tokens, which `Tokenize` always can; the line counts
    /// all the same.
    pub fn feed(&mut self, line_number: usize, line: String) -> (lines: Option<Vec<Line>>)
        ensures
            old(self).command() == Command::Tokenize ==> lines is Some,
            final(self).command() == old(self).command(),
            final(self).failed() == (old(self).failed() || has_error(
                scan(line_number as nat, line@),
            )),
            match lines {
                Some(lines) => printable(
                    scan(line_number as nat, line@),
                    old(self).command().profile(),
                ) && lines.deep_view() == printed(
                    scan(line_number as nat, line@),
                    old(self).command().profile(),
                ),
                None => !printable(scan(line_number as nat, line@), old(self).command().profile()),
            },
    {
        let (tokens, ok) = interpret_tokens(line_number, line);
        proof {
            lemma_tokenizer_prints_all(tokens.deep_view());
        }
        if !ok {
            self.failed = true;
        }
        let profile = self.command.profile();
        let tokens = tokens.as_slice();
        assert(tokens.deep_view() == scan(line_number as nat, line@));
        if can_print(tokens, profile) {
            Some(print_tokens(tokens, profile))
        } else {
            None
        }
    }

    /// Ends the run: gives the lines that close the output, and the exit
    /// status.
    pub fn finish(self) -> (end: (Vec<Line>, i32))
        ensures
            end.0.deep_view() == closing_lines(self.command()),
            end.1 == exit_status(self.failed()),
    {
        let mut lines: Vec<Line> = Vec::new();
        match self.command {
            Command::Tokenize => {
                lines.push(Line::Output(plain_text(String::from_str("EOF  null"))));
            },
            Command::Parse => {},
        }
        assert(lines.deep_view() == closing_lines(self.command()));
        let status: i32 = if self.failed {
            65
        } else {
            0
        };
        (lines, status)
    }
}

} // verus!
