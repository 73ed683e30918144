//! The commands of a staff register, read from a line of text.

use crate::text::same_text;
use vstd::prelude::*;
use vstd::string::*;

verus! {

/// What a line asks the register to do.
pub enum Command {
    /// Enter `name` in `department`.
    Add { name: String, department: String },
    /// List the staff of `department`.
    List { department: String },
    /// List the staff of every department.
    All,
    /// Leave.
    Quit,
    /// The line is none of the above.
    InputError,
}

/// A command as contracts see it: the same cases, over the characters of the
/// names.
pub enum CommandText {
    Add { name: Seq<char>, department: Seq<char> },
    List { department: Seq<char> },
    All,
    Quit,
    InputError,
}

impl View for Command {
    type V = CommandText;

    open spec fn view(&self) -> CommandText {
        match self {
            Command::Add { name, department } => CommandText::Add {
                name: name@,
                department: department@,
            },
            Command::List { department } => CommandText::List { department: department@ },
            Command::All => CommandText::All,
            Command::Quit => CommandText::Quit,
            Command::InputError => CommandText::InputError,
        }
    }
}

/// The words of `line`, as `str::split_whitespace` gives them.
pub uninterp spec fn words_of(line: Seq<char>) -> Seq<Seq<char>>;

/// Calls `str::split_whitespace`, which yields the parts of the line that
/// whitespace separates, and collects them in their order. The result
/// depends on the characters of `line` alone; the contract gives it the name
/// `words_of` and claims nothing else of it.
#[verifier::external_body]
fn split_words<'a>(line: &'a str) -> (words: Vec<&'a str>)
    ensures
        words.deep_view() == words_of(line@),
{
    line.split_whitespace().collect()
}

/// The command that a sequence of words stands for: `Add`, a name, `to` and
/// a department; `List` and a department; `All`; `Quit`. Any other sequence
/// is an input error.
pub open spec fn command_of(words: Seq<Seq<char>>) -> CommandText {
    if words.len() == 4 && words[0] == "Add"@ && words[2] == "to"@ {
        CommandText::Add { name: words[1], department: words[3] }
    } else if words.len() == 2 && words[0] == "List"@ {
        CommandText::List { department: words[1] }
    } else if words.len() == 1 && words[0] == "All"@ {
        CommandText::All
    } else if words.len() == 1 && words[0] == "Quit"@ {
        CommandText::Quit
    } else {
        CommandText::InputError
    }
}

impl Command {
    /// The command that `words` stand for.
    pub fn from_words(words: &Vec<&str>) -> (command: Command)
        ensures
            command@ == command_of(words.deep_view()),
    {
        let ghost texts = words.deep_view();
        proof {
            assert forall|i: int| 0 <= i < words.len() implies texts[i] == #[trigger] words[i]@ by {}
        }
        let count = words.len();
        if count == 4 && same_text(words[0], "Add") && same_text(words[2], "to") {
            Command::Add {
                name: String::from_str(words[1]),
                department: String::from_str(words[3]),
            }
        } else if count == 2 && same_text(words[0], "List") {
            Command::List { department: String::from_str(words[1]) }
        } else if count == 1 && same_text(words[0], "All") {
            Command::All
        } else if count == 1 && same_text(words[0], "Quit") {
            Command::Quit
        } else {
            Command::InputError
        }
    }

    /// The command that `line` stands for: the command of its words.
    pub fn parse_line(line: &str) -> (command: Command)
        ensures
            command@ == command_of(words_of(line@)),
    {
        let words = split_words(line);
        Command::from_words(&words)
    }
}

} // verus!
