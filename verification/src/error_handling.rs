//! An error as a list of messages: what went wrong first, then what was
//! being done at the time, from the innermost task outwards.

use crate::util::text::{append_decimal, decimal_text};
use vstd::prelude::*;
use vstd::string::*;

verus! {

pub struct ExceptionDetails {
    pub messages: Vec<String>,
}

impl View for ExceptionDetails {
    type V = Seq<Seq<char>>;

    open spec fn view(&self) -> Seq<Seq<char>> {
        self.messages@.map_values(|message: String| message@)
    }
}

/// The first `upto` messages, one to a line: a line break stands between
/// two messages and none behind the last.
pub open spec fn joined(messages: Seq<Seq<char>>, upto: int) -> Seq<char>
    decreases upto,
{
    if upto <= 0 || upto > messages.len() {
        Seq::empty()
    } else if upto == 1 {
        messages[0]
    } else {
        joined(messages, upto - 1) + "\n"@ + messages[upto - 1]
    }
}

impl ExceptionDetails {
    /// An error with its first message.
    pub fn new(message: String) -> (details: ExceptionDetails)
        ensures
            details@ == seq![message@],
    {
        let mut messages = Vec::new();
        messages.push(message);
        let details = ExceptionDetails { messages };
        assert(details@ =~= seq![message@]);
        details
    }

    /// Adds what was being done when the error passed.
    pub fn push(&mut self, message: String)
        ensures
            final(self)@ == old(self)@.push(message@),
    {
        self.messages.push(message);
        assert(self@ =~= old(self)@.push(message@));
    }

    /// The text of the error: its messages, one to a line.
    pub fn render(&self) -> (text: String)
        ensures
            text@ == joined(self@, self@.len() as int),
    {
        let mut text = "".to_owned();
        assert(text@ =~= Seq::empty()) by {
            reveal_strlit("");
        }
        let mut index: usize = 0;
        while index < self.messages.len()
            invariant
                index <= self.messages@.len(),
                self@.len() == self.messages@.len(),
                text@ == joined(self@, index as int),
            decreases self.messages@.len() - index,
        {
            let ghost before = text@;
            if index > 0 {
                text.append("\n");
            }
            text.append(self.messages[index].as_str());
            assert(self@[index as int] == self.messages@[index as int]@);
            assert(text@ =~= joined(self@, index + 1)) by {
                if index == 0 {
                    assert(before + self@[0] =~= self@[0]);
                }
            }
            index += 1;
        }
        text
    }
}

pub type EhResult<T> = Result<T, ExceptionDetails>;

/// The line that says what was being done: ` -> ` and the task.
pub open spec fn task_line(task: Seq<char>) -> Seq<char> {
    " -> "@ + task
}

/// The line that says what was being done and where: ` -> `, the task,
/// ` @ `, the file, ` | `, the line, `:`, the column.
pub open spec fn detailed_line(task: Seq<char>, file: Seq<char>, line: u32, column: u32) -> Seq<
    char,
> {
    " -> "@ + task + " @ "@ + file + " | "@ + decimal_text(line as nat) + ":"@ + decimal_text(
        column as nat,
    )
}

/// Adds to an error what was being done when it passed.
pub trait ResultExceptionDetailsExt<T>: Sized {
    fn while_doing(self, while_doing_what: &str) -> EhResult<T>;

    fn while_doing_detailed(
        self,
        file_location: &str,
        file_line: u32,
        file_column: u32,
        while_doing_what: String,
    ) -> EhResult<T>;
}

impl<T> ResultExceptionDetailsExt<T> for EhResult<T> {
    /// Adds the line of the task, and the task by itself.
    fn while_doing(self, while_doing_what: &str) -> (r: EhResult<T>)
        ensures
            match self {
                Ok(value) => r is Ok && r->Ok_0 == value,
                Err(details) => r is Err && r->Err_0@ == details@.push(
                    task_line(while_doing_what@),
                ).push(while_doing_what@),
            },
    {
        match self {
            Ok(val) => Ok(val),
            Err(err) => {
                let mut err = err;
                let mut line = " -> ".to_owned();
                line.append(while_doing_what);
                err.push(line);
                err.push(while_doing_what.to_owned());
                Err(err)
            },
        }
    }

    /// Adds the line of the task and of the place.
    fn while_doing_detailed(
        self,
        file_location: &str,
        file_line: u32,
        file_column: u32,
        while_doing_what: String,
    ) -> (r: EhResult<T>)
        ensures
            match self {
                Ok(value) => r is Ok && r->Ok_0 == value,
                Err(details) => r is Err && r->Err_0@ == details@.push(
                    detailed_line(while_doing_what@, file_location@, file_line, file_column),
                ),
            },
    {
        match self {
            Ok(val) => Ok(val),
            Err(err) => {
                let mut err = err;
                let mut line = " -> ".to_owned();
                line.append(while_doing_what.as_str());
                line.append(" @ ");
                line.append(file_location);
                line.append(" | ");
                append_decimal(&mut line, file_line);
                line.append(":");
                append_decimal(&mut line, file_column);
                assert(line@ =~= detailed_line(
                    while_doing_what@,
                    file_location@,
                    file_line,
                    file_column,
                ));
                err.push(line);
                Err(err)
            },
        }
    }
}

} // verus!
