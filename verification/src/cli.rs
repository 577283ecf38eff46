//! The commands of the tracker, and what each of them prints.

use crate::order::{is_listing_of, sort_tasks};
use crate::task::{complete, delete, get_all, save, undo, Task, TaskView};
use crate::util::{is_task_id, Config};
use vstd::prelude::*;
use vstd::string::StringExecFns;
use vstd::utf8::encode_utf8_decode_utf8;

verus! {

/// The line that shows one task: a completion mark in brackets, the
/// identifier and the name, as in `[ ] a1b2c3d4 Buy milk`.
pub open spec fn task_line(task: TaskView) -> Seq<char> {
    seq!['[', if task.done { 'X' } else { ' ' }, ']', ' '] + task.id + seq![' '] + task.name
}

/// The lines of `tasks`, in their order, with a line feed between every two.
pub open spec fn listing_text(tasks: Seq<TaskView>) -> Seq<char>
    decreases tasks.len(),
{
    if tasks.len() == 0 {
        Seq::empty()
    } else if tasks.len() == 1 {
        task_line(tasks[0])
    } else {
        listing_text(tasks.drop_last()) + seq!['\n'] + task_line(tasks.last())
    }
}

/// Renders one task as a line of the listing.
pub fn task_to_string(task: &Task) -> (line: String)
    ensures
        line@ == task_line(task@),
{
    let mark = if task.done { "[X] " } else { "[ ] " };
    proof {
        reveal_strlit("[X] ");
        reveal_strlit("[ ] ");
        reveal_strlit(" ");
    }
    let mut line = String::from_str(mark);
    line.append(task.id.as_str());
    line.append(" ");
    line.append(task.name.as_str());
    assert(line@ =~= task_line(task@));
    line
}

/// Renders tasks in the order given, one line each.
pub fn render_list(tasks: &Vec<Task>) -> (text: String)
    ensures
        text@ == listing_text(tasks.deep_view()),
{
    let mut text = String::new();
    let mut i: usize = 0;
    while i < tasks.len()
        invariant
            i <= tasks.len(),
            text@ == listing_text(tasks.deep_view().take(i as int)),
        decreases tasks.len() - i,
    {
        let line = task_to_string(&tasks[i]);
        if i > 0 {
            proof {
                reveal_strlit("\n");
            }
            text.append("\n");
        }
        text.append(line.as_str());
        proof {
            let before = tasks.deep_view().take(i as int);
            let now = tasks.deep_view().take(i + 1);
            assert(now.drop_last() =~= before);
        }
        i += 1;
    }
    assert(tasks.deep_view().take(tasks.len() as int) =~= tasks.deep_view());
    text
}

/// What the `list` command prints for the stored tasks: their lines in
/// listing order.
pub fn list_output(tasks: Vec<Task>) -> (text: String)
    ensures
        exists|listed: Seq<TaskView>| #[trigger]
            is_listing_of(listed, tasks.deep_view()) && text@ == listing_text(listed),
{
    let sorted = sort_tasks(tasks);
    render_list(&sorted)
}

/// A command of the tracker, with the argument it works on.
#[derive(Debug)]
pub enum Command {
    /// `add NAME`: store a new task.
    Add { name: String },
    /// `del ID`: remove a task.
    Del { id: String },
    /// `do ID`: mark a task as done.
    Do { id: String },
    /// `undo ID`: mark a task as not done.
    Undo { id: String },
    /// `list`: show every task.
    List,
    /// Anything else.
    Invalid,
}

/// The mathematical content of a [`Command`].
pub enum CommandView {
    Add { name: Seq<char> },
    Del { id: Seq<char> },
    Do { id: Seq<char> },
    Undo { id: Seq<char> },
    List,
    Invalid,
}

impl View for Command {
    type V = CommandView;

    open spec fn view(&self) -> CommandView {
        match *self {
            Command::Add { name } => CommandView::Add { name: name@ },
            Command::Del { id } => CommandView::Del { id: id@ },
            Command::Do { id } => CommandView::Do { id: id@ },
            Command::Undo { id } => CommandView::Undo { id: id@ },
            Command::List => CommandView::List,
            Command::Invalid => CommandView::Invalid,
        }
    }
}

/// Whether a subcommand of this name works on an argument.
pub open spec fn takes_argument(subcommand: Seq<char>) -> bool {
    subcommand == "add"@ || subcommand == "del"@ || subcommand == "do"@ || subcommand == "undo"@
}

/// The command that a subcommand name and its argument stand for. A missing
/// name, and a name that is none of the five, stand for [`Command::Invalid`].
pub open spec fn command_of(subcommand: Option<&str>, argument: Option<&str>) -> CommandView {
    match (subcommand, argument) {
        (Some(sub), Some(arg)) => if sub@ == "add"@ {
            CommandView::Add { name: arg@ }
        } else if sub@ == "del"@ {
            CommandView::Del { id: arg@ }
        } else if sub@ == "do"@ {
            CommandView::Do { id: arg@ }
        } else if sub@ == "undo"@ {
            CommandView::Undo { id: arg@ }
        } else if sub@ == "list"@ {
            CommandView::List
        } else {
            CommandView::Invalid
        },
        (Some(sub), None) => if sub@ == "list"@ {
            CommandView::List
        } else {
            CommandView::Invalid
        },
        (None, _) => CommandView::Invalid,
    }
}

/// Whether two strings hold the same text.
pub fn same_text(a: &str, b: &str) -> (same: bool)
    ensures
        same == (a@ == b@),
{
    let x = a.as_bytes();
    let y = b.as_bytes();
    assert((a@ == b@) == (x@ == y@)) by {
        encode_utf8_decode_utf8(a@);
        encode_utf8_decode_utf8(b@);
    }
    if x.len() != y.len() {
        return false;
    }
    let mut i: usize = 0;
    while i < x.len()
        invariant
            (a@ == b@) == (x@ == y@),
            i <= x@.len(),
            x@.len() == y@.len(),
            forall|j: int| 0 <= j < i ==> x@[j] == y@[j],
        decreases x@.len() - i,
    {
        if x[i] != y[i] {
            return false;
        }
        i += 1;
    }
    assert(x@ =~= y@);
    true
}

/// Tells whether a subcommand of this name works on an argument.
pub fn needs_argument(subcommand: &str) -> (needs: bool)
    ensures
        needs == takes_argument(subcommand@),
{
    same_text(subcommand, "add") || same_text(subcommand, "del") || same_text(subcommand, "do")
        || same_text(subcommand, "undo")
}

/// Reads a command from the subcommand name and the argument that the
/// command line held. The four subcommands that work on an argument need
/// one.
pub fn parse_command(subcommand: Option<&str>, argument: Option<&str>) -> (command: Command)
    requires
        subcommand matches Some(sub) && takes_argument(sub@) ==> argument is Some,
    ensures
        command@ == command_of(subcommand, argument),
{
    proof {
        reveal_strlit("add");
        reveal_strlit("del");
        reveal_strlit("do");
        reveal_strlit("undo");
        reveal_strlit("list");
        assert("add"@[0] != "del"@[0]);
        assert("undo"@[0] != "list"@[0]);
    }
    match subcommand {
        None => Command::Invalid,
        Some(sub) => {
            if same_text(sub, "list") {
                Command::List
            } else {
                match argument {
                    None => Command::Invalid,
                    Some(arg) => {
                        if same_text(sub, "add") {
                            Command::Add { name: String::from_str(arg) }
                        } else if same_text(sub, "del") {
                            Command::Del { id: String::from_str(arg) }
                        } else if same_text(sub, "do") {
                            Command::Do { id: String::from_str(arg) }
                        } else if same_text(sub, "undo") {
                            Command::Undo { id: String::from_str(arg) }
                        } else {
                            Command::Invalid
                        }
                    },
                }
            }
        },
    }
}

/// Carries out `command` on the database and returns the line to print:
/// the identifier of the task it worked on, or the listing. Whether the
/// database takes the command is for the database to say; an invalid
/// command never reaches it.
pub fn run(command: &Command, config: &Config) -> (printed: Result<String, rusqlite::Error>)
    ensures
        printed matches Ok(line) ==> match command@ {
            CommandView::Add { name } => is_task_id(line@),
            CommandView::Del { id } => line@ == id,
            CommandView::Do { id } => line@ == id,
            CommandView::Undo { id } => line@ == id,
            CommandView::List => exists|listed: Seq<TaskView>, tasks: Seq<TaskView>| #[trigger]
                is_listing_of(listed, tasks) && line@ == listing_text(listed),
            CommandView::Invalid => line@ == "Invalid subcommand"@,
        },
        command@ is Invalid ==> printed is Ok,
{
    match command {
        Command::Add { name } => {
            let task = Task::new(name.as_str());
            save(task, &config.conn)
        },
        Command::Del { id } => match delete(id.as_str(), &config.conn) {
            Ok(()) => Ok(id.clone()),
            Err(e) => Err(e),
        },
        Command::Do { id } => match complete(id.as_str(), &config.conn) {
            Ok(()) => Ok(id.clone()),
            Err(e) => Err(e),
        },
        Command::Undo { id } => match undo(id.as_str(), &config.conn) {
            Ok(()) => Ok(id.clone()),
            Err(e) => Err(e),
        },
        Command::List => match get_all(&config.conn) {
            Ok(tasks) => Ok(list_output(tasks)),
            Err(e) => Err(e),
        },
        Command::Invalid => Ok(String::from_str("Invalid subcommand")),
    }
}

} // verus!
