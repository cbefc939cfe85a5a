//! The command dispatcher: one of five operations applied once to the
//! in-memory task list.
//!
//! Each run handles a single command. Validation failures leave the list
//! as it was and tell the caller not to save; every other path falls
//! through to the save step, whether or not the list changed.

use vstd::prelude::*;
use crate::codec::line_views;
use crate::strutil::{all_digits, dec_value, pad_right, padded, parse_usize, str_eq};
use crate::task::{ids_dense, row_spec, Task};

verus! {

/// Creation rejects names longer than this many characters.
pub const MAX_NAME_LEN: usize = 80;

/// The five commands, and anything else.
#[derive(Clone, Copy, Debug, PartialEq, Eq, Structural)]
pub enum Command {
    Help,
    View,
    New,
    Complete,
    Del,
    Unknown,
}

/// How a command name is read.
pub open spec fn command_spec(s: Seq<char>) -> Command {
    if s == "help"@ {
        Command::Help
    } else if s == "view"@ {
        Command::View
    } else if s == "new"@ {
        Command::New
    } else if s == "complete"@ {
        Command::Complete
    } else if s == "del"@ {
        Command::Del
    } else {
        Command::Unknown
    }
}

/// Reads the first command-line argument as a command.
pub fn parse_command(cmd: &str) -> (r: Command)
    ensures
        r == command_spec(cmd@),
{
    if str_eq(cmd, "help") {
        Command::Help
    } else if str_eq(cmd, "view") {
        Command::View
    } else if str_eq(cmd, "new") {
        Command::New
    } else if str_eq(cmd, "complete") {
        Command::Complete
    } else if str_eq(cmd, "del") {
        Command::Del
    } else {
        Command::Unknown
    }
}

/// A validation failure that aborts the run before the save step.
#[derive(Debug)]
pub enum CommandError {
    /// The wrong number of arguments for the command.
    InvalidArgumentCount,
    /// An id argument that is not an integer or not a current task id.
    InvalidTaskId,
    /// A new task's name is longer than [`MAX_NAME_LEN`] characters.
    TaskNameTooLong(String),
}

/// `s` names a task id of a list of `n_tasks` tasks: one or more digits
/// whose value is a current position.
pub open spec fn valid_id_str(s: Seq<char>, n_tasks: nat) -> bool {
    s.len() > 0 && all_digits(s) && dec_value(s) < n_tasks
}

/// Parses each argument as a task id; fails if any is not an integer or
/// exceeds `max`.
pub fn parse_task_ids(arguments: &Vec<String>, max: usize) -> (r: Result<Vec<usize>, CommandError>)
    ensures
        match r {
            Ok(ids) => {
                &&& ids@.len() == arguments@.len()
                &&& forall|i: int|
                    0 <= i < arguments@.len() ==> {
                        let s = (#[trigger] arguments@[i])@;
                        s.len() > 0 && all_digits(s) && dec_value(s) <= max as nat
                    }
                &&& forall|i: int|
                    0 <= i < ids@.len() ==> (#[trigger] ids@[i]) as nat == dec_value(
                        arguments@[i]@,
                    )
            },
            Err(e) => {
                &&& e == CommandError::InvalidTaskId
                &&& exists|i: int|
                    0 <= i < arguments@.len() && {
                        let s = (#[trigger] arguments@[i])@;
                        s.len() == 0 || !all_digits(s) || dec_value(s) > max as nat
                    }
            },
        },
{
    let mut ids: Vec<usize> = Vec::new();
    let mut i: usize = 0;
    while i < arguments.len()
        invariant
            i <= arguments@.len(),
            ids@.len() == i,
            forall|j: int|
                0 <= j < i ==> {
                    let s = (#[trigger] arguments@[j])@;
                    s.len() > 0 && all_digits(s) && dec_value(s) <= max as nat
                },
            forall|j: int|
                0 <= j < i ==> (#[trigger] ids@[j]) as nat == dec_value(arguments@[j]@),
        decreases arguments@.len() - i,
    {
        match parse_usize(arguments[i].as_str()) {
            Some(v) => {
                if v > max {
                    return Err(CommandError::InvalidTaskId);
                }
                ids.push(v);
            },
            None => {
                return Err(CommandError::InvalidTaskId);
            },
        }
        i = i + 1;
    }
    Ok(ids)
}

/// The new list is the old one with one incomplete task per name in
/// `names[..k]` appended, ids continuing from the old length.
pub open spec fn new_tasks_appended(
    old_ts: Seq<Task>,
    new_ts: Seq<Task>,
    names: Seq<String>,
    k: int,
) -> bool {
    &&& new_ts.len() == old_ts.len() + k
    &&& forall|i: int| 0 <= i < old_ts.len() ==> #[trigger] new_ts[i] == old_ts[i]
    &&& forall|i: int|
        old_ts.len() <= i < new_ts.len() ==> {
            let t = #[trigger] new_ts[i];
            &&& t@.name == names[i - old_ts.len()]@
            &&& t@.complete == false
            &&& t@.id == i
        }
}

/// `new`: appends one incomplete task per name, in order, ids continuing
/// from the current length. Zero names is an argument-count failure with
/// nothing changed. A name over [`MAX_NAME_LEN`] characters stops the
/// command at that name; the names before it in the same call stay
/// appended, which is harmless because a failed command is never saved.
pub fn cmd_new(tasks: &mut Vec<Task>, names: &Vec<String>) -> (r: Result<(), CommandError>)
    ensures
        match r {
            Ok(_) => {
                &&& names@.len() > 0
                &&& forall|i: int|
                    0 <= i < names@.len() ==> (#[trigger] names@[i])@.len() <= MAX_NAME_LEN as nat
                &&& new_tasks_appended(old(tasks)@, final(tasks)@, names@, names@.len() as int)
            },
            Err(e) => match e {
                CommandError::InvalidArgumentCount => {
                    &&& names@.len() == 0
                    &&& final(tasks)@ == old(tasks)@
                },
                CommandError::TaskNameTooLong(bad) => exists|k: int|
                    {
                        &&& 0 <= k < names@.len()
                        &&& (#[trigger] names@[k])@.len() > MAX_NAME_LEN as nat
                        &&& forall|j: int|
                            0 <= j < k ==> (#[trigger] names@[j])@.len() <= MAX_NAME_LEN as nat
                        &&& bad@ == names@[k]@
                        &&& new_tasks_appended(old(tasks)@, final(tasks)@, names@, k)
                    },
                _ => false,
            },
        },
{
    if names.len() == 0 {
        return Err(CommandError::InvalidArgumentCount);
    }
    let mut i: usize = 0;
    while i < names.len()
        invariant
            i <= names@.len(),
            forall|j: int|
                0 <= j < i ==> (#[trigger] names@[j])@.len() <= MAX_NAME_LEN as nat,
            new_tasks_appended(old(tasks)@, tasks@, names@, i as int),
        decreases names@.len() - i,
    {
        let name = &names[i];
        if name.as_str().unicode_len() > MAX_NAME_LEN {
            return Err(CommandError::TaskNameTooLong(name.clone()));
        }
        let id = tasks.len();
        tasks.push(Task { name: name.clone(), complete: false, id });
        i = i + 1;
    }
    Ok(())
}

/// Some argument names task id `i`.
pub open spec fn arg_marks(args: Seq<String>, i: int) -> bool {
    exists|j: int| 0 <= j < args.len() && dec_value((#[trigger] args[j])@) == i
}

/// The new list is the old one with exactly the tasks named by `args`
/// marked complete; names and ids are untouched.
pub open spec fn marked_complete(old_ts: Seq<Task>, new_ts: Seq<Task>, args: Seq<String>) -> bool {
    &&& new_ts.len() == old_ts.len()
    &&& forall|i: int|
        0 <= i < old_ts.len() ==> {
            let t = #[trigger] new_ts[i];
            &&& t@.name == old_ts[i]@.name
            &&& t@.id == old_ts[i]@.id
            &&& t@.complete == (old_ts[i]@.complete || arg_marks(args, i))
        }
}

/// `complete`: marks the task at each given id complete. All ids are
/// validated first; one bad id rejects the whole command with nothing
/// changed. Zero ids is not an error: nothing is marked.
pub fn cmd_complete(tasks: &mut Vec<Task>, id_args: &Vec<String>) -> (r: Result<
    (),
    CommandError,
>)
    ensures
        match r {
            Ok(_) => {
                &&& forall|i: int|
                    0 <= i < id_args@.len() ==> valid_id_str(
                        (#[trigger] id_args@[i])@,
                        old(tasks)@.len(),
                    )
                &&& marked_complete(old(tasks)@, final(tasks)@, id_args@)
            },
            Err(e) => {
                &&& e == CommandError::InvalidTaskId
                &&& !(forall|i: int|
                    0 <= i < id_args@.len() ==> valid_id_str(
                        (#[trigger] id_args@[i])@,
                        old(tasks)@.len(),
                    ))
                &&& final(tasks)@ == old(tasks)@
            },
        },
{
    if id_args.len() == 0 {
        proof {
            assert(marked_complete(tasks@, tasks@, id_args@));
        }
        return Ok(());
    }
    if tasks.len() == 0 {
        proof {
            assert(!valid_id_str(id_args@[0]@, 0));
        }
        return Err(CommandError::InvalidTaskId);
    }
    let max = tasks.len() - 1;
    let ids = match parse_task_ids(id_args, max) {
        Ok(v) => v,
        Err(_) => {
            proof {
                let i = choose|i: int|
                    0 <= i < id_args@.len() && {
                        let s = (#[trigger] id_args@[i])@;
                        s.len() == 0 || !all_digits(s) || dec_value(s) > max as nat
                    };
                assert(!valid_id_str(id_args@[i]@, old(tasks)@.len()));
            }
            return Err(CommandError::InvalidTaskId);
        },
    };
    let mut j: usize = 0;
    while j < ids.len()
        invariant
            j <= ids@.len(),
            ids@.len() == id_args@.len(),
            tasks@.len() == old(tasks)@.len(),
            forall|jj: int| 0 <= jj < ids@.len() ==> (#[trigger] ids@[jj]) < tasks@.len(),
            forall|jj: int|
                0 <= jj < ids@.len() ==> (#[trigger] ids@[jj]) as nat == dec_value(
                    id_args@[jj]@,
                ),
            forall|i: int|
                0 <= i < tasks@.len() ==> {
                    let t = #[trigger] tasks@[i];
                    &&& t@.name == old(tasks)@[i]@.name
                    &&& t@.id == old(tasks)@[i]@.id
                    &&& t@.complete == (old(tasks)@[i]@.complete || exists|jj: int|
                        0 <= jj < j && (#[trigger] ids@[jj]) as int == i)
                },
        decreases ids@.len() - j,
    {
        let idx = ids[j];
        let name = tasks[idx].name.clone();
        let id = tasks[idx].id;
        tasks[idx] = Task { name, complete: true, id };
        j = j + 1;
    }
    proof {
        assert forall|i: int| 0 <= i < tasks@.len() implies {
            let t = #[trigger] tasks@[i];
            &&& t@.name == old(tasks)@[i]@.name
            &&& t@.id == old(tasks)@[i]@.id
            &&& t@.complete == (old(tasks)@[i]@.complete || arg_marks(id_args@, i))
        } by {
            if exists|jj: int| 0 <= jj < ids@.len() && (#[trigger] ids@[jj]) as int == i {
                let jj = choose|jj: int| 0 <= jj < ids@.len() && (#[trigger] ids@[jj]) as int == i;
                assert(dec_value(id_args@[jj]@) == i);
                assert(arg_marks(id_args@, i));
            }
            if arg_marks(id_args@, i) {
                let jj = choose|jj: int|
                    0 <= jj < id_args@.len() && dec_value((#[trigger] id_args@[jj])@) == i;
                assert((ids@[jj]) as int == i);
            }
        }
    }
    Ok(())
}

/// The new list is the old one with the task at `k` removed; the tasks
/// after it shift down one place and take their new position as id.
pub open spec fn deleted_at(old_ts: Seq<Task>, new_ts: Seq<Task>, k: int) -> bool {
    &&& 0 <= k < old_ts.len()
    &&& new_ts.len() == old_ts.len() - 1
    &&& forall|i: int| 0 <= i < k ==> #[trigger] new_ts[i] == old_ts[i]
    &&& forall|i: int|
        k <= i < new_ts.len() ==> {
            let t = #[trigger] new_ts[i];
            &&& t@.name == old_ts[i + 1]@.name
            &&& t@.complete == old_ts[i + 1]@.complete
            &&& t@.id == i
        }
}

/// `del`: removes the task at the one given id; later tasks shift down
/// and are renumbered. Anything but exactly one argument, a non-integer
/// argument, or an id with no task rejects the command with nothing
/// changed.
pub fn cmd_del(tasks: &mut Vec<Task>, id_args: &Vec<String>) -> (r: Result<(), CommandError>)
    ensures
        match r {
            Ok(_) => {
                &&& id_args@.len() == 1
                &&& valid_id_str(id_args@[0]@, old(tasks)@.len())
                &&& deleted_at(old(tasks)@, final(tasks)@, dec_value(id_args@[0]@) as int)
            },
            Err(e) => {
                &&& final(tasks)@ == old(tasks)@
                &&& match e {
                    CommandError::InvalidArgumentCount => id_args@.len() != 1,
                    CommandError::InvalidTaskId => id_args@.len() == 1 && !valid_id_str(
                        id_args@[0]@,
                        old(tasks)@.len(),
                    ),
                    _ => false,
                }
            },
        },
{
    if id_args.len() != 1 {
        return Err(CommandError::InvalidArgumentCount);
    }
    let n = tasks.len();
    let idx = match parse_usize(id_args[0].as_str()) {
        Some(v) => v,
        None => {
            return Err(CommandError::InvalidTaskId);
        },
    };
    if idx >= n {
        return Err(CommandError::InvalidTaskId);
    }
    tasks.remove(idx);
    let ghost mid = tasks@;
    let mut i: usize = idx;
    while i < tasks.len()
        invariant
            idx <= i <= tasks@.len(),
            tasks@.len() == mid.len(),
            mid == old(tasks)@.remove(idx as int),
            idx < old(tasks)@.len(),
            forall|p: int| 0 <= p < idx ==> #[trigger] tasks@[p] == mid[p],
            forall|p: int| i <= p < tasks@.len() ==> #[trigger] tasks@[p] == mid[p],
            forall|p: int|
                idx <= p < i ==> {
                    let t = #[trigger] tasks@[p];
                    &&& t@.name == mid[p]@.name
                    &&& t@.complete == mid[p]@.complete
                    &&& t@.id == p
                },
        decreases tasks@.len() - i,
    {
        let name = tasks[i].name.clone();
        let complete = tasks[i].complete;
        tasks[i] = Task { name, complete, id: i };
        i = i + 1;
    }
    proof {
        assert forall|p: int| 0 <= p < tasks@.len() implies mid[p] == (if p < idx {
            old(tasks)@[p]
        } else {
            old(tasks)@[p + 1]
        }) by {}
    }
    Ok(())
}

/// The fixed table the `help` command prints.
pub open spec fn help_output() -> Seq<Seq<char>> {
    seq![
        "Command    Parameters          Description"@,
        ""@,
        "help                          Display a list of available commands"@,
        "view                          Display all current tasks and their statuses"@,
        "new       <task name(s)>      Create a new task for each of the provided names"@,
        "complete  <task id(s)>        Mark the task at each given id complete"@,
        "del       <task id>           Delete the task at the given id"@,
    ]
}

/// The lines the `help` command prints.
pub fn help_lines() -> (r: Vec<String>)
    ensures
        line_views(r@) == help_output(),
{
    let mut out: Vec<String> = Vec::new();
    out.push(String::from_str("Command    Parameters          Description"));
    out.push(String::from_str(""));
    out.push(String::from_str("help                          Display a list of available commands"));
    out.push(String::from_str("view                          Display all current tasks and their statuses"));
    out.push(String::from_str("new       <task name(s)>      Create a new task for each of the provided names"));
    out.push(String::from_str("complete  <task id(s)>        Mark the task at each given id complete"));
    out.push(String::from_str("del       <task id>           Delete the task at the given id"));
    proof {
        assert(line_views(out@) =~= help_output());
    }
    out
}

/// The header row of the `view` table, in the same columns as
/// [`row_spec`].
pub open spec fn view_header() -> Seq<char> {
    pad_right("ID:"@, 8) + seq![' '] + pad_right("Name:"@, 80) + pad_right("Status:"@, 20)
}

/// The lines the `view` command prints: the header row, then one row per
/// task in order.
pub open spec fn view_output(ts: Seq<Task>) -> Seq<Seq<char>> {
    seq![view_header()] + Seq::new(ts.len(), |i: int| row_spec(ts[i]@))
}

/// The rows the `view` command prints.
pub fn view_lines(tasks: &Vec<Task>) -> (r: Vec<String>)
    ensures
        line_views(r@) == view_output(tasks@),
{
    let mut out: Vec<String> = Vec::new();
    let mut header = padded("ID:", 8);
    header.append(" ");
    let name_col = padded("Name:", 80);
    header.append(name_col.as_str());
    let status_col = padded("Status:", 20);
    header.append(status_col.as_str());
    proof {
        reveal_strlit(" ");
        assert(header@ =~= view_header());
    }
    out.push(header);
    let mut i: usize = 0;
    while i < tasks.len()
        invariant
            i <= tasks@.len(),
            out@.len() == i + 1,
            out@[0]@ == view_header(),
            forall|j: int| 1 <= j <= i ==> (#[trigger] out@[j])@ == row_spec(tasks@[j - 1]@),
        decreases tasks@.len() - i,
    {
        out.push(tasks[i].as_string());
        i = i + 1;
    }
    proof {
        assert(line_views(out@) =~= view_output(tasks@));
    }
    out
}

/// Which message names one item or several.
pub open spec fn created_text(n: nat) -> Seq<char> {
    if n == 1 {
        "Task created successfully"@
    } else {
        "Tasks created successfully"@
    }
}

/// Which message names one marked task or several.
pub open spec fn completed_text(n: nat) -> Seq<char> {
    if n == 1 {
        "Task marked as complete successfully"@
    } else {
        "Tasks marked as complete successfully"@
    }
}

/// What one run of a command leaves behind: the lines to print, and
/// whether the run goes on to save the list. A run that is not saved is
/// the failure exit.
pub struct RunOutcome {
    pub output: Vec<String>,
    pub save: bool,
}

/// Runs one command against the task list, as the dispatch table
/// describes: `help` and `view` print and change nothing; `new`,
/// `complete` and `del` mutate the list exactly when their arguments
/// validate; an unknown command only reports itself. `save` is false on
/// exactly the validation-failure paths, which leave the list unchanged
/// except for `new`'s staged prefix.
pub fn run_command(tasks: &mut Vec<Task>, cmd: &str, args: &Vec<String>) -> (r: RunOutcome)
    ensures
        ids_dense(old(tasks)@) ==> ids_dense(final(tasks)@),
        match command_spec(cmd@) {
            Command::Help => {
                &&& r.save
                &&& final(tasks)@ == old(tasks)@
                &&& line_views(r.output@) == help_output()
            },
            Command::View => {
                &&& r.save
                &&& final(tasks)@ == old(tasks)@
                &&& line_views(r.output@) == view_output(old(tasks)@)
            },
            Command::New => {
                if args@.len() == 0 {
                    &&& !r.save
                    &&& final(tasks)@ == old(tasks)@
                    &&& line_views(r.output@) == seq![
                        "Please provide at least one task to create"@,
                    ]
                } else if forall|i: int|
                    0 <= i < args@.len() ==> (#[trigger] args@[i])@.len() <= MAX_NAME_LEN as nat {
                    &&& r.save
                    &&& new_tasks_appended(old(tasks)@, final(tasks)@, args@, args@.len() as int)
                    &&& line_views(r.output@) == seq![created_text(args@.len())]
                } else {
                    &&& !r.save
                    &&& exists|k: int|
                        {
                            &&& 0 <= k < args@.len()
                            &&& (#[trigger] args@[k])@.len() > MAX_NAME_LEN as nat
                            &&& forall|j: int|
                                0 <= j < k ==> (#[trigger] args@[j])@.len() <= MAX_NAME_LEN as nat
                            &&& new_tasks_appended(old(tasks)@, final(tasks)@, args@, k)
                            &&& line_views(r.output@) == seq![
                                "Invalid task name: \""@ + args@[k]@ + "\""@,
                                "Please ensure that all task names are under 80 characters"@,
                            ]
                        }
                }
            },
            Command::Complete => {
                if forall|i: int|
                    0 <= i < args@.len() ==> valid_id_str(
                        (#[trigger] args@[i])@,
                        old(tasks)@.len(),
                    ) {
                    &&& r.save
                    &&& marked_complete(old(tasks)@, final(tasks)@, args@)
                    &&& line_views(r.output@) == (if args@.len() == 0 {
                        seq![
                            "Please provide at least one task ID to complete"@,
                            completed_text(0),
                        ]
                    } else {
                        seq![completed_text(args@.len())]
                    })
                } else {
                    &&& !r.save
                    &&& final(tasks)@ == old(tasks)@
                    &&& line_views(r.output@) == seq!["Invalid Task ID"@]
                }
            },
            Command::Del => {
                if args@.len() != 1 {
                    &&& !r.save
                    &&& final(tasks)@ == old(tasks)@
                    &&& line_views(r.output@) == seq![
                        "Please provide exactly one task ID to delete"@,
                    ]
                } else if valid_id_str(args@[0]@, old(tasks)@.len()) {
                    &&& r.save
                    &&& deleted_at(old(tasks)@, final(tasks)@, dec_value(args@[0]@) as int)
                    &&& line_views(r.output@) == seq!["Task deleted successfully"@]
                } else {
                    &&& !r.save
                    &&& final(tasks)@ == old(tasks)@
                    &&& line_views(r.output@) == seq!["Invalid task ID"@]
                }
            },
            Command::Unknown => {
                &&& r.save
                &&& final(tasks)@ == old(tasks)@
                &&& line_views(r.output@) == seq!["\""@ + cmd@ + "\" is not a valid command"@]
            },
        },
{
    match parse_command(cmd) {
        Command::Help => {
            let output = help_lines();
            RunOutcome { output, save: true }
        },
        Command::View => {
            let output = view_lines(tasks);
            RunOutcome { output, save: true }
        },
        Command::New => {
            let mut output: Vec<String> = Vec::new();
            match cmd_new(tasks, args) {
                Ok(_) => {
                    let msg = if args.len() == 1 {
                        "Task created successfully"
                    } else {
                        "Tasks created successfully"
                    };
                    output.push(String::from_str(msg));
                    proof {
                        assert(line_views(output@) =~= seq![created_text(args@.len())]);
                        if ids_dense(old(tasks)@) {
                            assert forall|i: int|
                                0 <= i < tasks@.len() implies (#[trigger] tasks@[i])@.id == i by {
                                if i < old(tasks)@.len() {
                                    assert(tasks@[i] == old(tasks)@[i]);
                                }
                            }
                        }
                    }
                    RunOutcome { output, save: true }
                },
                Err(CommandError::InvalidArgumentCount) => {
                    output.push(String::from_str("Please provide at least one task to create"));
                    proof {
                        assert(line_views(output@) =~= seq![
                            "Please provide at least one task to create"@,
                        ]);
                    }
                    RunOutcome { output, save: false }
                },
                Err(CommandError::TaskNameTooLong(bad)) => {
                    let mut first = String::from_str("Invalid task name: \"");
                    first.append(bad.as_str());
                    first.append("\"");
                    output.push(first);
                    output.push(
                        String::from_str(
                            "Please ensure that all task names are under 80 characters",
                        ),
                    );
                    proof {
                        let k = choose|k: int|
                            {
                                &&& 0 <= k < args@.len()
                                &&& (#[trigger] args@[k])@.len() > MAX_NAME_LEN as nat
                                &&& forall|j: int|
                                    0 <= j < k ==> (#[trigger] args@[j])@.len() <= MAX_NAME_LEN
                                        as nat
                                &&& bad@ == args@[k]@
                                &&& new_tasks_appended(old(tasks)@, tasks@, args@, k)
                            };
                        assert(line_views(output@) =~= seq![
                            "Invalid task name: \""@ + args@[k]@ + "\""@,
                            "Please ensure that all task names are under 80 characters"@,
                        ]);
                        if ids_dense(old(tasks)@) {
                            assert forall|i: int|
                                0 <= i < tasks@.len() implies (#[trigger] tasks@[i])@.id == i by {
                                if i < old(tasks)@.len() {
                                    assert(tasks@[i] == old(tasks)@[i]);
                                }
                            }
                        }
                    }
                    RunOutcome { output, save: false }
                },
                Err(CommandError::InvalidTaskId) => {
                    proof {
                        assert(false);
                    }
                    RunOutcome { output, save: false }
                },
            }
        },
        Command::Complete => {
            let mut output: Vec<String> = Vec::new();
            let no_ids = args.len() == 0;
            if no_ids {
                output.push(
                    String::from_str("Please provide at least one task ID to complete"),
                );
            }
            match cmd_complete(tasks, args) {
                Ok(_) => {
                    let msg = if args.len() == 1 {
                        "Task marked as complete successfully"
                    } else {
                        "Tasks marked as complete successfully"
                    };
                    output.push(String::from_str(msg));
                    proof {
                        if no_ids {
                            assert(line_views(output@) =~= seq![
                                "Please provide at least one task ID to complete"@,
                                completed_text(0),
                            ]);
                        } else {
                            assert(line_views(output@) =~= seq![completed_text(args@.len())]);
                        }
                    }
                    RunOutcome { output, save: true }
                },
                Err(_) => {
                    let mut output: Vec<String> = Vec::new();
                    output.push(String::from_str("Invalid Task ID"));
                    proof {
                        assert(line_views(output@) =~= seq!["Invalid Task ID"@]);
                    }
                    RunOutcome { output, save: false }
                },
            }
        },
        Command::Del => {
            let mut output: Vec<String> = Vec::new();
            match cmd_del(tasks, args) {
                Ok(_) => {
                    output.push(String::from_str("Task deleted successfully"));
                    proof {
                        assert(line_views(output@) =~= seq!["Task deleted successfully"@]);
                        if ids_dense(old(tasks)@) {
                            assert forall|i: int|
                                0 <= i < tasks@.len() implies (#[trigger] tasks@[i])@.id == i by {
                                if i < dec_value(args@[0]@) {
                                    assert(tasks@[i] == old(tasks)@[i]);
                                }
                            }
                        }
                    }
                    RunOutcome { output, save: true }
                },
                Err(CommandError::InvalidArgumentCount) => {
                    output.push(
                        String::from_str("Please provide exactly one task ID to delete"),
                    );
                    proof {
                        assert(line_views(output@) =~= seq![
                            "Please provide exactly one task ID to delete"@,
                        ]);
                    }
                    RunOutcome { output, save: false }
                },
                Err(CommandError::InvalidTaskId) => {
                    output.push(String::from_str("Invalid task ID"));
                    proof {
                        assert(line_views(output@) =~= seq!["Invalid task ID"@]);
                    }
                    RunOutcome { output, save: false }
                },
                Err(CommandError::TaskNameTooLong(_)) => {
                    proof {
                        assert(false);
                    }
                    RunOutcome { output, save: false }
                },
            }
        },
        Command::Unknown => {
            let mut output: Vec<String> = Vec::new();
            let mut line = String::from_str("\"");
            line.append(cmd);
            line.append("\" is not a valid command");
            output.push(line);
            proof {
                assert(line_views(output@) =~= seq![
                    "\""@ + cmd@ + "\" is not a valid command"@,
                ]);
            }
            RunOutcome { output, save: true }
        },
    }
}

} // verus!
