use tasktrack::codec::{decode_file, encode_file, read_task, split_lines, DecodeError};
use tasktrack::dispatch::{
    cmd_complete, cmd_del, cmd_new, help_lines, parse_command, parse_task_ids, run_command,
    view_lines, Command, CommandError,
};
use tasktrack::strutil::{dec_string, padded, parse_usize, str_eq};
use tasktrack::task::Task;

fn task(name: &str, complete: bool, id: usize) -> Task {
    Task { name: name.to_string(), complete, id }
}

fn three_tasks() -> Vec<Task> {
    vec![task("first", false, 0), task("second", false, 1), task("third", false, 2)]
}

fn strings(items: &[&str]) -> Vec<String> {
    items.iter().map(|s| s.to_string()).collect()
}

#[test]
fn decode_line_incomplete() {
    let t = read_task(" write tests", 4).unwrap();
    assert_eq!(t.name, "write tests");
    assert!(!t.complete);
    assert_eq!(t.id, 4);
}

#[test]
fn decode_line_complete() {
    let t = read_task("Xdone", 0).unwrap();
    assert_eq!(t.name, "done");
    assert!(t.complete);
}

#[test]
fn decode_line_empty_name() {
    let t = read_task(" ", 1).unwrap();
    assert_eq!(t.name, "");
    assert!(!t.complete);
}

#[test]
fn decode_line_rejects_bad_status() {
    assert!(matches!(read_task("Ybad", 0), Err(DecodeError::MalformedTask)));
    assert!(matches!(read_task("xlower", 0), Err(DecodeError::MalformedTask)));
    assert!(matches!(read_task("no status", 0), Err(DecodeError::MalformedTask)));
}

#[test]
fn decode_line_rejects_empty_line() {
    assert!(matches!(read_task("", 0), Err(DecodeError::MalformedTask)));
}

#[test]
fn decode_file_assigns_positional_ids() {
    let lines = strings(&[" a", "Xb", " c"]);
    let ts = decode_file(&lines).unwrap();
    assert_eq!(ts.len(), 3);
    assert_eq!(ts[0].id, 0);
    assert_eq!(ts[1].id, 1);
    assert_eq!(ts[2].id, 2);
    assert!(!ts[0].complete);
    assert!(ts[1].complete);
    assert_eq!(ts[1].name, "b");
}

#[test]
fn decode_file_fails_whole_on_bad_line() {
    let lines = strings(&[" good", "Ybad", " also good"]);
    assert!(matches!(decode_file(&lines), Err(DecodeError::MalformedTask)));
}

#[test]
fn encode_line_markers() {
    assert_eq!(task("foo", false, 0).export(), " foo");
    assert_eq!(task("bar", true, 7).export(), "Xbar");
}

#[test]
fn encode_file_trailing_newline_each_line() {
    let ts = vec![task("a", false, 0), task("b", true, 1)];
    assert_eq!(encode_file(&ts), " a\nXb\n");
    assert_eq!(encode_file(&Vec::new()), "");
}

#[test]
fn split_lines_matches_file_reader() {
    let as_vec = |text: &str| -> Vec<String> { split_lines(text) };
    assert_eq!(as_vec(" a\nXb\n"), strings(&[" a", "Xb"]));
    assert_eq!(as_vec(" a\nXb"), strings(&[" a", "Xb"]));
    assert_eq!(as_vec(""), Vec::<String>::new());
    assert_eq!(as_vec("\n\n"), strings(&["", ""]));
}

#[test]
fn round_trip_reproduces_tasks() {
    let ts = vec![
        task("water the plants", false, 0),
        task("", true, 1),
        task("respond: \"yes\"", true, 2),
    ];
    let text = encode_file(&ts);
    let back = decode_file(&split_lines(&text)).unwrap();
    assert_eq!(back.len(), ts.len());
    for (i, t) in back.iter().enumerate() {
        assert_eq!(t.name, ts[i].name);
        assert_eq!(t.complete, ts[i].complete);
        assert_eq!(t.id, i);
    }
}

#[test]
fn load_with_bad_status_yields_no_tasks() {
    let text = " fine\nYbroken\n";
    let lines = split_lines(text);
    assert!(matches!(decode_file(&lines), Err(DecodeError::MalformedTask)));
}

#[test]
fn new_two_tasks_on_empty_list() {
    let mut tasks = Vec::new();
    let mut r = run_command(&mut tasks, "new", &strings(&["alpha", "beta"]));
    assert!(r.save);
    assert_eq!(r.output, strings(&["Tasks created successfully"]));
    assert_eq!(tasks.len(), 2);
    assert_eq!((tasks[0].id, tasks[0].name.as_str(), tasks[0].complete), (0, "alpha", false));
    assert_eq!((tasks[1].id, tasks[1].name.as_str(), tasks[1].complete), (1, "beta", false));
    r = run_command(&mut tasks, "new", &strings(&["gamma"]));
    assert_eq!(r.output, strings(&["Task created successfully"]));
    assert_eq!(tasks.len(), 3);
    assert_eq!(tasks[2].id, 2);
}

#[test]
fn new_accepts_eighty_char_name() {
    let name = "n".repeat(80);
    let mut tasks = Vec::new();
    assert!(cmd_new(&mut tasks, &strings(&[&name])).is_ok());
    assert_eq!(tasks.len(), 1);
}

#[test]
fn new_long_name_aborts_keeping_earlier_names() {
    let long = "x".repeat(81);
    let mut tasks = Vec::new();
    let r = run_command(&mut tasks, "new", &strings(&["before", &long, "after"]));
    assert!(!r.save);
    assert_eq!(
        r.output,
        vec![
            format!("Invalid task name: \"{}\"", long),
            "Please ensure that all task names are under 80 characters".to_string(),
        ]
    );
    // The valid name before the failing one stays in memory; nothing after
    // it is added. The failed run is never saved, so the file is untouched.
    assert_eq!(tasks.len(), 1);
    assert_eq!(tasks[0].name, "before");
}

#[test]
fn new_without_names_aborts() {
    let mut tasks = three_tasks();
    let r = run_command(&mut tasks, "new", &Vec::new());
    assert!(!r.save);
    assert_eq!(r.output, strings(&["Please provide at least one task to create"]));
    assert_eq!(tasks.len(), 3);
}

#[test]
fn complete_marks_given_ids_only() {
    let mut tasks = three_tasks();
    let r = run_command(&mut tasks, "complete", &strings(&["0", "2"]));
    assert!(r.save);
    assert_eq!(r.output, strings(&["Tasks marked as complete successfully"]));
    assert!(tasks[0].complete);
    assert!(!tasks[1].complete);
    assert!(tasks[2].complete);
    assert_eq!(encode_file(&tasks), "Xfirst\n second\nXthird\n");
}

#[test]
fn complete_single_id_message() {
    let mut tasks = three_tasks();
    let r = run_command(&mut tasks, "complete", &strings(&["1"]));
    assert_eq!(r.output, strings(&["Task marked as complete successfully"]));
    assert!(tasks[1].complete);
}

#[test]
fn complete_out_of_range_aborts_unchanged() {
    let mut tasks = three_tasks();
    let before = encode_file(&tasks);
    let r = run_command(&mut tasks, "complete", &strings(&["5"]));
    assert!(!r.save);
    assert_eq!(r.output, strings(&["Invalid Task ID"]));
    // Not saved and unchanged: the file would keep its old contents.
    assert_eq!(encode_file(&tasks), before);
}

#[test]
fn complete_non_integer_aborts() {
    let mut tasks = three_tasks();
    let r = run_command(&mut tasks, "complete", &strings(&["1", "two"]));
    assert!(!r.save);
    assert_eq!(r.output, strings(&["Invalid Task ID"]));
    assert!(!tasks[1].complete);
}

#[test]
fn complete_negative_id_aborts() {
    let mut tasks = three_tasks();
    assert!(matches!(
        cmd_complete(&mut tasks, &strings(&["-1"])),
        Err(CommandError::InvalidTaskId)
    ));
    assert!(tasks.iter().all(|t| !t.complete));
}

#[test]
fn complete_without_ids_warns_and_saves() {
    let mut tasks = three_tasks();
    let r = run_command(&mut tasks, "complete", &Vec::new());
    assert!(r.save);
    assert_eq!(
        r.output,
        strings(&[
            "Please provide at least one task ID to complete",
            "Tasks marked as complete successfully",
        ])
    );
    assert!(tasks.iter().all(|t| !t.complete));
}

#[test]
fn del_renumbers_later_tasks() {
    let mut tasks = three_tasks();
    let r = run_command(&mut tasks, "del", &strings(&["1"]));
    assert!(r.save);
    assert_eq!(r.output, strings(&["Task deleted successfully"]));
    assert_eq!(tasks.len(), 2);
    assert_eq!((tasks[0].id, tasks[0].name.as_str()), (0, "first"));
    assert_eq!((tasks[1].id, tasks[1].name.as_str()), (1, "third"));
}

#[test]
fn del_requires_exactly_one_argument() {
    let mut tasks = three_tasks();
    let r = run_command(&mut tasks, "del", &strings(&["0", "1"]));
    assert!(!r.save);
    assert_eq!(r.output, strings(&["Please provide exactly one task ID to delete"]));
    assert_eq!(tasks.len(), 3);
    let r = run_command(&mut tasks, "del", &Vec::new());
    assert!(!r.save);
    assert_eq!(tasks.len(), 3);
}

#[test]
fn del_rejects_bad_ids() {
    let mut tasks = three_tasks();
    let r = run_command(&mut tasks, "del", &strings(&["3"]));
    assert!(!r.save);
    assert_eq!(r.output, strings(&["Invalid task ID"]));
    assert_eq!(tasks.len(), 3);
    let r = run_command(&mut tasks, "del", &strings(&["one"]));
    assert!(!r.save);
    assert_eq!(r.output, strings(&["Invalid task ID"]));
    assert!(matches!(
        cmd_del(&mut tasks, &strings(&["-0"])),
        Err(CommandError::InvalidTaskId)
    ));
    assert!(matches!(
        cmd_del(&mut tasks, &strings(&["a", "b"])),
        Err(CommandError::InvalidArgumentCount)
    ));
}

#[test]
fn unknown_command_reports_and_saves() {
    let mut tasks = three_tasks();
    let r = run_command(&mut tasks, "frobnicate", &Vec::new());
    assert!(r.save);
    assert_eq!(r.output, strings(&["\"frobnicate\" is not a valid command"]));
    assert_eq!(tasks.len(), 3);
}

#[test]
fn help_lists_five_commands() {
    let lines = help_lines();
    assert_eq!(lines.len(), 7);
    assert_eq!(lines[0], "Command    Parameters          Description");
    assert!(lines[2].starts_with("help "));
    assert!(lines[6].starts_with("del "));
    let mut tasks = Vec::new();
    let r = run_command(&mut tasks, "help", &Vec::new());
    assert!(r.save);
    assert_eq!(r.output, lines);
}

#[test]
fn view_formats_fixed_columns() {
    let tasks = vec![task("water plants", true, 0)];
    let lines = view_lines(&tasks);
    assert_eq!(lines.len(), 2);
    assert_eq!(
        lines[0],
        format!("{0:<8} {1:<80}{2:<20}", "ID:", "Name:", "Status:")
    );
    assert_eq!(
        lines[1],
        format!("{0:<8} {1:<80}{2:<20}", 0, "water plants", "COMPLETE")
    );
    assert_eq!(
        task("pending", false, 12).as_string(),
        format!("{0:<8} {1:<80}{2:<20}", 12, "pending", "INCOMPLETE")
    );
}

#[test]
fn view_on_empty_list_prints_header_only() {
    let mut tasks = Vec::new();
    let r = run_command(&mut tasks, "view", &Vec::new());
    assert!(r.save);
    assert_eq!(r.output.len(), 1);
}

#[test]
fn parse_command_names() {
    assert_eq!(parse_command("help"), Command::Help);
    assert_eq!(parse_command("view"), Command::View);
    assert_eq!(parse_command("new"), Command::New);
    assert_eq!(parse_command("complete"), Command::Complete);
    assert_eq!(parse_command("del"), Command::Del);
    assert_eq!(parse_command("Del"), Command::Unknown);
    assert_eq!(parse_command(""), Command::Unknown);
}

#[test]
fn parse_usize_accepts_digits_only() {
    assert_eq!(parse_usize("0"), Some(0));
    assert_eq!(parse_usize("42"), Some(42));
    assert_eq!(parse_usize("007"), Some(7));
    assert_eq!(parse_usize(""), None);
    assert_eq!(parse_usize("-1"), None);
    assert_eq!(parse_usize("+1"), None);
    assert_eq!(parse_usize("1x"), None);
    assert_eq!(parse_usize("99999999999999999999999999"), None);
}

#[test]
fn parse_task_ids_bounds() {
    let ids = parse_task_ids(&strings(&["0", "2", "1"]), 2).unwrap();
    assert_eq!(ids, vec![0, 2, 1]);
    assert!(matches!(
        parse_task_ids(&strings(&["3"]), 2),
        Err(CommandError::InvalidTaskId)
    ));
    assert!(matches!(
        parse_task_ids(&strings(&["nope"]), 2),
        Err(CommandError::InvalidTaskId)
    ));
}

#[test]
fn dec_string_and_padded() {
    assert_eq!(dec_string(0), "0");
    assert_eq!(dec_string(105), "105");
    assert_eq!(padded("ab", 5), "ab   ");
    assert_eq!(padded("abcdef", 3), "abcdef");
    assert!(str_eq("same", "same"));
    assert!(!str_eq("same", "sam"));
}
