//! The task-file codec.
//!
//! One line per task: a status character (`' '` incomplete, `'X'`
//! complete), then the name verbatim. A file is the concatenation of the
//! encoded lines, each followed by a newline. Decoding assigns ids
//! `0, 1, 2, ...` from line position and fails as a whole on the first
//! malformed line.

use vstd::prelude::*;
use crate::task::{encode_line_spec, ids_dense, task_views, Task, TaskView};

verus! {

/// Decoding failure: a line whose first character is neither `' '` nor
/// `'X'`, or an empty line.
#[derive(Clone, Copy, Debug, PartialEq, Eq, Structural)]
pub enum DecodeError {
    MalformedTask,
}

/// A line decodes when it starts with one of the two status characters.
pub open spec fn line_ok(line: Seq<char>) -> bool {
    line.len() > 0 && (line[0] == ' ' || line[0] == 'X')
}

/// The completion flag and name a well-formed line carries.
pub open spec fn line_task(line: Seq<char>) -> (bool, Seq<char>) {
    (line[0] == 'X', line.drop_first())
}

/// What decoding one line yields.
pub open spec fn decode_line_spec(line: Seq<char>) -> Option<(bool, Seq<char>)> {
    if line_ok(line) {
        Some(line_task(line))
    } else {
        None
    }
}

/// What decoding a whole file yields: every line in order, or nothing.
pub open spec fn decode_file_spec(lines: Seq<Seq<char>>) -> Option<Seq<(bool, Seq<char>)>> {
    if forall|i: int| 0 <= i < lines.len() ==> line_ok(#[trigger] lines[i]) {
        Some(Seq::new(lines.len(), |i: int| line_task(lines[i])))
    } else {
        None
    }
}

/// The encoded file: each task's line followed by a newline, last line
/// included.
pub open spec fn encode_file_spec(ts: Seq<TaskView>) -> Seq<char>
    decreases ts.len(),
{
    if ts.len() == 0 {
        Seq::empty()
    } else {
        encode_line_spec(ts.first()) + seq!['\n'] + encode_file_spec(ts.drop_first())
    }
}

/// No newline character anywhere in `s`.
pub open spec fn nl_free(s: Seq<char>) -> bool {
    forall|i: int| 0 <= i < s.len() ==> #[trigger] s[i] != '\n'
}

/// The lines of a text: the segments between newlines, a trailing segment
/// only when it is nonempty. This matches how a line-by-line file reader
/// sees the text.
pub open spec fn split_lines_spec(s: Seq<char>) -> Seq<Seq<char>>
    decreases s.len(),
{
    if s.len() == 0 {
        Seq::empty()
    } else {
        let rest = split_lines_spec(s.drop_first());
        if s[0] == '\n' {
            seq![Seq::<char>::empty()] + rest
        } else if rest.len() == 0 {
            seq![s]
        } else {
            seq![seq![s[0]] + rest.first()] + rest.drop_first()
        }
    }
}

/// Splitting peels one newline-terminated line off the front.
pub proof fn lemma_split_line(line: Seq<char>, rest: Seq<char>)
    requires
        nl_free(line),
    ensures
        split_lines_spec(line + seq!['\n'] + rest) == seq![line] + split_lines_spec(rest),
    decreases line.len(),
{
    let s = line + seq!['\n'] + rest;
    if line.len() == 0 {
        assert(s =~= seq!['\n'] + rest);
        assert(s[0] == '\n');
        assert(s.drop_first() =~= rest);
        assert(line =~= Seq::<char>::empty());
        assert(split_lines_spec(s) =~= seq![line] + split_lines_spec(rest));
    } else {
        let line1 = line.drop_first();
        lemma_split_line(line1, rest);
        assert(s.drop_first() =~= line1 + seq!['\n'] + rest);
        let inner = split_lines_spec(line1 + seq!['\n'] + rest);
        assert(inner == seq![line1] + split_lines_spec(rest));
        assert(inner.len() > 0);
        assert(inner.first() == line1);
        assert(s[0] == line[0]);
        assert(s[0] != '\n');
        assert(seq![s[0]] + inner.first() =~= line);
        assert(inner.drop_first() =~= split_lines_spec(rest));
        assert(split_lines_spec(s) =~= seq![line] + split_lines_spec(rest));
    }
}

/// A nonempty text without newlines is a single line.
pub proof fn lemma_split_no_nl(s: Seq<char>)
    requires
        s.len() > 0,
        nl_free(s),
    ensures
        split_lines_spec(s) == seq![s],
    decreases s.len(),
{
    if s.drop_first().len() > 0 {
        lemma_split_no_nl(s.drop_first());
        assert(split_lines_spec(s.drop_first()) == seq![s.drop_first()]);
        assert(seq![s[0]] + s.drop_first() =~= s);
        assert(split_lines_spec(s) =~= seq![s]);
    } else {
        assert(split_lines_spec(s.drop_first()) =~= Seq::<Seq<char>>::empty());
    }
}

/// Decodes one line of the task file; `id` is the line's position.
pub fn read_task(task_str: &str, id: usize) -> (r: Result<Task, DecodeError>)
    ensures
        match r {
            Ok(t) => line_ok(task_str@) && t@.name == task_str@.drop_first() && t@.complete == (
            task_str@[0] == 'X') && t@.id == id as nat,
            Err(e) => !line_ok(task_str@) && e == DecodeError::MalformedTask,
        },
{
    let len = task_str.unicode_len();
    if len == 0 {
        return Err(DecodeError::MalformedTask);
    }
    let c0 = task_str.get_char(0);
    let complete = if c0 == ' ' {
        false
    } else if c0 == 'X' {
        true
    } else {
        return Err(DecodeError::MalformedTask);
    };
    let name = String::from_str(task_str.substring_char(1, len));
    proof {
        assert(name@ =~= task_str@.drop_first());
    }
    Ok(Task { name, complete, id })
}

/// Decodes a whole task file, given as its list of lines; ids are assigned
/// from line position. Fails with no partial result on the first malformed
/// line.
pub fn decode_file(lines: &Vec<String>) -> (r: Result<Vec<Task>, DecodeError>)
    ensures
        match r {
            Ok(ts) => {
                &&& decode_file_spec(line_views(lines@)) == Some(
                    Seq::new(ts@.len(), |i: int| (ts@[i]@.complete, ts@[i]@.name)),
                )
                &&& ts@.len() == lines@.len()
                &&& ids_dense(ts@)
            },
            Err(e) => decode_file_spec(line_views(lines@)) is None && e
                == DecodeError::MalformedTask,
        },
{
    let mut ts: Vec<Task> = Vec::new();
    let mut i: usize = 0;
    while i < lines.len()
        invariant
            i <= lines@.len(),
            ts@.len() == i,
            forall|j: int| 0 <= j < i ==> line_ok(#[trigger] lines@[j]@),
            forall|j: int|
                0 <= j < i ==> (#[trigger] ts@[j])@.name == lines@[j]@.drop_first() && ts@[j]@.complete
                    == (lines@[j]@[0] == 'X') && ts@[j]@.id == j,
        decreases lines@.len() - i,
    {
        match read_task(lines[i].as_str(), i) {
            Ok(t) => {
                ts.push(t);
            },
            Err(e) => {
                proof {
                    assert(!line_ok(line_views(lines@)[i as int]));
                }
                return Err(e);
            },
        }
        i = i + 1;
    }
    proof {
        assert(forall|j: int| 0 <= j < lines@.len() ==> line_ok(#[trigger] line_views(lines@)[j]));
        let pairs = decode_file_spec(line_views(lines@)).unwrap();
        assert(pairs =~= Seq::new(ts@.len(), |i: int| (ts@[i]@.complete, ts@[i]@.name)));
    }
    Ok(ts)
}

/// The views of a list of lines.
pub open spec fn line_views(lines: Seq<String>) -> Seq<Seq<char>> {
    Seq::new(lines.len(), |i: int| lines[i]@)
}

/// Appending one task extends the encoded file by one line.
proof fn lemma_encode_file_push(ts: Seq<TaskView>, t: TaskView)
    ensures
        encode_file_spec(ts.push(t)) == encode_file_spec(ts) + encode_line_spec(t) + seq!['\n'],
    decreases ts.len(),
{
    if ts.len() == 0 {
        assert(ts.push(t).drop_first() =~= Seq::<TaskView>::empty());
        assert(ts.push(t).first() == t);
        assert(encode_file_spec(ts.push(t)) == encode_line_spec(t) + seq!['\n']
            + encode_file_spec(ts.push(t).drop_first()));
        assert(encode_file_spec(ts.push(t)) =~= encode_file_spec(ts) + encode_line_spec(t)
            + seq!['\n']);
    } else {
        lemma_encode_file_push(ts.drop_first(), t);
        assert(ts.push(t).drop_first() =~= ts.drop_first().push(t));
        assert(ts.push(t).first() == ts.first());
        assert(encode_file_spec(ts.push(t)) =~= encode_file_spec(ts) + encode_line_spec(t)
            + seq!['\n']);
    }
}

/// Encodes the whole task list: each task's line, each followed by a
/// newline.
pub fn encode_file(tasks: &Vec<Task>) -> (r: String)
    ensures
        r@ == encode_file_spec(task_views(tasks@)),
{
    let mut out = String::new();
    let mut i: usize = 0;
    proof {
        assert(task_views(tasks@).take(0) =~= Seq::<TaskView>::empty());
    }
    while i < tasks.len()
        invariant
            i <= tasks@.len(),
            out@ == encode_file_spec(task_views(tasks@).take(i as int)),
        decreases tasks@.len() - i,
    {
        let line = tasks[i].export();
        out.append(line.as_str());
        out.append("\n");
        proof {
            reveal_strlit("\n");
            let views = task_views(tasks@);
            assert(views.take(i + 1) =~= views.take(i as int).push(views[i as int]));
            lemma_encode_file_push(views.take(i as int), views[i as int]);
            assert(out@ =~= encode_file_spec(views.take(i + 1)));
        }
        i = i + 1;
    }
    proof {
        assert(task_views(tasks@).take(tasks@.len() as int) =~= task_views(tasks@));
    }
    out
}

/// Splits a text into its lines, as [`split_lines_spec`] describes: the
/// counterpart of a line-by-line file reader.
pub fn split_lines(text: &str) -> (r: Vec<String>)
    ensures
        line_views(r@) == split_lines_spec(text@),
{
    let len = text.unicode_len();
    let mut out: Vec<String> = Vec::new();
    let mut i: usize = 0;
    proof {
        assert(text@.skip(0) =~= text@);
        assert(line_views(out@) =~= Seq::<Seq<char>>::empty());
        assert(line_views(out@) + split_lines_spec(text@.skip(0)) =~= split_lines_spec(text@));
    }
    while i < len
        invariant
            i <= len,
            len == text@.len(),
            split_lines_spec(text@) == line_views(out@) + split_lines_spec(text@.skip(i as int)),
        decreases len - i,
    {
        let mut j: usize = i;
        while j < len && text.get_char(j) != '\n'
            invariant
                i <= j <= len,
                len == text@.len(),
                forall|k: int| i <= k < j ==> text@[k] != '\n',
            decreases len - j,
        {
            j = j + 1;
        }
        let line = String::from_str(text.substring_char(i, j));
        let ghost lv = line@;
        let ghost out0 = out@;
        let ghost tail = text@.skip(i as int);
        proof {
            assert(nl_free(lv));
            if j < len {
                assert(text@[j as int] == '\n');
                assert(tail =~= lv + seq!['\n'] + text@.skip(j + 1));
                lemma_split_line(lv, text@.skip(j + 1));
                assert(split_lines_spec(tail) == seq![lv] + split_lines_spec(text@.skip(j + 1)));
            } else {
                assert(tail =~= lv);
                assert(tail.len() > 0);
                lemma_split_no_nl(tail);
                assert(text@.skip(len as int) =~= Seq::<char>::empty());
                assert(split_lines_spec(tail) =~= seq![lv] + split_lines_spec(
                    text@.skip(len as int),
                ));
            }
        }
        out.push(line);
        proof {
            assert(line_views(out@) =~= line_views(out0) + seq![lv]);
        }
        if j < len {
            i = j + 1;
        } else {
            i = len;
        }
        proof {
            assert(split_lines_spec(text@) =~= line_views(out@) + split_lines_spec(
                text@.skip(i as int),
            ));
        }
    }
    proof {
        assert(text@.skip(len as int) =~= Seq::<char>::empty());
        assert(line_views(out@) =~= split_lines_spec(text@));
    }
    out
}

/// Decoding a file is decoding its first line and the lines after it.
proof fn lemma_decode_cons(l: Seq<char>, ls: Seq<Seq<char>>)
    ensures
        decode_file_spec(seq![l] + ls) == (match (decode_line_spec(l), decode_file_spec(ls)) {
            (Some(p), Some(r)) => Some(seq![p] + r),
            _ => None,
        }),
{
    let all = seq![l] + ls;
    assert(all[0] == l);
    assert(forall|i: int| 1 <= i < all.len() ==> all[i] == ls[i - 1]);
    if line_ok(l) && (forall|i: int| 0 <= i < ls.len() ==> line_ok(#[trigger] ls[i])) {
        assert(forall|i: int| 0 <= i < all.len() ==> line_ok(#[trigger] all[i]));
        assert(Seq::new(all.len(), |i: int| line_task(all[i])) =~= seq![line_task(l)] + Seq::new(
            ls.len(),
            |i: int| line_task(ls[i]),
        ));
    } else if !line_ok(l) {
        assert(!line_ok(all[0]));
    } else {
        let k = choose|i: int| 0 <= i < ls.len() && !line_ok(#[trigger] ls[i]);
        assert(!line_ok(all[k + 1]));
    }
}

/// Round trip: encoding a task list and splitting the text back into
/// lines decodes to the same completion flags and names, in the same
/// order, whenever every name is free of newlines and at most 80
/// characters long.
pub proof fn lemma_round_trip(ts: Seq<TaskView>)
    requires
        forall|i: int| 0 <= i < ts.len() ==> nl_free((#[trigger] ts[i]).name),
        forall|i: int| 0 <= i < ts.len() ==> (#[trigger] ts[i]).name.len() <= 80,
    ensures
        decode_file_spec(split_lines_spec(encode_file_spec(ts))) == Some(
            Seq::new(ts.len(), |i: int| (ts[i].complete, ts[i].name)),
        ),
    decreases ts.len(),
{
    if ts.len() == 0 {
        assert(split_lines_spec(encode_file_spec(ts)) =~= Seq::<Seq<char>>::empty());
        assert(decode_file_spec(Seq::<Seq<char>>::empty()) == Some(Seq::<(bool, Seq<char>)>::empty()));
        assert(Seq::new(ts.len(), |i: int| (ts[i].complete, ts[i].name)) =~= Seq::<(
            bool,
            Seq<char>,
        )>::empty());
    } else {
        let t = ts.first();
        let line = encode_line_spec(t);
        let rest = encode_file_spec(ts.drop_first());
        assert(nl_free(line)) by {
            assert(forall|i: int| 0 <= i < line.len() && i >= 1 ==> line[i] == t.name[i - 1]);
        }
        assert(encode_file_spec(ts) =~= line + seq!['\n'] + rest);
        lemma_split_line(line, rest);
        lemma_round_trip(ts.drop_first());
        let lines = split_lines_spec(encode_file_spec(ts));
        let rest_lines = split_lines_spec(rest);
        assert(lines == seq![line] + rest_lines);
        assert(line_ok(line));
        assert(line_task(line).1 =~= t.name);
        assert(line_task(line) == (t.complete, t.name));
        lemma_decode_cons(line, rest_lines);
        let pairs = Seq::new(ts.len(), |i: int| (ts[i].complete, ts[i].name));
        let rest_pairs = Seq::new(
            ts.drop_first().len(),
            |i: int| (ts.drop_first()[i].complete, ts.drop_first()[i].name),
        );
        assert(decode_file_spec(rest_lines) == Some(rest_pairs));
        assert(decode_file_spec(lines) == Some(seq![(t.complete, t.name)] + rest_pairs));
        assert(seq![(t.complete, t.name)] + rest_pairs =~= pairs);
    }
}

} // verus!
