//! The task data model: a name, a completion flag, and a positional id.
//!
//! Ids are not persisted; they are recomputed as the task's position in the
//! list every time the file is decoded, so a well-formed list always
//! carries ids `0..len-1` in order.

use vstd::prelude::*;
use crate::strutil::{dec_digits, pad_right};
use crate::strutil::{dec_string, padded};

verus! {

/// One task record.
pub struct Task {
    pub name: String,
    pub complete: bool,
    pub id: usize,
}

/// The mathematical value of a [`Task`].
pub struct TaskView {
    pub name: Seq<char>,
    pub complete: bool,
    pub id: nat,
}

impl View for Task {
    type V = TaskView;

    open spec fn view(&self) -> TaskView {
        TaskView { name: self.name@, complete: self.complete, id: self.id as nat }
    }
}

/// The views of every task in a list, in order.
pub open spec fn task_views(ts: Seq<Task>) -> Seq<TaskView> {
    Seq::new(ts.len(), |i: int| ts[i]@)
}

/// Ids are exactly the positions `0..len-1`: the invariant of every task
/// list this library hands out or accepts back.
pub open spec fn ids_dense(ts: Seq<Task>) -> bool {
    forall|i: int| 0 <= i < ts.len() ==> (#[trigger] ts[i])@.id == i
}

/// The status character that leads a task's line in the file.
pub open spec fn status_char(complete: bool) -> char {
    if complete {
        'X'
    } else {
        ' '
    }
}

/// The status column text of the `view` table.
pub open spec fn status_text(complete: bool) -> Seq<char> {
    if complete {
        "COMPLETE"@
    } else {
        "INCOMPLETE"@
    }
}

/// A task's line in the file: the status character, then the name, with no
/// separator.
pub open spec fn encode_line_spec(t: TaskView) -> Seq<char> {
    seq![status_char(t.complete)] + t.name
}

/// A task's row in the `view` table: id in 8 columns, a space, name in 80
/// columns, status in 20 columns.
pub open spec fn row_spec(t: TaskView) -> Seq<char> {
    pad_right(dec_digits(t.id), 8) + seq![' '] + pad_right(t.name, 80) + pad_right(
        status_text(t.complete),
        20,
    )
}

impl Task {
    /// The task's line in the task file.
    pub fn export(&self) -> (r: String)
        ensures
            r@ == encode_line_spec(self@),
    {
        let mut s = if self.complete {
            String::from_str("X")
        } else {
            String::from_str(" ")
        };
        proof {
            reveal_strlit("X");
            reveal_strlit(" ");
        }
        s.append(self.name.as_str());
        proof {
            assert(s@ =~= encode_line_spec(self@));
        }
        s
    }

    /// The task's row in the `view` table.
    pub fn as_string(&self) -> (r: String)
        ensures
            r@ == row_spec(self@),
    {
        let id_text = dec_string(self.id);
        let mut s = padded(id_text.as_str(), 8);
        s.append(" ");
        let name_col = padded(self.name.as_str(), 80);
        s.append(name_col.as_str());
        let status = if self.complete {
            "COMPLETE"
        } else {
            "INCOMPLETE"
        };
        let status_col = padded(status, 20);
        s.append(status_col.as_str());
        proof {
            reveal_strlit(" ");
            assert(s@ =~= row_spec(self@));
        }
        s
    }
}

} // verus!
