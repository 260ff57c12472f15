use vstd::prelude::*;

verus! {

/// One task: a completion flag and a single-line summary.
///
/// The summary is held as a sequence of characters. The file codec
/// guarantees that a parsed summary never contains a line terminator.
pub struct Task {
    pub summary: Vec<char>,
    pub completed: bool,
}

/// The mathematical value of a task: the character sequence of its
/// summary and its completion flag.
pub struct TaskRec {
    pub summary: Seq<char>,
    pub completed: bool,
}

impl View for Task {
    type V = TaskRec;

    open spec fn view(&self) -> TaskRec {
        TaskRec { summary: self.summary@, completed: self.completed }
    }
}

impl Task {
    /// A fresh pending task with an empty summary, as produced by
    /// insert and append before the user types anything.
    pub fn new_pending() -> (t: Task)
        ensures
            t@.summary == Seq::<char>::empty(),
            t@.completed == false,
    {
        Task { summary: Vec::new(), completed: false }
    }
}

/// Copies a character vector; used where a summary is duplicated into
/// an edit buffer.
pub fn copy_chars(v: &Vec<char>) -> (r: Vec<char>)
    ensures
        r@ == v@,
{
    let mut r: Vec<char> = Vec::new();
    let mut i: usize = 0;
    while i < v.len()
        invariant
            i <= v.len(),
            r@ == v@.take(i as int),
        decreases v.len() - i,
    {
        r.push(v[i]);
        proof {
            assert(v@.take(i + 1 as int) == v@.take(i as int).push(v@[i as int]));
        }
        i = i + 1;
    }
    proof {
        assert(v@.take(v@.len() as int) == v@);
    }
    r
}

} // verus!
