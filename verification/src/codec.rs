use crate::task::{Task, TaskRec};
use vstd::prelude::*;

verus! {

/// The one failure kind of the library: an underlying file-system
/// operation failed. Parsing and rendering are total, so only the
/// caller that actually touches the file constructs this, carrying the
/// system's message.
#[derive(Debug)]
pub enum Error {
    Io(String),
}

/// The characters with the Unicode `White_Space` property: the set that
/// surrounding-whitespace trimming removes.
pub open spec fn is_ws(c: char) -> bool {
    c == '\u{9}' || c == '\u{a}' || c == '\u{b}' || c == '\u{c}' || c == '\u{d}' || c == ' '
        || c == '\u{85}' || c == '\u{a0}' || c == '\u{1680}' || c == '\u{2000}' || c == '\u{2001}'
        || c == '\u{2002}' || c == '\u{2003}' || c == '\u{2004}' || c == '\u{2005}'
        || c == '\u{2006}' || c == '\u{2007}' || c == '\u{2008}' || c == '\u{2009}'
        || c == '\u{200a}' || c == '\u{2028}' || c == '\u{2029}' || c == '\u{202f}'
        || c == '\u{205f}' || c == '\u{3000}'
}

/// Decides whitespace-ness of one character.
pub fn is_ws_char(c: char) -> (b: bool)
    ensures
        b == is_ws(c),
{
    c == '\u{9}' || c == '\u{a}' || c == '\u{b}' || c == '\u{c}' || c == '\u{d}' || c == ' '
        || c == '\u{85}' || c == '\u{a0}' || c == '\u{1680}' || c == '\u{2000}' || c == '\u{2001}'
        || c == '\u{2002}' || c == '\u{2003}' || c == '\u{2004}' || c == '\u{2005}'
        || c == '\u{2006}' || c == '\u{2007}' || c == '\u{2008}' || c == '\u{2009}'
        || c == '\u{200a}' || c == '\u{2028}' || c == '\u{2029}' || c == '\u{202f}'
        || c == '\u{205f}' || c == '\u{3000}'
}

/// The sequence with leading whitespace removed.
pub open spec fn trim_front(s: Seq<char>) -> Seq<char>
    decreases s.len(),
{
    if s.len() > 0 && is_ws(s[0]) {
        trim_front(s.skip(1))
    } else {
        s
    }
}

/// The sequence with trailing whitespace removed.
pub open spec fn trim_back(s: Seq<char>) -> Seq<char>
    decreases s.len(),
{
    if s.len() > 0 && is_ws(s[s.len() - 1]) {
        trim_back(s.take(s.len() - 1))
    } else {
        s
    }
}

/// The sequence with surrounding whitespace removed.
pub open spec fn trim(s: Seq<char>) -> Seq<char> {
    trim_back(trim_front(s))
}

proof fn lemma_trim_front_len(s: Seq<char>)
    ensures
        trim_front(s).len() <= s.len(),
    decreases s.len(),
{
    if s.len() > 0 && is_ws(s[0]) {
        lemma_trim_front_len(s.skip(1));
    }
}

proof fn lemma_trim_back_len(s: Seq<char>)
    ensures
        trim_back(s).len() <= s.len(),
    decreases s.len(),
{
    if s.len() > 0 && is_ws(s[s.len() - 1]) {
        lemma_trim_back_len(s.take(s.len() - 1));
    }
}

/// A sequence whose endpoints are not whitespace is already trimmed.
pub proof fn lemma_trim_noop(s: Seq<char>)
    requires
        s.len() > 0 ==> !is_ws(s[0]) && !is_ws(s[s.len() - 1]),
    ensures
        trim(s) == s,
{
}

/// Conversely, a sequence equal to its own trimming has no whitespace
/// at either endpoint.
pub proof fn lemma_trimmed_endpoints(s: Seq<char>)
    requires
        trim(s) == s,
        s.len() > 0,
    ensures
        !is_ws(s[0]),
        !is_ws(s[s.len() - 1]),
{
    if is_ws(s[0]) {
        lemma_trim_front_len(s.skip(1));
        lemma_trim_back_len(trim_front(s.skip(1)));
        assert(trim(s).len() < s.len());
    }
    if is_ws(s[s.len() - 1]) {
        assert(trim_front(s) == s);
        lemma_trim_back_len(s.take(s.len() - 1));
        assert(trim(s).len() < s.len());
    }
}

/// Removes surrounding whitespace from a character vector.
pub fn trim_chars(v: &Vec<char>) -> (r: Vec<char>)
    ensures
        r@ == trim(v@),
{
    let ghost s = v@;
    proof {
        assert(s.skip(0) =~= s);
    }
    let mut lo: usize = 0;
    while lo < v.len() && is_ws_char(v[lo])
        invariant
            lo <= v.len(),
            s == v@,
            forall|j: int| 0 <= j < lo ==> is_ws(s[j]),
            trim_front(s) == trim_front(s.skip(lo as int)),
        decreases v.len() - lo,
    {
        proof {
            assert(s.skip(lo as int).skip(1) =~= s.skip(lo + 1));
        }
        lo = lo + 1;
    }
    if lo == v.len() {
        proof {
            assert(s.skip(lo as int) =~= Seq::<char>::empty());
            assert(trim_front(s) == Seq::<char>::empty());
            assert(trim_back(Seq::<char>::empty()) =~= Seq::<char>::empty());
        }
        let r: Vec<char> = Vec::new();
        return r;
    }
    proof {
        assert(trim_front(s) == s.skip(lo as int));
    }
    let mut hi: usize = v.len();
    while hi > lo && is_ws_char(v[hi - 1])
        invariant
            lo <= hi <= v.len(),
            s == v@,
            !is_ws(s[lo as int]),
            trim_front(s) == s.skip(lo as int),
            trim_back(s.skip(lo as int)) == trim_back(s.subrange(lo as int, hi as int)),
        decreases hi,
    {
        proof {
            let cur = s.subrange(lo as int, hi as int);
            assert(cur.len() > 0);
            assert(is_ws(cur[cur.len() - 1]));
            assert(cur.take(cur.len() - 1) =~= s.subrange(lo as int, hi - 1));
        }
        hi = hi - 1;
    }
    proof {
        if hi == lo {
            assert(s.subrange(lo as int, hi as int) =~= Seq::<char>::empty());
            assert(!is_ws(s[lo as int]));
            assert(s.skip(lo as int)[0] == s[lo as int]);
            assert(trim_back(s.skip(lo as int)).len() == 0);
            lemma_trim_back_keeps_head(s.skip(lo as int));
            assert(false);
        } else {
            let cur = s.subrange(lo as int, hi as int);
            assert(!is_ws(cur[cur.len() - 1]));
            assert(trim_back(cur) == cur);
        }
    }
    let mut r: Vec<char> = Vec::new();
    let mut k: usize = lo;
    while k < hi
        invariant
            lo <= k <= hi <= v.len(),
            s == v@,
            r@ == s.subrange(lo as int, k as int),
        decreases hi - k,
    {
        r.push(v[k]);
        proof {
            assert(s.subrange(lo as int, k + 1) =~= s.subrange(lo as int, k as int).push(
                s[k as int],
            ));
        }
        k = k + 1;
    }
    r
}

/// The task a single nonempty line denotes. The line is trimmed; a
/// trimmed line starting with a lowercase `x` is a completed task whose
/// summary is the remainder after that `x`, itself trimmed; any other
/// line is a pending task whose summary is the whole trimmed line.
pub open spec fn parse_line_rec(line: Seq<char>) -> TaskRec {
    let t = trim(line);
    if t.len() > 0 && t[0] == 'x' {
        TaskRec { summary: trim(t.skip(1)), completed: true }
    } else {
        TaskRec { summary: t, completed: false }
    }
}

/// The line a task is persisted as: `x`, one space, then the summary
/// for a completed task; two spaces then the summary for a pending one,
/// so summaries align under the `x ` marker column.
pub open spec fn format_line_rec(t: TaskRec) -> Seq<char> {
    if t.completed {
        seq!['x', ' '] + t.summary
    } else {
        seq![' ', ' '] + t.summary
    }
}

/// Parses one line of the task file into a task.
pub fn parse_line(line: &Vec<char>) -> (t: Task)
    ensures
        t@ == parse_line_rec(line@),
{
    let tr = trim_chars(line);
    if tr.len() > 0 && tr[0] == 'x' {
        let mut rest: Vec<char> = Vec::new();
        let mut k: usize = 1;
        while k < tr.len()
            invariant
                1 <= k <= tr@.len(),
                rest@ == tr@.subrange(1, k as int),
            decreases tr.len() - k,
        {
            rest.push(tr[k]);
            proof {
                assert(tr@.subrange(1, k + 1) =~= tr@.subrange(1, k as int).push(tr@[k as int]));
            }
            k = k + 1;
        }
        proof {
            assert(rest@ =~= tr@.skip(1));
        }
        let summary = trim_chars(&rest);
        Task { summary, completed: true }
    } else {
        Task { summary: tr, completed: false }
    }
}

/// Renders one task as its file line, without the terminator.
pub fn format_line(t: &Task) -> (line: Vec<char>)
    ensures
        line@ == format_line_rec(t@),
{
    let mut line: Vec<char> = Vec::new();
    if t.completed {
        line.push('x');
        line.push(' ');
    } else {
        line.push(' ');
        line.push(' ');
    }
    let mut k: usize = 0;
    while k < t.summary.len()
        invariant
            k <= t.summary@.len(),
            line@ == format_line_rec(t@).take(2 + k as int),
            line@.len() == 2 + k as int,
        decreases t.summary.len() - k,
    {
        line.push(t.summary[k]);
        proof {
            assert(format_line_rec(t@).take(2 + (k + 1)) =~= format_line_rec(t@).take(
                2 + k as int,
            ).push(t@.summary[k as int]));
        }
        k = k + 1;
    }
    proof {
        assert(format_line_rec(t@).take(2 + t@.summary.len() as int) =~= format_line_rec(t@));
    }
    line
}

/// A task round-trips through its file line: its summary carries no
/// line terminator and no surrounding whitespace, and a pending summary
/// does not begin with the completion marker `x`.
pub open spec fn canonical(t: TaskRec) -> bool {
    trim(t.summary) == t.summary && (forall|i: int|
        0 <= i < t.summary.len() ==> t.summary[i] != '\n') && (!t.completed && t.summary.len() > 0
        ==> t.summary[0] != 'x')
}

/// Parsing the formatted line of a canonical task yields the task back.
pub proof fn lemma_parse_format_line(t: TaskRec)
    requires
        canonical(t),
    ensures
        parse_line_rec(format_line_rec(t)) == t,
{
    let line = format_line_rec(t);
    let s = t.summary;
    if s.len() > 0 {
        lemma_trimmed_endpoints(s);
    }
    if t.completed {
        assert(line[0] == 'x');
        assert(line[line.len() - 1] == if s.len() > 0 {
            s[s.len() - 1]
        } else {
            ' '
        });
        if s.len() > 0 {
            lemma_trim_noop(line);
            assert(trim(line) == line);
            assert(line.skip(1) =~= seq![' '] + s);
            assert((seq![' '] + s).skip(1) =~= s);
            assert(trim_front(seq![' '] + s) == s);
            assert(trim_back(s) == s);
        } else {
            assert(line =~= seq!['x', ' ']);
            assert(trim_front(line) == line);
            assert(line.take(1) =~= seq!['x']);
            assert(trim_back(line) == trim_back(seq!['x']));
            assert(trim_back(seq!['x']) == seq!['x']);
            assert(trim(line) == seq!['x']);
            assert(seq!['x'].skip(1) =~= Seq::<char>::empty());
            assert(trim(Seq::<char>::empty()) == Seq::<char>::empty());
        }
        assert(parse_line_rec(line).completed == true);
        assert(parse_line_rec(line).summary =~= s);
    } else {
        assert(line.skip(1) =~= seq![' '] + s);
        assert((seq![' '] + s).skip(1) =~= s);
        assert(is_ws(line[0]));
        assert(trim_front(line) == trim_front(line.skip(1)));
        assert(trim_front(seq![' '] + s) == trim_front(s));
        assert(trim_front(line) == trim_front(s));
        if s.len() > 0 {
            assert(trim_front(s) == s);
            assert(trim_back(s) == s);
            assert(trim(line) == s);
            assert(s[0] != 'x');
        } else {
            assert(trim_front(line) =~= Seq::<char>::empty());
            assert(trim(line) =~= Seq::<char>::empty());
        }
        assert(parse_line_rec(line) =~= t);
    }
}

/// A nonempty sequence whose head is not whitespace keeps a nonempty
/// trimmed-back form: trailing trimming never consumes the head.
proof fn lemma_trim_back_keeps_head(s: Seq<char>)
    requires
        s.len() > 0,
        !is_ws(s[0]),
    ensures
        trim_back(s).len() > 0,
        trim_back(s)[0] == s[0],
    decreases s.len(),
{
    if s.len() > 0 && is_ws(s[s.len() - 1]) {
        assert(s.take(s.len() - 1)[0] == s[0]);
        lemma_trim_back_keeps_head(s.take(s.len() - 1));
    }
}

/// The lines of a text, in order: pieces between `\n` terminators. A
/// final piece after the last terminator is a line of its own; a text
/// ending in `\n` has no empty final line.
pub open spec fn split_lines(s: Seq<char>) -> Seq<Seq<char>>
    decreases s.len(),
{
    if s.len() == 0 {
        Seq::empty()
    } else if s[0] == '\n' {
        seq![Seq::<char>::empty()] + split_lines(s.skip(1))
    } else {
        let rest = split_lines(s.skip(1));
        if rest.len() == 0 {
            seq![seq![s[0]]]
        } else {
            seq![seq![s[0]] + rest[0]] + rest.skip(1)
        }
    }
}

/// A line with a trailing carriage return (from a `\r\n` terminator)
/// counts as the line without it.
pub open spec fn strip_cr(line: Seq<char>) -> Seq<char> {
    if line.len() > 0 && line[line.len() - 1] == '\r' {
        line.take(line.len() - 1)
    } else {
        line
    }
}

/// The tasks a sequence of lines denotes: empty lines are discarded,
/// every other line parses to exactly one task, in order.
pub open spec fn parse_lines(lines: Seq<Seq<char>>) -> Seq<TaskRec>
    decreases lines.len(),
{
    if lines.len() == 0 {
        Seq::empty()
    } else {
        let l = strip_cr(lines[0]);
        let rest = parse_lines(lines.skip(1));
        if l.len() == 0 {
            rest
        } else {
            seq![parse_line_rec(l)] + rest
        }
    }
}

/// The tasks a whole file's contents denote.
pub open spec fn parse_content(s: Seq<char>) -> Seq<TaskRec> {
    parse_lines(split_lines(s))
}

/// The file contents a task sequence is persisted as: each task's
/// line followed by a `\n` terminator, in order.
pub open spec fn render_tasks(ts: Seq<TaskRec>) -> Seq<char>
    decreases ts.len(),
{
    if ts.len() == 0 {
        Seq::empty()
    } else {
        format_line_rec(ts[0]) + seq!['\n'] + render_tasks(ts.skip(1))
    }
}

/// An unterminated partial line `cur` put back in front of the lines
/// that follow it: glued onto the first following line, or a line of
/// its own if nothing follows, or nothing at all if it is empty.
spec fn merge_first(cur: Seq<char>, lines: Seq<Seq<char>>) -> Seq<Seq<char>> {
    if lines.len() == 0 {
        if cur.len() == 0 {
            Seq::empty()
        } else {
            seq![cur]
        }
    } else {
        seq![cur + lines[0]] + lines.skip(1)
    }
}

proof fn lemma_split_cons_char(s: Seq<char>)
    requires
        s.len() > 0,
        s[0] != '\n',
    ensures
        split_lines(s) == merge_first(seq![s[0]], split_lines(s.skip(1))),
{
    let rest = split_lines(s.skip(1));
    if rest.len() == 0 {
        assert(split_lines(s) =~~= merge_first(seq![s[0]], rest));
    } else {
        assert(seq![s[0]] + rest[0] == merge_first(seq![s[0]], rest)[0]);
        assert(split_lines(s) =~~= merge_first(seq![s[0]], rest));
    }
}

proof fn lemma_merge_push(cur: Seq<char>, c: char, lines: Seq<Seq<char>>)
    ensures
        merge_first(cur.push(c), lines) == merge_first(cur, merge_first(seq![c], lines)),
{
    if lines.len() == 0 {
        assert(cur + seq![c] =~= cur.push(c));
        assert(merge_first(cur.push(c), lines) =~~= merge_first(cur, merge_first(seq![c], lines)));
    } else {
        assert(cur + (seq![c] + lines[0]) =~= cur.push(c) + lines[0]);
        assert(merge_first(cur.push(c), lines) =~~= merge_first(cur, merge_first(seq![c], lines)));
    }
}

proof fn lemma_parse_lines_concat(a: Seq<Seq<char>>, b: Seq<Seq<char>>)
    ensures
        parse_lines(a + b) == parse_lines(a) + parse_lines(b),
    decreases a.len(),
{
    if a.len() == 0 {
        assert(a + b =~= b);
        assert(parse_lines(a) + parse_lines(b) =~= parse_lines(b));
    } else {
        assert((a + b).skip(1) =~= a.skip(1) + b);
        lemma_parse_lines_concat(a.skip(1), b);
        assert((a + b)[0] == a[0]);
        assert(parse_lines(a + b) =~= parse_lines(a) + parse_lines(b));
    }
}

/// The task values a vector of tasks holds, in order.
pub open spec fn views_of(ts: Seq<Task>) -> Seq<TaskRec> {
    ts.map_values(|t: Task| t@)
}

/// The in-memory document: the ordered task sequence backed by one
/// file. The caller owns the path and the file handling; it passes the
/// file's characters to `load` and writes the characters `save`
/// returns back to the file.
pub struct TodoFile {
    pub tasks: Vec<Task>,
}

impl View for TodoFile {
    type V = Seq<TaskRec>;

    open spec fn view(&self) -> Seq<TaskRec> {
        views_of(self.tasks@)
    }
}

/// Closes the unterminated line `cur`: appends its task to `tasks`
/// unless the line is empty.
fn finish_line(tasks: &mut Vec<Task>, cur: Vec<char>)
    ensures
        views_of(final(tasks)@) == views_of(old(tasks)@) + parse_lines(seq![cur@]),
{
    let ghost cur0 = cur@;
    let mut cur = cur;
    if cur.len() > 0 && cur[cur.len() - 1] == '\r' {
        cur.pop();
        proof {
            assert(cur@ =~= strip_cr(cur0));
        }
    }
    proof {
        assert(cur@ == strip_cr(cur0));
        assert(seq![cur0].skip(1) =~= Seq::<Seq<char>>::empty());
        assert(parse_lines(Seq::<Seq<char>>::empty()) == Seq::<TaskRec>::empty());
    }
    if cur.len() > 0 {
        let t = parse_line(&cur);
        tasks.push(t);
        proof {
            assert(parse_lines(seq![cur0]) =~= seq![parse_line_rec(strip_cr(cur0))]);
            assert(views_of(final(tasks)@) =~= views_of(old(tasks)@) + parse_lines(seq![cur0]));
        }
    } else {
        proof {
            assert(parse_lines(seq![cur0]) =~= Seq::<TaskRec>::empty());
            assert(views_of(final(tasks)@) =~= views_of(old(tasks)@) + parse_lines(seq![cur0]));
        }
    }
}

impl TodoFile {
    /// Loads a document from the backing file's full contents: splits
    /// them into lines, discards empty lines, and parses each
    /// remaining line into one task, in order. Parsing is total, so
    /// loading cannot fail.
    pub fn load(contents: &Vec<char>) -> (doc: TodoFile)
        ensures
            doc@ == parse_content(contents@),
    {
        let ghost s = contents@;
        let mut tasks: Vec<Task> = Vec::new();
        let mut cur: Vec<char> = Vec::new();
        let mut i: usize = 0;
        proof {
            assert(s.skip(0) =~= s);
            assert(views_of(tasks@) =~= Seq::<TaskRec>::empty());
            assert(merge_first(cur@, split_lines(s)) =~~= split_lines(s));
        }
        while i < contents.len()
            invariant
                i <= contents.len(),
                s == contents@,
                parse_content(s) == views_of(tasks@) + parse_lines(
                    merge_first(cur@, split_lines(s.skip(i as int))),
                ),
            decreases contents.len() - i,
        {
            let c = contents[i];
            let ghost ls = split_lines(s.skip(i + 1));
            proof {
                assert(s.skip(i as int)[0] == s[i as int]);
                assert(s.skip(i as int).skip(1) =~= s.skip(i + 1));
            }
            if c == '\n' {
                proof {
                    assert(split_lines(s.skip(i as int)) =~~= seq![Seq::<char>::empty()] + ls);
                    assert(merge_first(cur@, seq![Seq::<char>::empty()] + ls) =~~= seq![cur@] + ls);
                    lemma_parse_lines_concat(seq![cur@], ls);
                    assert(merge_first(Seq::<char>::empty(), ls) =~~= ls);
                }
                finish_line(&mut tasks, cur);
                cur = Vec::new();
            } else {
                proof {
                    lemma_split_cons_char(s.skip(i as int));
                    lemma_merge_push(cur@, c, ls);
                    assert(merge_first(cur@, split_lines(s.skip(i as int))) =~~= merge_first(
                        cur@.push(c),
                        ls,
                    ));
                }
                cur.push(c);
            }
            i = i + 1;
        }
        proof {
            assert(s.skip(s.len() as int) =~= Seq::<char>::empty());
            assert(merge_first(cur@, split_lines(s.skip(s.len() as int))) =~~= (if cur@.len() == 0 {
                Seq::<Seq<char>>::empty()
            } else {
                seq![cur@]
            }));
            assert(parse_lines(Seq::<Seq<char>>::empty()) == Seq::<TaskRec>::empty());
            if cur@.len() == 0 {
                assert(seq![cur@].skip(1) =~= Seq::<Seq<char>>::empty());
                assert(strip_cr(cur@).len() == 0);
                assert(parse_lines(seq![cur@]) =~= Seq::<TaskRec>::empty());
                assert(parse_lines(Seq::<Seq<char>>::empty()) =~= Seq::<TaskRec>::empty());
            }
        }
        finish_line(&mut tasks, cur);
        TodoFile { tasks }
    }

    /// Renders the document as the backing file's full contents: each
    /// task's line followed by a `\n` terminator, in order. The
    /// in-memory sequence is untouched.
    pub fn save(&self) -> (contents: Vec<char>)
        ensures
            contents@ == render_tasks(self@),
    {
        let ghost v = views_of(self.tasks@);
        let mut out: Vec<char> = Vec::new();
        let mut i: usize = 0;
        proof {
            assert(v.take(0) =~= Seq::<TaskRec>::empty());
        }
        while i < self.tasks.len()
            invariant
                i <= self.tasks.len(),
                v == views_of(self.tasks@),
                out@ == render_tasks(v.take(i as int)),
            decreases self.tasks.len() - i,
        {
            let mut line = format_line(&self.tasks[i]);
            proof {
                assert(v[i as int] == self.tasks@[i as int]@);
                assert(v.take(i + 1) =~= v.take(i as int) + seq![v[i as int]]);
                lemma_render_concat(v.take(i as int), seq![v[i as int]]);
                assert(seq![v[i as int]].skip(1) =~= Seq::<TaskRec>::empty());
                assert(render_tasks(Seq::<TaskRec>::empty()) == Seq::<char>::empty());
                assert(format_line_rec(v[i as int]) + seq!['\n'] + Seq::<char>::empty() =~= format_line_rec(v[i as int]) + seq!['\n']);
                assert(render_tasks(seq![v[i as int]]) =~= format_line_rec(v[i as int]) + seq![
                    '\n',
                ]);
            }
            out.append(&mut line);
            out.push('\n');
            i = i + 1;
        }
        proof {
            assert(v.take(v.len() as int) =~= v);
        }
        out
    }
}

proof fn lemma_render_concat(a: Seq<TaskRec>, b: Seq<TaskRec>)
    ensures
        render_tasks(a + b) == render_tasks(a) + render_tasks(b),
    decreases a.len(),
{
    if a.len() == 0 {
        assert(a + b =~= b);
        assert(render_tasks(a) + render_tasks(b) =~= render_tasks(b));
    } else {
        assert((a + b).skip(1) =~= a.skip(1) + b);
        lemma_render_concat(a.skip(1), b);
        assert((a + b)[0] == a[0]);
        assert(render_tasks(a + b) =~= render_tasks(a) + render_tasks(b));
    }
}

proof fn lemma_split_line_prefix(l: Seq<char>, s: Seq<char>)
    requires
        forall|i: int| 0 <= i < l.len() ==> l[i] != '\n',
    ensures
        split_lines(l + seq!['\n'] + s) == seq![l] + split_lines(s),
    decreases l.len(),
{
    if l.len() == 0 {
        assert(l + seq!['\n'] + s =~= seq!['\n'] + s);
        assert((seq!['\n'] + s).skip(1) =~= s);
        assert(split_lines(seq!['\n'] + s) =~~= seq![Seq::<char>::empty()] + split_lines(s));
        assert(seq![l] =~~= seq![Seq::<char>::empty()]);
    } else {
        let w = l + seq!['\n'] + s;
        assert(w[0] == l[0]);
        assert(w.skip(1) =~= l.skip(1) + seq!['\n'] + s);
        assert(forall|i: int| 0 <= i < l.skip(1).len() ==> l.skip(1)[i] != '\n');
        lemma_split_line_prefix(l.skip(1), s);
        let rest = split_lines(w.skip(1));
        assert(rest == seq![l.skip(1)] + split_lines(s));
        assert(rest.len() > 0);
        assert(rest[0] == l.skip(1));
        assert(split_lines(w) =~~= seq![seq![w[0]] + rest[0]] + rest.skip(1));
        assert(seq![w[0]] + l.skip(1) =~= l);
        assert(rest.skip(1) =~~= split_lines(s));
        assert(split_lines(w) =~~= seq![l] + split_lines(s));
    }
}

/// The round trip of persistence: parsing rendered file contents
/// yields the task sequence back, provided every task round-trips as a
/// line (its summary carries no line terminator and no surrounding
/// whitespace, and a pending summary does not begin with `x`).
pub proof fn lemma_round_trip(ts: Seq<TaskRec>)
    requires
        forall|i: int| 0 <= i < ts.len() ==> canonical(#[trigger] ts[i]),
    ensures
        parse_content(render_tasks(ts)) == ts,
    decreases ts.len(),
{
    if ts.len() == 0 {
        assert(render_tasks(ts) == Seq::<char>::empty());
        assert(split_lines(Seq::<char>::empty()) =~~= Seq::<Seq<char>>::empty());
        assert(parse_lines(Seq::<Seq<char>>::empty()) == Seq::<TaskRec>::empty());
        assert(parse_content(render_tasks(ts)) =~= ts);
    } else {
        let t = ts[0];
        assert(canonical(t));
        let fl = format_line_rec(t);
        let tail = render_tasks(ts.skip(1));
        assert(fl.len() >= 2);
        assert(forall|i: int| 0 <= i < fl.len() ==> fl[i] != '\n') by {
            assert(forall|i: int| 2 <= i < fl.len() ==> fl[i] == t.summary[i - 2]);
        }
        assert(render_tasks(ts) == fl + seq!['\n'] + tail);
        lemma_split_line_prefix(fl, tail);
        lemma_parse_lines_concat(seq![fl], split_lines(tail));
        if t.summary.len() > 0 {
            lemma_trimmed_endpoints(t.summary);
            assert(fl[fl.len() - 1] == t.summary[t.summary.len() - 1]);
            assert(is_ws('\u{d}'));
        } else {
            assert(fl[fl.len() - 1] == ' ');
        }
        assert(fl[fl.len() - 1] != '\r');
        assert(strip_cr(fl) == fl);
        assert(seq![fl].skip(1) =~~= Seq::<Seq<char>>::empty());
        assert(parse_lines(Seq::<Seq<char>>::empty()) == Seq::<TaskRec>::empty());
        assert(parse_lines(seq![fl]) =~= seq![parse_line_rec(fl)]);
        lemma_parse_format_line(t);
        assert(forall|i: int| 0 <= i < ts.skip(1).len() ==> canonical(#[trigger] ts.skip(1)[i]));
        lemma_round_trip(ts.skip(1));
        assert(parse_content(render_tasks(ts)) =~= ts);
    }
}

} // verus!
