use crate::codec::{parse_content, render_tasks, views_of, TodoFile};
use crate::task::{copy_chars, Task, TaskRec};
use vstd::prelude::*;

verus! {

/// The current interaction mode, a tagged variant with per-mode data:
/// browsing with nothing selected, a selected task, or an inline edit
/// of one task with its live text buffer and insertion cursor.
pub enum Mode {
    View,
    Select(usize),
    Edit { item: usize, cursor: usize, text: Vec<char> },
}

/// The mathematical value of a mode.
pub enum ModeRec {
    View,
    Select(int),
    Edit { item: int, cursor: int, text: Seq<char> },
}

impl View for Mode {
    type V = ModeRec;

    open spec fn view(&self) -> ModeRec {
        match self {
            Mode::View => ModeRec::View,
            Mode::Select(i) => ModeRec::Select(*i as int),
            Mode::Edit { item, cursor, text } => ModeRec::Edit {
                item: *item as int,
                cursor: *cursor as int,
                text: text@,
            },
        }
    }
}

/// The whole editing session: the document, the interaction mode, and
/// the two loop flags. The interaction loop owns one value of this.
pub struct App {
    pub todo_file: TodoFile,
    pub mode: Mode,
    pub is_running: bool,
    pub is_dirty: bool,
}

/// The mathematical value of a session.
pub struct AppRec {
    pub doc: Seq<TaskRec>,
    pub mode: ModeRec,
    pub is_running: bool,
    pub is_dirty: bool,
}

impl View for App {
    type V = AppRec;

    open spec fn view(&self) -> AppRec {
        AppRec {
            doc: self.todo_file@,
            mode: self.mode@,
            is_running: self.is_running,
            is_dirty: self.is_dirty,
        }
    }
}

impl AppRec {
    /// The session invariant: a selection index addresses a task, and
    /// an edit addresses a task with its cursor inside the buffer.
    pub open spec fn wf(self) -> bool {
        match self.mode {
            ModeRec::View => true,
            ModeRec::Select(i) => 0 <= i < self.doc.len(),
            ModeRec::Edit { item, cursor, text } => 0 <= item < self.doc.len() && 0 <= cursor
                <= text.len(),
        }
    }
}

/// An empty pending task record, as inserted before an edit.
pub open spec fn blank_rec() -> TaskRec {
    TaskRec { summary: Seq::empty(), completed: false }
}

/// Selecting the first task; on an empty document there is nothing to
/// select and the session stays browsing.
pub open spec fn select_first_spec(a: AppRec) -> AppRec {
    AppRec {
        mode: if a.doc.len() > 0 {
            ModeRec::Select(0)
        } else {
            ModeRec::View
        },
        ..a
    }
}

/// Selecting the last task; browsing on an empty document.
pub open spec fn select_last_spec(a: AppRec) -> AppRec {
    AppRec {
        mode: if a.doc.len() > 0 {
            ModeRec::Select(a.doc.len() - 1)
        } else {
            ModeRec::View
        },
        ..a
    }
}

/// Moving the selection down one task, clamped to the last index;
/// outside a selection it selects the first task.
pub open spec fn select_next_spec(a: AppRec) -> AppRec {
    match a.mode {
        ModeRec::Select(i) => AppRec {
            mode: ModeRec::Select(
                if i + 1 < a.doc.len() {
                    i + 1
                } else {
                    a.doc.len() - 1
                },
            ),
            ..a
        },
        _ => select_first_spec(a),
    }
}

/// Moving the selection up one task, clamped to the first index;
/// outside a selection it selects the first task.
pub open spec fn select_prev_spec(a: AppRec) -> AppRec {
    match a.mode {
        ModeRec::Select(i) => AppRec {
            mode: ModeRec::Select(
                if i > 0 {
                    i - 1
                } else {
                    0
                },
            ),
            ..a
        },
        _ => select_first_spec(a),
    }
}

/// Flipping the completion flag of the selected task; a no-op outside
/// a selection.
pub open spec fn complete_selected_spec(a: AppRec) -> AppRec {
    match a.mode {
        ModeRec::Select(i) => AppRec {
            doc: a.doc.update(
                i,
                TaskRec { summary: a.doc[i].summary, completed: !a.doc[i].completed },
            ),
            is_dirty: true,
            ..a
        },
        _ => a,
    }
}

/// Removing the selected task. The selection index is then clamped
/// into the shorter document, and an emptied document returns the
/// session to browsing; a no-op outside a selection.
pub open spec fn delete_selected_spec(a: AppRec) -> AppRec {
    match a.mode {
        ModeRec::Select(i) => {
            let doc = a.doc.remove(i);
            AppRec {
                doc: doc,
                mode: if doc.len() == 0 {
                    ModeRec::View
                } else {
                    ModeRec::Select(
                        if i < doc.len() {
                            i
                        } else {
                            doc.len() - 1
                        },
                    )
                },
                is_dirty: true,
                ..a
            }
        },
        _ => a,
    }
}

/// Opening an inline edit of the selected task (of the first task
/// outside a selection): its summary becomes the buffer and the cursor
/// starts at the buffer's end. A no-op on an empty document.
pub open spec fn edit_task_spec(a: AppRec) -> AppRec {
    if a.doc.len() == 0 {
        a
    } else {
        let idx = match a.mode {
            ModeRec::Select(i) => i,
            _ => 0,
        };
        AppRec {
            mode: ModeRec::Edit {
                item: idx,
                cursor: a.doc[idx].summary.len() as int,
                text: a.doc[idx].summary,
            },
            ..a
        }
    }
}

/// Inserting an empty pending task at `idx` and opening an edit of it
/// with an empty buffer.
pub open spec fn add_edit_task_spec(a: AppRec, idx: int) -> AppRec {
    AppRec {
        doc: a.doc.insert(idx, blank_rec()),
        mode: ModeRec::Edit { item: idx, cursor: 0, text: Seq::empty() },
        ..a
    }
}

/// Inserting a new empty task before the current selection (at the
/// front outside a selection) and opening an edit of it.
pub open spec fn insert_task_spec(a: AppRec) -> AppRec {
    add_edit_task_spec(
        a,
        match a.mode {
            ModeRec::Select(i) => if i > 0 {
                i - 1
            } else {
                0
            },
            _ => 0,
        },
    )
}

/// Inserting a new empty task after the current selection (at the end
/// outside a selection) and opening an edit of it.
pub open spec fn append_task_spec(a: AppRec) -> AppRec {
    add_edit_task_spec(
        a,
        match a.mode {
            ModeRec::Select(i) => i + 1,
            _ => a.doc.len() as int,
        },
    )
}

/// A save: the document itself is untouched, only the dirty flag
/// clears.
pub open spec fn save_spec(a: AppRec) -> AppRec {
    AppRec { is_dirty: false, ..a }
}

/// Committing an edit: the buffer becomes the edited task's summary,
/// the task stays where it was, and the session selects it; a no-op
/// outside an edit.
pub open spec fn save_edit_spec(a: AppRec) -> AppRec {
    match a.mode {
        ModeRec::Edit { item, cursor, text } => AppRec {
            doc: a.doc.update(item, TaskRec { summary: text, completed: a.doc[item].completed }),
            mode: ModeRec::Select(item),
            is_dirty: true,
            ..a
        },
        _ => a,
    }
}

/// Cancelling an edit: the buffer is discarded, the document is
/// untouched, and the session selects the task that was under edit; a
/// no-op outside an edit.
pub open spec fn cancel_edit_spec(a: AppRec) -> AppRec {
    match a.mode {
        ModeRec::Edit { item, .. } => AppRec { mode: ModeRec::Select(item), ..a },
        _ => a,
    }
}

/// Ending the interaction loop; saves nothing by itself.
pub open spec fn quit_spec(a: AppRec) -> AppRec {
    AppRec { is_running: false, ..a }
}

/// Typing one character into the edit buffer at the cursor, which
/// moves right past it; a no-op outside an edit.
pub open spec fn insert_char_spec(a: AppRec, c: char) -> AppRec {
    match a.mode {
        ModeRec::Edit { item, cursor, text } => AppRec {
            mode: ModeRec::Edit { item, cursor: cursor + 1, text: text.insert(cursor, c) },
            ..a
        },
        _ => a,
    }
}

/// Backspace: removes the character before the cursor and moves the
/// cursor left; a no-op at the buffer's start or outside an edit.
pub open spec fn backspace_spec(a: AppRec) -> AppRec {
    match a.mode {
        ModeRec::Edit { item, cursor, text } => if cursor > 0 {
            AppRec {
                mode: ModeRec::Edit { item, cursor: cursor - 1, text: text.remove(cursor - 1) },
                ..a
            }
        } else {
            a
        },
        _ => a,
    }
}

/// Forward delete: removes the character at the cursor, which stays
/// put; a no-op at the buffer's end or outside an edit.
pub open spec fn delete_char_spec(a: AppRec) -> AppRec {
    match a.mode {
        ModeRec::Edit { item, cursor, text } => if cursor < text.len() {
            AppRec { mode: ModeRec::Edit { item, cursor, text: text.remove(cursor) }, ..a }
        } else {
            a
        },
        _ => a,
    }
}

/// Moving the cursor one character left, clamped to the buffer start;
/// a no-op outside an edit.
pub open spec fn cursor_left_spec(a: AppRec) -> AppRec {
    match a.mode {
        ModeRec::Edit { item, cursor, text } => if cursor > 0 {
            AppRec { mode: ModeRec::Edit { item, cursor: cursor - 1, text }, ..a }
        } else {
            a
        },
        _ => a,
    }
}

/// Moving the cursor one character right, clamped to the buffer end;
/// a no-op outside an edit.
pub open spec fn cursor_right_spec(a: AppRec) -> AppRec {
    match a.mode {
        ModeRec::Edit { item, cursor, text } => if cursor < text.len() {
            AppRec { mode: ModeRec::Edit { item, cursor: cursor + 1, text }, ..a }
        } else {
            a
        },
        _ => a,
    }
}

proof fn lemma_views_update(s: Seq<Task>, i: int, t: Task)
    requires
        0 <= i < s.len(),
    ensures
        views_of(s.update(i, t)) == views_of(s).update(i, t@),
{
    assert(views_of(s.update(i, t)) =~= views_of(s).update(i, t@));
}

proof fn lemma_views_remove(s: Seq<Task>, i: int)
    requires
        0 <= i < s.len(),
    ensures
        views_of(s.remove(i)) == views_of(s).remove(i),
{
    assert(views_of(s.remove(i)) =~= views_of(s).remove(i));
}

proof fn lemma_views_insert(s: Seq<Task>, i: int, t: Task)
    requires
        0 <= i <= s.len(),
    ensures
        views_of(s.insert(i, t)) == views_of(s).insert(i, t@),
{
    assert(views_of(s.insert(i, t)) =~= views_of(s).insert(i, t@));
}

impl App {
    /// Opens a session over the given file contents: the parsed
    /// document, browsing, running, and in sync with the file.
    pub fn load(contents: &Vec<char>) -> (app: App)
        ensures
            app@.doc == parse_content(contents@),
            app@.mode == ModeRec::View,
            app@.is_running,
            !app@.is_dirty,
            app@.wf(),
    {
        let todo_file = TodoFile::load(contents);
        App { todo_file, mode: Mode::View, is_running: true, is_dirty: false }
    }

    /// Ends the interaction loop.
    pub fn quit(&mut self)
        ensures
            final(self)@ == quit_spec(old(self)@),
    {
        self.is_running = false;
    }

    /// Selects the first task, or keeps browsing if there is none.
    pub fn select_first(&mut self)
        ensures
            final(self)@ == select_first_spec(old(self)@),
            final(self)@.wf(),
    {
        if self.todo_file.tasks.len() > 0 {
            self.mode = Mode::Select(0);
        } else {
            self.mode = Mode::View;
        }
    }

    /// Selects the last task, or keeps browsing if there is none.
    pub fn select_last(&mut self)
        ensures
            final(self)@ == select_last_spec(old(self)@),
            final(self)@.wf(),
    {
        let n = self.todo_file.tasks.len();
        if n > 0 {
            self.mode = Mode::Select(n - 1);
        } else {
            self.mode = Mode::View;
        }
    }

    /// Moves the selection down one task, clamped to the last index;
    /// enters selection at the top when nothing is selected.
    pub fn select_next(&mut self)
        requires
            old(self)@.wf(),
        ensures
            final(self)@ == select_next_spec(old(self)@),
            final(self)@.wf(),
    {
        let n = self.todo_file.tasks.len();
        match &self.mode {
            Mode::Select(i) => {
                let i = *i;
                let ni = if i + 1 < n {
                    i + 1
                } else {
                    n - 1
                };
                self.mode = Mode::Select(ni);
            },
            _ => {
                if n > 0 {
                    self.mode = Mode::Select(0);
                } else {
                    self.mode = Mode::View;
                }
            },
        }
    }

    /// Moves the selection up one task, clamped to the first index;
    /// enters selection at the top when nothing is selected.
    pub fn select_prev(&mut self)
        requires
            old(self)@.wf(),
        ensures
            final(self)@ == select_prev_spec(old(self)@),
            final(self)@.wf(),
    {
        let n = self.todo_file.tasks.len();
        match &self.mode {
            Mode::Select(i) => {
                let i = *i;
                let ni = if i > 0 {
                    i - 1
                } else {
                    0
                };
                self.mode = Mode::Select(ni);
            },
            _ => {
                if n > 0 {
                    self.mode = Mode::Select(0);
                } else {
                    self.mode = Mode::View;
                }
            },
        }
    }

    /// Flips the completion flag of the selected task and marks the
    /// document dirty; a no-op when nothing is selected.
    pub fn complete_selected(&mut self)
        requires
            old(self)@.wf(),
        ensures
            final(self)@ == complete_selected_spec(old(self)@),
            final(self)@.wf(),
    {
        match &self.mode {
            Mode::Select(i) => {
                let i = *i;
                let b = self.todo_file.tasks[i].completed;
                self.todo_file.tasks[i].completed = !b;
                self.is_dirty = true;
                proof {
                    lemma_views_update(
                        old(self).todo_file.tasks@,
                        i as int,
                        self.todo_file.tasks@[i as int],
                    );
                }
            },
            _ => {},
        }
    }

    /// Removes the selected task and marks the document dirty. The
    /// selection is clamped into the shorter document; removing the
    /// only task returns to browsing. A no-op when nothing is
    /// selected.
    pub fn delete_selected(&mut self)
        requires
            old(self)@.wf(),
        ensures
            final(self)@ == delete_selected_spec(old(self)@),
            final(self)@.wf(),
    {
        match &self.mode {
            Mode::Select(i) => {
                let i = *i;
                self.todo_file.tasks.remove(i);
                self.is_dirty = true;
                proof {
                    lemma_views_remove(old(self).todo_file.tasks@, i as int);
                }
                let n = self.todo_file.tasks.len();
                if n == 0 {
                    self.mode = Mode::View;
                } else {
                    self.mode = Mode::Select(
                        if i < n {
                            i
                        } else {
                            n - 1
                        },
                    );
                }
            },
            _ => {},
        }
    }

    /// Opens an inline edit of the selected task, or of the first task
    /// when nothing is selected; a no-op on an empty document. The
    /// buffer starts as a copy of the summary with the cursor at its
    /// end.
    pub fn edit_task(&mut self)
        requires
            old(self)@.wf(),
        ensures
            final(self)@ == edit_task_spec(old(self)@),
            final(self)@.wf(),
    {
        if self.todo_file.tasks.len() == 0 {
            return ;
        }
        let idx = match &self.mode {
            Mode::Select(i) => *i,
            _ => 0,
        };
        let text = copy_chars(&self.todo_file.tasks[idx].summary);
        let cursor = text.len();
        self.mode = Mode::Edit { item: idx, cursor, text };
    }

    /// Inserts an empty pending task at `index` and opens an edit of
    /// it with an empty buffer. The document grows by one; the new
    /// task reaches the file only once a later mutation marks the
    /// document dirty.
    pub fn add_edit_task(&mut self, index: usize)
        requires
            old(self)@.wf(),
            index <= old(self)@.doc.len(),
        ensures
            final(self)@ == add_edit_task_spec(old(self)@, index as int),
            final(self)@.wf(),
    {
        let t = Task::new_pending();
        proof {
            lemma_views_insert(self.todo_file.tasks@, index as int, t);
        }
        self.todo_file.tasks.insert(index, t);
        self.mode = Mode::Edit { item: index, cursor: 0, text: Vec::new() };
    }

    /// Inserts a new empty task before the current selection (at the
    /// front when nothing is selected) and opens an edit of it.
    pub fn insert_task(&mut self)
        requires
            old(self)@.wf(),
        ensures
            final(self)@ == insert_task_spec(old(self)@),
            final(self)@.wf(),
    {
        let index = match &self.mode {
            Mode::Select(i) => if *i > 0 {
                *i - 1
            } else {
                0
            },
            _ => 0,
        };
        self.add_edit_task(index);
    }

    /// Inserts a new empty task after the current selection (at the
    /// end when nothing is selected) and opens an edit of it.
    pub fn append_task(&mut self)
        requires
            old(self)@.wf(),
        ensures
            final(self)@ == append_task_spec(old(self)@),
            final(self)@.wf(),
    {
        let n = self.todo_file.tasks.len();
        let index = match &self.mode {
            Mode::Select(i) => *i + 1,
            _ => n,
        };
        self.add_edit_task(index);
    }

    /// Renders the document for persistence and clears the dirty
    /// flag; the caller writes the returned characters to the backing
    /// file. The in-memory sequence is untouched.
    pub fn save(&mut self) -> (contents: Vec<char>)
        ensures
            contents@ == render_tasks(old(self)@.doc),
            final(self)@ == save_spec(old(self)@),
    {
        self.is_dirty = false;
        self.todo_file.save()
    }

    /// Commits the edit buffer as the edited task's summary, marks
    /// the document dirty, and selects that task; a no-op outside an
    /// edit.
    pub fn save_edit(&mut self)
        requires
            old(self)@.wf(),
        ensures
            final(self)@ == save_edit_spec(old(self)@),
            final(self)@.wf(),
    {
        match &self.mode {
            Mode::Edit { item, text, .. } => {
                let i = *item;
                let new_summary = copy_chars(text);
                self.todo_file.tasks[i].summary = new_summary;
                self.mode = Mode::Select(i);
                self.is_dirty = true;
                proof {
                    lemma_views_update(
                        old(self).todo_file.tasks@,
                        i as int,
                        self.todo_file.tasks@[i as int],
                    );
                }
            },
            _ => {},
        }
    }

    /// Discards the edit buffer and selects the task that was under
    /// edit; the document is untouched. A no-op outside an edit.
    pub fn cancel_edit(&mut self)
        requires
            old(self)@.wf(),
        ensures
            final(self)@ == cancel_edit_spec(old(self)@),
            final(self)@.wf(),
    {
        match &self.mode {
            Mode::Edit { item, .. } => {
                let i = *item;
                self.mode = Mode::Select(i);
            },
            _ => {},
        }
    }

    /// Types one character into the edit buffer at the cursor; a
    /// no-op outside an edit.
    pub fn insert_char(&mut self, c: char)
        requires
            old(self)@.wf(),
        ensures
            final(self)@ == insert_char_spec(old(self)@, c),
            final(self)@.wf(),
    {
        match &mut self.mode {
            Mode::Edit { cursor, text, .. } => {
                let cur = *cursor;
                text.insert(cur, c);
                let n = text.len();
                proof {
                    assert(cur < n);
                }
                *cursor = cur + 1;
            },
            _ => {},
        }
    }

    /// Removes the character before the cursor and moves the cursor
    /// left; a no-op at the buffer's start or outside an edit.
    pub fn backspace(&mut self)
        requires
            old(self)@.wf(),
        ensures
            final(self)@ == backspace_spec(old(self)@),
            final(self)@.wf(),
    {
        match &mut self.mode {
            Mode::Edit { cursor, text, .. } => {
                if *cursor > 0 {
                    let cur = *cursor - 1;
                    *cursor = cur;
                    text.remove(cur);
                }
            },
            _ => {},
        }
    }

    /// Removes the character at the cursor; a no-op at the buffer's
    /// end or outside an edit.
    pub fn delete_char(&mut self)
        requires
            old(self)@.wf(),
        ensures
            final(self)@ == delete_char_spec(old(self)@),
            final(self)@.wf(),
    {
        match &mut self.mode {
            Mode::Edit { cursor, text, .. } => {
                if *cursor < text.len() {
                    let cur = *cursor;
                    text.remove(cur);
                }
            },
            _ => {},
        }
    }

    /// Moves the cursor one character left, clamped to the buffer's
    /// start; a no-op outside an edit.
    pub fn cursor_left(&mut self)
        requires
            old(self)@.wf(),
        ensures
            final(self)@ == cursor_left_spec(old(self)@),
            final(self)@.wf(),
    {
        match &mut self.mode {
            Mode::Edit { cursor, .. } => {
                if *cursor > 0 {
                    *cursor = *cursor - 1;
                }
            },
            _ => {},
        }
    }

    /// Moves the cursor one character right, clamped to the buffer's
    /// end; a no-op outside an edit.
    pub fn cursor_right(&mut self)
        requires
            old(self)@.wf(),
        ensures
            final(self)@ == cursor_right_spec(old(self)@),
            final(self)@.wf(),
    {
        match &mut self.mode {
            Mode::Edit { cursor, text, .. } => {
                if *cursor < text.len() {
                    *cursor = *cursor + 1;
                }
            },
            _ => {},
        }
    }
}

/// One symbolic key event, as the terminal input source reports it to
/// the interaction loop.
#[derive(Clone, Copy)]
pub enum Key {
    Char(char),
    Esc,
    Enter,
    Backspace,
    Delete,
    Left,
    Right,
    Up,
    Down,
    Home,
    End,
}

/// The interaction table: what one key does to the session in its
/// current mode, and whether the screen must be redrawn afterwards.
pub open spec fn step_spec(a: AppRec, key: Key) -> (AppRec, bool) {
    match a.mode {
        ModeRec::View => match key {
            Key::Esc => (quit_spec(a), false),
            Key::Char(c) => if c == 'q' {
                (quit_spec(a), false)
            } else if c == 'a' {
                (append_task_spec(a), true)
            } else if c == 'g' {
                (select_first_spec(a), true)
            } else if c == 'G' {
                (select_last_spec(a), true)
            } else if c == 'j' {
                (select_next_spec(a), true)
            } else if c == 'k' {
                (select_prev_spec(a), true)
            } else {
                (a, false)
            },
            Key::Home => (select_first_spec(a), true),
            Key::End => (select_last_spec(a), true),
            Key::Down => (select_next_spec(a), true),
            Key::Up => (select_prev_spec(a), true),
            _ => (a, false),
        },
        ModeRec::Select(_) => match key {
            Key::Char(c) => if c == 'g' {
                (select_first_spec(a), true)
            } else if c == 'G' {
                (select_last_spec(a), true)
            } else if c == 'j' {
                (select_next_spec(a), true)
            } else if c == 'k' {
                (select_prev_spec(a), true)
            } else if c == ' ' {
                (complete_selected_spec(a), true)
            } else if c == 'x' {
                (delete_selected_spec(a), true)
            } else if c == 'i' {
                (insert_task_spec(a), true)
            } else if c == 'a' {
                (append_task_spec(a), true)
            } else if c == 'c' || c == 'e' {
                (edit_task_spec(a), true)
            } else if c == 'q' {
                (quit_spec(a), false)
            } else {
                (a, false)
            },
            Key::Home => (select_first_spec(a), true),
            Key::End => (select_last_spec(a), true),
            Key::Down => (select_next_spec(a), true),
            Key::Up => (select_prev_spec(a), true),
            Key::Enter => (complete_selected_spec(a), true),
            Key::Delete => (delete_selected_spec(a), true),
            _ => (a, false),
        },
        ModeRec::Edit { item, cursor, text } => match key {
            Key::Esc => (cancel_edit_spec(a), true),
            Key::Char(c) => (insert_char_spec(a, c), true),
            Key::Enter => (save_edit_spec(a), true),
            Key::Backspace => if cursor > 0 {
                (backspace_spec(a), true)
            } else {
                (a, false)
            },
            Key::Delete => if cursor < text.len() {
                (delete_char_spec(a), true)
            } else {
                (a, false)
            },
            Key::Left => if cursor > 0 {
                (cursor_left_spec(a), true)
            } else {
                (a, false)
            },
            Key::Right => if cursor < text.len() {
                (cursor_right_spec(a), true)
            } else {
                (a, false)
            },
            _ => (a, false),
        },
    }
}

impl App {
    /// Applies one key event to the session according to the
    /// interaction table and reports whether a redraw is due.
    pub fn handle_key(&mut self, key: Key) -> (redraw: bool)
        requires
            old(self)@.wf(),
        ensures
            final(self)@ == step_spec(old(self)@, key).0,
            redraw == step_spec(old(self)@, key).1,
            final(self)@.wf(),
    {
        match &self.mode {
            Mode::View => match key {
                Key::Esc => {
                    self.quit();
                    false
                },
                Key::Char(c) => {
                    if c == 'q' {
                        self.quit();
                        false
                    } else if c == 'a' {
                        self.append_task();
                        true
                    } else if c == 'g' {
                        self.select_first();
                        true
                    } else if c == 'G' {
                        self.select_last();
                        true
                    } else if c == 'j' {
                        self.select_next();
                        true
                    } else if c == 'k' {
                        self.select_prev();
                        true
                    } else {
                        false
                    }
                },
                Key::Home => {
                    self.select_first();
                    true
                },
                Key::End => {
                    self.select_last();
                    true
                },
                Key::Down => {
                    self.select_next();
                    true
                },
                Key::Up => {
                    self.select_prev();
                    true
                },
                _ => false,
            },
            Mode::Select(_) => match key {
                Key::Char(c) => {
                    if c == 'g' {
                        self.select_first();
                        true
                    } else if c == 'G' {
                        self.select_last();
                        true
                    } else if c == 'j' {
                        self.select_next();
                        true
                    } else if c == 'k' {
                        self.select_prev();
                        true
                    } else if c == ' ' {
                        self.complete_selected();
                        true
                    } else if c == 'x' {
                        self.delete_selected();
                        true
                    } else if c == 'i' {
                        self.insert_task();
                        true
                    } else if c == 'a' {
                        self.append_task();
                        true
                    } else if c == 'c' || c == 'e' {
                        self.edit_task();
                        true
                    } else if c == 'q' {
                        self.quit();
                        false
                    } else {
                        false
                    }
                },
                Key::Home => {
                    self.select_first();
                    true
                },
                Key::End => {
                    self.select_last();
                    true
                },
                Key::Down => {
                    self.select_next();
                    true
                },
                Key::Up => {
                    self.select_prev();
                    true
                },
                Key::Enter => {
                    self.complete_selected();
                    true
                },
                Key::Delete => {
                    self.delete_selected();
                    true
                },
                _ => false,
            },
            Mode::Edit { cursor, text, .. } => {
                let cur = *cursor;
                let tlen = text.len();
                match key {
                    Key::Esc => {
                        self.cancel_edit();
                        true
                    },
                    Key::Char(c) => {
                        self.insert_char(c);
                        true
                    },
                    Key::Enter => {
                        self.save_edit();
                        true
                    },
                    Key::Backspace => {
                        if cur > 0 {
                            self.backspace();
                            true
                        } else {
                            false
                        }
                    },
                    Key::Delete => {
                        if cur < tlen {
                            self.delete_char();
                            true
                        } else {
                            false
                        }
                    },
                    Key::Left => {
                        if cur > 0 {
                            self.cursor_left();
                            true
                        } else {
                            false
                        }
                    },
                    Key::Right => {
                        if cur < tlen {
                            self.cursor_right();
                            true
                        } else {
                            false
                        }
                    },
                    _ => false,
                }
            },
        }
    }
}

/// A save never changes the document, so saving an unchanged session
/// twice renders byte-identical file contents both times.
pub proof fn lemma_save_idempotent(a: AppRec)
    ensures
        save_spec(a).doc == a.doc,
        render_tasks(save_spec(a).doc) == render_tasks(a.doc),
{
}

/// The selection stays in bounds: from any well-formed session,
/// moving the selection down never reaches an index at or past the
/// document's length, and moving it up never drops below zero, so any
/// run of moves stays within bounds.
pub proof fn lemma_selection_clamped(a: AppRec)
    requires
        a.wf(),
    ensures
        select_next_spec(a).wf(),
        select_prev_spec(a).wf(),
        select_next_spec(a).doc == a.doc,
        select_prev_spec(a).doc == a.doc,
        match select_next_spec(a).mode {
            ModeRec::Select(i) => 0 <= i < a.doc.len(),
            _ => a.doc.len() == 0,
        },
        match select_prev_spec(a).mode {
            ModeRec::Select(i) => 0 <= i < a.doc.len(),
            _ => a.doc.len() == 0,
        },
{
}

/// Toggling completion twice at the same selection restores the
/// document, and the mode never moves.
pub proof fn lemma_toggle_self_inverse(a: AppRec)
    requires
        a.wf(),
    ensures
        complete_selected_spec(complete_selected_spec(a)).doc == a.doc,
        complete_selected_spec(complete_selected_spec(a)).mode == a.mode,
{
    match a.mode {
        ModeRec::Select(i) => {
            assert(complete_selected_spec(complete_selected_spec(a)).doc =~~= a.doc);
        },
        _ => {},
    }
}

/// Committing an edit touches only the edited position: the count and
/// every other task are unchanged, the edited task keeps its
/// completion flag and takes the buffer as its summary, and that task
/// becomes the selection.
pub proof fn lemma_commit_changes_only_item(a: AppRec, item: int, cursor: int, text: Seq<char>)
    requires
        a.wf(),
        a.mode == (ModeRec::Edit { item, cursor, text }),
    ensures
        save_edit_spec(a).doc.len() == a.doc.len(),
        forall|j: int| 0 <= j < a.doc.len() && j != item ==> save_edit_spec(a).doc[j] == a.doc[j],
        save_edit_spec(a).doc[item].summary == text,
        save_edit_spec(a).doc[item].completed == a.doc[item].completed,
        save_edit_spec(a).mode == ModeRec::Select(item),
{
}

/// Opening an edit of the selection and committing it untouched
/// restores the document exactly and returns to the same selection:
/// record count and order are preserved.
pub proof fn lemma_edit_commit_preserves_order(a: AppRec, i: int)
    requires
        a.wf(),
        a.mode == ModeRec::Select(i),
    ensures
        save_edit_spec(edit_task_spec(a)).doc == a.doc,
        save_edit_spec(edit_task_spec(a)).mode == ModeRec::Select(i),
        save_edit_spec(edit_task_spec(a)).is_running == a.is_running,
{
    assert(save_edit_spec(edit_task_spec(a)).doc =~~= a.doc);
}

} // verus!


