//! The editor's line buffer and cursor arithmetic.
//!
//! The buffer is a sequence of lines of characters, with a cursor (line,
//! column), the column the user last chose (kept when moving across lines of
//! different lengths), and the top-left corner of the visible window. All
//! terminal drawing and file I/O happen outside the library: the window
//! height is passed in where paging or scrolling needs it, and the caller
//! reads the lines back out to render or save them.
//!
//! At least one (possibly empty) line is always held, the cursor line is
//! always in range, and the cursor column never passes the end of its line.

use vstd::prelude::*;

use crate::message::KeyPress;

verus! {

/// The editing mode: `Normal` inserts typed characters, `Command`
/// interprets them as motions.
#[derive(Clone, Copy, Debug, PartialEq, Eq, Structural)]
pub enum Mode {
    Normal,
    Command,
}

/// What the caller must do after handing a keypress to the editor.
#[derive(Clone, Copy, Debug, PartialEq, Eq, Structural)]
pub enum EditorAction {
    /// The buffer or view may have changed: redraw the window.
    Redraw,
    /// Write the buffer back to its file, then redraw.
    Save,
    /// Restore the terminal and end the session.
    Quit,
    /// The key has no binding; nothing changed.
    Unsupported,
}

/// The editor state for one open file.
pub struct Editor {
    filepath: String,
    lines: Vec<Vec<char>>,
    mode: Mode,
    cursor: (usize, usize),
    preserved_column: usize,
    looking: (usize, usize),
}

impl Editor {
    /// The path of the file being edited.
    pub closed spec fn path_view(&self) -> Seq<char> {
        self.filepath@
    }

    /// The lines of the buffer.
    pub closed spec fn lines_view(&self) -> Seq<Seq<char>> {
        self.lines@.map_values(|l: Vec<char>| l@)
    }

    /// The cursor as (line, column).
    pub closed spec fn cursor_pos(&self) -> (usize, usize) {
        self.cursor
    }

    /// The column the user last chose by moving within a line.
    pub closed spec fn kept_column(&self) -> usize {
        self.preserved_column
    }

    /// The top-left corner of the visible window, as (line, column).
    pub closed spec fn view_pos(&self) -> (usize, usize) {
        self.looking
    }

    /// The current editing mode.
    pub closed spec fn mode_now(&self) -> Mode {
        self.mode
    }

    /// The buffer holds at least one line, the cursor line exists, and the
    /// cursor column does not pass the end of its line.
    pub open spec fn wf(&self) -> bool {
        &&& self.lines_view().len() >= 1
        &&& (self.cursor_pos().0 as int) < self.lines_view().len()
        &&& (self.cursor_pos().1 as int) <= self.lines_view()[self.cursor_pos().0 as int].len()
    }
}

/// Everything but the buffer, cursor and kept column is unchanged.
pub open spec fn same_surroundings(pre: &Editor, post: &Editor) -> bool {
    &&& post.path_view() == pre.path_view()
    &&& post.mode_now() == pre.mode_now()
    &&& post.view_pos() == pre.view_pos()
}

/// `post` is `pre` with `ch` inserted at the cursor and the cursor advanced
/// one column.
pub open spec fn inserted(pre: &Editor, post: &Editor, ch: char) -> bool {
    let c0 = pre.cursor_pos().0 as int;
    let c1 = pre.cursor_pos().1 as int;
    &&& post.lines_view() == pre.lines_view().update(c0, pre.lines_view()[c0].insert(c1, ch))
    &&& post.cursor_pos().0 == pre.cursor_pos().0
    &&& post.cursor_pos().1 == pre.cursor_pos().1 + 1
    &&& post.kept_column() == pre.kept_column()
    &&& same_surroundings(pre, post)
}

/// `post` is `pre` after a backspace: at the start of the first line nothing
/// changes; at the start of a later line, that line is joined onto the one
/// above and the cursor lands at the join; otherwise the character before
/// the cursor is removed.
pub open spec fn backspaced(pre: &Editor, post: &Editor) -> bool {
    let c0 = pre.cursor_pos().0 as int;
    let c1 = pre.cursor_pos().1 as int;
    &&& (c1 == 0 && c0 == 0 ==> post.lines_view() == pre.lines_view() && post.cursor_pos()
        == pre.cursor_pos())
    &&& (c1 == 0 && c0 > 0 ==> post.lines_view() == pre.lines_view().update(
        c0 - 1,
        pre.lines_view()[c0 - 1] + pre.lines_view()[c0],
    ).remove(c0) && post.cursor_pos().0 == c0 - 1 && post.cursor_pos().1 == pre.lines_view()[c0
        - 1].len())
    &&& (c1 > 0 ==> post.lines_view() == pre.lines_view().update(
        c0,
        pre.lines_view()[c0].remove(c1 - 1),
    ) && post.cursor_pos().0 == c0 && post.cursor_pos().1 == c1 - 1)
    &&& post.kept_column() == pre.kept_column()
    &&& same_surroundings(pre, post)
}

/// `post` is `pre` with the cursor line broken at the cursor: the text after
/// the cursor becomes a new line below, and the cursor moves to its start.
pub open spec fn line_broken(pre: &Editor, post: &Editor) -> bool {
    let c0 = pre.cursor_pos().0 as int;
    let c1 = pre.cursor_pos().1 as int;
    let line = pre.lines_view()[c0];
    &&& post.lines_view() == pre.lines_view().update(c0, line.subrange(0, c1)).insert(
        c0 + 1,
        line.subrange(c1, line.len() as int),
    )
    &&& post.cursor_pos().0 == c0 + 1
    &&& post.cursor_pos().1 == 0
    &&& post.kept_column() == pre.kept_column()
    &&& same_surroundings(pre, post)
}

/// The cursor column a vertical motion lands on in line `c0`: the kept
/// column, clipped to the line's length.
pub open spec fn landing_column(e: &Editor, c0: int) -> int {
    if e.kept_column() <= e.lines_view()[c0].len() {
        e.kept_column() as int
    } else {
        e.lines_view()[c0].len() as int
    }
}

/// The cursor column a paging motion carries to line `c0`: the current
/// column, clipped to the line's length so the cursor never passes the end
/// of its new line.
pub open spec fn carried_column(e: &Editor, c0: int) -> int {
    if e.cursor_pos().1 <= e.lines_view()[c0].len() {
        e.cursor_pos().1 as int
    } else {
        e.lines_view()[c0].len() as int
    }
}

/// `post` is `pre` with the cursor one line up (or kept on the first line),
/// landing on the kept column clipped to the new line.
pub open spec fn moved_up(pre: &Editor, post: &Editor) -> bool {
    let c0 = if pre.cursor_pos().0 > 0 {
        pre.cursor_pos().0 - 1
    } else {
        0
    };
    &&& post.lines_view() == pre.lines_view()
    &&& post.cursor_pos().0 == c0
    &&& post.cursor_pos().1 == landing_column(pre, c0)
    &&& post.kept_column() == pre.kept_column()
    &&& same_surroundings(pre, post)
}

/// `post` is `pre` with the cursor one line down (or kept on the last line),
/// landing on the kept column clipped to the new line.
pub open spec fn moved_down(pre: &Editor, post: &Editor) -> bool {
    let c0 = if pre.cursor_pos().0 + 1 < pre.lines_view().len() {
        pre.cursor_pos().0 + 1
    } else {
        pre.cursor_pos().0 as int
    };
    &&& post.lines_view() == pre.lines_view()
    &&& post.cursor_pos().0 == c0
    &&& post.cursor_pos().1 == landing_column(pre, c0)
    &&& post.kept_column() == pre.kept_column()
    &&& same_surroundings(pre, post)
}

/// `post` is `pre` with the cursor one column forward if the line allows,
/// that column becoming the kept column; at the line end nothing changes.
pub open spec fn moved_forward(pre: &Editor, post: &Editor) -> bool {
    let c0 = pre.cursor_pos().0 as int;
    let c1 = pre.cursor_pos().1 as int;
    &&& post.lines_view() == pre.lines_view()
    &&& post.cursor_pos().0 == c0
    &&& (c1 < pre.lines_view()[c0].len() ==> post.cursor_pos().1 == c1 + 1 && post.kept_column()
        == c1 + 1)
    &&& (c1 >= pre.lines_view()[c0].len() ==> post.cursor_pos().1 == c1 && post.kept_column()
        == pre.kept_column())
    &&& same_surroundings(pre, post)
}

/// `post` is `pre` with the cursor one column back if possible, that column
/// becoming the kept column; at the line start nothing changes.
pub open spec fn moved_back(pre: &Editor, post: &Editor) -> bool {
    let c0 = pre.cursor_pos().0 as int;
    let c1 = pre.cursor_pos().1 as int;
    &&& post.lines_view() == pre.lines_view()
    &&& post.cursor_pos().0 == c0
    &&& (c1 > 0 ==> post.cursor_pos().1 == c1 - 1 && post.kept_column() == c1 - 1)
    &&& (c1 == 0 ==> post.cursor_pos().1 == 0 && post.kept_column() == pre.kept_column())
    &&& same_surroundings(pre, post)
}

/// `post` is `pre` paged one window forward: the cursor line advances by the
/// window height, clipped to the last line; the window origin advances the
/// same way but stops where a full window still fits; the cursor column is
/// carried along, clipped to the new line.
pub open spec fn paged_forward(pre: &Editor, post: &Editor, rows: int) -> bool {
    let len = pre.lines_view().len() as int;
    let c0 = if pre.cursor_pos().0 + rows >= len {
        len - 1
    } else {
        pre.cursor_pos().0 + rows
    };
    let lk = if rows >= len {
        0
    } else if pre.view_pos().0 + rows >= len - rows {
        len - rows
    } else {
        pre.view_pos().0 + rows
    };
    &&& post.lines_view() == pre.lines_view()
    &&& post.cursor_pos().0 == c0
    &&& post.cursor_pos().1 == carried_column(pre, c0)
    &&& post.kept_column() == pre.kept_column()
    &&& post.view_pos().0 == lk
    &&& post.view_pos().1 == pre.view_pos().1
    &&& post.path_view() == pre.path_view()
    &&& post.mode_now() == pre.mode_now()
}

/// `post` is `pre` paged one window back: cursor line and window origin
/// retreat by the window height, stopping at the top; the cursor column is
/// carried along, clipped to the new line.
pub open spec fn paged_back(pre: &Editor, post: &Editor, rows: int) -> bool {
    let c0 = if pre.cursor_pos().0 > rows {
        pre.cursor_pos().0 - rows
    } else {
        0
    };
    let lk = if pre.cursor_pos().0 > rows {
        if pre.view_pos().0 > rows {
            pre.view_pos().0 - rows
        } else {
            0
        }
    } else {
        0
    };
    &&& post.lines_view() == pre.lines_view()
    &&& post.cursor_pos().0 == c0
    &&& post.cursor_pos().1 == carried_column(pre, c0)
    &&& post.kept_column() == pre.kept_column()
    &&& post.view_pos().0 == lk
    &&& post.view_pos().1 == pre.view_pos().1
    &&& post.path_view() == pre.path_view()
    &&& post.mode_now() == pre.mode_now()
}

impl Editor {
    /// An editor over the given lines of the given file. An empty file is
    /// opened as one empty line, so that the cursor always has a line.
    pub fn new(filepath: String, lines: Vec<Vec<char>>) -> (r: Editor)
        ensures
            r.wf(),
            r.path_view() == filepath@,
            (lines@.len() == 0 ==> r.lines_view() == seq![Seq::<char>::empty()]),
            (lines@.len() > 0 ==> r.lines_view() == lines@.map_values(|l: Vec<char>| l@)),
            r.cursor_pos() == (0usize, 0usize),
            r.kept_column() == 0,
            r.view_pos() == (0usize, 0usize),
            r.mode_now() is Normal,
    {
        let mut lines = lines;
        if lines.len() == 0 {
            lines.push(Vec::new());
            proof {
                assert(lines@.map_values(|l: Vec<char>| l@) =~= seq![Seq::<char>::empty()]);
            }
        }
        Editor {
            filepath,
            lines,
            mode: Mode::Normal,
            cursor: (0, 0),
            preserved_column: 0,
            looking: (0, 0),
        }
    }

    /// How many lines the buffer holds.
    pub fn line_count(&self) -> (r: usize)
        ensures
            r == self.lines_view().len(),
    {
        self.lines.len()
    }

    /// The characters of line `i`.
    pub fn line(&self, i: usize) -> (r: &Vec<char>)
        requires
            i < self.lines_view().len(),
        ensures
            r@ == self.lines_view()[i as int],
    {
        &self.lines[i]
    }

    /// The path of the file being edited.
    pub fn file_path(&self) -> (r: &String)
        ensures
            r@ == self.path_view(),
    {
        &self.filepath
    }

    /// The cursor as (line, column).
    pub fn cursor_position(&self) -> (r: (usize, usize))
        ensures
            r == self.cursor_pos(),
    {
        self.cursor
    }

    /// The top-left corner of the visible window.
    pub fn view_origin(&self) -> (r: (usize, usize))
        ensures
            r == self.view_pos(),
    {
        self.looking
    }

    /// The current editing mode.
    pub fn current_mode(&self) -> (r: Mode)
        ensures
            r == self.mode_now(),
    {
        self.mode
    }

    /// Inserts `ch` at the cursor.
    pub fn insert(&mut self, ch: char)
        requires
            old(self).wf(),
        ensures
            final(self).wf(),
            inserted(old(self), final(self), ch),
    {
        let c0 = self.cursor.0;
        let c1 = self.cursor.1;
        self.lines[c0].insert(c1, ch);
        let line_len = self.lines[c0].len();
        assert(c1 < line_len);
        self.cursor = (c0, c1 + 1);
        proof {
            assert(self.lines_view() =~= old(self).lines_view().update(
                c0 as int,
                old(self).lines_view()[c0 as int].insert(c1 as int, ch),
            ));
        }
    }

    /// Removes the character before the cursor, joining the cursor line onto
    /// the previous one when the cursor is at a line start; at the start of
    /// the buffer, nothing changes.
    pub fn backspace(&mut self)
        requires
            old(self).wf(),
        ensures
            final(self).wf(),
            backspaced(old(self), final(self)),
    {
        let (c0, c1) = self.cursor;
        if c1 == 0 {
            if c0 == 0 {
                return ;
            }
            let mut current = self.lines.remove(c0);
            let prev_len = self.lines[c0 - 1].len();
            self.lines[c0 - 1].append(&mut current);
            self.cursor = (c0 - 1, prev_len);
            proof {
                assert(self.lines_view() =~= old(self).lines_view().update(
                    c0 - 1,
                    old(self).lines_view()[c0 - 1] + old(self).lines_view()[c0 as int],
                ).remove(c0 as int));
            }
            return ;
        }
        self.lines[c0].remove(c1 - 1);
        self.cursor = (c0, c1 - 1);
        proof {
            assert(self.lines_view() =~= old(self).lines_view().update(
                c0 as int,
                old(self).lines_view()[c0 as int].remove(c1 - 1),
            ));
        }
    }

    /// Breaks the cursor line at the cursor: what follows the cursor becomes
    /// a new line below it, and the cursor moves to that line's start.
    pub fn nextline(&mut self)
        requires
            old(self).wf(),
        ensures
            final(self).wf(),
            line_broken(old(self), final(self)),
    {
        let (c0, c1) = self.cursor;
        let count = self.lines.len();
        assert(c0 < count);
        let tail = self.lines[c0].split_off(c1);
        self.lines.insert(c0 + 1, tail);
        self.cursor = (c0 + 1, 0);
        proof {
            let line = old(self).lines_view()[c0 as int];
            assert(self.lines_view() =~= old(self).lines_view().update(
                c0 as int,
                line.subrange(0, c1 as int),
            ).insert(c0 + 1, line.subrange(c1 as int, line.len() as int)));
        }
    }

    /// Clips the kept column to the length of line `c0`.
    fn land(&self, c0: usize) -> (r: usize)
        requires
            self.wf(),
            c0 < self.lines_view().len(),
        ensures
            r == landing_column(self, c0 as int),
    {
        let len = self.lines[c0].len();
        if self.preserved_column <= len {
            self.preserved_column
        } else {
            len
        }
    }

    /// Clips the current cursor column to the length of line `c0`.
    fn carry(&self, c0: usize) -> (r: usize)
        requires
            self.wf(),
            c0 < self.lines_view().len(),
        ensures
            r == carried_column(self, c0 as int),
    {
        let len = self.lines[c0].len();
        if self.cursor.1 <= len {
            self.cursor.1
        } else {
            len
        }
    }

    /// Moves the cursor one line up, landing on the kept column clipped to
    /// the new line; on the first line only the column is re-clipped.
    pub fn cursor_up(&mut self)
        requires
            old(self).wf(),
        ensures
            final(self).wf(),
            moved_up(old(self), final(self)),
    {
        let c0 = if self.cursor.0 > 0 {
            self.cursor.0 - 1
        } else {
            0
        };
        let c1 = self.land(c0);
        self.cursor = (c0, c1);
    }

    /// Moves the cursor one line down, landing on the kept column clipped to
    /// the new line; on the last line only the column is re-clipped.
    pub fn cursor_down(&mut self)
        requires
            old(self).wf(),
        ensures
            final(self).wf(),
            moved_down(old(self), final(self)),
    {
        let count = self.lines.len();
        let c0 = if self.cursor.0 + 1 < count {
            self.cursor.0 + 1
        } else {
            self.cursor.0
        };
        let c1 = self.land(c0);
        self.cursor = (c0, c1);
    }

    /// Moves the cursor one column forward within its line, remembering the
    /// column; at the line end nothing changes.
    pub fn cursor_forward(&mut self)
        requires
            old(self).wf(),
        ensures
            final(self).wf(),
            moved_forward(old(self), final(self)),
    {
        let (c0, c1) = self.cursor;
        if c1 < self.lines[c0].len() {
            self.cursor = (c0, c1 + 1);
            self.preserved_column = c1 + 1;
        }
    }

    /// Moves the cursor one column back within its line, remembering the
    /// column; at the line start nothing changes.
    pub fn cursor_back(&mut self)
        requires
            old(self).wf(),
        ensures
            final(self).wf(),
            moved_back(old(self), final(self)),
    {
        let (c0, c1) = self.cursor;
        if c1 > 0 {
            self.cursor = (c0, c1 - 1);
            self.preserved_column = c1 - 1;
        }
    }

    /// Pages the cursor and the window one window height forward.
    pub fn page_forward(&mut self, window_rows: usize)
        requires
            old(self).wf(),
        ensures
            final(self).wf(),
            paged_forward(old(self), final(self), window_rows as int),
    {
        let len = self.lines.len();
        let c0 = if window_rows >= len - self.cursor.0 {
            len - 1
        } else {
            self.cursor.0 + window_rows
        };
        let lk = if window_rows >= len {
            0
        } else if self.looking.0 >= len - window_rows || window_rows >= len - window_rows
            - self.looking.0 {
            len - window_rows
        } else {
            self.looking.0 + window_rows
        };
        let c1 = self.carry(c0);
        self.cursor = (c0, c1);
        self.looking = (lk, self.looking.1);
    }

    /// Pages the cursor and the window one window height back, stopping at
    /// the top of the buffer.
    pub fn page_back(&mut self, window_rows: usize)
        requires
            old(self).wf(),
        ensures
            final(self).wf(),
            paged_back(old(self), final(self), window_rows as int),
    {
        let (c0, lk) = if self.cursor.0 > window_rows {
            let c0 = self.cursor.0 - window_rows;
            if self.looking.0 > window_rows {
                (c0, self.looking.0 - window_rows)
            } else {
                (c0, 0)
            }
        } else {
            (0, 0)
        };
        let c1 = self.carry(c0);
        self.cursor = (c0, c1);
        self.looking = (lk, self.looking.1);
    }

    /// Scrolls the window so the cursor line is visible: up to the cursor
    /// line when the cursor is above the window, down so the cursor sits on
    /// the last of `window_rows` rows when it is below.
    pub fn scroll_to_cursor(&mut self, window_rows: usize)
        requires
            old(self).wf(),
        ensures
            final(self).wf(),
            final(self).lines_view() == old(self).lines_view(),
            final(self).cursor_pos() == old(self).cursor_pos(),
            final(self).kept_column() == old(self).kept_column(),
            final(self).mode_now() == old(self).mode_now(),
            final(self).path_view() == old(self).path_view(),
            final(self).view_pos().1 == old(self).view_pos().1,
            final(self).view_pos().0 == ({
                let c0 = old(self).cursor_pos().0 as int;
                let l1: int = if c0 < old(self).view_pos().0 {
                    c0
                } else {
                    old(self).view_pos().0 as int
                };
                if c0 >= l1 + window_rows {
                    c0 - window_rows + 1
                } else {
                    l1
                }
            }),
    {
        let count = self.lines.len();
        assert(self.cursor.0 < count);
        if self.cursor.0 < self.looking.0 {
            self.looking = (self.cursor.0, self.looking.1);
        }
        if self.cursor.0 - self.looking.0 >= window_rows {
            self.looking = (self.cursor.0 - window_rows + 1, self.looking.1);
        }
    }

    /// Handles one keypress, as the editor's control flow does: typed
    /// characters are inserted in `Normal` mode and interpreted as motions
    /// in `Command` mode; the mode toggles on Control-F; Control-S asks the
    /// caller to save and Control-Q to quit; unbound keys change nothing.
    pub fn keypress_handler(&mut self, key: KeyPress, window_rows: usize) -> (r: EditorAction)
        requires
            old(self).wf(),
        ensures
            final(self).wf(),
            (key matches KeyPress::Character(ch) ==> match old(self).mode_now() {
                Mode::Normal => r is Redraw && inserted(old(self), final(self), ch),
                Mode::Command => {
                    &&& (ch == 'h' ==> r is Redraw && moved_back(old(self), final(self)))
                    &&& (ch == 'j' ==> r is Redraw && moved_down(old(self), final(self)))
                    &&& (ch == 'k' ==> r is Redraw && moved_up(old(self), final(self)))
                    &&& (ch == 'l' ==> r is Redraw && moved_forward(old(self), final(self)))
                    &&& (ch == 'p' ==> r is Redraw && paged_forward(
                        old(self),
                        final(self),
                        window_rows as int,
                    ))
                    &&& (ch == 'P' ==> r is Redraw && paged_back(
                        old(self),
                        final(self),
                        window_rows as int,
                    ))
                    &&& (ch == 'w' || ch == 'W' ==> r is Unsupported && *final(self) == *old(self))
                    &&& (ch != 'h' && ch != 'j' && ch != 'k' && ch != 'l' && ch != 'p' && ch != 'P'
                        && ch != 'w' && ch != 'W' ==> r is Redraw && *final(self) == *old(self))
                },
            }),
            (key is CarriageReturn ==> r is Redraw && line_broken(old(self), final(self))),
            (key is Delete ==> r is Redraw && backspaced(old(self), final(self))),
            (key is CursorUp ==> r is Redraw && moved_up(old(self), final(self))),
            (key is CursorDown ==> r is Redraw && moved_down(old(self), final(self))),
            (key is CursorForward ==> r is Redraw && moved_forward(old(self), final(self))),
            (key is CursorBack ==> r is Redraw && moved_back(old(self), final(self))),
            (key matches KeyPress::Control(c) ==> {
                &&& (c == 'F' ==> r is Redraw && final(self).mode_now() == (if old(self).mode_now() is Normal {
                    Mode::Command
                } else {
                    Mode::Normal
                }) && final(self).lines_view() == old(self).lines_view() && final(self).cursor_pos() == old(self).cursor_pos() && final(self).kept_column() == old(self).kept_column() && final(self).view_pos() == old(self).view_pos() && final(self).path_view() == old(self).path_view())
                &&& (c == 'S' ==> r is Save && *final(self) == *old(self))
                &&& (c == 'Q' ==> r is Quit && *final(self) == *old(self))
                &&& (c != 'F' && c != 'S' && c != 'Q' ==> r is Unsupported && *final(self) == *old(self))
            }),
            (key is BackSpace || key is LineFeed ==> r is Unsupported && *final(self) == *old(self)),
    {
        match key {
            KeyPress::Character(ch) => {
                match self.mode {
                    Mode::Normal => {
                        self.insert(ch);
                        EditorAction::Redraw
                    },
                    Mode::Command => {
                        match ch {
                            'h' => {
                                self.cursor_back();
                                EditorAction::Redraw
                            },
                            'j' => {
                                self.cursor_down();
                                EditorAction::Redraw
                            },
                            'k' => {
                                self.cursor_up();
                                EditorAction::Redraw
                            },
                            'l' => {
                                self.cursor_forward();
                                EditorAction::Redraw
                            },
                            'p' => {
                                self.page_forward(window_rows);
                                EditorAction::Redraw
                            },
                            'P' => {
                                self.page_back(window_rows);
                                EditorAction::Redraw
                            },
                            'w' => EditorAction::Unsupported,
                            'W' => EditorAction::Unsupported,
                            _ => EditorAction::Redraw,
                        }
                    },
                }
            },
            KeyPress::CarriageReturn => {
                self.nextline();
                EditorAction::Redraw
            },
            KeyPress::Delete => {
                self.backspace();
                EditorAction::Redraw
            },
            KeyPress::CursorUp => {
                self.cursor_up();
                EditorAction::Redraw
            },
            KeyPress::CursorDown => {
                self.cursor_down();
                EditorAction::Redraw
            },
            KeyPress::CursorForward => {
                self.cursor_forward();
                EditorAction::Redraw
            },
            KeyPress::CursorBack => {
                self.cursor_back();
                EditorAction::Redraw
            },
            KeyPress::Control(c) => {
                match c {
                    'F' => {
                        self.mode = match self.mode {
                            Mode::Normal => Mode::Command,
                            Mode::Command => Mode::Normal,
                        };
                        EditorAction::Redraw
                    },
                    'S' => EditorAction::Save,
                    'Q' => EditorAction::Quit,
                    _ => EditorAction::Unsupported,
                }
            },
            KeyPress::BackSpace => EditorAction::Unsupported,
            KeyPress::LineFeed => EditorAction::Unsupported,
        }
    }
}

} // verus!
