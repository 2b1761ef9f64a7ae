use crate::document::{
    Document,
    deleted,
    file_text,
    found_at,
    inserted,
    newline_inserted,
};
use crate::row::{chars_of, window, window_chars};
use vstd::utf8::encode_utf8;
use crate::position::Position;
use crate::size::Size;
use crate::status_message::StatusMessage;
use vstd::prelude::*;

verus! {

/// A key press, as the editor tells keys apart.
#[derive(Clone, Copy, Debug, PartialEq, Eq, Structural)]
pub enum Key {
    /// A character typed with no modifier but Shift.
    Char(char),
    /// A character typed with Control.
    Ctrl(char),
    Up,
    Down,
    Left,
    Right,
    Enter,
    Tab,
    Delete,
    Backspace,
    Esc,
    /// Any other key or combination.
    Other,
}

pub open spec fn min(a: int, b: int) -> int {
    if a < b {
        a
    } else {
        b
    }
}

/// The number of columns the cursor may take on row `y`: the row's length,
/// 0 past the last row, never more than a coordinate holds.
pub open spec fn row_width(rows: Seq<Seq<char>>, y: int) -> int {
    if 0 <= y < rows.len() {
        min(rows[y].len() as int, u16::MAX as int)
    } else {
        0
    }
}

/// The number of rows the cursor may move through, bounded likewise.
pub open spec fn doc_height(rows: Seq<Seq<char>>) -> int {
    min(rows.len() as int, u16::MAX as int)
}

/// One step of the cursor in the direction of `key`, before clamping.
pub open spec fn stepped(rows: Seq<Seq<char>>, x: int, y: int, key: Key) -> (int, int) {
    match key {
        Key::Up => if y > 0 { (x, y - 1) } else { (x, y) },
        Key::Down => if y < doc_height(rows) { (x, y + 1) } else { (x, y) },
        Key::Left => if x > 0 {
            (x - 1, y)
        } else if y > 0 {
            (row_width(rows, y - 1), y - 1)
        } else {
            (x, y)
        },
        Key::Right => if x < row_width(rows, y) {
            (x + 1, y)
        } else if y < doc_height(rows) {
            (0, y + 1)
        } else {
            (x, y)
        },
        _ => (x, y),
    }
}

/// The cursor after a move: one step, then the column clamped to the width
/// of the row it landed on.
pub open spec fn moved(rows: Seq<Seq<char>>, x: int, y: int, key: Key) -> (int, int) {
    let (x1, y1) = stepped(rows, x, y, key);
    (min(x1, row_width(rows, y1)), y1)
}

/// The viewport offset along one axis that keeps coordinate `c` among the
/// `dim` visible ones, moving as little as possible; sums and differences
/// saturate at the bounds of a coordinate.
pub open spec fn scrolled(c: int, off: int, dim: int) -> int {
    if c < off {
        c
    } else if c >= min(off + dim, u16::MAX as int) {
        min(if c > dim { c - dim } else { 0 } + 1, u16::MAX as int)
    } else {
        off
    }
}

/// A cursor move to the right off the end of a row lands at the start of the
/// next one, and a move to the left from there goes back; a move to the left
/// from the start of a row lands at the end of the previous one, and a move
/// to the right from there goes back. At the start of the first row and at
/// the end of the line past the last row, the move does nothing.
pub proof fn lemma_wrap_moves(rows: Seq<Seq<char>>, y: int)
    requires
        0 <= y <= doc_height(rows),
    ensures
        y < doc_height(rows) ==> moved(rows, row_width(rows, y), y, Key::Right) == (0int, y + 1),
        y < doc_height(rows) ==> moved(rows, 0, y + 1, Key::Left) == (row_width(rows, y), y),
        y > 0 ==> moved(rows, 0, y, Key::Left) == (row_width(rows, y - 1), y - 1),
        y > 0 ==> moved(rows, row_width(rows, y - 1), y - 1, Key::Right) == (0int, y),
        moved(rows, 0, 0, Key::Left) == (0int, 0int),
        y == doc_height(rows) ==> moved(rows, row_width(rows, y), y, Key::Right) == (
            row_width(rows, y),
            y,
        ),
{
}

impl Editor {
    /// A session on `document`, showing the key help posted at `now`.
    pub fn new(document: Document, now: u64) -> (r: Editor)
        ensures
            r.running,
            at(r.cursor_position, (0int, 0int)),
            at(r.offset, (0int, 0int)),
            r.document == document,
            posted(r.status_message, help_text(), now),
            r.prompt is None,
    {
        Editor {
            running: true,
            cursor_position: Position::new(0, 0),
            document,
            offset: Position::new(0, 0),
            status_message: StatusMessage::new(
                chars_of("[HELP] CTRL-Q = quit | CTRL-S = save | CTRL-F = find"),
                now,
            ),
            prompt: None,
        }
    }

    /// What screen line `i` of a window `width` columns wide shows: the
    /// visible part of the row under it, or `None` for the filler past the
    /// last row.
    pub fn visible_row(&self, i: u16, width: u16) -> (r: Option<Vec<char>>)
        ensures
            match r {
                Some(t) => {
                    &&& i + self.offset.y < self.document.lines().len()
                    &&& t@ == window(
                        self.document.lines()[i + self.offset.y],
                        self.offset.x as int,
                        self.offset.x + width,
                    )
                },
                None => i + self.offset.y >= self.document.lines().len() || i + self.offset.y
                    > u16::MAX,
            },
    {
        let y = match i.checked_add(self.offset.y) {
            Some(y) => y,
            None => return None,
        };
        match self.document.row(y) {
            Some(row) => Some(row.render(self.offset.x as usize, self.offset.x as usize + width as usize)),
            None => None,
        }
    }

    /// The status bar, `width` columns wide.
    pub fn status_bar(&self, width: u16) -> (r: Vec<char>)
        ensures
            r@ == status_bar_text(
                self.document.file_name(),
                self.document.spec_dirty(),
                self.cursor_position.x as nat,
                self.cursor_position.y as nat,
                width as nat,
            ),
    {
        let mut left = match self.document.name_chars() {
            Some(n) => n,
            None => chars_of("[No Name]"),
        };
        if self.document.is_dirty() {
            let mut d = chars_of(" [+] ");
            left.append(&mut d);
        }
        let mut right = decimal_chars(self.cursor_position.y);
        right.push(':');
        let mut x = decimal_chars(self.cursor_position.x);
        right.append(&mut x);
        let ghost l = left@;
        let ghost rt = right@;
        let w = width as usize;
        let used = left.len() as u128 + right.len() as u128;
        let fill: usize = if (w as u128) >= used {
            (w as u128 - used) as usize
        } else {
            0
        };
        let mut bar = left;
        let mut k: usize = 0;
        while k < fill
            invariant
                k <= fill,
                bar@ == l + spaces(k as nat),
            decreases fill - k,
        {
            bar.push(' ');
            k = k + 1;
            assert(bar@ =~= l + spaces(k as nat));
        }
        bar.append(&mut right);
        if bar.len() > w {
            bar.truncate(w);
        }
        bar
    }

    /// The status message as shown at time `now` in a window `width` columns
    /// wide, or `None` once it has expired.
    pub fn visible_message(&self, now: u64, width: u16) -> (r: Option<Vec<char>>)
        ensures
            match r {
                Some(t) => (now < self.status_message.time || now - self.status_message.time
                    < crate::status_message::STATUS_MESSAGE_DURATION) && t@ == window(
                    self.status_message.text@,
                    0,
                    width as int,
                ),
                None => !(now < self.status_message.time || now - self.status_message.time
                    < crate::status_message::STATUS_MESSAGE_DURATION),
            },
    {
        if self.status_message.is_visible(now) {
            Some(window_chars(&self.status_message.text, 0, width as usize))
        } else {
            None
        }
    }

    /// Where the terminal cursor goes in a window of `size`: in the prompt's
    /// reply on the line below the status bar while a prompt is open, else at
    /// the cursor, relative to the viewport.
    pub fn screen_cursor(&self, size: &Size) -> (r: Position)
        ensures
            match self.prompt {
                Some(p) => r.x == p.cursor_x && r.y as int == min(size.height + 1, u16::MAX as int),
                None => r.x as int == (if self.cursor_position.x >= self.offset.x {
                    self.cursor_position.x - self.offset.x
                } else {
                    0
                }) && r.y as int == (if self.cursor_position.y >= self.offset.y {
                    self.cursor_position.y - self.offset.y
                } else {
                    0
                }),
            },
    {
        match &self.prompt {
            Some(p) => Position::new(p.cursor_x, size.height.saturating_add(1)),
            None => Position::new(
                self.cursor_position.x.saturating_sub(self.offset.x),
                self.cursor_position.y.saturating_sub(self.offset.y),
            ),
        }
    }

    /// Whether the session goes on.
    pub fn is_running(&self) -> (r: bool)
        ensures
            r == self.running,
    {
        self.running
    }

    /// Handles one key press in a window of `size` at time `now`, then
    /// scrolls the viewport to the cursor. Returns the bytes to write to the
    /// document's file where the key saved it.
    pub fn process_key(&mut self, key: Key, size: &Size, now: u64) -> (r: Option<Vec<u8>>)
        ensures
            old(self).prompt is None ==> normal_step(*old(self), *final(self), key, now, r),
            old(self).prompt is Some ==> prompt_step(
                *old(self),
                *final(self),
                key,
                size.width as int,
                now,
                r,
            ),
            final(self).offset.x as int == scrolled(
                final(self).cursor_position.x as int,
                old(self).offset.x as int,
                size.width as int,
            ),
            final(self).offset.y as int == scrolled(
                final(self).cursor_position.y as int,
                old(self).offset.y as int,
                size.height as int,
            ),
    {
        let r = if self.prompt.is_some() {
            self.prompt_key(key, size, now)
        } else {
            self.normal_key(key, now)
        };
        self.scroll(size);
        r
    }

    /// Handles one key press outside a prompt.
    pub fn normal_key(&mut self, key: Key, now: u64) -> (r: Option<Vec<u8>>)
        requires
            old(self).prompt is None,
        ensures
            normal_step(*old(self), *final(self), key, now, r),
            final(self).offset == old(self).offset,
    {
        match key {
            Key::Ctrl('q') => {
                if self.document.is_dirty() {
                    self.open_prompt(PromptKind::Quit, now);
                } else {
                    self.running = false;
                }
                None
            },
            Key::Ctrl('s') => {
                if self.document.has_filename() {
                    self.document.save()
                } else {
                    self.open_prompt(PromptKind::SaveAs, now);
                    None
                }
            },
            Key::Ctrl('f') => {
                self.open_prompt(PromptKind::Search, now);
                None
            },
            Key::Up | Key::Down | Key::Left | Key::Right => {
                self.move_cursor(key);
                None
            },
            Key::Char(ch) => {
                self.type_char(ch);
                None
            },
            Key::Enter => {
                self.document.insert_newline(&self.cursor_position);
                self.move_cursor(Key::Down);
                self.cursor_position.x = 0;
                None
            },
            Key::Tab => {
                let ghost rows = self.document.lines();
                let ghost x0 = self.cursor_position.x as int;
                let ghost y0 = self.cursor_position.y as int;
                let mut i: usize = 0;
                while i < TAB_SIZE
                    invariant
                        i <= TAB_SIZE,
                        typed_spaces(
                            self.document.lines(),
                            self.cursor_position.x as int,
                            self.cursor_position.y as int,
                            (TAB_SIZE - i) as nat,
                        ) == typed_spaces(rows, x0, y0, TAB_SIZE as nat),
                        i > 0 ==> self.document.spec_dirty(),
                        self.document.file_name() == old(self).document.file_name(),
                        self.running == old(self).running,
                        self.status_message == old(self).status_message,
                        self.prompt == old(self).prompt,
                        self.offset == old(self).offset,
                    decreases TAB_SIZE - i,
                {
                    self.type_char(' ');
                    i = i + 1;
                }
                None
            },
            Key::Delete => {
                self.document.delete(&self.cursor_position);
                None
            },
            Key::Backspace => {
                if self.cursor_position.x > 0 || self.cursor_position.y > 0 {
                    self.move_cursor(Key::Left);
                    self.document.delete(&self.cursor_position);
                }
                None
            },
            _ => None,
        }
    }

    /// Types `ch` at the cursor and moves the cursor past it.
    fn type_char(&mut self, ch: char)
        ensures
            final(self).document.lines() == typed(
                old(self).document.lines(),
                ch,
                old(self).cursor_position.x as int,
                old(self).cursor_position.y as int,
            ).0,
            at(
                final(self).cursor_position,
                (
                    typed(
                        old(self).document.lines(),
                        ch,
                        old(self).cursor_position.x as int,
                        old(self).cursor_position.y as int,
                    ).1,
                    typed(
                        old(self).document.lines(),
                        ch,
                        old(self).cursor_position.x as int,
                        old(self).cursor_position.y as int,
                    ).2,
                ),
            ),
            final(self).document.spec_dirty(),
            final(self).document.file_name() == old(self).document.file_name(),
            final(self).running == old(self).running,
            final(self).status_message == old(self).status_message,
            final(self).prompt == old(self).prompt,
            final(self).offset == old(self).offset,
    {
        self.document.insert(ch, &self.cursor_position);
        self.move_cursor(Key::Right);
    }

    /// Opens an empty prompt of kind `kind`.
    fn open_prompt(&mut self, kind: PromptKind, now: u64)
        ensures
            prompt_opened(*final(self), kind, now),
            final(self).running == old(self).running,
            final(self).cursor_position == old(self).cursor_position,
            final(self).document == old(self).document,
            final(self).offset == old(self).offset,
    {
        let text = label_chars(kind);
        let cursor_x = text.len() as u16;
        self.status_message = StatusMessage::new(text, now);
        self.prompt = Some(Prompt { kind, response: Vec::new(), cursor_x, offset: 0 });
    }

    /// Handles one key press while a prompt is open, in a window of `size`.
    pub fn prompt_key(&mut self, key: Key, size: &Size, now: u64) -> (r: Option<Vec<u8>>)
        requires
            old(self).prompt is Some,
        ensures
            prompt_step(*old(self), *final(self), key, size.width as int, now, r),
            final(self).offset == old(self).offset,
    {
        let mut p = self.prompt.take().unwrap();
        match key {
            Key::Enter => {
                let response = p.response;
                self.resolve(p.kind, Some(response), now)
            },
            Key::Esc => self.resolve(p.kind, None, now),
            _ => {
                match key {
                    Key::Char(ch) => {
                        p.response.push(ch);
                        if (p.cursor_x as u32) + 1 < size.width as u32 {
                            p.cursor_x = p.cursor_x + 1;
                        } else {
                            p.offset = p.offset.saturating_add(1);
                        }
                    },
                    Key::Backspace => {
                        if p.response.len() > 0 {
                            p.response.pop();
                            let label_len = label_chars(p.kind).len();
                            if (p.cursor_x as usize) > label_len {
                                p.cursor_x = p.cursor_x - 1;
                            } else {
                                p.offset = p.offset.saturating_sub(1);
                            }
                        }
                    },
                    _ => {},
                }
                let mut text = label_chars(p.kind);
                let end = p.offset.saturating_add(size.width as usize);
                assert(p.response.len() == p.response@.len());
                assert(window(p.response@, p.offset as int, end as int) == window(
                    p.response@,
                    p.offset as int,
                    p.offset + size.width,
                ));
                let mut shown = window_chars(
                    &p.response,
                    p.offset,
                    p.offset.saturating_add(size.width as usize),
                );
                text.append(&mut shown);
                self.status_message = StatusMessage::new(text, now);
                self.prompt = Some(p);
                None
            },
        }
    }

    /// Closes the open prompt of kind `kind` with `answer` (`None`: cancelled)
    /// and acts on it.
    fn resolve(&mut self, kind: PromptKind, answer: Option<Vec<char>>, now: u64) -> (r: Option<
        Vec<u8>,
    >)
        requires
            old(self).prompt is None,
        ensures
            resolved(
                *old(self),
                *final(self),
                kind,
                match answer {
                    Some(a) => Some(a@),
                    None => None,
                },
                now,
                r,
            ),
            final(self).offset == old(self).offset,
    {
        self.status_message = StatusMessage::default(now);
        match kind {
            PromptKind::Quit => {
                let yes = match &answer {
                    Some(a) => is_affirmative(a),
                    None => false,
                };
                if yes {
                    self.running = false;
                } else {
                    self.status_message = StatusMessage::new(chars_of("[WARNING] File not saved"), now);
                }
                None
            },
            PromptKind::SaveAs => {
                match answer {
                    Some(name) => {
                        if name.len() > 0 {
                            self.document.set_filename(string_from_chars(&name));
                            self.document.save()
                        } else {
                            self.status_message = StatusMessage::new(
                                chars_of("[WARNING] File not saved"),
                                now,
                            );
                            None
                        }
                    },
                    None => {
                        self.status_message = StatusMessage::new(
                            chars_of("[WARNING] File not saved"),
                            now,
                        );
                        None
                    },
                }
            },
            PromptKind::Search => {
                match answer {
                    Some(q) => {
                        match self.document.find_chars(&q) {
                            Some(position) => {
                                assert(found_at(
                                    self.document.lines(),
                                    q@,
                                    position.x as int,
                                    position.y as int,
                                ));
                                assert(exists|a: int, b: int|
                                    #[trigger] found_at(self.document.lines(), q@, a, b) && a
                                        <= u16::MAX && b <= u16::MAX);
                                self.cursor_position = position;
                            },
                            None => {
                                assert(!exists|a: int, b: int|
                                    #[trigger] found_at(self.document.lines(), q@, a, b) && a
                                        <= u16::MAX && b <= u16::MAX);
                                self.status_message = StatusMessage::new(
                                    chars_of("[WARNING] Search query not found"),
                                    now,
                                );
                            },
                        }
                    },
                    None => {},
                }
                None
            },
        }
    }

    /// Moves the cursor one step in the direction of `key`, wrapping at the
    /// ends of rows; keys that are no arrow leave it in place.
    pub fn move_cursor(&mut self, key: Key)
        ensures
            final(self).cursor_position.x as int == moved(
                old(self).document.lines(),
                old(self).cursor_position.x as int,
                old(self).cursor_position.y as int,
                key,
            ).0,
            final(self).cursor_position.y as int == moved(
                old(self).document.lines(),
                old(self).cursor_position.x as int,
                old(self).cursor_position.y as int,
                key,
            ).1,
            final(self).document == old(self).document,
            final(self).offset == old(self).offset,
            final(self).running == old(self).running,
            final(self).status_message == old(self).status_message,
            final(self).prompt == old(self).prompt,
    {
        let height = self.height();
        let width = self.width(self.cursor_position.y);
        let mut x = self.cursor_position.x;
        let mut y = self.cursor_position.y;
        match key {
            Key::Up => {
                if y > 0 {
                    y = y - 1;
                }
            },
            Key::Down => {
                if y < height {
                    y = y + 1;
                }
            },
            Key::Left => {
                if x > 0 {
                    x = x - 1;
                } else if y > 0 {
                    y = y - 1;
                    x = self.width(y);
                }
            },
            Key::Right => {
                if x < width {
                    x = x + 1;
                } else if y < height {
                    y = y + 1;
                    x = 0;
                }
            },
            _ => {},
        }
        let width = self.width(y);
        if x > width {
            x = width;
        }
        self.cursor_position = Position::new(x, y);
    }

    /// The width of row `y` as the cursor sees it.
    fn width(&self, y: u16) -> (r: u16)
        ensures
            r as int == row_width(self.document.lines(), y as int),
    {
        match self.document.row(y) {
            Some(row) => {
                let n = row.len();
                if n < 0xFFFF {
                    n as u16
                } else {
                    0xFFFF
                }
            },
            None => 0,
        }
    }

    /// The number of rows as the cursor sees it.
    fn height(&self) -> (r: u16)
        ensures
            r as int == doc_height(self.document.lines()),
    {
        let n = self.document.len();
        if n < 0xFFFF {
            n as u16
        } else {
            0xFFFF
        }
    }

    /// Moves the viewport, on each axis on its own, just far enough that the
    /// cursor is inside a window of `size`.
    pub fn scroll(&mut self, size: &Size)
        ensures
            final(self).offset.x as int == scrolled(
                old(self).cursor_position.x as int,
                old(self).offset.x as int,
                size.width as int,
            ),
            final(self).offset.y as int == scrolled(
                old(self).cursor_position.y as int,
                old(self).offset.y as int,
                size.height as int,
            ),
            final(self).cursor_position == old(self).cursor_position,
            final(self).document == old(self).document,
            final(self).running == old(self).running,
            final(self).status_message == old(self).status_message,
            final(self).prompt == old(self).prompt,
    {
        let x = scroll_axis(self.cursor_position.x, self.offset.x, size.width);
        let y = scroll_axis(self.cursor_position.y, self.offset.y, size.height);
        self.offset = Position::new(x, y);
    }
}

fn scroll_axis(c: u16, off: u16, dim: u16) -> (r: u16)
    ensures
        r as int == scrolled(c as int, off as int, dim as int),
{
    if c < off {
        c
    } else if c >= off.saturating_add(dim) {
        c.saturating_sub(dim).saturating_add(1)
    } else {
        off
    }
}

/// The number of spaces that Tab inserts.
pub const TAB_SIZE: usize = 4;

/// The question a prompt of kind `kind` asks.
pub open spec fn label(kind: PromptKind) -> Seq<char> {
    match kind {
        PromptKind::Quit => "Type 'y' to quit without saving: "@,
        PromptKind::SaveAs => "Save as: "@,
        PromptKind::Search => "Search: "@,
    }
}

pub open spec fn help_text() -> Seq<char> {
    "[HELP] CTRL-Q = quit | CTRL-S = save | CTRL-F = find"@
}

pub open spec fn not_saved_text() -> Seq<char> {
    "[WARNING] File not saved"@
}

pub open spec fn not_found_text() -> Seq<char> {
    "[WARNING] Search query not found"@
}

/// A reply that confirms quitting: `y` in either case.
pub open spec fn affirmative(r: Seq<char>) -> bool {
    r == seq!['y'] || r == seq!['Y']
}

/// What the status line shows while a prompt is open: the question, then the
/// part of the reply that fits, from `offset` on.
pub open spec fn prompt_line(kind: PromptKind, response: Seq<char>, offset: int, width: int) -> Seq<char> {
    label(kind) + window(response, offset, offset + width)
}

/// `p` is at the column and row `c`.
pub open spec fn at(p: Position, c: (int, int)) -> bool {
    p.x as int == c.0 && p.y as int == c.1
}

/// The message `m` reads `text` and was posted at `now`.
pub open spec fn posted(m: StatusMessage, text: Seq<char>, now: u64) -> bool {
    m.text@ == text && m.time == now
}

/// `b` is `a` with `ch` typed at column `x` of row `y`.
pub open spec fn doc_inserted(a: Document, b: Document, ch: char, x: int, y: int) -> bool {
    &&& b.lines() == inserted(a.lines(), ch, x, y)
    &&& b.spec_dirty()
    &&& b.file_name() == a.file_name()
}

/// `b` is `a` with row `y` broken at column `x`.
pub open spec fn doc_newline(a: Document, b: Document, x: int, y: int) -> bool {
    if y > a.lines().len() {
        b == a
    } else {
        &&& b.lines() == newline_inserted(a.lines(), x, y)
        &&& b.spec_dirty()
        &&& b.file_name() == a.file_name()
    }
}

/// `b` is `a` after a forward delete at column `x` of row `y`.
pub open spec fn doc_deleted(a: Document, b: Document, x: int, y: int) -> bool {
    if y >= a.lines().len() {
        b == a
    } else {
        &&& b.lines() == deleted(a.lines(), x, y)
        &&& b.spec_dirty()
        &&& b.file_name() == a.file_name()
    }
}

/// The rows and cursor after typing `ch` at `(x, y)` and moving right.
pub open spec fn typed(rows: Seq<Seq<char>>, ch: char, x: int, y: int) -> (Seq<Seq<char>>, int, int) {
    let r = inserted(rows, ch, x, y);
    let c = moved(r, x, y, Key::Right);
    (r, c.0, c.1)
}

/// The rows and cursor after typing `n` spaces from `(x, y)`.
pub open spec fn typed_spaces(rows: Seq<Seq<char>>, x: int, y: int, n: nat) -> (Seq<Seq<char>>, int, int)
    decreases n,
{
    if n == 0 {
        (rows, x, y)
    } else {
        let t = typed(rows, ' ', x, y);
        typed_spaces(t.0, t.1, t.2, (n - 1) as nat)
    }
}

/// `post` has a fresh prompt of kind `kind` open, shown from time `now`.
pub open spec fn prompt_opened(post: Editor, kind: PromptKind, now: u64) -> bool {
    &&& post.prompt matches Some(p) && p.kind == kind && p.response@.len() == 0
        && p.cursor_x as int == label(kind).len() && p.offset == 0
    &&& posted(post.status_message, label(kind), now)
}

/// `b` is `a` saved, and `out` the bytes for its file.
pub open spec fn doc_saved(a: Document, b: Document, out: Option<Vec<u8>>) -> bool {
    &&& b.lines() == a.lines()
    &&& b.file_name() == a.file_name()
    &&& !b.spec_dirty()
    &&& out matches Some(bytes) && bytes@ == encode_utf8(file_text(a.lines()))
}

/// The edit or move that `key` makes outside a prompt, on document `a` with
/// the cursor at `(x, y)`, leaving document `b` and cursor `c`.
pub open spec fn edited(a: Document, b: Document, x: int, y: int, key: Key, c: Position) -> bool {
    let rows = a.lines();
    match key {
        Key::Up | Key::Down | Key::Left | Key::Right => b == a && at(c, moved(rows, x, y, key)),
        Key::Char(ch) => doc_inserted(a, b, ch, x, y) && at(c, moved(b.lines(), x, y, Key::Right)),
        Key::Enter => doc_newline(a, b, x, y) && at(c, (0, moved(b.lines(), x, y, Key::Down).1)),
        Key::Tab => {
            let t = typed_spaces(rows, x, y, TAB_SIZE as nat);
            &&& b.lines() == t.0
            &&& b.spec_dirty()
            &&& b.file_name() == a.file_name()
            &&& at(c, (t.1, t.2))
        },
        Key::Delete => doc_deleted(a, b, x, y) && at(c, (x, y)),
        Key::Backspace => if x > 0 || y > 0 {
            let m = moved(rows, x, y, Key::Left);
            doc_deleted(a, b, m.0, m.1) && at(c, m)
        } else {
            b == a && at(c, (x, y))
        },
        _ => b == a && at(c, (x, y)),
    }
}

/// One key handled outside a prompt, from session `pre` to `post`, handing
/// back `out`, the bytes to write to the document's file, if any.
pub open spec fn normal_step(pre: Editor, post: Editor, key: Key, now: u64, out: Option<Vec<u8>>) -> bool {
    let x = pre.cursor_position.x as int;
    let y = pre.cursor_position.y as int;
    if key == Key::Ctrl('q') {
        &&& out is None
        &&& post.cursor_position == pre.cursor_position
        &&& post.document == pre.document
        &&& if pre.document.spec_dirty() {
            post.running == pre.running && prompt_opened(post, PromptKind::Quit, now)
        } else {
            !post.running && post.status_message == pre.status_message && post.prompt
                == pre.prompt
        }
    } else if key == Key::Ctrl('s') {
        &&& post.running == pre.running
        &&& post.cursor_position == pre.cursor_position
        &&& if pre.document.file_name() is Some {
            &&& doc_saved(pre.document, post.document, out)
            &&& post.status_message == pre.status_message
            &&& post.prompt == pre.prompt
        } else {
            out is None && post.document == pre.document && prompt_opened(
                post,
                PromptKind::SaveAs,
                now,
            )
        }
    } else if key == Key::Ctrl('f') {
        &&& out is None
        &&& post.running == pre.running
        &&& post.cursor_position == pre.cursor_position
        &&& post.document == pre.document
        &&& prompt_opened(post, PromptKind::Search, now)
    } else {
        &&& out is None
        &&& post.running == pre.running
        &&& post.status_message == pre.status_message
        &&& post.prompt == pre.prompt
        &&& edited(pre.document, post.document, x, y, key, post.cursor_position)
    }
}

/// A prompt of kind `kind` closed with `answer` (`None`: cancelled), taking
/// session `pre` to `post` and handing back `out`.
pub open spec fn resolved(
    pre: Editor,
    post: Editor,
    kind: PromptKind,
    answer: Option<Seq<char>>,
    now: u64,
    out: Option<Vec<u8>>,
) -> bool {
    let rows = pre.document.lines();
    &&& post.prompt is None
    &&& match kind {
        PromptKind::Quit => {
            &&& out is None
            &&& post.cursor_position == pre.cursor_position
            &&& post.document == pre.document
            &&& if answer matches Some(r) && affirmative(r) {
                !post.running && posted(post.status_message, Seq::empty(), now)
            } else {
                post.running == pre.running && posted(post.status_message, not_saved_text(), now)
            }
        },
        PromptKind::SaveAs => {
            &&& post.running == pre.running
            &&& post.cursor_position == pre.cursor_position
            &&& if answer is Some && answer->Some_0.len() > 0 {
                &&& post.document.file_name() == answer
                &&& post.document.lines() == rows
                &&& !post.document.spec_dirty()
                &&& out matches Some(bytes) && bytes@ == encode_utf8(file_text(rows))
                &&& posted(post.status_message, Seq::empty(), now)
            } else {
                &&& out is None
                &&& post.document == pre.document
                &&& posted(post.status_message, not_saved_text(), now)
            }
        },
        PromptKind::Search => {
            &&& out is None
            &&& post.running == pre.running
            &&& post.document == pre.document
            &&& match answer {
                Some(q) => if exists|a: int, b: int|
                    #[trigger] found_at(rows, q, a, b) && a <= u16::MAX && b <= u16::MAX {
                    found_at(rows, q, post.cursor_position.x as int, post.cursor_position.y as int)
                        && posted(post.status_message, Seq::empty(), now)
                } else {
                    post.cursor_position == pre.cursor_position && posted(
                        post.status_message,
                        not_found_text(),
                        now,
                    )
                },
                None => post.cursor_position == pre.cursor_position && posted(
                    post.status_message,
                    Seq::empty(),
                    now,
                ),
            }
        },
    }
}

/// One key handled while a prompt is open, in a window `width` columns wide.
pub open spec fn prompt_step(
    pre: Editor,
    post: Editor,
    key: Key,
    width: int,
    now: u64,
    out: Option<Vec<u8>>,
) -> bool {
    let p = pre.prompt->Some_0;
    let label_len = label(p.kind).len() as int;
    match key {
        Key::Enter => resolved(pre, post, p.kind, Some(p.response@), now, out),
        Key::Esc => resolved(pre, post, p.kind, None, now, out),
        _ => {
            &&& out is None
            &&& post.running == pre.running
            &&& post.cursor_position == pre.cursor_position
            &&& post.document == pre.document
            &&& post.prompt matches Some(q) && q.kind == p.kind && match key {
                Key::Char(ch) => {
                    &&& q.response@ == p.response@.push(ch)
                    &&& if p.cursor_x + 1 < width {
                        q.cursor_x == p.cursor_x + 1 && q.offset == p.offset
                    } else {
                        q.cursor_x == p.cursor_x && q.offset == min(p.offset + 1, usize::MAX as int)
                    }
                },
                Key::Backspace => if p.response@.len() > 0 {
                    &&& q.response@ == p.response@.drop_last()
                    &&& if p.cursor_x > label_len {
                        q.cursor_x == p.cursor_x - 1 && q.offset == p.offset
                    } else {
                        q.cursor_x == p.cursor_x && q.offset == if p.offset > 0 {
                            p.offset - 1
                        } else {
                            0
                        }
                    }
                } else {
                    q.response@ == p.response@ && q.cursor_x == p.cursor_x && q.offset == p.offset
                },
                _ => q.response@ == p.response@ && q.cursor_x == p.cursor_x && q.offset
                    == p.offset,
            } && posted(
                post.status_message,
                prompt_line(q.kind, q.response@, q.offset as int, width),
                now,
            )
        },
    }
}

fn label_chars(kind: PromptKind) -> (r: Vec<char>)
    ensures
        r@ == label(kind),
        r@.len() < 100,
{
    proof {
        reveal_strlit("Type 'y' to quit without saving: ");
        reveal_strlit("Save as: ");
        reveal_strlit("Search: ");
    }
    match kind {
        PromptKind::Quit => chars_of("Type 'y' to quit without saving: "),
        PromptKind::SaveAs => chars_of("Save as: "),
        PromptKind::Search => chars_of("Search: "),
    }
}

/// Relies on `String::from_iter` over `char`s: the string holds exactly the
/// characters given, in order.
#[verifier::external_body]
fn string_from_chars(v: &Vec<char>) -> (r: String)
    ensures
        r@ == v@,
{
    v.iter().collect::<String>()
}

/// Whether `r` confirms quitting.
fn is_affirmative(r: &Vec<char>) -> (b: bool)
    ensures
        b == affirmative(r@),
{
    if r.len() == 1 && (r[0] == 'y' || r[0] == 'Y') {
        assert(r@ =~= seq![r@[0]]);
        true
    } else {
        false
    }
}

/// The decimal digits of `n`, most significant first.
pub open spec fn decimal(n: nat) -> Seq<char>
    decreases n,
{
    let digits = seq!['0', '1', '2', '3', '4', '5', '6', '7', '8', '9'];
    if n < 10 {
        seq![digits[n as int]]
    } else {
        decimal(n / 10).push(digits[(n % 10) as int])
    }
}

fn decimal_chars(n: u16) -> (r: Vec<char>)
    ensures
        r@ == decimal(n as nat),
    decreases n,
{
    let digits = ['0', '1', '2', '3', '4', '5', '6', '7', '8', '9'];
    if n < 10 {
        let mut v: Vec<char> = Vec::new();
        v.push(digits[n as usize]);
        assert(v@ =~= decimal(n as nat));
        v
    } else {
        let mut v = decimal_chars(n / 10);
        v.push(digits[(n % 10) as usize]);
        v
    }
}

/// `n` spaces.
pub open spec fn spaces(n: nat) -> Seq<char> {
    Seq::new(n, |i: int| ' ')
}

/// The status bar of a document with file name `name` and dirty flag
/// `dirty`, with the cursor at `(x, y)`, cut or padded to `width`: the name
/// (or a placeholder) and a dirty marker on the left, the cursor's row and
/// column on the right.
pub open spec fn status_bar_text(name: Option<Seq<char>>, dirty: bool, x: nat, y: nat, width: nat) -> Seq<char> {
    let left = match name {
        Some(n) => n,
        None => "[No Name]"@,
    } + if dirty {
        " [+] "@
    } else {
        Seq::empty()
    };
    let right = decimal(y) + seq![':'] + decimal(x);
    let fill = if width >= left.len() + right.len() {
        (width - left.len() - right.len()) as nat
    } else {
        0
    };
    let bar = left + spaces(fill) + right;
    if bar.len() > width {
        bar.subrange(0, width as int)
    } else {
        bar
    }
}

/// Which question a prompt asks.
#[derive(Clone, Copy, Debug, PartialEq, Eq, Structural)]
pub enum PromptKind {
    Quit,
    SaveAs,
    Search,
}

/// A line of input being typed on the status line.
pub struct Prompt {
    pub kind: PromptKind,
    pub response: Vec<char>,
    pub cursor_x: u16,
    pub offset: usize,
}

/// The whole editing session.
pub struct Editor {
    pub running: bool,
    pub cursor_position: Position,
    pub document: Document,
    pub offset: Position,
    pub status_message: StatusMessage,
    pub prompt: Option<Prompt>,
}

} // verus!
