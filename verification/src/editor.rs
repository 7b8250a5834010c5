//! The state of a terminal editor: what a key press changes, and what the
//! screen shows.

use crate::document::{rendered, Document, Row};
use crate::text::views;
use vstd::prelude::*;
use vstd::string::StringExecFns;

verus! {

/// A place on the screen or in the document: column and row.
#[derive(Clone, Copy, PartialEq, Eq, Debug, Structural)]
pub struct Position {
    pub x: usize,
    pub y: usize,
}

impl Default for Position {
    fn default() -> (out: Self)
        ensures
            out == (Position { x: 0, y: 0 }),
    {
        Position { x: 0, y: 0 }
    }
}

/// How many columns and rows the terminal has.
#[derive(Clone, Copy, PartialEq, Eq, Debug, Structural)]
pub struct Size {
    pub width: u16,
    pub height: u16,
}

/// A key press, as far as the editor tells keys apart.
#[derive(Clone, Copy, PartialEq, Eq, Debug, Structural)]
pub enum Key {
    Up,
    Down,
    Left,
    Right,
    Ctrl(char),
    Other,
}

/// What the screen shows.
#[derive(Clone, PartialEq, Eq, Debug)]
pub enum Screen {
    /// The screen is cleared, and the editor takes its leave.
    Goodbye,
    /// The rows from the top down, and where the cursor stands.
    Rows { rows: Vec<String>, cursor: Position },
}

/// A screen, as contracts speak of it.
pub enum ScreenView {
    Goodbye,
    Rows { rows: Seq<Seq<char>>, cursor: Position },
}

impl View for Screen {
    type V = ScreenView;

    open spec fn view(&self) -> ScreenView {
        match self {
            Screen::Goodbye => ScreenView::Goodbye,
            Screen::Rows { rows, cursor } => ScreenView::Rows { rows: views(rows@), cursor: *cursor },
        }
    }
}

/// An editor, as contracts speak of it.
pub struct EditorView {
    pub should_quit: bool,
    pub size: Size,
    pub cursor: Position,
    pub offset: Position,
    pub lines: Seq<Seq<char>>,
    pub version: Seq<char>,
}

/// Where the cursor stands after `key`: an arrow moves it by one, but not
/// off the document's last row or the screen's last column, nor before the
/// first of either.
pub open spec fn moved(v: EditorView, key: Key) -> Position {
    let Position { x, y } = v.cursor;
    match key {
        Key::Up => Position { x, y: y.saturating_sub(1) },
        Key::Down => Position {
            x,
            y: if y < v.lines.len() {
                y.saturating_add(1)
            } else {
                y
            },
        },
        Key::Left => Position { x: x.saturating_sub(1), y },
        Key::Right => Position {
            x: if x < v.size.width {
                x.saturating_add(1)
            } else {
                x
            },
            y,
        },
        _ => v.cursor,
    }
}

/// The editor after `key`: control and `q` make it quit, an arrow moves the
/// cursor, any other key changes nothing.
pub open spec fn pressed(v: EditorView, key: Key) -> EditorView {
    match key {
        Key::Ctrl('q') => EditorView { should_quit: true, ..v },
        Key::Up | Key::Down | Key::Left | Key::Right => EditorView { cursor: moved(v, key), ..v },
        _ => v,
    }
}

/// The offset along one axis that brings a window of `span` places after
/// the cursor's place `at`. The window's end is reckoned as a `usize`: a
/// window that would reach past the largest `usize` is taken to end there.
/// The offset is the cursor's place where the cursor stands before the
/// window, the one that puts the cursor in the window's last place where it
/// stands at the window's end or past it, and else the offset as it is.
pub open spec fn slid(offset: usize, at: usize, span: usize) -> usize {
    if at < offset {
        at
    } else if at >= offset.saturating_add(span) {
        at.saturating_sub(span).saturating_add(1)
    } else {
        offset
    }
}

/// A window that is not empty holds the cursor once its offset is brought
/// after it.
pub proof fn lemma_slid_shows(offset: usize, at: usize, span: usize)
    requires
        span > 0,
    ensures
        slid(offset, at, span) <= at < slid(offset, at, span) + span,
{
}

/// The offset stays as it is where the window holds the cursor, unless the
/// window would reach past the largest `usize` and the cursor stands there.
pub proof fn lemma_slid_stays(offset: usize, at: usize, span: usize)
    requires
        offset <= at < offset + span,
        at < usize::MAX || offset + span <= usize::MAX,
    ensures
        slid(offset, at, span) == offset,
{
}

/// The editor with its offset brought after the cursor.
pub open spec fn scrolled(v: EditorView) -> EditorView {
    EditorView {
        offset: Position {
            x: slid(v.offset.x, v.cursor.x, v.size.width as usize),
            y: slid(v.offset.y, v.cursor.y, v.size.height as usize),
        },
        ..v
    }
}

/// The line that greets the user of version `version` on a screen `width`
/// columns wide: a tilde, then the greeting, centred where it has room and
/// cut off where it has none.
pub open spec fn welcome(version: Seq<char>, width: int) -> Seq<char> {
    let greeting = "Hecto editor -- version "@ + version;
    let padding = if width > greeting.len() {
        (width - greeting.len()) / 2
    } else {
        0
    };
    let spaces = if padding > 1 {
        padding - 1
    } else {
        0
    };
    let line = seq!['~'] + Seq::new(spaces as nat, |i: int| ' ') + greeting;
    if line.len() > width {
        line.take(width)
    } else {
        line
    }
}

/// What the screen's row `at` shows: the document's row that the offset puts
/// there, from the offset's column on; on an empty document the greeting, a
/// third down the screen; else a tilde.
pub open spec fn row_shown(v: EditorView, at: int) -> Seq<char> {
    if at + v.offset.y < v.lines.len() {
        rendered(v.lines[at + v.offset.y], v.offset.x as int, v.size.width + v.offset.x)
    } else if v.lines.len() == 0 && at == v.size.height / 3 {
        welcome(v.version, v.size.width as int)
    } else {
        seq!['~']
    }
}

/// The rows that the screen shows: all of the screen's but the last.
pub open spec fn rows_shown(v: EditorView) -> Seq<Seq<char>> {
    Seq::new(
        if v.size.height > 0 {
            (v.size.height - 1) as nat
        } else {
            0
        },
        |at: int| row_shown(v, at),
    )
}

/// What the screen shows.
pub open spec fn screen_of(v: EditorView) -> ScreenView {
    if v.should_quit {
        ScreenView::Goodbye
    } else {
        ScreenView::Rows { rows: rows_shown(v), cursor: v.cursor }
    }
}

/// The screens that the editor shows while the keys are pressed, and the
/// editor after them. The editor shows its screen, then takes a key; it stops
/// once a key makes it quit, or no key is left.
pub open spec fn played(v: EditorView, keys: Seq<Key>) -> (Seq<ScreenView>, EditorView)
    decreases keys.len(),
{
    if keys.len() == 0 {
        (seq![screen_of(v)], v)
    } else {
        let after = pressed(v, keys.first());
        if after.should_quit {
            (seq![screen_of(v)], after)
        } else {
            (seq![screen_of(v)] + played(after, keys.drop_first()).0, played(
                after,
                keys.drop_first(),
            ).1)
        }
    }
}

/// The views of the screens, in order.
pub open spec fn screens(shown: Seq<Screen>) -> Seq<ScreenView> {
    Seq::new(shown.len(), |i: int| shown[i]@)
}

pub struct Editor {
    should_quit: bool,
    size: Size,
    current_position: Position,
    offset: Position,
    document: Document,
    version: String,
}

impl View for Editor {
    type V = EditorView;

    closed spec fn view(&self) -> EditorView {
        EditorView {
            should_quit: self.should_quit,
            size: self.size,
            cursor: self.current_position,
            offset: self.offset,
            lines: self.document@,
            version: self.version@,
        }
    }
}

impl Editor {
    /// An editor of `document` on a terminal of the size `size`, with the
    /// cursor and the offset at the origin. It greets as version `version`.
    pub fn new(size: Size, document: Document, version: &str) -> (out: Self)
        ensures
            out@ == (EditorView {
                should_quit: false,
                size,
                cursor: Position { x: 0, y: 0 },
                offset: Position { x: 0, y: 0 },
                lines: document@,
                version: version@,
            }),
    {
        Editor {
            should_quit: false,
            size,
            current_position: Position { x: 0, y: 0 },
            offset: Position { x: 0, y: 0 },
            document,
            version: version.to_owned(),
        }
    }

    pub fn should_quit(&self) -> (out: bool)
        ensures
            out == self@.should_quit,
    {
        self.should_quit
    }

    pub fn cursor(&self) -> (out: Position)
        ensures
            out == self@.cursor,
    {
        self.current_position
    }

    pub fn offset(&self) -> (out: Position)
        ensures
            out == self@.offset,
    {
        self.offset
    }

    /// Shows the screen and takes a key, until a key makes the editor quit or
    /// no key is left. Returns the screens shown.
    pub fn run(&mut self, keys: &[Key]) -> (out: Vec<Screen>)
        ensures
            (screens(out@), final(self)@) == played(old(self)@, keys@),
    {
        let mut out: Vec<Screen> = Vec::new();
        let mut at: usize = 0;
        assert(keys@.skip(0) == keys@);
        assert(screens(out@) + played(self@, keys@).0 == played(self@, keys@).0);
        loop
            invariant_except_break
                at <= keys.len(),
                played(old(self)@, keys@).0 == screens(out@) + played(self@, keys@.skip(at as int)).0,
                played(old(self)@, keys@).1 == played(self@, keys@.skip(at as int)).1,
            ensures
                (screens(out@), self@) == played(old(self)@, keys@),
            decreases keys.len() - at,
        {
            let ghost before = screens(out@);
            let ghost rest = keys@.skip(at as int);
            out.push(self.refresh_screen());
            assert(screens(out@) == before + seq![screen_of(self@)]);
            if at >= keys.len() {
                break ;
            }
            let ghost shown = self@;
            self.process_key_press(keys[at]);
            assert(rest.first() == keys[at as int]);
            assert(rest.drop_first() == keys@.skip(at + 1));
            if self.should_quit {
                break ;
            }
            assert(before + (seq![screen_of(shown)] + played(self@, keys@.skip(at + 1)).0) == before
                + seq![screen_of(shown)] + played(self@, keys@.skip(at + 1)).0);
            at += 1;
        }
        out
    }

    /// Takes a key press.
    pub fn process_key_press(&mut self, pressed_key: Key)
        ensures
            final(self)@ == pressed(old(self)@, pressed_key),
    {
        match pressed_key {
            Key::Ctrl('q') => {
                self.should_quit = true;
            },
            Key::Up | Key::Down | Key::Right | Key::Left => self.move_cursor(pressed_key),
            _ => (),
        }
    }

    pub fn move_cursor(&mut self, pressed_key: Key)
        ensures
            final(self)@ == (EditorView { cursor: moved(old(self)@, pressed_key), ..old(self)@ }),
    {
        let Position { mut x, mut y } = self.current_position;
        let width = self.size.width as usize;
        let height = self.document.len();
        match pressed_key {
            Key::Up => y = y.saturating_sub(1),
            Key::Down => {
                if y < height {
                    y = y.saturating_add(1)
                }
            },
            Key::Left => x = x.saturating_sub(1),
            Key::Right => {
                if x < width {
                    x = x.saturating_add(1);
                }
            },
            _ => (),
        }
        self.current_position = Position { x, y }
    }

    /// What the screen shows.
    pub fn refresh_screen(&self) -> (out: Screen)
        ensures
            out@ == screen_of(self@),
    {
        if self.should_quit {
            Screen::Goodbye
        } else {
            Screen::Rows { rows: self.draw_rows(), cursor: self.current_position }
        }
    }

    pub fn draw_welcome_message(&self) -> (out: String)
        ensures
            out@ == welcome(self@.version, self@.size.width as int),
    {
        let mut greeting = String::from_str("Hecto editor -- version ");
        greeting.append(self.version.as_str());
        let width = self.size.width as usize;
        let len = greeting.as_str().unicode_len();
        let padding = width.saturating_sub(len) / 2;
        let spaces = padding.saturating_sub(1);
        let mut line = String::from_str("~");
        proof {
            reveal_strlit("~");
            reveal_strlit(" ");
        }
        assert(line@ =~= seq!['~'] + Seq::new(0, |i: int| ' '));
        let mut k: usize = 0;
        while k < spaces
            invariant
                k <= spaces,
                line@ == seq!['~'] + Seq::new(k as nat, |i: int| ' '),
            decreases spaces - k,
        {
            line.append(" ");
            proof {
                reveal_strlit(" ");
            }
            assert(line@ =~= seq!['~'] + Seq::new((k + 1) as nat, |i: int| ' '));
            k += 1;
        }
        line.append(greeting.as_str());
        if line.as_str().unicode_len() > width {
            line.as_str().substring_char(0, width).to_owned()
        } else {
            line
        }
    }

    pub fn draw_row(&self, row: &Row) -> (out: String)
        ensures
            out@ == rendered(row@, self@.offset.x as int, self@.size.width + self@.offset.x),
    {
        let start = self.offset.x;
        let width = self.size.width as usize;
        match width.checked_add(self.offset.x) {
            Some(end) => row.render(start, end),
            None => row.render(start, row.len()),
        }
    }

    /// Brings the offset after the cursor.
    pub fn scroll(&mut self)
        ensures
            final(self)@ == scrolled(old(self)@),
    {
        let Position { x, y } = self.current_position;
        let width = self.size.width as usize;
        let height = self.size.height as usize;
        if y < self.offset.y {
            self.offset.y = y
        } else if y >= self.offset.y.saturating_add(height) {
            self.offset.y = y.saturating_sub(height).saturating_add(1);
        }
        if x < self.offset.x {
            self.offset.x = x
        } else if x >= self.offset.x.saturating_add(width) {
            self.offset.x = x.saturating_sub(width).saturating_add(1);
        }
    }

    pub fn draw_rows(&self) -> (out: Vec<String>)
        ensures
            views(out@) == rows_shown(self@),
    {
        let height = self.size.height;
        let shown = if height > 0 {
            height - 1
        } else {
            0
        };
        let mut out: Vec<String> = Vec::new();
        let mut terminal_row: u16 = 0;
        while terminal_row < shown
            invariant
                terminal_row <= shown,
                height == self.size.height,
                shown == if height > 0 {
                    (height - 1) as u16
                } else {
                    0u16
                },
                out.len() == terminal_row,
                forall|at: int| 0 <= at < terminal_row ==> out[at]@ == row_shown(self@, at),
            decreases shown - terminal_row,
        {
            let line = match self.row_at(terminal_row) {
                Some(row) => self.draw_row(row),
                None => {
                    if self.document.is_empty() && terminal_row == height / 3 {
                        self.draw_welcome_message()
                    } else {
                        proof {
                            reveal_strlit("~");
                        }
                        let tilde = String::from_str("~");
                        assert(tilde@ =~= seq!['~']);
                        tilde
                    }
                },
            };
            out.push(line);
            terminal_row += 1;
        }
        assert(views(out@) =~= rows_shown(self@));
        out
    }

    /// The document's row that the screen's row `terminal_row` shows.
    fn row_at(&self, terminal_row: u16) -> (out: Option<&Row>)
        ensures
            match out {
                Some(row) => terminal_row + self@.offset.y < self@.lines.len() && row@
                    == self@.lines[terminal_row + self@.offset.y],
                None => terminal_row + self@.offset.y >= self@.lines.len(),
            },
    {
        let rows = self.document.len();
        let at = terminal_row as usize;
        if at < rows && self.offset.y < rows - at {
            self.document.row(at + self.offset.y)
        } else {
            None
        }
    }
}

} // verus!
