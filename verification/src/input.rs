use vstd::prelude::*;

verus! {

/// The modifier keys held during a key press.
#[derive(Clone, Copy, Debug, PartialEq, Eq)]
pub struct KeyModifiers {
    pub shift: bool,
    pub control: bool,
    pub alt: bool,
    pub super_key: bool,
    pub hyper: bool,
    pub meta: bool,
}

impl KeyModifiers {
    /// No modifier held.
    pub open spec fn is_none(self) -> bool {
        !self.shift && !self.control && !self.alt && !self.super_key && !self.hyper && !self.meta
    }

    /// Control held and Alt not held (other modifiers may be held).
    pub open spec fn control_only(self) -> bool {
        self.control && !self.alt
    }

    /// Alt held and Control not held (other modifiers may be held).
    pub open spec fn alt_only(self) -> bool {
        self.alt && !self.control
    }

    /// Neither Control nor Alt held.
    pub open spec fn plain(self) -> bool {
        !self.control && !self.alt
    }

    pub fn none() -> (m: KeyModifiers)
        ensures
            m.is_none(),
    {
        KeyModifiers {
            shift: false,
            control: false,
            alt: false,
            super_key: false,
            hyper: false,
            meta: false,
        }
    }

    pub fn is_empty(&self) -> (r: bool)
        ensures
            r == self.is_none(),
    {
        !self.shift && !self.control && !self.alt && !self.super_key && !self.hyper && !self.meta
    }
}

/// The key that was pressed.
#[derive(Clone, Copy, Debug, PartialEq, Eq)]
pub enum KeyCode {
    Char(char),
    Esc,
    Enter,
    Left,
    Right,
    Up,
    Down,
    Home,
    End,
    Backspace,
    Delete,
    Tab,
    /// Any key the overlays give no meaning to.
    Other,
}

/// A key press: the key and the modifiers held.
#[derive(Clone, Copy, Debug, PartialEq, Eq)]
pub struct KeyEvent {
    pub code: KeyCode,
    pub modifiers: KeyModifiers,
}

/// Control+C, which dismisses an overlay whatever other modifiers are held.
pub open spec fn is_ctrl_c(key: KeyEvent) -> bool {
    key.modifiers.control && key.code == KeyCode::Char('c')
}

pub fn key_is_ctrl_c(key: &KeyEvent) -> (r: bool)
    ensures
        r == is_ctrl_c(*key),
{
    key.modifiers.control && match key.code {
        KeyCode::Char(c) => c == 'c',
        _ => false,
    }
}

#[derive(Clone, Copy, Debug, PartialEq, Eq)]
pub enum MouseButton {
    Left,
    Right,
    Middle,
}

#[derive(Clone, Copy, Debug, PartialEq, Eq)]
pub enum MouseEventKind {
    Down(MouseButton),
    Up(MouseButton),
    Drag(MouseButton),
    Moved,
    ScrollDown,
    ScrollUp,
    ScrollLeft,
    ScrollRight,
}

/// A mouse event at a terminal cell.
#[derive(Clone, Copy, Debug, PartialEq, Eq)]
pub struct MouseEvent {
    pub kind: MouseEventKind,
    pub column: u16,
    pub row: u16,
}

pub open spec fn is_left_click(m: MouseEvent) -> bool {
    m.kind == MouseEventKind::Down(MouseButton::Left)
}

pub fn mouse_is_left_click(m: &MouseEvent) -> (r: bool)
    ensures
        r == is_left_click(*m),
{
    match m.kind {
        MouseEventKind::Down(MouseButton::Left) => true,
        _ => false,
    }
}

/// A rectangle of terminal cells.
#[derive(Clone, Copy, Debug, PartialEq, Eq)]
pub struct Rect {
    pub x: u16,
    pub y: u16,
    pub width: u16,
    pub height: u16,
}

/// The cell at (`column`, `row`) lies inside `r`.
pub open spec fn rect_contains_spec(r: Rect, column: u16, row: u16) -> bool {
    &&& r.x <= column < r.x + r.width
    &&& r.y <= row < r.y + r.height
}

pub fn rect_contains(r: Rect, column: u16, row: u16) -> (b: bool)
    ensures
        b == rect_contains_spec(r, column, row),
{
    let right = r.x as u32 + r.width as u32;
    let bottom = r.y as u32 + r.height as u32;
    r.x <= column && (column as u32) < right && r.y <= row && (row as u32) < bottom
}

} // verus!
