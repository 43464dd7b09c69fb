//! Plain models of the input events the screens decide on. The terminal
//! front end translates its own event types into these values before
//! calling into the library.

use vstd::prelude::*;

verus! {

/// One key, after decoding.
#[derive(Clone, Copy)]
pub enum Key {
    Up,
    Down,
    Left,
    Right,
    Home,
    End,
    Enter,
    Esc,
    Tab,
    Backspace,
    Delete,
    Char(char),
    Null,
}

/// One key press: the key and whether the control modifier was held.
#[derive(Clone, Copy)]
pub struct KeyPress {
    pub code: Key,
    pub ctrl: bool,
}

impl KeyPress {
    pub fn plain(code: Key) -> (r: KeyPress)
        ensures
            r.code == code,
            !r.ctrl,
    {
        KeyPress { code, ctrl: false }
    }
}

/// One mouse button press, reduced to the terminal row it landed on.
#[derive(Clone, Copy)]
pub struct MouseClick {
    pub row: u16,
}

/// A screen transition a handler asks the dispatcher for. Entering the
/// cron table needs a fresh load from the scheduler, which the front end
/// performs before the transition is applied.
#[derive(Clone, Copy, PartialEq, Eq, Structural)]
pub enum ScreenRequest {
    MainMenu,
    CronTable,
    FtpTable,
    Mysql,
    Quit,
}

} // verus!
