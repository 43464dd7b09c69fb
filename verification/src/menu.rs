//! The main menu: a fixed list of administrative modules, keyboard and
//! mouse selection, and the screen transitions each entry requests.

use vstd::prelude::*;

use crate::event::Key;
use crate::event::KeyPress;
use crate::event::MouseClick;
use crate::event::ScreenRequest;

verus! {

/// The first terminal row of the menu list.
pub const MENU_START_ROW: u16 = 6;

/// Terminal rows one menu entry spans.
pub const MENU_ITEM_SPAN: u16 = 3;

/// How many entries the menu holds.
pub const MENU_LEN: usize = 5;

pub struct MainMenu {
    items: Vec<String>,
    selected: usize,
}

/// The module a menu position stands for. The last two entries are
/// placeholders and end the program.
pub open spec fn request_of(i: int) -> Option<ScreenRequest> {
    if i == 0 {
        Some(ScreenRequest::CronTable)
    } else if i == 1 {
        Some(ScreenRequest::FtpTable)
    } else if i == 2 {
        Some(ScreenRequest::Mysql)
    } else if i == 3 || i == 4 {
        Some(ScreenRequest::Quit)
    } else {
        None
    }
}

/// The five entry labels, in order.
pub open spec fn menu_labels() -> Seq<Seq<char>> {
    seq![
        "🕗 Cron Jobs"@,
        "👤 FTP"@,
        "🐬 MySQL"@,
        "🌐 Webserver"@,
        "🔧 Settings"@,
    ]
}

/// Keys that neither quit nor activate an entry.
pub open spec fn menu_plain(k: Key) -> bool {
    !(k is Esc || k is Enter || (k matches Key::Char(c) && c == 'q'))
}

/// One input event on the menu: the relation between the menu before,
/// the menu after, and the transition asked for.
pub open spec fn menu_step(
    pre: MainMenu,
    key: KeyPress,
    mouse: Option<MouseClick>,
    post: MainMenu,
    r: Option<ScreenRequest>,
) -> bool {
    &&& post.labels() == pre.labels()
    &&& (key.code is Esc || (key.code matches Key::Char(c) && c == 'q') ==> r == Some(
        ScreenRequest::Quit,
    ) && post == pre)
    &&& (key.code is Enter ==> r == request_of(pre.sel()) && post == pre)
    &&& (menu_plain(key.code) ==> match mouse {
        Some(click) => {
            &&& (MENU_START_ROW <= click.row < MENU_START_ROW + MENU_LEN * MENU_ITEM_SPAN
                ==> post.sel() == (click.row - MENU_START_ROW) as int / (MENU_ITEM_SPAN as int)
                && r == request_of(post.sel()))
            &&& (!(MENU_START_ROW <= click.row < MENU_START_ROW + MENU_LEN * MENU_ITEM_SPAN)
                ==> post == pre && r is None)
        },
        None => {
            &&& r is None
            &&& (key.code is Down || (key.code matches Key::Char(c) && c == 'j') ==> post.sel()
                == (if pre.sel() + 1 < MENU_LEN {
                pre.sel() + 1
            } else {
                MENU_LEN - 1
            }))
            &&& (key.code is Up || (key.code matches Key::Char(c) && c == 'k') ==> post.sel() == (
            if pre.sel() > 0 {
                pre.sel() - 1
            } else {
                0
            }))
            &&& (key.code is Home ==> post.sel() == 0)
            &&& (key.code is End ==> post.sel() == MENU_LEN - 1)
            &&& (!menu_moves(key.code) ==> post == pre)
        },
    })
}

/// Keys that move the menu selection.
pub open spec fn menu_moves(k: Key) -> bool {
    ||| k is Down
    ||| k is Up
    ||| k is Home
    ||| k is End
    ||| (k matches Key::Char(c) && (c == 'j' || c == 'k'))
}

impl MainMenu {
    pub closed spec fn labels(&self) -> Seq<Seq<char>> {
        crate::text::views_of(self.items@)
    }

    pub closed spec fn sel(&self) -> int {
        self.selected as int
    }

    pub closed spec fn wf(&self) -> bool {
        self.items@.len() == MENU_LEN && self.selected < MENU_LEN
    }

    /// The menu over the five administrative modules, with the first
    /// entry selected.
    pub fn new() -> (r: MainMenu)
        ensures
            r.wf(),
            r.sel() == 0,
            r.labels() == menu_labels(),
    {
        let mut items: Vec<String> = Vec::new();
        items.push(String::from_str("🕗 Cron Jobs"));
        items.push(String::from_str("👤 FTP"));
        items.push(String::from_str("🐬 MySQL"));
        items.push(String::from_str("🌐 Webserver"));
        items.push(String::from_str("🔧 Settings"));
        let r = MainMenu { items, selected: 0 };
        proof {
            assert(r.labels() =~= menu_labels());
        }
        r
    }

    pub fn items(&self) -> (r: &Vec<String>)
        ensures
            crate::text::views_of(r@) == self.labels(),
    {
        &self.items
    }

    pub fn selected_index(&self) -> (r: usize)
        ensures
            r as int == self.sel(),
    {
        self.selected
    }

    /// Moves the selection one entry down, stopping at the last entry.
    pub fn select_next(&mut self)
        requires
            old(self).wf(),
        ensures
            final(self).wf(),
            final(self).labels() == old(self).labels(),
            final(self).sel() == (if old(self).sel() + 1 < MENU_LEN {
                old(self).sel() + 1
            } else {
                MENU_LEN - 1
            }),
    {
        if self.selected + 1 < MENU_LEN {
            self.selected = self.selected + 1;
        }
    }

    /// Moves the selection one entry up, stopping at the first entry.
    pub fn select_previous(&mut self)
        requires
            old(self).wf(),
        ensures
            final(self).wf(),
            final(self).labels() == old(self).labels(),
            final(self).sel() == (if old(self).sel() > 0 {
                old(self).sel() - 1
            } else {
                0
            }),
    {
        if self.selected > 0 {
            self.selected = self.selected - 1;
        }
    }

    /// Selects the first entry.
    pub fn select_first(&mut self)
        requires
            old(self).wf(),
        ensures
            final(self).wf(),
            final(self).labels() == old(self).labels(),
            final(self).sel() == 0,
    {
        self.selected = 0;
    }

    /// Selects the last entry.
    pub fn select_last(&mut self)
        requires
            old(self).wf(),
        ensures
            final(self).wf(),
            final(self).labels() == old(self).labels(),
            final(self).sel() == MENU_LEN - 1,
    {
        self.selected = MENU_LEN - 1;
    }

    /// The transition the selected entry stands for.
    pub fn process_select(&self) -> (r: Option<ScreenRequest>)
        requires
            self.wf(),
        ensures
            r == request_of(self.sel()),
    {
        if self.selected == 0 {
            Some(ScreenRequest::CronTable)
        } else if self.selected == 1 {
            Some(ScreenRequest::FtpTable)
        } else if self.selected == 2 {
            Some(ScreenRequest::Mysql)
        } else {
            Some(ScreenRequest::Quit)
        }
    }

    /// Maps a mouse press to the menu entry whose rows it landed on and
    /// selects and activates that entry; presses outside the list do
    /// nothing.
    pub fn handle_mouse(&mut self, click: MouseClick) -> (r: Option<ScreenRequest>)
        requires
            old(self).wf(),
        ensures
            final(self).wf(),
            final(self).labels() == old(self).labels(),
            MENU_START_ROW <= click.row < MENU_START_ROW + MENU_LEN * MENU_ITEM_SPAN ==> final(self).sel() == (click.row - MENU_START_ROW) as int / (MENU_ITEM_SPAN as int) && r
                == request_of(final(self).sel()),
            !(MENU_START_ROW <= click.row < MENU_START_ROW + MENU_LEN * MENU_ITEM_SPAN) ==> *final(self) == *old(self) && r is None,
    {
        if click.row >= MENU_START_ROW && click.row < MENU_START_ROW + (MENU_LEN as u16)
            * MENU_ITEM_SPAN {
            let idx = ((click.row - MENU_START_ROW) / MENU_ITEM_SPAN) as usize;
            self.selected = idx;
            self.process_select()
        } else {
            None
        }
    }

    /// Routes one input event on the menu: `q` and Esc end the program,
    /// Enter and mouse presses activate an entry, and the navigation
    /// keys move the selection.
    pub fn handle_screen(&mut self, key: KeyPress, mouse: Option<MouseClick>) -> (r: Option<
        ScreenRequest,
    >)
        requires
            old(self).wf(),
        ensures
            final(self).wf(),
            menu_step(*old(self), key, mouse, *final(self), r),
    {
        match key.code {
            Key::Esc => Some(ScreenRequest::Quit),
            Key::Char(c) if c == 'q' => Some(ScreenRequest::Quit),
            Key::Enter => self.process_select(),
            _ => {
                match mouse {
                    Some(click) => self.handle_mouse(click),
                    None => {
                        match key.code {
                            Key::Down => {
                                self.select_next();
                            },
                            Key::Up => {
                                self.select_previous();
                            },
                            Key::Home => {
                                self.select_first();
                            },
                            Key::End => {
                                self.select_last();
                            },
                            Key::Char(c) => {
                                if c == 'j' {
                                    self.select_next();
                                } else if c == 'k' {
                                    self.select_previous();
                                }
                            },
                            _ => {},
                        }
                        None
                    },
                }
            },
        }
    }
}

} // verus!
