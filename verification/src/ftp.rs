//! The FTP user table: a static placeholder list with the same
//! navigation framework as the cron table and no persistence.

use vstd::prelude::*;

use crate::event::Key;
use crate::event::KeyPress;
use crate::event::ScreenRequest;

verus! {

/// Terminal rows one table entry occupies.
pub const FTP_ITEM_HEIGHT: usize = 4;

pub struct FtpUser {
    pub username: String,
    pub doc_root: String,
}

impl FtpUser {
    /// The two displayed columns: user name and document root.
    pub fn ref_array(&self) -> (r: [&String; 2])
        ensures
            r@ == seq![&self.username, &self.doc_root],
    {
        [&self.username, &self.doc_root]
    }

    pub fn new(username: &str, doc_root: &str) -> (r: Self)
        ensures
            r.username@ == username@,
            r.doc_root@ == doc_root@,
    {
        Self { username: String::from_str(username), doc_root: String::from_str(doc_root) }
    }
}

pub struct FtpTable {
    items: Vec<FtpUser>,
    selected: Option<usize>,
    scroll: usize,
    show_popup: bool,
}

/// The scroll offset in lock-step with the selection.
pub open spec fn ftp_scroll_target(sel: Option<usize>) -> int {
    match sel {
        None => 0,
        Some(i) => if FTP_ITEM_HEIGHT * i <= usize::MAX {
            FTP_ITEM_HEIGHT * i
        } else {
            usize::MAX as int
        },
    }
}

/// The keys the table acts on while no popup is open.
pub open spec fn ftp_acts(k: Key) -> bool {
    ||| k is Down
    ||| k is Up
    ||| k is Home
    ||| k is End
    ||| (k matches Key::Char(c) && (c == 'j' || c == 'k' || c == 'g' || c == 'G' || c == 'n' || c
        == 'd'))
}

/// One key press on the FTP table: the relation between the table
/// before, the table after, and the transition asked for.
pub open spec fn ftp_step(pre: FtpTable, key: KeyPress, post: FtpTable, r: Option<
    ScreenRequest,
>) -> bool {
    &&& (key.code is Esc ==> r == Some(ScreenRequest::MainMenu) && post == pre)
    &&& (!(key.code is Esc) ==> r is None)
    &&& (pre.popup() && !(key.code is Esc) ==> post == pre)
    &&& (!pre.popup() && !(key.code is Esc) && !ftp_acts(key.code) ==> post == pre)
    &&& (!pre.popup() ==> {
        &&& (key.code is Down || (key.code matches Key::Char(c) && c == 'j') ==> post.users()
            == pre.users() && !post.popup() && (pre.users().len() > 0 ==> post.sel() == Some(
            (match pre.sel() {
                None => 0,
                Some(i) => if i + 1 >= pre.users().len() {
                    0
                } else {
                    i + 1
                },
            }) as usize,
        )))
        &&& (key.code is Up || (key.code matches Key::Char(c) && c == 'k') ==> post.users()
            == pre.users() && !post.popup() && (pre.users().len() > 0 ==> post.sel() == Some(
            (match pre.sel() {
                None => 0,
                Some(i) => if i == 0 {
                    pre.users().len() - 1
                } else {
                    i - 1
                },
            }) as usize,
        )))
        &&& (key.code is Home || (key.code matches Key::Char(c) && c == 'g') ==> post.users()
            == pre.users() && !post.popup() && (pre.users().len() > 0 ==> post.sel() == Some(
            0usize,
        )))
        &&& (key.code is End || (key.code matches Key::Char(c) && c == 'G') ==> post.users()
            == pre.users() && !post.popup() && (pre.users().len() > 0 ==> post.sel() == Some(
            (pre.users().len() - 1) as usize,
        )))
        &&& (key.code matches Key::Char(c) && c == 'n' ==> post.users() == pre.users()
            && post.sel() == pre.sel() && post.popup())
        &&& (key.code matches Key::Char(c) && c == 'd' ==> !post.popup() && (match pre.sel() {
            Some(i) => post.users() == pre.users().remove(i as int),
            None => post == pre,
        }))
    })
}

impl FtpTable {
    pub closed spec fn users(&self) -> Seq<FtpUser> {
        self.items@
    }

    pub closed spec fn sel(&self) -> Option<usize> {
        self.selected
    }

    pub closed spec fn popup(&self) -> bool {
        self.show_popup
    }

    pub closed spec fn wf(&self) -> bool {
        &&& match self.selected {
            Some(i) => i < self.items@.len(),
            None => self.items@.len() == 0,
        }
        &&& self.scroll as int == ftp_scroll_target(self.selected)
    }

    /// The placeholder table of three local users, first row selected.
    pub fn new() -> (r: FtpTable)
        ensures
            r.wf(),
            r.users().len() == 3,
            r.sel() == Some(0usize),
            !r.popup(),
    {
        let mut items: Vec<FtpUser> = Vec::new();
        items.push(FtpUser::new("alice", "/var/ftp/alice"));
        items.push(FtpUser::new("bob", "/var/ftp/bob"));
        items.push(FtpUser::new("charlie", "/var/ftp/charlie"));
        FtpTable { items, selected: Some(0), scroll: 0, show_popup: false }
    }

    pub fn users_ref(&self) -> (r: &Vec<FtpUser>)
        ensures
            r@ == self.users(),
    {
        &self.items
    }

    pub fn selected_index(&self) -> (r: Option<usize>)
        ensures
            r == self.sel(),
    {
        self.selected
    }

    pub fn scroll_position(&self) -> (r: usize)
        requires
            self.wf(),
        ensures
            r as int == ftp_scroll_target(self.sel()),
    {
        self.scroll
    }

    pub fn popup_open(&self) -> (r: bool)
        ensures
            r == self.popup(),
    {
        self.show_popup
    }

    fn fix_scroll(&mut self)
        ensures
            final(self).items == old(self).items,
            final(self).selected == old(self).selected,
            final(self).show_popup == old(self).show_popup,
            final(self).scroll as int == ftp_scroll_target(final(self).selected),
    {
        match self.selected {
            Some(i) => {
                if i <= usize::MAX / FTP_ITEM_HEIGHT {
                    self.scroll = i * FTP_ITEM_HEIGHT;
                } else {
                    self.scroll = usize::MAX;
                }
            },
            None => {
                self.scroll = 0;
            },
        }
    }

    /// Selects the next row, wrapping from the last row to the first;
    /// an empty table is left untouched.
    pub fn next_row(&mut self)
        requires
            old(self).wf(),
        ensures
            final(self).wf(),
            final(self).users() == old(self).users(),
            final(self).popup() == old(self).popup(),
            old(self).users().len() == 0 ==> final(self).sel() is None,
            old(self).users().len() > 0 ==> final(self).sel() == Some(
                (match old(self).sel() {
                    None => 0,
                    Some(i) => if i + 1 >= old(self).users().len() {
                        0
                    } else {
                        i + 1
                    },
                }) as usize,
            ),
    {
        let n = self.items.len();
        if n == 0 {
            return;
        }
        let i: usize = match self.selected {
            Some(i) => if i >= n - 1 {
                0
            } else {
                i + 1
            },
            None => 0,
        };
        self.selected = Some(i);
        self.fix_scroll();
    }

    /// Selects the previous row, wrapping from the first row to the
    /// last; an empty table is left untouched.
    pub fn previous_row(&mut self)
        requires
            old(self).wf(),
        ensures
            final(self).wf(),
            final(self).users() == old(self).users(),
            final(self).popup() == old(self).popup(),
            old(self).users().len() == 0 ==> final(self).sel() is None,
            old(self).users().len() > 0 ==> final(self).sel() == Some(
                (match old(self).sel() {
                    None => 0,
                    Some(i) => if i == 0 {
                        old(self).users().len() - 1
                    } else {
                        i - 1
                    },
                }) as usize,
            ),
    {
        let n = self.items.len();
        if n == 0 {
            return;
        }
        let i: usize = match self.selected {
            Some(i) => if i == 0 {
                n - 1
            } else {
                i - 1
            },
            None => 0,
        };
        self.selected = Some(i);
        self.fix_scroll();
    }

    /// Selects the first row; an empty table is left untouched.
    pub fn first_row(&mut self)
        requires
            old(self).wf(),
        ensures
            final(self).wf(),
            final(self).users() == old(self).users(),
            final(self).popup() == old(self).popup(),
            old(self).users().len() > 0 ==> final(self).sel() == Some(0usize),
            old(self).users().len() == 0 ==> final(self).sel() is None,
    {
        if self.items.len() > 0 {
            self.selected = Some(0);
            self.fix_scroll();
        }
    }

    /// Selects the last row; an empty table is left untouched.
    pub fn last_row(&mut self)
        requires
            old(self).wf(),
        ensures
            final(self).wf(),
            final(self).users() == old(self).users(),
            final(self).popup() == old(self).popup(),
            old(self).users().len() > 0 ==> final(self).sel() == Some(
                (old(self).users().len() - 1) as usize,
            ),
            old(self).users().len() == 0 ==> final(self).sel() is None,
    {
        let n = self.items.len();
        if n > 0 {
            self.selected = Some(n - 1);
            self.fix_scroll();
        }
    }

    /// Removes the selected row, clamping or clearing the selection.
    fn delete_selected(&mut self)
        requires
            old(self).wf(),
        ensures
            final(self).wf(),
            final(self).popup() == old(self).popup(),
            old(self).sel() is None ==> *final(self) == *old(self),
            old(self).sel() matches Some(i) ==> final(self).users() == old(self).users().remove(
                i as int,
            ) && final(self).sel() == (if old(self).users().len() == 1 {
                Option::<usize>::None
            } else if i as int + 1 == old(self).users().len() {
                Some((i - 1) as usize)
            } else {
                Some(i)
            }),
    {
        match self.selected {
            Some(i) => {
                self.items.remove(i);
                let n = self.items.len();
                if n == 0 {
                    self.selected = None;
                } else if i >= n {
                    self.selected = Some(n - 1);
                } else {
                    self.selected = Some(i);
                }
                self.fix_scroll();
            },
            None => {},
        }
    }

    /// Routes one key press: Esc returns to the main menu; the
    /// navigation keys move the selection; `n` opens the placeholder
    /// popup and `d` deletes the selected row.
    pub fn handle_screen(&mut self, key: KeyPress) -> (r: Option<ScreenRequest>)
        requires
            old(self).wf(),
        ensures
            final(self).wf(),
            ftp_step(*old(self), key, *final(self), r),
    {
        match key.code {
            Key::Esc => Some(ScreenRequest::MainMenu),
            Key::Down => {
                if !self.show_popup {
                    self.next_row();
                }
                None
            },
            Key::Up => {
                if !self.show_popup {
                    self.previous_row();
                }
                None
            },
            Key::Home => {
                if !self.show_popup {
                    self.first_row();
                }
                None
            },
            Key::End => {
                if !self.show_popup {
                    self.last_row();
                }
                None
            },
            Key::Char(c) => {
                if !self.show_popup {
                    if c == 'j' {
                        self.next_row();
                    } else if c == 'k' {
                        self.previous_row();
                    } else if c == 'g' {
                        self.first_row();
                    } else if c == 'G' {
                        self.last_row();
                    } else if c == 'n' {
                        self.show_popup = true;
                    } else if c == 'd' {
                        self.delete_selected();
                    }
                }
                None
            },
            _ => None,
        }
    }
}

} // verus!
