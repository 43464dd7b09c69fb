//! The database user list: a static placeholder list with wrap-around
//! navigation and no persistence.

use vstd::prelude::*;

use crate::event::Key;
use crate::event::KeyPress;
use crate::event::ScreenRequest;

verus! {

/// Terminal rows one list entry occupies.
pub const MYSQL_ITEM_HEIGHT: usize = 3;

pub struct MysqlUser {
    pub username: String,
}

impl MysqlUser {
    pub fn new(username: &str) -> (r: Self)
        ensures
            r.username@ == username@,
    {
        Self { username: String::from_str(username) }
    }
}

pub struct Mysql {
    items: Vec<MysqlUser>,
    selected: Option<usize>,
    scroll: usize,
    show_popup: bool,
}

/// The scroll offset in lock-step with the selection.
pub open spec fn mysql_scroll_target(sel: Option<usize>) -> int {
    match sel {
        None => 0,
        Some(i) => if MYSQL_ITEM_HEIGHT * i <= usize::MAX {
            MYSQL_ITEM_HEIGHT * i
        } else {
            usize::MAX as int
        },
    }
}

/// The keys the user list acts on.
pub open spec fn mysql_acts(k: Key) -> bool {
    ||| k is Down
    ||| k is Up
    ||| k is Enter
    ||| (k matches Key::Char(c) && (c == 'j' || c == 'k' || c == 'n' || c == 'd'))
}

/// One key press on the user list: the relation between the list
/// before, the list after, and the transition asked for.
pub open spec fn mysql_step(pre: Mysql, key: KeyPress, post: Mysql, r: Option<
    ScreenRequest,
>) -> bool {
    &&& (key.code is Esc ==> r == Some(ScreenRequest::MainMenu) && post == pre)
    &&& (!(key.code is Esc) ==> r is None)
    &&& (!(key.code is Esc) && !mysql_acts(key.code) ==> post == pre)
    &&& (key.code is Down || (key.code matches Key::Char(c) && c == 'j') ==> post.users()
        == pre.users() && post.popup() == pre.popup() && (pre.users().len() > 0 ==> post.sel()
        == Some(
        (match pre.sel() {
            None => 0,
            Some(i) => if i + 1 >= pre.users().len() {
                0
            } else {
                i + 1
            },
        }) as usize,
    )))
    &&& (key.code is Up || (key.code matches Key::Char(c) && c == 'k') ==> post.users()
        == pre.users() && post.popup() == pre.popup() && (pre.users().len() > 0 ==> post.sel()
        == Some(
        (match pre.sel() {
            None => 0,
            Some(i) => if i == 0 {
                pre.users().len() - 1
            } else {
                i - 1
            },
        }) as usize,
    )))
    &&& (key.code is Enter ==> post.users() == pre.users() && post.sel() == pre.sel()
        && post.popup())
    &&& (key.code matches Key::Char(c) && c == 'n' ==> post.popup() == pre.popup()
        && post.users().len() == pre.users().len() + 1 && post.users().take(
        pre.users().len() as int,
    ) == pre.users() && post.users().last().username@ == "new_user"@)
    &&& (key.code matches Key::Char(c) && c == 'd' ==> post.popup() == pre.popup() && (
    match pre.sel() {
        Some(i) => post.users() == pre.users().remove(i as int) && post.sel() == (if
        pre.users().len() == 1 {
            Option::<usize>::None
        } else if i as int + 1 == pre.users().len() {
            Some((i - 1) as usize)
        } else {
            Some(i)
        }),
        None => post == pre,
    }))
}

impl Mysql {
    pub closed spec fn users(&self) -> Seq<MysqlUser> {
        self.items@
    }

    pub closed spec fn sel(&self) -> Option<usize> {
        self.selected
    }

    pub closed spec fn popup(&self) -> bool {
        self.show_popup
    }

    pub closed spec fn wf(&self) -> bool {
        &&& match self.selected {
            Some(i) => i < self.items@.len(),
            None => self.items@.len() == 0,
        }
        &&& self.scroll as int == mysql_scroll_target(self.selected)
    }

    /// The placeholder list of three database users, first row selected.
    pub fn new() -> (r: Mysql)
        ensures
            r.wf(),
            r.users().len() == 3,
            r.sel() == Some(0usize),
            !r.popup(),
    {
        let mut items: Vec<MysqlUser> = Vec::new();
        items.push(MysqlUser::new("root"));
        items.push(MysqlUser::new("admin"));
        items.push(MysqlUser::new("guest"));
        Mysql { items, selected: Some(0), scroll: 0, show_popup: false }
    }

    pub fn users_ref(&self) -> (r: &Vec<MysqlUser>)
        ensures
            r@ == self.users(),
    {
        &self.items
    }

    pub fn selected_index(&self) -> (r: Option<usize>)
        ensures
            r == self.sel(),
    {
        self.selected
    }

    pub fn scroll_position(&self) -> (r: usize)
        requires
            self.wf(),
        ensures
            r as int == mysql_scroll_target(self.sel()),
    {
        self.scroll
    }

    pub fn popup_open(&self) -> (r: bool)
        ensures
            r == self.popup(),
    {
        self.show_popup
    }

    fn fix_scroll(&mut self)
        ensures
            final(self).items == old(self).items,
            final(self).selected == old(self).selected,
            final(self).show_popup == old(self).show_popup,
            final(self).scroll as int == mysql_scroll_target(final(self).selected),
    {
        match self.selected {
            Some(i) => {
                if i <= usize::MAX / MYSQL_ITEM_HEIGHT {
                    self.scroll = i * MYSQL_ITEM_HEIGHT;
                } else {
                    self.scroll = usize::MAX;
                }
            },
            None => {
                self.scroll = 0;
            },
        }
    }

    /// Selects the next user, wrapping from the last to the first; an
    /// empty list is left untouched.
    pub fn next_user(&mut self)
        requires
            old(self).wf(),
        ensures
            final(self).wf(),
            final(self).users() == old(self).users(),
            final(self).popup() == old(self).popup(),
            old(self).users().len() == 0 ==> final(self).sel() is None,
            old(self).users().len() > 0 ==> final(self).sel() == Some(
                (match old(self).sel() {
                    None => 0,
                    Some(i) => if i + 1 >= old(self).users().len() {
                        0
                    } else {
                        i + 1
                    },
                }) as usize,
            ),
    {
        let n = self.items.len();
        if n == 0 {
            return;
        }
        let i: usize = match self.selected {
            Some(i) => if i >= n - 1 {
                0
            } else {
                i + 1
            },
            None => 0,
        };
        self.selected = Some(i);
        self.fix_scroll();
    }

    /// Selects the previous user, wrapping from the first to the last;
    /// an empty list is left untouched.
    pub fn previous_user(&mut self)
        requires
            old(self).wf(),
        ensures
            final(self).wf(),
            final(self).users() == old(self).users(),
            final(self).popup() == old(self).popup(),
            old(self).users().len() == 0 ==> final(self).sel() is None,
            old(self).users().len() > 0 ==> final(self).sel() == Some(
                (match old(self).sel() {
                    None => 0,
                    Some(i) => if i == 0 {
                        old(self).users().len() - 1
                    } else {
                        i - 1
                    },
                }) as usize,
            ),
    {
        let n = self.items.len();
        if n == 0 {
            return;
        }
        let i: usize = match self.selected {
            Some(i) => if i == 0 {
                n - 1
            } else {
                i - 1
            },
            None => 0,
        };
        self.selected = Some(i);
        self.fix_scroll();
    }

    /// Appends the placeholder new user; an empty list then gets its
    /// first entry selected.
    fn add_user(&mut self)
        requires
            old(self).wf(),
        ensures
            final(self).wf(),
            final(self).popup() == old(self).popup(),
            final(self).users().len() == old(self).users().len() + 1,
            final(self).users().take(old(self).users().len() as int) == old(self).users(),
            final(self).users().last().username@ == "new_user"@,
            old(self).sel() is Some ==> final(self).sel() == old(self).sel(),
            old(self).sel() is None ==> final(self).sel() == Some(0usize),
    {
        let ghost prev = self.items@;
        self.items.push(MysqlUser::new("new_user"));
        proof {
            assert(self.items@.take(prev.len() as int) =~= prev);
        }
        if self.selected.is_none() {
            self.selected = Some(0);
            self.fix_scroll();
        }
    }

    /// Removes the selected user, clamping or clearing the selection.
    fn delete_selected(&mut self)
        requires
            old(self).wf(),
        ensures
            final(self).wf(),
            final(self).popup() == old(self).popup(),
            old(self).sel() is None ==> *final(self) == *old(self),
            old(self).sel() matches Some(i) ==> final(self).users() == old(self).users().remove(
                i as int,
            ) && final(self).sel() == (if old(self).users().len() == 1 {
                Option::<usize>::None
            } else if i as int + 1 == old(self).users().len() {
                Some((i - 1) as usize)
            } else {
                Some(i)
            }),
    {
        match self.selected {
            Some(i) => {
                self.items.remove(i);
                let n = self.items.len();
                if n == 0 {
                    self.selected = None;
                } else if i >= n {
                    self.selected = Some(n - 1);
                } else {
                    self.selected = Some(i);
                }
                self.fix_scroll();
            },
            None => {},
        }
    }

    /// Routes one key press: Esc returns to the main menu; the
    /// navigation keys move the selection; `n` adds the placeholder
    /// user, `d` deletes the selected one, and Enter opens the
    /// placeholder popup.
    pub fn handle_screen(&mut self, key: KeyPress) -> (r: Option<ScreenRequest>)
        requires
            old(self).wf(),
        ensures
            final(self).wf(),
            mysql_step(*old(self), key, *final(self), r),
    {
        match key.code {
            Key::Esc => Some(ScreenRequest::MainMenu),
            Key::Down => {
                self.next_user();
                None
            },
            Key::Up => {
                self.previous_user();
                None
            },
            Key::Enter => {
                self.show_popup = true;
                None
            },
            Key::Char(c) => {
                if c == 'j' {
                    self.next_user();
                } else if c == 'k' {
                    self.previous_user();
                } else if c == 'n' {
                    self.add_user();
                } else if c == 'd' {
                    self.delete_selected();
                }
                None
            },
            _ => None,
        }
    }
}

} // verus!
