//! The screen dispatcher: one active screen at a time, input routed to
//! it, transitions applied by value replacement, and no input processed
//! once the terminal Quit state is reached.

use vstd::prelude::*;

use crate::config::Config;
use crate::event::KeyPress;
use crate::event::MouseClick;
use crate::event::ScreenRequest;
use crate::ftp::ftp_step;
use crate::ftp::FtpTable;
use crate::job::CronJob;
use crate::menu::menu_step;
use crate::menu::MainMenu;
use crate::mysql::mysql_step;
use crate::mysql::Mysql;
use crate::table::table_step;
use crate::table::CronTable;

verus! {

/// The closed set of screens; exactly one is active, and all per-screen
/// state lives inside its variant.
pub enum Screen {
    MainMenu(MainMenu),
    CronTable(CronTable),
    FtpTable(FtpTable),
    Mysql(Mysql),
    Quit,
}

pub open spec fn screen_wf(s: Screen) -> bool {
    match s {
        Screen::MainMenu(m) => m.wf(),
        Screen::CronTable(t) => t.wf(),
        Screen::FtpTable(f) => f.wf(),
        Screen::Mysql(m) => m.wf(),
        Screen::Quit => true,
    }
}

pub struct App {
    screen: Screen,
}

impl App {
    pub closed spec fn cur(&self) -> Screen {
        self.screen
    }

    pub open spec fn wf(&self) -> bool {
        screen_wf(self.cur())
    }

    /// Starts on the main menu.
    pub fn new() -> (r: App)
        ensures
            r.wf(),
            r.cur() is MainMenu,
    {
        App { screen: Screen::MainMenu(MainMenu::new()) }
    }

    /// The active screen, for rendering.
    pub fn screen_ref(&self) -> (r: &Screen)
        ensures
            *r == self.cur(),
    {
        &self.screen
    }

    pub fn is_quit(&self) -> (r: bool)
        ensures
            r == (self.cur() is Quit),
    {
        match self.screen {
            Screen::Quit => true,
            _ => false,
        }
    }

    /// Routes one input event to the active screen and to it alone: the
    /// screen keeps its variant and steps exactly by its own routing
    /// relation. The first result is the transition the screen asks
    /// for; the second asks the caller to persist the cron job list.
    /// The Quit screen processes nothing.
    pub fn handle_event(&mut self, key: KeyPress, mouse: Option<MouseClick>, config: &Config) -> (r:
        (Option<ScreenRequest>, bool))
        requires
            old(self).wf(),
        ensures
            final(self).wf(),
            old(self).cur() is Quit ==> *final(self) == *old(self) && r.0 is None && !r.1,
            old(self).cur() matches Screen::MainMenu(m) ==> (final(self).cur() matches
                Screen::MainMenu(m2) && menu_step(m, key, mouse, m2, r.0) && !r.1),
            old(self).cur() matches Screen::CronTable(t) ==> (final(self).cur() matches
                Screen::CronTable(t2) && table_step(t, key, t2, r.0, r.1)),
            old(self).cur() matches Screen::FtpTable(f) ==> (final(self).cur() matches
                Screen::FtpTable(f2) && ftp_step(f, key, f2, r.0) && !r.1),
            old(self).cur() matches Screen::Mysql(m) ==> (final(self).cur() matches Screen::Mysql(
                m2,
            ) && mysql_step(m, key, m2, r.0) && !r.1),
            r.1 ==> old(self).cur() is CronTable,
    {
        match &mut self.screen {
            Screen::MainMenu(m) => (m.handle_screen(key, mouse), false),
            Screen::CronTable(t) => t.handle_key(key, config),
            Screen::FtpTable(f) => (f.handle_screen(key), false),
            Screen::Mysql(m) => (m.handle_screen(key), false),
            Screen::Quit => (None, false),
        }
    }

    /// Replaces the active screen with a fresh main menu.
    pub fn enter_main_menu(&mut self)
        ensures
            final(self).wf(),
            final(self).cur() is MainMenu,
    {
        self.screen = Screen::MainMenu(MainMenu::new());
    }

    /// Replaces the active screen with the cron table built from one
    /// load of the scheduler's listing.
    pub fn enter_cron_table(&mut self, load: Result<Vec<CronJob>, String>)
        ensures
            final(self).wf(),
            final(self).cur() is CronTable,
            load is Ok ==> final(self).cur()->CronTable_0.jobs_view() == load->Ok_0@,
            load is Err ==> final(self).cur()->CronTable_0.jobs_view().len() == 1,
    {
        self.screen = Screen::CronTable(CronTable::from_load(load));
    }

    /// Replaces the active screen with the FTP user table.
    pub fn enter_ftp_table(&mut self)
        ensures
            final(self).wf(),
            final(self).cur() is FtpTable,
    {
        self.screen = Screen::FtpTable(FtpTable::new());
    }

    /// Replaces the active screen with the database user list.
    pub fn enter_mysql(&mut self)
        ensures
            final(self).wf(),
            final(self).cur() is Mysql,
    {
        self.screen = Screen::Mysql(Mysql::new());
    }

    /// Enters the terminal state: the event loop ends and no further
    /// input is processed.
    pub fn enter_quit(&mut self)
        ensures
            final(self).wf(),
            final(self).cur() is Quit,
    {
        self.screen = Screen::Quit;
    }
}

impl Default for App {
    /// Starts on the main menu.
    fn default() -> (r: Self)
        ensures
            r.wf(),
            r.cur() is MainMenu,
    {
        App::new()
    }
}

} // verus!

