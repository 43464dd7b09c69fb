use admintui::app::App;
use admintui::app::Screen;
use admintui::config::Config;
use admintui::event::Key;
use admintui::event::KeyPress;
use admintui::event::MouseClick;
use admintui::event::ScreenRequest;
use admintui::ftp::FtpTable;
use admintui::job::constraint_len_calculator;
use admintui::job::CronJob;
use admintui::menu::MainMenu;
use admintui::mysql::Mysql;

#[test]
fn menu_maps_entries_to_modules() {
    let mut m = MainMenu::new();
    assert!(matches!(m.process_select(), Some(ScreenRequest::CronTable)));
    m.select_next();
    assert!(matches!(m.process_select(), Some(ScreenRequest::FtpTable)));
    m.select_next();
    assert!(matches!(m.process_select(), Some(ScreenRequest::Mysql)));
    m.select_next();
    assert!(matches!(m.process_select(), Some(ScreenRequest::Quit)));
    m.select_last();
    assert!(matches!(m.process_select(), Some(ScreenRequest::Quit)));
}

#[test]
fn menu_selection_stops_at_the_ends() {
    let mut m = MainMenu::new();
    m.select_previous();
    assert_eq!(m.selected_index(), 0);
    for _ in 0..10 {
        m.select_next();
    }
    assert_eq!(m.selected_index(), 4);
}

#[test]
fn menu_mouse_click_activates_the_row_it_lands_on() {
    let mut m = MainMenu::new();
    let r = m.handle_mouse(MouseClick { row: 6 });
    assert_eq!(m.selected_index(), 0);
    assert!(matches!(r, Some(ScreenRequest::CronTable)));
    let r2 = m.handle_mouse(MouseClick { row: 11 });
    assert_eq!(m.selected_index(), 1);
    assert!(matches!(r2, Some(ScreenRequest::FtpTable)));
    let r3 = m.handle_mouse(MouseClick { row: 40 });
    assert!(r3.is_none());
    assert_eq!(m.selected_index(), 1);
}

#[test]
fn menu_quit_keys_end_the_program() {
    let mut m = MainMenu::new();
    let r = m.handle_screen(KeyPress::plain(Key::Char('q')), None);
    assert!(matches!(r, Some(ScreenRequest::Quit)));
    let r2 = m.handle_screen(KeyPress::plain(Key::Esc), None);
    assert!(matches!(r2, Some(ScreenRequest::Quit)));
}

#[test]
fn ftp_navigation_wraps() {
    let mut f = FtpTable::new();
    assert_eq!(f.selected_index(), Some(0));
    f.previous_row();
    assert_eq!(f.selected_index(), Some(2));
    f.next_row();
    assert_eq!(f.selected_index(), Some(0));
    assert_eq!(f.users_ref()[0].username, "alice");
    assert_eq!(f.users_ref()[0].doc_root, "/var/ftp/alice");
}

#[test]
fn ftp_ref_array_lists_the_columns() {
    let f = FtpTable::new();
    let cols = f.users_ref()[1].ref_array();
    assert_eq!(cols[0], "bob");
    assert_eq!(cols[1], "/var/ftp/bob");
}

#[test]
fn mysql_add_and_delete_users() {
    let mut m = Mysql::new();
    let config_free_key = KeyPress::plain(Key::Char('n'));
    m.handle_screen(config_free_key);
    assert_eq!(m.users_ref().len(), 4);
    assert_eq!(m.users_ref()[3].username, "new_user");
    for _ in 0..4 {
        m.handle_screen(KeyPress::plain(Key::Char('d')));
    }
    assert_eq!(m.users_ref().len(), 0);
    assert_eq!(m.selected_index(), None);
    m.handle_screen(KeyPress::plain(Key::Down));
    assert_eq!(m.selected_index(), None);
}

#[test]
fn dispatcher_starts_on_menu_and_quits_for_good() {
    let config = Config::new();
    let mut app = App::new();
    assert!(matches!(app.screen_ref(), Screen::MainMenu(_)));
    let (req, persist) = app.handle_event(KeyPress::plain(Key::Char('q')), None, &config);
    assert!(matches!(req, Some(ScreenRequest::Quit)));
    assert!(!persist);
    app.enter_quit();
    assert!(app.is_quit());
    let (req2, persist2) = app.handle_event(KeyPress::plain(Key::Enter), None, &config);
    assert!(req2.is_none());
    assert!(!persist2);
    assert!(app.is_quit());
}

#[test]
fn dispatcher_transitions_by_value_replacement() {
    let mut app = App::new();
    app.enter_ftp_table();
    assert!(matches!(app.screen_ref(), Screen::FtpTable(_)));
    app.enter_mysql();
    assert!(matches!(app.screen_ref(), Screen::Mysql(_)));
    app.enter_cron_table(Ok(vec![]));
    assert!(matches!(app.screen_ref(), Screen::CronTable(_)));
    app.enter_main_menu();
    assert!(matches!(app.screen_ref(), Screen::MainMenu(_)));
}

#[test]
fn column_widths_use_display_width() {
    let ascii = CronJob {
        cron_notation: "12345".to_string(),
        job: String::new(),
        job_description: "abc".to_string(),
        next_execution: "1234567".to_string(),
    };
    let wide = CronJob {
        cron_notation: "你好".to_string(),
        job: String::new(),
        job_description: String::new(),
        next_execution: String::new(),
    };
    let (w0, w1, w2) = constraint_len_calculator(&vec![ascii, wide]);
    assert_eq!(w0, 5);
    assert_eq!(w1, 7);
    assert_eq!(w2, 3);
    let (only_wide, _, _) = constraint_len_calculator(&vec![CronJob {
        cron_notation: "你好".to_string(),
        job: String::new(),
        job_description: String::new(),
        next_execution: String::new(),
    }]);
    assert_eq!(only_wide, 4);
}

#[test]
fn menu_keys_move_the_selection() {
    let mut m = MainMenu::new();
    m.handle_screen(KeyPress::plain(Key::Down), None);
    assert_eq!(m.selected_index(), 1);
    m.handle_screen(KeyPress::plain(Key::Char('j')), None);
    assert_eq!(m.selected_index(), 2);
    m.handle_screen(KeyPress::plain(Key::Char('k')), None);
    assert_eq!(m.selected_index(), 1);
    m.handle_screen(KeyPress::plain(Key::End), None);
    assert_eq!(m.selected_index(), 4);
    m.handle_screen(KeyPress::plain(Key::Home), None);
    assert_eq!(m.selected_index(), 0);
    assert_eq!(m.items()[0], "🕗 Cron Jobs");
}

#[test]
fn ftp_popup_freezes_navigation() {
    let mut f = FtpTable::new();
    f.handle_screen(KeyPress::plain(Key::Char('n')));
    assert!(f.popup_open());
    f.handle_screen(KeyPress::plain(Key::Down));
    assert_eq!(f.selected_index(), Some(0));
    assert_eq!(f.users_ref().len(), 3);
}
