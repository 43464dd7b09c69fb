use admintui::config::Config;
use admintui::crontab::render_crontab;
use admintui::editor::EditMode;
use admintui::event::Key;
use admintui::event::KeyPress;
use admintui::job::CronJob;
use admintui::table::CronTable;

fn job(schedule: &str, command: &str) -> CronJob {
    CronJob {
        cron_notation: schedule.to_string(),
        job: command.to_string(),
        job_description: String::new(),
        next_execution: String::new(),
    }
}

fn three_row_table() -> CronTable {
    CronTable::from_load(Ok(vec![
        job("0 0 * * *", "a"),
        job("1 1 * * *", "b"),
        job("2 2 * * *", "c"),
    ]))
}

fn press(table: &mut CronTable, key: Key, config: &Config) -> bool {
    let (_, persist) = table.handle_key(KeyPress::plain(key), config);
    persist
}

fn type_text(table: &mut CronTable, text: &str, config: &Config) {
    for c in text.chars() {
        press(table, Key::Char(c), config);
    }
}

#[test]
fn next_row_wraps_from_last_to_first() {
    let config = Config::new();
    let mut t = three_row_table();
    press(&mut t, Key::End, &config);
    assert_eq!(t.selected_index(), Some(2));
    press(&mut t, Key::Down, &config);
    assert_eq!(t.selected_index(), Some(0));
}

#[test]
fn previous_row_wraps_from_first_to_last() {
    let config = Config::new();
    let mut t = three_row_table();
    assert_eq!(t.selected_index(), Some(0));
    press(&mut t, Key::Up, &config);
    assert_eq!(t.selected_index(), Some(2));
}

#[test]
fn scroll_tracks_selection() {
    let config = Config::new();
    let mut t = three_row_table();
    press(&mut t, Key::End, &config);
    assert_eq!(t.scroll_position(), 2 * admintui::table::ITEM_HEIGHT);
    press(&mut t, Key::Home, &config);
    assert_eq!(t.scroll_position(), 0);
}

#[test]
fn deleting_last_row_clears_table_and_survives_navigation() {
    let config = Config::new();
    let mut t = CronTable::from_load(Ok(vec![job("0 0 * * *", "only")]));
    let persist = press(&mut t, Key::Char('d'), &config);
    assert!(persist);
    assert_eq!(t.jobs().len(), 0);
    assert_eq!(t.selected_index(), None);
    press(&mut t, Key::Down, &config);
    press(&mut t, Key::Up, &config);
    press(&mut t, Key::Home, &config);
    press(&mut t, Key::End, &config);
    assert_eq!(t.selected_index(), None);
    let persist_again = press(&mut t, Key::Char('d'), &config);
    assert!(!persist_again);
}

#[test]
fn deleting_middle_row_keeps_position() {
    let config = Config::new();
    let mut t = three_row_table();
    press(&mut t, Key::Down, &config);
    assert_eq!(t.selected_index(), Some(1));
    press(&mut t, Key::Char('d'), &config);
    assert_eq!(t.jobs().len(), 2);
    assert_eq!(t.selected_index(), Some(1));
    assert_eq!(t.jobs()[1].job, "c");
}

#[test]
fn creating_a_job_appends_selects_and_persists() {
    let config = Config::new();
    let mut t = three_row_table();
    press(&mut t, Key::Char('n'), &config);
    assert!(matches!(t.mode(), EditMode::Creating));
    type_text(&mut t, "0 5 * * *", &config);
    press(&mut t, Key::Tab, &config);
    type_text(&mut t, "/usr/bin/backup.sh", &config);
    press(&mut t, Key::Tab, &config);
    type_text(&mut t, "Nightly backup", &config);
    let persist = press(&mut t, Key::Enter, &config);
    assert!(persist);
    assert!(matches!(t.mode(), EditMode::Idle));
    assert_eq!(t.jobs().len(), 4);
    assert_eq!(t.selected_index(), Some(3));
    let added = &t.jobs()[3];
    assert_eq!(added.cron_notation, "0 5 * * *");
    assert_eq!(added.job, "/usr/bin/backup.sh");
    assert_eq!(added.job_description, "Nightly backup");
    assert_ne!(added.next_execution, "N/A");
    assert_ne!(added.next_execution, "Invalid cron expression");
    assert!(!added.next_execution.is_empty());
    let text = render_crontab(t.jobs());
    assert!(text.contains("# Nightly backup\n0 5 * * * /usr/bin/backup.sh\n"));
}

#[test]
fn invalid_schedule_blocks_commit() {
    let config = Config::new();
    let mut t = three_row_table();
    press(&mut t, Key::Char('n'), &config);
    type_text(&mut t, "sixty * * * *", &config);
    assert!(!t.form_ref().schedule_valid());
    let persist = press(&mut t, Key::Enter, &config);
    assert!(!persist);
    assert!(matches!(t.mode(), EditMode::Creating));
    assert_eq!(t.jobs().len(), 3);
}

#[test]
fn editing_overwrites_selected_row_in_place() {
    let config = Config::new();
    let mut t = three_row_table();
    press(&mut t, Key::Down, &config);
    press(&mut t, Key::Enter, &config);
    assert!(matches!(t.mode(), EditMode::Editing));
    assert_eq!(t.form_ref().cron_notation_value, "1 1 * * *");
    assert_eq!(t.form_ref().job_value, "b");
    for _ in 0.."1 1 * * *".len() {
        press(&mut t, Key::Backspace, &config);
    }
    type_text(&mut t, "30 8 * * 1-5", &config);
    let persist = press(&mut t, Key::Enter, &config);
    assert!(persist);
    assert_eq!(t.jobs().len(), 3);
    assert_eq!(t.jobs()[1].cron_notation, "30 8 * * 1-5");
    assert_eq!(t.jobs()[1].job, "b");
    assert_eq!(t.selected_index(), Some(1));
}

#[test]
fn cancel_discards_the_form_and_keeps_rows() {
    let config = Config::new();
    let mut t = three_row_table();
    press(&mut t, Key::Char('n'), &config);
    type_text(&mut t, "* * * * *", &config);
    press(&mut t, Key::Tab, &config);
    type_text(&mut t, "rm -rf /tmp/x", &config);
    let persist = press(&mut t, Key::Esc, &config);
    assert!(!persist);
    assert!(matches!(t.mode(), EditMode::Idle));
    assert_eq!(t.jobs().len(), 3);
    assert_eq!(t.form_ref().cron_notation_value, "");
    assert_eq!(t.form_ref().job_value, "");
}

#[test]
fn esc_requests_main_menu_only_when_idle() {
    let config = Config::new();
    let mut t = three_row_table();
    let (req, _) = t.handle_key(KeyPress::plain(Key::Esc), &config);
    assert!(matches!(req, Some(admintui::event::ScreenRequest::MainMenu)));
    press(&mut t, Key::Char('n'), &config);
    let (req2, _) = t.handle_key(KeyPress::plain(Key::Esc), &config);
    assert!(req2.is_none());
    assert!(matches!(t.mode(), EditMode::Idle));
}

#[test]
fn load_error_becomes_single_error_row() {
    let t = CronTable::from_load(Err("Failed to read crontab".to_string()));
    assert_eq!(t.jobs().len(), 1);
    assert_eq!(t.jobs()[0].cron_notation, "Error: Failed to read crontab");
    assert_eq!(t.selected_index(), Some(0));
}

#[test]
fn opening_editor_on_empty_table_does_nothing() {
    let config = Config::new();
    let mut t = CronTable::from_load(Ok(vec![]));
    press(&mut t, Key::Enter, &config);
    assert!(matches!(t.mode(), EditMode::Idle));
}
