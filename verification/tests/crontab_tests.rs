use admintui::config::Config;
use admintui::crontab::load_from_listing;
use admintui::crontab::parse_crontab;
use admintui::crontab::render_crontab;
use admintui::job::CronJob;

fn triples(jobs: &[CronJob]) -> Vec<(String, String, String)> {
    jobs.iter()
        .map(|j| (j.cron_notation.clone(), j.job.clone(), j.job_description.clone()))
        .collect()
}

#[test]
fn parse_reads_directive_with_description() {
    let config = Config::new();
    let jobs = parse_crontab("# Backup\n0 5 * * * /usr/bin/backup.sh\n", &config);
    assert_eq!(jobs.len(), 1);
    assert_eq!(jobs[0].cron_notation, "0 5 * * *");
    assert_eq!(jobs[0].job, "/usr/bin/backup.sh");
    assert_eq!(jobs[0].job_description, "Backup");
    assert_ne!(jobs[0].next_execution, "Invalid cron expression");
}

#[test]
fn parse_skips_short_lines_silently() {
    let config = Config::new();
    let jobs = parse_crontab("foo bar\n* * * * * cmd\n", &config);
    assert_eq!(triples(&jobs), vec![("* * * * *".into(), "cmd".into(), "".into())]);
}

#[test]
fn parse_attaches_description_to_next_directive_only() {
    let config = Config::new();
    let text = "# first\n\n# second\n0 0 * * * cmd1\n1 1 * * * cmd2\n";
    let jobs = parse_crontab(text, &config);
    assert_eq!(
        triples(&jobs),
        vec![
            ("0 0 * * *".into(), "cmd1".into(), "second".into()),
            ("1 1 * * *".into(), "cmd2".into(), "".into()),
        ]
    );
}

#[test]
fn parse_normalizes_token_spacing() {
    let config = Config::new();
    let jobs = parse_crontab("  0   5  *  *  *   echo   hi  \n", &config);
    assert_eq!(triples(&jobs), vec![("0 5 * * *".into(), "echo hi".into(), "".into())]);
}

#[test]
fn parse_keeps_unparsable_schedules() {
    let config = Config::new();
    let jobs = parse_crontab("99 99 99 99 99 cmd\n", &config);
    assert_eq!(jobs.len(), 1);
    assert_eq!(jobs[0].cron_notation, "99 99 99 99 99");
    assert_eq!(jobs[0].next_execution, "Invalid cron expression");
}

#[test]
fn render_writes_comment_then_directive() {
    let job = CronJob {
        cron_notation: "0 5 * * *".to_string(),
        job: "/usr/bin/backup.sh".to_string(),
        job_description: "Nightly backup".to_string(),
        next_execution: String::new(),
    };
    let text = render_crontab(&vec![job]);
    assert_eq!(text, "# Nightly backup\n0 5 * * * /usr/bin/backup.sh\n");
}

#[test]
fn render_skips_entries_without_command() {
    let a = CronJob {
        cron_notation: "0 5 * * *".to_string(),
        job: String::new(),
        job_description: "ghost".to_string(),
        next_execution: String::new(),
    };
    let b = CronJob {
        cron_notation: "1 2 * * *".to_string(),
        job: "run".to_string(),
        job_description: String::new(),
        next_execution: String::new(),
    };
    let text = render_crontab(&vec![a, b]);
    assert_eq!(text, "1 2 * * * run\n");
}

#[test]
fn load_save_load_is_idempotent_on_triples() {
    let config = Config::new();
    let text = "# keep\n0 5 * * *   /usr/bin/backup.sh --fast\nbroken line\n\n# orphan\n*/5 * * * * echo ok\n";
    let first = parse_crontab(text, &config);
    let written = render_crontab(&first);
    let second = parse_crontab(written.as_str(), &config);
    assert_eq!(triples(&first), triples(&second));
    let written_again = render_crontab(&second);
    assert_eq!(written, written_again);
}

#[test]
fn load_success_parses_stdout() {
    let config = Config::new();
    let r = load_from_listing(true, "# d\n* * * * * x\n", "", &config);
    let jobs = r.expect("load should succeed");
    assert_eq!(triples(&jobs), vec![("* * * * *".into(), "x".into(), "d".into())]);
}

#[test]
fn load_missing_table_yields_sentinel_row() {
    let config = Config::new();
    let r = load_from_listing(false, "", "# no crontab for bob", &config);
    let jobs = r.expect("a missing table is not an error");
    assert_eq!(jobs.len(), 1);
    assert_eq!(jobs[0].cron_notation, "User has no crontab");
    assert_eq!(jobs[0].job, "");
    assert_eq!(jobs[0].job_description, "");
    assert_eq!(jobs[0].next_execution, "");
}

#[test]
fn load_other_failures_are_errors() {
    let config = Config::new();
    let r = load_from_listing(false, "", "permission denied", &config);
    assert_eq!(r.err().unwrap(), "Failed to read crontab");
}
