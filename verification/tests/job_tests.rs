use admintui::job::CronJob;

#[test]
fn new_rebuilds_a_job_field_for_field() {
    let source = CronJob {
        cron_notation: "0 5 * * *".to_string(),
        job: "backup".to_string(),
        job_description: "nightly".to_string(),
        next_execution: "soon".to_string(),
    };
    let copy = CronJob::new(source);
    assert_eq!(copy.cron_notation, "0 5 * * *");
    assert_eq!(copy.job, "backup");
    assert_eq!(copy.job_description, "nightly");
    assert_eq!(copy.next_execution, "soon");
}

#[test]
fn ref_array_orders_the_displayed_columns() {
    let j = CronJob {
        cron_notation: "s".to_string(),
        job: "cmd".to_string(),
        job_description: "d".to_string(),
        next_execution: "n".to_string(),
    };
    let cols = j.ref_array();
    assert_eq!(cols[0], "s");
    assert_eq!(cols[1], "n");
    assert_eq!(cols[2], "d");
    assert_eq!(j.cron_notation(), "s");
    assert_eq!(j.next_execution(), "n");
    assert_eq!(j.job_description(), "d");
}

#[test]
fn default_is_the_empty_job() {
    let j = CronJob::default();
    assert_eq!(j.cron_notation, "");
    assert_eq!(j.job, "");
    assert_eq!(j.job_description, "");
    assert_eq!(j.next_execution, "");
}
