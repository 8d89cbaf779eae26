use rustpanel_core::cron::{
    render_crontab, system_cron_schedule, validate_task, CronServiceImpl, CronTask, StoredCronTask,
    CRON_TASK_STATE_ENABLED, CRON_TASK_STATE_PAUSED,
};
use rustpanel_core::status::Code;

fn sample_task() -> CronTask {
    CronTask {
        id: String::new(),
        name: "backup".to_owned(),
        cron_expression: "0 0 * * * *".to_owned(),
        command: "echo ok".to_owned(),
        state: CRON_TASK_STATE_ENABLED,
        timeout_seconds: 30,
        next_run_at: String::new(),
    }
}

#[test]
fn validates_required_task_fields() {
    let mut task = sample_task();
    assert!(validate_task(&task).is_ok());

    task.command.clear();
    assert!(validate_task(&task).is_err());
}

#[test]
fn validate_rejects_blank_name_and_expression() {
    let mut blank_name = sample_task();
    blank_name.name = "   ".to_owned();
    assert_eq!(validate_task(&blank_name).expect_err("name").code(), Code::InvalidArgument);

    let mut blank_expression = sample_task();
    blank_expression.cron_expression = "  ".to_owned();
    assert_eq!(validate_task(&blank_expression).expect_err("expression").code(), Code::InvalidArgument);

    let mut blank_command = sample_task();
    blank_command.command = "\t".to_owned();
    assert_eq!(validate_task(&blank_command).expect_err("command").code(), Code::InvalidArgument);
}

#[test]
fn converts_panel_expressions_to_system_cron() {
    assert_eq!(system_cron_schedule("0 0 2 * * *").as_deref(), Some("0 2 * * *"));
    assert_eq!(system_cron_schedule("0 */15 * * * *").as_deref(), Some("*/15 * * * *"));
    assert_eq!(system_cron_schedule(" 30 4 * * MON-FRI ").as_deref(), Some("30 4 * * MON-FRI"));
    assert_eq!(system_cron_schedule("@daily").as_deref(), Some("@daily"));
    assert_eq!(system_cron_schedule("*/10 * * * * *"), None);
    assert_eq!(system_cron_schedule("0 0 12 ? * *"), None);
    assert_eq!(system_cron_schedule("0 0 0 1 1 * 2027"), None);
    assert_eq!(system_cron_schedule("@every"), None);
    assert_eq!(system_cron_schedule("* * * * *;rm"), None);
}

#[test]
fn crontab_calls_back_enabled_tasks_only() {
    let mut enabled = StoredCronTask::from_proto(sample_task());
    enabled.id = "task-1".to_owned();
    enabled.cron_expression = "0 0 3 * * *".to_owned();
    let mut paused = enabled.clone();
    paused.id = "task-2".to_owned();
    paused.state = CRON_TASK_STATE_PAUSED;
    let mut invalid = enabled.clone();
    invalid.id = "task-3".to_owned();
    invalid.cron_expression = "*/5 * * * * *".to_owned();

    let rendered = render_crontab(
        &[enabled, paused, invalid],
        "/opt/rp/bin/rustpanel-backend",
        "/data/cron",
        Some("/opt/rp/.env"),
    );

    assert!(rendered.contains(
        "0 3 * * * root set -a; . '/opt/rp/.env'; set +a; RUSTPANEL_CRON_ROOT='/data/cron' \
         '/opt/rp/bin/rustpanel-backend' --run-cron-task 'task-1' >/dev/null 2>&1"
    ));
    assert!(!rendered.contains("task-2"));
    assert!(!rendered.contains("task-3"));
}

#[test]
fn crontab_escapes_percent_and_quotes() {
    let mut task = StoredCronTask::from_proto(sample_task());
    task.id = "id".to_owned();
    let rendered = render_crontab(&[task], "/it's/100%/bin", "/c", None);
    assert!(rendered.contains("'/it'\\''s/100\\%/bin'"));
}

#[test]
fn task_names_cannot_break_the_comment_line() {
    let mut task = StoredCronTask::from_proto(sample_task());
    task.id = "x".to_owned();
    task.name = "evil\n* * * * * root rm -rf /".to_owned();
    let rendered = render_crontab(&[task], "/bin/rp", "/c", None);
    assert!(rendered.contains("# evil * * * * * root rm -rf /\n"));
}

#[test]
fn service_keeps_tasks_under_its_root() {
    assert_eq!(CronServiceImpl::new().task_path(), "/tmp/rustpanel/cron/tasks.json");
    assert_eq!(CronServiceImpl::with_root("/data/cron").task_path(), "/data/cron/tasks.json");
}

#[test]
fn cron_root_follows_the_setting() {
    let configured = rustpanel_core::cron::CronServiceImpl::with_root_setting(Some("/srv/cron"));
    assert_eq!(configured.root, "/srv/cron");
    assert_eq!(configured.task_path(), "/srv/cron/tasks.json");
    let default = rustpanel_core::cron::CronServiceImpl::with_root_setting(None);
    assert_eq!(default.root, "/tmp/rustpanel/cron");
}
