//! Scheduled tasks: validation, translation of panel expressions to system
//! cron, and rendering of the cron.d file that calls the panel back.

use vstd::prelude::*;

use crate::status::{Code, Status};
use crate::text::{
    all_ws, is_ws, chars_of, eq_str, is_alnum, is_ascii_alnum, is_blank, join, join_strings,
    replace_char, replace_char_str, split_words, string_of, trim, trim_seq, views, words, dec,
    push_u64, signed_dec, i64_text,
};

verus! {

/// The stored state of an enabled task (`CronTaskState::Enabled`).
pub const CRON_TASK_STATE_ENABLED: i32 = 1;

/// The stored state of a paused task (`CronTaskState::Paused`).
pub const CRON_TASK_STATE_PAUSED: i32 = 2;

/// Where tasks and their logs are kept unless configured otherwise.
pub const DEFAULT_CRON_ROOT: &'static str = "/tmp/rustpanel/cron";

/// How long a task may run unless it says otherwise.
pub const DEFAULT_TIMEOUT_SECONDS: u64 = 300;

/// The scheduled-task service: the directory its tasks are kept in.
#[derive(Clone, Debug)]
pub struct CronServiceImpl {
    pub root: String,
}

impl CronServiceImpl {
    /// The service over the default task directory.
    pub fn new() -> (r: Self)
        ensures
            r.root@ == DEFAULT_CRON_ROOT@,
    {
        CronServiceImpl { root: DEFAULT_CRON_ROOT.to_string() }
    }

    /// The service over another task directory.
    pub fn with_root(root: &str) -> (r: Self)
        ensures
            r.root@ == root@,
    {
        CronServiceImpl { root: root.to_string() }
    }

    /// The service over the configured task directory (`RUSTPANEL_CRON_ROOT`,
    /// taken as it is when set), else over the default one.
    pub fn with_root_setting(root: Option<&str>) -> (r: Self)
        ensures
            match root {
                Some(v) => r.root@ == v@,
                None => r.root@ == DEFAULT_CRON_ROOT@,
            },
    {
        match root {
            Some(v) => CronServiceImpl::with_root(v),
            None => CronServiceImpl::new(),
        }
    }

    /// The file the tasks are stored in.
    pub fn task_path(&self) -> (r: String)
        ensures
            r@ == self.root@ + "/tasks.json"@,
    {
        let mut p = self.root.clone();
        p.append("/tasks.json");
        p
    }
}

/// A task as clients send and receive it.
#[derive(Clone, Debug)]
pub struct CronTask {
    pub id: String,
    pub name: String,
    pub cron_expression: String,
    pub command: String,
    pub state: i32,
    pub timeout_seconds: u64,
    pub next_run_at: String,
}

/// A task as the store keeps it.
#[derive(Clone, Debug)]
pub struct StoredCronTask {
    pub id: String,
    pub name: String,
    pub cron_expression: String,
    pub command: String,
    pub state: i32,
    pub timeout_seconds: u64,
}

impl StoredCronTask {
    pub fn from_proto(task: CronTask) -> (r: Self)
        ensures
            r.id == task.id,
            r.name == task.name,
            r.cron_expression == task.cron_expression,
            r.command == task.command,
            r.state == task.state,
            r.timeout_seconds == task.timeout_seconds,
    {
        StoredCronTask {
            id: task.id,
            name: task.name,
            cron_expression: task.cron_expression,
            command: task.command,
            state: task.state,
            timeout_seconds: task.timeout_seconds,
        }
    }

    pub fn into_proto(self) -> (r: CronTask)
        ensures
            r.id == self.id,
            r.name == self.name,
            r.cron_expression == self.cron_expression,
            r.command == self.command,
            r.state == self.state,
            r.timeout_seconds == self.timeout_seconds,
            r.next_run_at@ == Seq::<char>::empty(),
    {
        CronTask {
            id: self.id,
            name: self.name,
            cron_expression: self.cron_expression,
            command: self.command,
            state: self.state,
            timeout_seconds: self.timeout_seconds,
            next_run_at: String::new(),
        }
    }
}

pub open spec fn cron_macro_names() -> Seq<Seq<char>> {
    seq!["reboot"@, "yearly"@, "annually"@, "monthly"@, "weekly"@, "daily"@, "hourly"@]
}

/// A character that may appear in a cron field.
pub open spec fn cron_field_char(c: char) -> bool {
    is_ascii_alnum(c) || c == '*' || c == '/' || c == ',' || c == '-'
}

pub open spec fn cron_field_ok(f: Seq<char>) -> bool {
    forall|i: int| 0 <= i < f.len() ==> cron_field_char(#[trigger] f[i])
}

/// The five fields system cron takes from a panel expression: five fields
/// as they are, or six whose seconds field is `0`.
pub open spec fn cron_fields(e: Seq<char>) -> Option<Seq<Seq<char>>> {
    let f = words(e);
    if f.len() == 5 {
        Some(f)
    } else if f.len() == 6 && f[0] == "0"@ {
        Some(f.drop_first())
    } else {
        None
    }
}

/// The system cron schedule of a panel expression, if it has one.
pub open spec fn system_cron_schedule_spec(expression: Seq<char>) -> Option<Seq<char>> {
    let e = trim_seq(expression);
    if e.len() > 0 && e[0] == '@' {
        if cron_macro_names().contains(e.drop_first()) {
            Some(e)
        } else {
            None
        }
    } else {
        match cron_fields(e) {
            None => None,
            Some(fs) => if forall|i: int| 0 <= i < fs.len() ==> cron_field_ok(#[trigger] fs[i]) {
                Some(join(fs, " "@))
            } else {
                None
            },
        }
    }
}

fn field_ok(field: &str) -> (r: bool)
    ensures
        r == cron_field_ok(field@),
{
    let v = chars_of(field);
    let mut i: usize = 0;
    while i < v.len()
        invariant
            i <= v.len(),
            v@ == field@,
            forall|j: int| 0 <= j < i ==> cron_field_char(#[trigger] v@[j]),
        decreases v.len() - i,
    {
        let c = v[i];
        if !(is_alnum(c) || c == '*' || c == '/' || c == ',' || c == '-') {
            return false;
        }
        i += 1;
    }
    true
}

/// Translates a panel expression (six fields, seconds first) to system cron
/// (five fields). Only a zero seconds field can be expressed; five-field
/// expressions and the `@daily` style macros pass unchanged.
pub fn system_cron_schedule(expression: &str) -> (r: Option<String>)
    ensures
        match system_cron_schedule_spec(expression@) {
            Some(s) => r matches Some(x) && x@ == s,
            None => r is None,
        },
{
    let e = trim(expression);
    let v = chars_of(e.as_str());
    if v.len() > 0 && v[0] == '@' {
        let name = string_of(&v, 1, v.len());
        assert(name@ == e@.drop_first());
        let n = name.as_str();
        let known = eq_str(n, "reboot") || eq_str(n, "yearly") || eq_str(n, "annually") || eq_str(
            n,
            "monthly",
        ) || eq_str(n, "weekly") || eq_str(n, "daily") || eq_str(n, "hourly");
        proof {
            let names = cron_macro_names();
            assert(names[0] == "reboot"@ && names[1] == "yearly"@ && names[2] == "annually"@
                && names[3] == "monthly"@ && names[4] == "weekly"@ && names[5] == "daily"@
                && names[6] == "hourly"@);
            if names.contains(name@) {
                let k = choose|k: int| 0 <= k < names.len() && names[k] == name@;
            }
        }
        if known {
            return Some(e);
        }
        return None;
    }
    let all = split_words(e.as_str());
    let fields: Vec<String> = if all.len() == 5 {
        all
    } else if all.len() == 6 && eq_str(all[0].as_str(), "0") {
        let mut rest: Vec<String> = Vec::new();
        let mut k: usize = 1;
        while k < all.len()
            invariant
                1 <= k <= all@.len(),
                views(rest@) == views(all@).subrange(1, k as int),
            decreases all@.len() - k,
        {
            let ghost r0 = views(rest@);
            assert(views(all@)[k as int] == all@[k as int]@);
            rest.push(all[k].clone());
            assert(views(rest@) == r0.push(all@[k as int]@));
            k += 1;
            assert(views(rest@) =~= views(all@).subrange(1, k as int));
        }
        assert(views(all@).subrange(1, 6) == views(all@).drop_first());
        rest
    } else {
        proof {
            if all@.len() == 6 {
                assert(views(all@)[0] == all@[0]@);
            }
        }
        return None;
    };
    proof {
        if all@.len() == 6 {
            assert(views(all@)[0] == all@[0]@);
        }
    }
    let ghost fs = views(fields@);
    assert(v@ == e@);
    assert(cron_fields(e@) == Some(fs));
    let mut i: usize = 0;
    while i < fields.len()
        invariant
            i <= fields@.len(),
            fs == views(fields@),
            cron_fields(e@) == Some(fs),
            e@ == trim_seq(expression@),
            !(e@.len() > 0 && e@[0] == '@'),
            forall|j: int| 0 <= j < i ==> cron_field_ok(#[trigger] fs[j]),
        decreases fields@.len() - i,
    {
        assert(fs[i as int] == fields@[i as int]@);
        if !field_ok(fields[i].as_str()) {
            assert(!cron_field_ok(fs[i as int]));
            return None;
        }
        i += 1;
    }
    Some(join_strings(&fields, " "))
}

/// Fields of cron characters joined by single spaces: their text is its own
/// trim, starts with the first field's first character, and splits back
/// into the fields.
proof fn lemma_spaced_fields(gs: Seq<Seq<char>>)
    requires
        gs.len() >= 2,
        forall|i: int| 0 <= i < gs.len() ==> (#[trigger] gs[i]).len() > 0,
        forall|i: int, j: int| 0 <= i < gs.len() && 0 <= j < gs[i].len() ==> cron_field_char(#[trigger] gs[i][j]),
    ensures
        trim_seq(join(gs, " "@)) == join(gs, " "@),
        join(gs, " "@)[0] == gs[0][0],
        words(join(gs, " "@)) == gs,
{
    reveal_strlit(" ");
    let t = join(gs, " "@);
    assert forall|i: int, j: int| 0 <= i < gs.len() && 0 <= j < gs[i].len() implies !is_ws(#[trigger] gs[i][j]) by {
        assert(cron_field_char(gs[i][j]));
    }
    crate::text::lemma_words_join(gs);
    crate::text::lemma_join_front(gs, " "@);
    assert(gs[0].len() > 0);
    assert(t[0] == gs[0][0]);
    assert(t == join(gs.drop_last(), " "@) + " "@ + gs.last());
    assert(gs.last() == gs[gs.len() - 1]);
    assert(gs.last().len() > 0);
    assert(t.last() == gs.last().last());
    assert(cron_field_char(gs[gs.len() - 1][gs.last().len() - 1]));
    assert(cron_field_char(gs[0][0]));
    crate::text::lemma_trim_plain(t);
}

/// Five fields made of ASCII letters and digits and the characters `*`,
/// `/`, `,` and `-`, separated by single spaces, are a system cron schedule
/// as they stand; after a `0` seconds field they give the same schedule.
pub proof fn law_plain_fields_pass_through(fs: Seq<Seq<char>>)
    requires
        fs.len() == 5,
        forall|i: int| 0 <= i < 5 ==> (#[trigger] fs[i]).len() > 0,
        forall|i: int, j: int| 0 <= i < 5 && 0 <= j < fs[i].len() ==> ({
            let c = #[trigger] fs[i][j];
            ('0' <= c <= '9') || ('a' <= c <= 'z') || ('A' <= c <= 'Z') || c == '*' || c == '/' || c == ','
                || c == '-'
        }),
    ensures
        system_cron_schedule_spec(join(fs, " "@)) == Some(join(fs, " "@)),
        system_cron_schedule_spec(join(seq!["0"@] + fs, " "@)) == Some(join(fs, " "@)),
{
    reveal_strlit("0");
    assert forall|i: int, j: int| 0 <= i < fs.len() && 0 <= j < fs[i].len() implies cron_field_char(#[trigger] fs[i][j]) by {}
    assert forall|i: int| 0 <= i < fs.len() implies cron_field_ok(#[trigger] fs[i]) by {
        assert forall|j: int| 0 <= j < fs[i].len() implies cron_field_char(#[trigger] fs[i][j]) by {}
    }
    lemma_spaced_fields(fs);
    assert(cron_field_char(fs[0][0]));
    let t = join(fs, " "@);
    assert(cron_fields(t) == Some(fs));
    let gs = seq!["0"@] + fs;
    assert forall|i: int| 0 <= i < gs.len() implies (#[trigger] gs[i]).len() > 0 by {
        if i > 0 {
            assert(gs[i] == fs[i - 1]);
        }
    }
    assert forall|i: int, j: int| 0 <= i < gs.len() && 0 <= j < gs[i].len() implies cron_field_char(#[trigger] gs[i][j]) by {
        if i > 0 {
            assert(gs[i] == fs[i - 1]);
            assert(cron_field_char(fs[i - 1][j]));
        }
    }
    lemma_spaced_fields(gs);
    assert(gs.drop_first() =~= fs);
    assert(gs[0] == "0"@);
    assert(cron_fields(join(gs, " "@)) == Some(fs));
}

/// The macros `@reboot`, `@yearly`, `@annually`, `@monthly`, `@weekly`,
/// `@daily` and `@hourly` are system cron schedules as they stand.
pub proof fn law_macros_pass_through(name: Seq<char>)
    requires
        name == "reboot"@ || name == "yearly"@ || name == "annually"@ || name == "monthly"@
            || name == "weekly"@ || name == "daily"@ || name == "hourly"@,
    ensures
        system_cron_schedule_spec("@"@ + name) == Some("@"@ + name),
{
    reveal_strlit("@");
    reveal_strlit("reboot");
    reveal_strlit("yearly");
    reveal_strlit("annually");
    reveal_strlit("monthly");
    reveal_strlit("weekly");
    reveal_strlit("daily");
    reveal_strlit("hourly");
    let e = "@"@ + name;
    assert(e[0] == '@');
    assert(e.last() == name.last());
    crate::text::lemma_trim_plain(e);
    assert(e.drop_first() =~= name);
    let names = cron_macro_names();
    if name == "reboot"@ {
        assert(names[0] == name);
    } else if name == "yearly"@ {
        assert(names[1] == name);
    } else if name == "annually"@ {
        assert(names[2] == name);
    } else if name == "monthly"@ {
        assert(names[3] == name);
    } else if name == "weekly"@ {
        assert(names[4] == name);
    } else if name == "daily"@ {
        assert(names[5] == name);
    } else {
        assert(names[6] == name);
    }
}

/// `value` wrapped in single quotes for `/bin/sh`.
pub open spec fn shell_quote_spec(value: Seq<char>) -> Seq<char> {
    "'"@ + replace_char(value, '\'', "'\\''"@) + "'"@
}

/// Quotes `value` for `/bin/sh`: single quotes, an embedded `'` written as `'\''`.
pub fn shell_quote(value: &str) -> (r: String)
    ensures
        r@ == shell_quote_spec(value@),
{
    let mut out = "'".to_string();
    let body = replace_char_str(value, '\'', "'\\''");
    out.append(body.as_str());
    out.append("'");
    out
}

pub open spec fn crontab_header() -> Seq<char> {
    "# 由 RustPanel 生成,面板里改计划任务会覆盖本文件,请勿手改。\nSHELL=/bin/sh\nPATH=/usr/local/sbin:/usr/local/bin:/usr/sbin:/usr/bin:/sbin:/bin\n"@
}

/// The command a task's line runs: optionally load the env file, then call
/// the panel back with the task id.
pub open spec fn crontab_command(id: Seq<char>, exe: Seq<char>, cron_root: Seq<char>, env_file: Option<Seq<char>>) -> Seq<char> {
    (match env_file {
        Some(f) => "set -a; . "@ + shell_quote_spec(f) + "; set +a; "@,
        None => Seq::empty(),
    }) + "RUSTPANEL_CRON_ROOT="@ + shell_quote_spec(cron_root) + " "@ + shell_quote_spec(exe)
        + " --run-cron-task "@ + shell_quote_spec(id) + " >/dev/null 2>&1"@
}

/// The two lines of one scheduled task.
pub open spec fn crontab_entry(t: StoredCronTask, schedule: Seq<char>, exe: Seq<char>, cron_root: Seq<char>, env_file: Option<Seq<char>>) -> Seq<char> {
    "# "@ + replace_char(replace_char(t.name@, '\n', " "@), '\r', " "@) + "\n"@ + schedule
        + " root "@ + replace_char(crontab_command(t.id@, exe, cron_root, env_file), '%', "\\%"@)
        + "\n"@
}

/// The lines of the enabled tasks whose expression system cron can express.
pub open spec fn crontab_body(tasks: Seq<StoredCronTask>, exe: Seq<char>, cron_root: Seq<char>, env_file: Option<Seq<char>>) -> Seq<char>
    decreases tasks.len(),
{
    if tasks.len() == 0 {
        Seq::empty()
    } else {
        let t = tasks.last();
        crontab_body(tasks.drop_last(), exe, cron_root, env_file) + if t.state == CRON_TASK_STATE_ENABLED {
            match system_cron_schedule_spec(t.cron_expression@) {
                Some(s) => crontab_entry(t, s, exe, cron_root, env_file),
                None => Seq::empty(),
            }
        } else {
            Seq::empty()
        }
    }
}

/// The cron.d file for the tasks: each enabled task with an expressible
/// schedule runs the panel's one-shot task entry point as root.
pub fn render_crontab(tasks: &[StoredCronTask], exe: &str, cron_root: &str, env_file: Option<&str>) -> (r: String)
    ensures
        r@ == crontab_header() + crontab_body(
            tasks@,
            exe@,
            cron_root@,
            match env_file {
                Some(f) => Some(f@),
                None => None,
            },
        ),
{
    let ghost env = match env_file {
        Some(f) => Some(f@),
        None => None::<Seq<char>>,
    };
    let mut out = "# 由 RustPanel 生成,面板里改计划任务会覆盖本文件,请勿手改。\nSHELL=/bin/sh\nPATH=/usr/local/sbin:/usr/local/bin:/usr/sbin:/usr/bin:/sbin:/bin\n".to_string();
    let mut i: usize = 0;
    while i < tasks.len()
        invariant
            i <= tasks@.len(),
            env == match env_file {
                Some(f) => Some(f@),
                None => None::<Seq<char>>,
            },
            out@ == crontab_header() + crontab_body(tasks@.take(i as int), exe@, cron_root@, env),
        decreases tasks@.len() - i,
    {
        let ghost before = out@;
        assert(tasks@.take(i + 1).drop_last() == tasks@.take(i as int));
        assert(tasks@.take(i + 1).last() == tasks@[i as int]);
        let task = &tasks[i];
        if task.state == CRON_TASK_STATE_ENABLED {
            match system_cron_schedule(task.cron_expression.as_str()) {
                Some(schedule) => {
                    let mut command = String::new();
                    match env_file {
                        Some(f) => {
                            command.append("set -a; . ");
                            let q = shell_quote(f);
                            command.append(q.as_str());
                            command.append("; set +a; ");
                        },
                        None => {},
                    }
                    command.append("RUSTPANEL_CRON_ROOT=");
                    let q1 = shell_quote(cron_root);
                    command.append(q1.as_str());
                    command.append(" ");
                    let q2 = shell_quote(exe);
                    command.append(q2.as_str());
                    command.append(" --run-cron-task ");
                    let q3 = shell_quote(task.id.as_str());
                    command.append(q3.as_str());
                    command.append(" >/dev/null 2>&1");
                    assert(command@ =~= crontab_command(task.id@, exe@, cron_root@, env));
                    let name1 = replace_char_str(task.name.as_str(), '\n', " ");
                    let name2 = replace_char_str(name1.as_str(), '\r', " ");
                    let escaped = replace_char_str(command.as_str(), '%', "\\%");
                    out.append("# ");
                    out.append(name2.as_str());
                    out.append("\n");
                    out.append(schedule.as_str());
                    out.append(" root ");
                    out.append(escaped.as_str());
                    out.append("\n");
                    assert(out@ =~= before + crontab_entry(*task, schedule@, exe@, cron_root@, env));
                },
                None => {
                    assert(out@ =~= before + Seq::<char>::empty());
                },
            }
        } else {
            assert(out@ =~= before + Seq::<char>::empty());
        }
        i += 1;
    }
    assert(tasks@.take(i as int) == tasks@);
    out
}

/// Why a task cannot be stored, if it cannot.
pub open spec fn validate_task_spec(task: CronTask) -> Option<Seq<char>> {
    if all_ws(task.name@) {
        Some("task name is required"@)
    } else if all_ws(task.cron_expression@) {
        Some("cron expression is required"@)
    } else if system_cron_schedule_spec(task.cron_expression@) is None {
        Some("cron 表达式需为 5 段、秒位为 0 的 6 段(秒 分 时 日 月 周)或 @daily 等宏"@)
    } else if all_ws(task.command@) {
        Some("command is required"@)
    } else {
        None
    }
}

/// A task needs a name, an expressible schedule and a command.
pub fn validate_task(task: &CronTask) -> (r: Result<(), Status>)
    ensures
        match validate_task_spec(*task) {
            None => r is Ok,
            Some(m) => r matches Err(e) && e.code == Code::InvalidArgument && e.message@ == m,
        },
{
    if is_blank(task.name.as_str()) {
        return Err(Status::invalid_argument("task name is required"));
    }
    if is_blank(task.cron_expression.as_str()) {
        return Err(Status::invalid_argument("cron expression is required"));
    }
    if system_cron_schedule(task.cron_expression.as_str()).is_none() {
        return Err(
            Status::invalid_argument(
                "cron 表达式需为 5 段、秒位为 0 的 6 段(秒 分 时 日 月 周)或 @daily 等宏",
            ),
        );
    }
    if is_blank(task.command.as_str()) {
        return Err(Status::invalid_argument("command is required"));
    }
    Ok(())
}

/// The executable's path as it is on disk: Linux appends ` (deleted)` once
/// the running binary has been replaced.
pub fn strip_deleted_suffix(path: &str) -> (r: String)
    ensures
        crate::text::ends_with_seq(path@, " (deleted)"@) ==> r@ == path@.take(path@.len() - " (deleted)"@.len()),
        !crate::text::ends_with_seq(path@, " (deleted)"@) ==> r@ == path@,
{
    if crate::text::ends_with(path, " (deleted)") {
        let v = chars_of(path);
        let s = chars_of(" (deleted)");
        string_of(&v, 0, v.len() - s.len())
    } else {
        path.to_string()
    }
}


/// A task with its defaults filled in: a fresh identifier when it has none,
/// the default timeout for 0, enabled when its state is unspecified. A task
/// that [`validate_task`] refuses is refused.
pub fn prepare_task(task: CronTask) -> (r: Result<CronTask, Status>)
    ensures
        validate_task_spec(task) matches Some(m) ==> (r matches Err(e) && e.code == Code::InvalidArgument && e.message@ == m),
        validate_task_spec(task) is None ==> (r matches Ok(t) && {
            &&& (all_ws(task.id@) ==> t.id@.len() == 36)
            &&& (!all_ws(task.id@) ==> t.id@ == task.id@)
            &&& t.name@ == task.name@
            &&& t.cron_expression@ == task.cron_expression@
            &&& t.command@ == task.command@
            &&& t.state == (if task.state == 0 { CRON_TASK_STATE_ENABLED } else { task.state })
            &&& t.timeout_seconds == (if task.timeout_seconds == 0 { DEFAULT_TIMEOUT_SECONDS } else { task.timeout_seconds })
            &&& t.next_run_at@ == task.next_run_at@
        }),
{
    match validate_task(&task) {
        Ok(()) => {},
        Err(e) => {
            return Err(e);
        },
    }
    let mut task = task;
    if is_blank(task.id.as_str()) {
        task.id = crate::crypto::new_uuid();
    }
    if task.timeout_seconds == 0 {
        task.timeout_seconds = DEFAULT_TIMEOUT_SECONDS;
    }
    if task.state == 0 {
        task.state = CRON_TASK_STATE_ENABLED;
    }
    Ok(task)
}

pub open spec fn other_task(id: Seq<char>) -> spec_fn(StoredCronTask) -> bool {
    |t: StoredCronTask| t.id@ != id
}

/// Stores a task in place of those with its id, at the end.
pub fn upsert_task(tasks: &mut Vec<StoredCronTask>, stored: StoredCronTask)
    ensures
        final(tasks)@ == old(tasks)@.filter(other_task(stored.id@)).push(stored),
{
    let ghost orig = tasks@;
    let mut rest: Vec<StoredCronTask> = Vec::new();
    std::mem::swap(&mut rest, tasks);
    let mut kept: Vec<StoredCronTask> = Vec::new();
    let ghost mut i: int = 0;
    assert(orig.skip(0) == orig);
    assert(orig.take(0) == Seq::<StoredCronTask>::empty());
    while rest.len() > 0
        invariant
            0 <= i <= orig.len(),
            rest@ == orig.skip(i),
            kept@ == orig.take(i).filter(other_task(stored.id@)),
        decreases rest.len(),
    {
        let t = rest.remove(0);
        proof {
            assert(t == orig[i]);
            assert(orig.take(i + 1) == orig.take(i).push(t));
            orig.take(i).lemma_filter_push(t, other_task(stored.id@));
            assert(orig.skip(i + 1) == orig.skip(i).remove(0));
        }
        if !eq_str(t.id.as_str(), stored.id.as_str()) {
            kept.push(t);
        }
        proof {
            i = i + 1;
        }
    }
    assert(orig.take(i) == orig);
    kept.push(stored);
    *tasks = kept;
}

pub open spec fn has_task(tasks: Seq<StoredCronTask>, id: Seq<char>) -> bool {
    exists|i: int| 0 <= i < tasks.len() && (#[trigger] tasks[i]).id@ == id
}

/// `t` is `old` with its state set when its id is `id`.
pub open spec fn state_set(old: StoredCronTask, t: StoredCronTask, id: Seq<char>, state: i32) -> bool {
    &&& t.id == old.id
    &&& t.name == old.name
    &&& t.cron_expression == old.cron_expression
    &&& t.command == old.command
    &&& t.timeout_seconds == old.timeout_seconds
    &&& t.state == (if old.id@ == id { state } else { old.state })
}

/// Sets the state of every task with the id; none is not found.
pub fn set_task_state(tasks: &mut Vec<StoredCronTask>, id: &str, state: i32) -> (r: Result<(), Status>)
    ensures
        final(tasks)@.len() == old(tasks)@.len(),
        forall|i: int| 0 <= i < old(tasks)@.len() ==> state_set(#[trigger] old(tasks)@[i], final(tasks)@[i], id@, state),
        has_task(old(tasks)@, id@) ==> r is Ok,
        !has_task(old(tasks)@, id@) ==> (r matches Err(e) && e.code == Code::NotFound && e.message@ == "cron task not found"@),
{
    let ghost orig = tasks@;
    let mut rest: Vec<StoredCronTask> = Vec::new();
    std::mem::swap(&mut rest, tasks);
    let mut out: Vec<StoredCronTask> = Vec::new();
    let mut found = false;
    let ghost mut i: int = 0;
    assert(orig.skip(0) == orig);
    while rest.len() > 0
        invariant
            0 <= i <= orig.len(),
            rest@ == orig.skip(i),
            out@.len() == i,
            forall|j: int| 0 <= j < i ==> state_set(#[trigger] orig[j], out@[j], id@, state),
            found == has_task(orig.take(i), id@),
        decreases rest.len(),
    {
        let mut t = rest.remove(0);
        proof {
            assert(t == orig[i]);
            assert(orig.skip(i + 1) == orig.skip(i).remove(0));
            if has_task(orig.take(i), id@) {
                let j = choose|j: int| 0 <= j < orig.take(i).len() && (#[trigger] orig.take(i)[j]).id@ == id@;
                assert(orig.take(i + 1)[j] == orig.take(i)[j]);
            }
            if t.id@ == id@ {
                assert(orig.take(i + 1)[i] == t);
            }
            if has_task(orig.take(i + 1), id@) && t.id@ != id@ {
                let j = choose|j: int| 0 <= j < orig.take(i + 1).len() && (#[trigger] orig.take(i + 1)[j]).id@ == id@;
                assert(orig.take(i)[j] == orig.take(i + 1)[j]);
            }
        }
        if eq_str(t.id.as_str(), id) {
            t.state = state;
            found = true;
        }
        out.push(t);
        proof {
            i = i + 1;
        }
    }
    assert(orig.take(i) == orig);
    *tasks = out;
    if !found {
        return Err(Status::new(Code::NotFound, "cron task not found"));
    }
    Ok(())
}

/// The first task with the id, if any.
pub fn find_task<'a>(tasks: &'a Vec<StoredCronTask>, id: &str) -> (r: Option<&'a StoredCronTask>)
    ensures
        match r {
            Some(t) => exists|i: int| 0 <= i < tasks@.len() && tasks@[i] == *t && t.id@ == id@
                && forall|j: int| 0 <= j < i ==> (#[trigger] tasks@[j]).id@ != id@,
            None => !has_task(tasks@, id@),
        },
{
    let mut i: usize = 0;
    while i < tasks.len()
        invariant
            i <= tasks@.len(),
            forall|j: int| 0 <= j < i ==> (#[trigger] tasks@[j]).id@ != id@,
        decreases tasks@.len() - i,
    {
        if eq_str(tasks[i].id.as_str(), id) {
            return Some(&tasks[i]);
        }
        i += 1;
    }
    None
}

/// How a run of a task's command ended.
#[derive(Clone, Debug)]
pub enum CommandOutcome {
    /// The command exited, with its code if it has one, and its output.
    Exited { code: Option<i32>, success: bool, stdout: String, stderr: String },
    /// The command could not be started.
    SpawnFailed(String),
    /// The command was stopped at the task's timeout.
    TimedOut,
}

/// The state of a finished run.
#[derive(Clone, Copy, Debug, PartialEq, Eq, Structural)]
pub enum CronRunState {
    Succeeded,
    Failed,
    TimedOut,
}

/// A run is allowed at least one second.
pub fn run_timeout_seconds(timeout_seconds: u64) -> (r: u64)
    ensures
        r == if timeout_seconds > 1 { timeout_seconds } else { 1 },
{
    if timeout_seconds > 1 { timeout_seconds } else { 1 }
}

/// The state, exit code and log of a run: an exit succeeds or fails as the
/// command did (code 0 when it has none) and logs standard output then
/// standard error; a command that cannot start fails with -1 and logs the
/// error; a timed-out run logs the timeout.
pub fn run_result(outcome: CommandOutcome, timeout_seconds: u64) -> (r: (CronRunState, i32, String))
    ensures
        match outcome {
            CommandOutcome::Exited { code, success, stdout, stderr } => r.0 == (if success {
                CronRunState::Succeeded
            } else {
                CronRunState::Failed
            }) && r.1 == (match code { Some(c) => c, None => 0i32 }) && r.2@ == stdout@ + stderr@,
            CommandOutcome::SpawnFailed(error) => r.0 == CronRunState::Failed && r.1 == -1 && r.2@ == error@,
            CommandOutcome::TimedOut => r.0 == CronRunState::TimedOut && r.1 == -1 && r.2@
                == "task timed out after "@ + dec(timeout_seconds as nat) + " seconds"@,
        },
{
    match outcome {
        CommandOutcome::Exited { code, success, stdout, stderr } => {
            let mut log = stdout;
            log.append(stderr.as_str());
            let state = if success { CronRunState::Succeeded } else { CronRunState::Failed };
            let exit = match code { Some(c) => c, None => 0 };
            (state, exit, log)
        },
        CommandOutcome::SpawnFailed(error) => (CronRunState::Failed, -1, error),
        CommandOutcome::TimedOut => {
            let mut log = "task timed out after ".to_string();
            push_u64(&mut log, timeout_seconds);
            log.append(" seconds");
            (CronRunState::TimedOut, -1, log)
        },
    }
}

/// The log file of a task.
pub fn log_file_name(task_id: &str) -> (r: String)
    ensures
        r@ == task_id@ + ".log"@,
{
    let mut s = task_id.to_string();
    s.append(".log");
    s
}

/// The system cron runs a task only if it still exists and is enabled.
pub fn oneshot_should_run(task: Option<&StoredCronTask>) -> (r: bool)
    ensures
        r == match task {
            Some(t) => t.state == CRON_TASK_STATE_ENABLED,
            None => false,
        },
{
    match task {
        Some(t) => t.state == CRON_TASK_STATE_ENABLED,
        None => false,
    }
}

/// The result of a run started by the system cron: an error unless it
/// succeeded.
pub fn oneshot_result(name: &str, state: CronRunState, exit_code: i32) -> (r: Result<(), Status>)
    ensures
        state == CronRunState::Succeeded ==> r is Ok,
        state != CronRunState::Succeeded ==> (r matches Err(e) && e.code == Code::Internal
            && e.message@ == "cron task "@ + name@ + " finished with exit code "@ + signed_dec(exit_code as int)),
{
    if state == CronRunState::Succeeded {
        return Ok(());
    }
    let mut m = "cron task ".to_string();
    m.append(name);
    m.append(" finished with exit code ");
    let code = i64_text(exit_code as i64);
    m.append(code.as_str());
    Err(Status::new(Code::Internal, m.as_str()))
}

/// The system crontab file, when configured: the trimmed setting unless it
/// is empty.
pub fn crontab_path_setting(value: Option<&str>) -> (r: Option<String>)
    ensures
        match value {
            Some(v) => if trim_seq(v@).len() > 0 { r matches Some(p) && p@ == trim_seq(v@) } else { r is None },
            None => r is None,
        },
{
    match value {
        Some(v) => {
            let t = trim(v);
            if chars_of(t.as_str()).len() > 0 {
                Some(t)
            } else {
                None
            }
        },
        None => None,
    }
}

/// The environment file passed to callbacks, when configured and not blank.
pub fn env_file_setting(value: Option<&str>) -> (r: Option<String>)
    ensures
        match value {
            Some(v) => if all_ws(v@) { r is None } else { r matches Some(p) && p@ == v@ },
            None => r is None,
        },
{
    match value {
        Some(v) => if is_blank(v) { None } else { Some(v.to_string()) },
        None => None,
    }
}

} // verus!
