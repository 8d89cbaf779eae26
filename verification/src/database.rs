//! Database console logic: the engine a DSN names, identifier checks and
//! quoting, SQL string literals, statement splitting, and whether a query
//! returns rows.

use vstd::prelude::*;

use crate::status::{Code, Status};
use crate::text::{
    all_ws, chars_of, is_alnum, is_ascii_alnum, is_blank, join, join_strings, lower_seq, pieces,
    push_char, replace_char, replace_char_str, split_char, starts_with, starts_with_seq, to_lower,
    trim, trim_seq, trim_start_seq, views, dec, push_u64, index_of, lemma_index_of, find_char_from,
    string_of, eq_str, parse_unsigned, parse_unsigned_exec, lemma_pieces_concat, lemma_pieces_single,
    lemma_filter_all,
};

verus! {

/// The database service; it keeps no state of its own.
#[derive(Clone, Copy, Debug, Default)]
pub struct DatabaseServiceImpl;

/// The engines a DSN can name.
#[derive(Clone, Copy, Debug, PartialEq, Eq, Structural)]
pub enum DatabaseEngineKind {
    Mysql,
    Postgres,
    Sqlite,
}

pub open spec fn engine_spec(dsn: Seq<char>) -> Option<DatabaseEngineKind> {
    if starts_with_seq(dsn, "mysql://"@) {
        Some(DatabaseEngineKind::Mysql)
    } else if starts_with_seq(dsn, "postgres://"@) || starts_with_seq(dsn, "postgresql://"@) {
        Some(DatabaseEngineKind::Postgres)
    } else if starts_with_seq(dsn, "sqlite:"@) {
        Some(DatabaseEngineKind::Sqlite)
    } else {
        None
    }
}

/// The engine named by a DSN's scheme.
pub fn engine_from_dsn(dsn: &str) -> (r: Result<DatabaseEngineKind, Status>)
    ensures
        match engine_spec(dsn@) {
            Some(k) => r == Ok::<DatabaseEngineKind, Status>(k),
            None => r matches Err(e) && e.code == Code::InvalidArgument
                && e.message@ == "DSN must start with mysql://, postgres://, postgresql://, or sqlite:"@,
        },
{
    if starts_with(dsn, "mysql://") {
        Ok(DatabaseEngineKind::Mysql)
    } else if starts_with(dsn, "postgres://") || starts_with(dsn, "postgresql://") {
        Ok(DatabaseEngineKind::Postgres)
    } else if starts_with(dsn, "sqlite:") {
        Ok(DatabaseEngineKind::Sqlite)
    } else {
        Err(Status::invalid_argument("DSN must start with mysql://, postgres://, postgresql://, or sqlite:"))
    }
}

/// An identifier is non-empty ASCII letters, digits and underscores.
pub open spec fn valid_identifier(s: Seq<char>) -> bool {
    s.len() > 0 && forall|i: int| 0 <= i < s.len() ==> is_ascii_alnum(#[trigger] s[i]) || s[i] == '_'
}

pub fn validate_identifier(identifier: &str) -> (r: Result<(), Status>)
    ensures
        valid_identifier(identifier@) ==> r is Ok,
        !valid_identifier(identifier@) ==> (r matches Err(e) && e.code == Code::InvalidArgument
            && e.message@ == "invalid SQL identifier"@),
{
    let v = chars_of(identifier);
    let mut ok = v.len() > 0;
    let mut i: usize = 0;
    while i < v.len()
        invariant
            i <= v@.len(),
            v@ == identifier@,
            ok == (v@.len() > 0 && forall|j: int| 0 <= j < i ==> is_ascii_alnum(#[trigger] v@[j]) || v@[j] == '_'),
        decreases v@.len() - i,
    {
        if !(is_alnum(v[i]) || v[i] == '_') {
            ok = false;
        }
        i += 1;
    }
    if ok {
        Ok(())
    } else {
        Err(Status::invalid_argument("invalid SQL identifier"))
    }
}

pub open spec fn quoted_spec(engine: DatabaseEngineKind, ident: Seq<char>) -> Seq<char> {
    match engine {
        DatabaseEngineKind::Mysql => "`"@ + ident + "`"@,
        _ => "\""@ + ident + "\""@,
    }
}

/// An identifier quoted for the engine: backticks for MySQL, double quotes
/// otherwise. The identifier is expected to have passed
/// [`validate_identifier`].
pub fn quote_identifier(engine: DatabaseEngineKind, ident: &str) -> (r: String)
    ensures
        r@ == quoted_spec(engine, ident@),
{
    let q = match engine {
        DatabaseEngineKind::Mysql => "`",
        _ => "\"",
    };
    let mut s = q.to_string();
    s.append(ident);
    s.append(q);
    s
}

/// A SQL string literal: single quotes around the value, inner single
/// quotes doubled.
pub fn sql_string_literal(value: &str) -> (r: String)
    ensures
        r@ == "'"@ + replace_char(value@, '\'', "''"@) + "'"@,
{
    let mut s = "'".to_string();
    let inner = replace_char_str(value, '\'', "''");
    s.append(inner.as_str());
    s.append("'");
    s
}

/// Whether a query returns rows: after leading white space and lower-casing
/// it starts with `select`, `show`, `with` or `pragma`.
pub open spec fn returns_rows_spec(sql: Seq<char>) -> bool {
    let s = lower_seq(trim_start_seq(sql));
    starts_with_seq(s, "select"@) || starts_with_seq(s, "show"@) || starts_with_seq(s, "with"@)
        || starts_with_seq(s, "pragma"@)
}

pub fn returns_rows(sql: &str) -> (r: bool)
    ensures
        r == returns_rows_spec(sql@),
{
    let lowered = to_lower(sql);
    let v = chars_of(lowered.as_str());
    let mut lo: usize = 0;
    while lo < v.len() && crate::text::is_whitespace(v[lo])
        invariant
            lo <= v@.len(),
            v@ == lower_seq(sql@),
            forall|j: int| 0 <= j < lo ==> crate::text::is_ws(#[trigger] v@[j]),
        decreases v@.len() - lo,
    {
        lo += 1;
    }
    proof {
        lemma_lower_trim_start(sql@, lo as int);
    }
    let rest = crate::text::string_of(&v, lo, v.len());
    starts_with(rest.as_str(), "select") || starts_with(rest.as_str(), "show") || starts_with(rest.as_str(), "with")
        || starts_with(rest.as_str(), "pragma")
}

/// Lower-casing keeps white space where it was, so trimming commutes with
/// it.
proof fn lemma_lower_trim_start(s: Seq<char>, lo: int)
    requires
        0 <= lo <= s.len(),
        forall|j: int| 0 <= j < lo ==> crate::text::is_ws(#[trigger] lower_seq(s)[j]),
        lo < s.len() ==> !crate::text::is_ws(lower_seq(s)[lo]),
    ensures
        lower_seq(trim_start_seq(s)) == lower_seq(s).subrange(lo, s.len() as int),
    decreases lo,
{
    if lo > 0 {
        assert(lower_seq(s)[0] == crate::text::lower(s[0]));
        assert(crate::text::is_ws(s[0]));
        assert(lower_seq(s.drop_first()) =~= lower_seq(s).drop_first());
        assert forall|j: int| 0 <= j < lo - 1 implies crate::text::is_ws(#[trigger] lower_seq(s.drop_first())[j]) by {
            assert(lower_seq(s.drop_first())[j] == lower_seq(s)[j + 1]);
        }
        if lo - 1 < s.drop_first().len() {
            assert(lower_seq(s.drop_first())[lo - 1] == lower_seq(s)[lo]);
        }
        lemma_lower_trim_start(s.drop_first(), lo - 1);
        assert(lower_seq(s).subrange(lo, s.len() as int) =~= lower_seq(s.drop_first()).subrange(lo - 1, s.len() - 1));
    } else {
        if s.len() > 0 {
            assert(lower_seq(s)[0] == crate::text::lower(s[0]));
            assert(!crate::text::is_ws(s[0]));
        }
        assert(lower_seq(s).subrange(0, s.len() as int) =~= lower_seq(s));
    }
}

/// A line that is kept: not blank and not a `--` comment.
pub open spec fn kept_line(line: Seq<char>) -> bool {
    trim_seq(line).len() > 0 && !starts_with_seq(trim_seq(line), "--"@)
}

/// The kept lines of a segment, trimmed, joined with single spaces.
pub open spec fn statement_of(segment: Seq<char>) -> Seq<char> {
    join(pieces(segment, '\n').filter(|l: Seq<char>| kept_line(l)).map_values(|l: Seq<char>| trim_seq(l)), " "@)
}

/// The statements of a script: split at every `;`, with blank lines and
/// whole-line `--` comments dropped, lines trimmed and joined with a space;
/// empty statements are skipped. Semicolons inside string literals split
/// too.
pub open spec fn statements_spec(sql: Seq<char>) -> Seq<Seq<char>> {
    pieces(sql, ';').map_values(|seg: Seq<char>| statement_of(seg)).filter(|s: Seq<char>| s.len() > 0)
}

/// The statement of two kept lines without line breaks.
#[verifier::spinoff_prover]
proof fn lemma_two_lines(a: Seq<char>, b: Seq<char>)
    requires
        forall|i: int| 0 <= i < a.len() ==> a[i] != '\n',
        forall|i: int| 0 <= i < b.len() ==> b[i] != '\n',
        kept_line(a),
        kept_line(b),
    ensures
        statement_of(a + "\n"@ + b) == trim_seq(a) + " "@ + trim_seq(b),
{
    reveal_strlit("\n");
    let s = a + "\n"@ + b;
    assert("\n"@ =~= seq!['\n']);
    lemma_pieces_concat(a, b, '\n');
    lemma_pieces_single(a, '\n');
    lemma_pieces_single(b, '\n');
    let ls = pieces(s, '\n');
    assert(ls =~= seq![a, b]);
    lemma_filter_all(ls, |l: Seq<char>| kept_line(l));
    let ts = ls.map_values(|l: Seq<char>| trim_seq(l));
    assert(ts =~= seq![trim_seq(a), trim_seq(b)]);
    assert(ts.drop_last() =~= seq![trim_seq(a)]);
    assert(join(ts, " "@) == join(ts.drop_last(), " "@) + " "@ + ts.last());
    let st = trim_seq(a) + " "@ + trim_seq(b);
    assert(statement_of(s) == st);
}

/// Two kept lines of one statement are trimmed and joined with a single
/// space; a script made of just those two lines is that one statement.
#[verifier::spinoff_prover]
pub proof fn law_lines_join_with_space(a: Seq<char>, b: Seq<char>)
    requires
        forall|i: int| 0 <= i < a.len() ==> a[i] != '\n' && a[i] != ';',
        forall|i: int| 0 <= i < b.len() ==> b[i] != '\n' && b[i] != ';',
        trim_seq(a).len() > 0 && !starts_with_seq(trim_seq(a), "--"@),
        trim_seq(b).len() > 0 && !starts_with_seq(trim_seq(b), "--"@),
    ensures
        statement_of(a + "\n"@ + b) == trim_seq(a) + " "@ + trim_seq(b),
        statements_spec(a + "\n"@ + b) == seq![trim_seq(a) + " "@ + trim_seq(b)],
{
    reveal_strlit("\n");
    let s = a + "\n"@ + b;
    assert("\n"@ =~= seq!['\n']);
    lemma_two_lines(a, b);
    let st = trim_seq(a) + " "@ + trim_seq(b);
    assert forall|i: int| 0 <= i < s.len() implies s[i] != ';' by {
        if i < a.len() {
            assert(s[i] == a[i]);
        } else if i > a.len() {
            assert(s[i] == b[i - a.len() - 1]);
        }
    }
    lemma_pieces_single(s, ';');
    let m = pieces(s, ';').map_values(|seg: Seq<char>| statement_of(seg));
    assert(m =~= seq![st]);
    lemma_filter_all(m, |x: Seq<char>| x.len() > 0);
}

fn statement_text(segment: &str) -> (r: String)
    ensures
        r@ == statement_of(segment@),
{
    let lines = split_char(segment, '\n');
    let ghost ls = views(lines@);
    let mut kept: Vec<String> = Vec::new();
    let mut i: usize = 0;
    while i < lines.len()
        invariant
            i <= lines@.len(),
            ls == views(lines@),
            ls == pieces(segment@, '\n'),
            views(kept@) == ls.take(i as int).filter(|l: Seq<char>| kept_line(l)).map_values(|l: Seq<char>| trim_seq(l)),
        decreases lines@.len() - i,
    {
        let t = trim(lines[i].as_str());
        let keep = !t.as_str().is_empty() && !starts_with(t.as_str(), "--");
        proof {
            assert(ls.take(i + 1) == ls.take(i as int).push(ls[i as int]));
            ls.take(i as int).lemma_filter_push(ls[i as int], |l: Seq<char>| kept_line(l));
        }
        let ghost before = views(kept@);
        if keep {
            kept.push(t);
            assert(views(kept@) =~= before.push(trim_seq(ls[i as int])));
        }
        assert(views(kept@) =~= ls.take(i + 1).filter(|l: Seq<char>| kept_line(l)).map_values(|l: Seq<char>| trim_seq(l)));
        i += 1;
    }
    assert(ls.take(i as int) == ls);
    join_strings(&kept, " ")
}

pub fn split_sql_statements(sql: &str) -> (r: Vec<String>)
    ensures
        views(r@) == statements_spec(sql@),
{
    let segments = split_char(sql, ';');
    let ghost ss = views(segments@);
    let mut out: Vec<String> = Vec::new();
    let mut i: usize = 0;
    while i < segments.len()
        invariant
            i <= segments@.len(),
            ss == views(segments@),
            ss == pieces(sql@, ';'),
            views(out@) == ss.take(i as int).map_values(|seg: Seq<char>| statement_of(seg)).filter(|s: Seq<char>| s.len() > 0),
        decreases segments@.len() - i,
    {
        let stmt = statement_text(segments[i].as_str());
        proof {
            let m = ss.take(i as int).map_values(|seg: Seq<char>| statement_of(seg));
            assert(ss.take(i + 1).map_values(|seg: Seq<char>| statement_of(seg)) =~= m.push(statement_of(ss[i as int])));
            m.lemma_filter_push(statement_of(ss[i as int]), |s: Seq<char>| s.len() > 0);
        }
        let ghost before = views(out@);
        if !stmt.as_str().is_empty() {
            out.push(stmt);
            assert(views(out@) =~= before.push(statement_of(ss[i as int])));
        }
        i += 1;
    }
    assert(ss.take(i as int) == ss);
    out
}

/// The statement that creates a database, per engine; SQLite databases are
/// files named by the DSN.
pub fn create_database_sql(engine: DatabaseEngineKind, name: &str) -> (r: Result<String, Status>)
    ensures
        engine == DatabaseEngineKind::Mysql ==> (r matches Ok(s) && s@ == "CREATE DATABASE IF NOT EXISTS `"@ + name@ + "`"@),
        engine == DatabaseEngineKind::Postgres ==> (r matches Ok(s) && s@ == "CREATE DATABASE \""@ + name@ + "\""@),
        engine == DatabaseEngineKind::Sqlite ==> (r matches Err(e) && e.code == Code::Unimplemented
            && e.message@ == "SQLite creates databases from the DSN file path"@),
{
    match engine {
        DatabaseEngineKind::Mysql => {
            let mut s = "CREATE DATABASE IF NOT EXISTS `".to_string();
            s.append(name);
            s.append("`");
            Ok(s)
        },
        DatabaseEngineKind::Postgres => {
            let mut s = "CREATE DATABASE \"".to_string();
            s.append(name);
            s.append("\"");
            Ok(s)
        },
        DatabaseEngineKind::Sqlite => Err(Status::new(Code::Unimplemented, "SQLite creates databases from the DSN file path")),
    }
}

/// The two statements that create a user and grant it a database, per
/// engine; SQLite has no users.
pub fn create_user_sql(engine: DatabaseEngineKind, username: &str, database: &str, password: &str) -> (r: Result<(String, String), Status>)
    ensures
        engine == DatabaseEngineKind::Mysql ==> (r matches Ok(p)
            && p.0@ == "CREATE USER IF NOT EXISTS '"@ + username@ + "'@'%' IDENTIFIED BY "@ + "'"@ + replace_char(password@, '\'', "''"@) + "'"@
            && p.1@ == "GRANT ALL PRIVILEGES ON `"@ + database@ + "`.* TO '"@ + username@ + "'@'%'"@),
        engine == DatabaseEngineKind::Postgres ==> (r matches Ok(p)
            && p.0@ == "DO $$ BEGIN CREATE USER \""@ + username@ + "\" WITH PASSWORD "@ + "'"@ + replace_char(password@, '\'', "''"@) + "'"@
                + "; EXCEPTION WHEN duplicate_object THEN NULL; END $$;"@
            && p.1@ == "GRANT ALL PRIVILEGES ON DATABASE \""@ + database@ + "\" TO \""@ + username@ + "\""@),
        engine == DatabaseEngineKind::Sqlite ==> (r matches Err(e) && e.code == Code::Unimplemented
            && e.message@ == "SQLite does not support users"@),
{
    let literal = sql_string_literal(password);
    match engine {
        DatabaseEngineKind::Mysql => {
            let mut c = "CREATE USER IF NOT EXISTS '".to_string();
            c.append(username);
            c.append("'@'%' IDENTIFIED BY ");
            c.append(literal.as_str());
            let mut g = "GRANT ALL PRIVILEGES ON `".to_string();
            g.append(database);
            g.append("`.* TO '");
            g.append(username);
            g.append("'@'%'");
            Ok((c, g))
        },
        DatabaseEngineKind::Postgres => {
            let mut c = "DO $$ BEGIN CREATE USER \"".to_string();
            c.append(username);
            c.append("\" WITH PASSWORD ");
            c.append(literal.as_str());
            c.append("; EXCEPTION WHEN duplicate_object THEN NULL; END $$;");
            let mut g = "GRANT ALL PRIVILEGES ON DATABASE \"".to_string();
            g.append(database);
            g.append("\" TO \"");
            g.append(username);
            g.append("\"");
            Ok((c, g))
        },
        DatabaseEngineKind::Sqlite => Err(Status::new(Code::Unimplemented, "SQLite does not support users")),
    }
}


/// The query that lists databases, per engine.
pub fn list_databases_sql(engine: DatabaseEngineKind) -> (r: &'static str)
    ensures
        engine == DatabaseEngineKind::Mysql ==> r@ == "SHOW DATABASES"@,
        engine == DatabaseEngineKind::Postgres ==> r@ == "SELECT datname FROM pg_database WHERE datistemplate = false ORDER BY datname"@,
        engine == DatabaseEngineKind::Sqlite ==> r@ == "SELECT 'main'"@,
{
    match engine {
        DatabaseEngineKind::Mysql => "SHOW DATABASES",
        DatabaseEngineKind::Postgres => "SELECT datname FROM pg_database WHERE datistemplate = false ORDER BY datname",
        DatabaseEngineKind::Sqlite => "SELECT 'main'",
    }
}

/// The query that lists tables, per engine.
pub fn list_tables_sql(engine: DatabaseEngineKind) -> (r: &'static str)
    ensures
        engine == DatabaseEngineKind::Mysql ==> r@ == "SHOW TABLES"@,
        engine == DatabaseEngineKind::Postgres ==> r@ == "SELECT tablename FROM pg_tables WHERE schemaname = 'public' ORDER BY tablename"@,
        engine == DatabaseEngineKind::Sqlite ==> r@ == "SELECT name FROM sqlite_master WHERE type = 'table' AND name NOT LIKE 'sqlite_%' ORDER BY name"@,
{
    match engine {
        DatabaseEngineKind::Mysql => "SHOW TABLES",
        DatabaseEngineKind::Postgres => "SELECT tablename FROM pg_tables WHERE schemaname = 'public' ORDER BY tablename",
        DatabaseEngineKind::Sqlite => "SELECT name FROM sqlite_master WHERE type = 'table' AND name NOT LIKE 'sqlite_%' ORDER BY name",
    }
}

/// The queries of the overview, per engine: version, active connections,
/// uptime.
pub fn overview_sql(engine: DatabaseEngineKind) -> (r: (&'static str, &'static str, &'static str))
    ensures
        engine == DatabaseEngineKind::Mysql ==> r.0@ == "SELECT VERSION()"@
            && r.1@ == "SELECT COUNT(*) FROM information_schema.processlist"@
            && r.2@ == "SELECT VARIABLE_VALUE FROM performance_schema.global_status WHERE VARIABLE_NAME = 'Uptime'"@,
        engine == DatabaseEngineKind::Postgres ==> r.0@ == "SELECT version()"@
            && r.1@ == "SELECT count(*) FROM pg_stat_activity"@
            && r.2@ == "SELECT EXTRACT(EPOCH FROM (now() - pg_postmaster_start_time()))::bigint"@,
        engine == DatabaseEngineKind::Sqlite ==> r.0@ == "SELECT sqlite_version()"@ && r.1@ == "SELECT 1"@
            && r.2@ == "SELECT 0"@,
{
    match engine {
        DatabaseEngineKind::Mysql => (
            "SELECT VERSION()",
            "SELECT COUNT(*) FROM information_schema.processlist",
            "SELECT VARIABLE_VALUE FROM performance_schema.global_status WHERE VARIABLE_NAME = 'Uptime'",
        ),
        DatabaseEngineKind::Postgres => (
            "SELECT version()",
            "SELECT count(*) FROM pg_stat_activity",
            "SELECT EXTRACT(EPOCH FROM (now() - pg_postmaster_start_time()))::bigint",
        ),
        DatabaseEngineKind::Sqlite => ("SELECT sqlite_version()", "SELECT 1", "SELECT 0"),
    }
}

/// The page size of a table browse: between 1 and 500.
pub open spec fn browse_limit(limit: u32) -> u32 {
    if limit < 1 { 1 } else if limit > 500 { 500 } else { limit }
}

/// The count and page queries of a table browse. The table name must be an
/// identifier; it is quoted for the engine.
pub fn browse_queries(engine: DatabaseEngineKind, table: &str, limit: u32, offset: u64) -> (r: Result<(String, String), Status>)
    ensures
        !valid_identifier(table@) ==> (r matches Err(e) && e.code == Code::InvalidArgument
            && e.message@ == "invalid SQL identifier"@),
        valid_identifier(table@) ==> (r matches Ok(q)
            && q.0@ == "SELECT COUNT(*) FROM "@ + quoted_spec(engine, table@)
            && q.1@ == "SELECT * FROM "@ + quoted_spec(engine, table@) + " LIMIT "@ + dec(browse_limit(limit) as nat)
                + " OFFSET "@ + dec(offset as nat)),
{
    match validate_identifier(table) {
        Ok(()) => {},
        Err(e) => {
            return Err(e);
        },
    }
    let quoted = quote_identifier(engine, table);
    let limit: u32 = if limit < 1 { 1 } else if limit > 500 { 500 } else { limit };
    let mut count = "SELECT COUNT(*) FROM ".to_string();
    count.append(quoted.as_str());
    let mut data = "SELECT * FROM ".to_string();
    data.append(quoted.as_str());
    data.append(" LIMIT ");
    push_u64(&mut data, limit as u64);
    data.append(" OFFSET ");
    push_u64(&mut data, offset);
    Ok((count, data))
}

/// The number of rows a query result keeps: the request's maximum, at
/// least 100.
pub fn row_cap(max_rows: u32) -> (r: usize)
    ensures
        r == (if max_rows > 100 { max_rows } else { 100 }),
{
    if max_rows > 100 { max_rows as usize } else { 100 }
}

/// A row count as reported: negative counts and failures read as 0.
pub fn reported_count(count: Option<i64>) -> (r: u64)
    ensures
        r == match count { Some(c) => if c > 0 { c as u64 } else { 0u64 }, None => 0u64 },
{
    match count {
        Some(c) => if c > 0 { c as u64 } else { 0 },
        None => 0,
    }
}

/// Where a database backup is downloaded: per database for MySQL and
/// PostgreSQL, one address for SQLite. The database name must be an
/// identifier and the DSN must name an engine, in that order.
pub fn backup_download_url(dsn: &str, database: &str) -> (r: Result<String, Status>)
    ensures
        !valid_identifier(database@) ==> (r matches Err(e) && e.code == Code::InvalidArgument
            && e.message@ == "invalid SQL identifier"@),
        valid_identifier(database@) && engine_spec(dsn@) is None ==> (r matches Err(e) && e.code == Code::InvalidArgument
            && e.message@ == "DSN must start with mysql://, postgres://, postgresql://, or sqlite:"@),
        valid_identifier(database@) && engine_spec(dsn@) == Some(DatabaseEngineKind::Sqlite)
            ==> (r matches Ok(u) && u@ == "/api/db/backup/sqlite"@),
        valid_identifier(database@) && (engine_spec(dsn@) == Some(DatabaseEngineKind::Mysql)
            || engine_spec(dsn@) == Some(DatabaseEngineKind::Postgres))
            ==> (r matches Ok(u) && u@ == "/api/db/backup?database="@ + database@),
{
    match validate_identifier(database) {
        Ok(()) => {},
        Err(e) => {
            return Err(e);
        },
    }
    match engine_from_dsn(dsn) {
        Ok(DatabaseEngineKind::Sqlite) => Ok("/api/db/backup/sqlite".to_string()),
        Ok(_) => {
            let mut u = "/api/db/backup?database=".to_string();
            u.append(database);
            Ok(u)
        },
        Err(e) => Err(e),
    }
}

/// The Redis server to inspect: the local default when none is given.
pub fn redis_url(raw: &str) -> (r: String)
    ensures
        all_ws(raw@) ==> r@ == "redis://127.0.0.1:6379"@,
        !all_ws(raw@) ==> r@ == raw@,
{
    if is_blank(raw) {
        "redis://127.0.0.1:6379".to_string()
    } else {
        raw.to_string()
    }
}

/// The header every SQLite database file starts with.
pub open spec fn sqlite_magic() -> Seq<u8> {
    seq![83u8, 81, 76, 105, 116, 101, 32, 102, 111, 114, 109, 97, 116, 32, 51, 0]
}

/// Whether the first sixteen bytes of a file are the SQLite header.
pub fn is_sqlite_header(bytes: &[u8]) -> (r: bool)
    ensures
        r == (bytes@ == sqlite_magic()),
{
    let magic: [u8; 16] = [83, 81, 76, 105, 116, 101, 32, 102, 111, 114, 109, 97, 116, 32, 51, 0];
    assert(magic@ == sqlite_magic());
    if bytes.len() != 16 {
        return false;
    }
    let mut i: usize = 0;
    while i < 16
        invariant
            i <= 16,
            bytes@.len() == 16,
            magic@ == sqlite_magic(),
            forall|j: int| 0 <= j < i ==> bytes@[j] == magic@[j],
        decreases 16 - i,
    {
        if bytes[i] != magic[i] {
            return false;
        }
        i += 1;
    }
    assert(bytes@ =~= sqlite_magic());
    true
}

/// The directories scanned for SQLite files when configured: the
/// `:`-separated entries that are not empty.
pub fn sqlite_roots_setting(value: &str) -> (r: Vec<String>)
    ensures
        views(r@) == pieces(value@, ':').filter(|p: Seq<char>| p.len() > 0),
{
    let all = split_char(value, ':');
    let ghost ps = views(all@);
    let mut out: Vec<String> = Vec::new();
    let mut i: usize = 0;
    while i < all.len()
        invariant
            i <= all@.len(),
            ps == views(all@),
            ps == pieces(value@, ':'),
            views(out@) == ps.take(i as int).filter(|p: Seq<char>| p.len() > 0),
        decreases all@.len() - i,
    {
        proof {
            assert(ps.take(i + 1) == ps.take(i as int).push(ps[i as int]));
            ps.take(i as int).lemma_filter_push(ps[i as int], |p: Seq<char>| p.len() > 0);
        }
        let ghost before = views(out@);
        let part = chars_of(all[i].as_str());
        if part.len() > 0 {
            out.push(all[i].clone());
            assert(views(out@) =~= before.push(ps[i as int]));
        }
        i += 1;
    }
    assert(ps.take(i as int) == ps);
    out
}

/// The DSN that creates an SQLite file at the trimmed path; a blank path is
/// refused.
pub fn sqlite_create_dsn(path: &str) -> (r: Result<(String, String), Status>)
    ensures
        all_ws(path@) ==> (r matches Err(e) && e.code == Code::InvalidArgument && e.message@ == "path is required"@),
        !all_ws(path@) ==> (r matches Ok(p) && p.0@ == trim_seq(path@)
            && p.1@ == "sqlite:"@ + trim_seq(path@) + "?mode=rwc"@),
{
    if is_blank(path) {
        return Err(Status::invalid_argument("path is required"));
    }
    let p = trim(path);
    let mut dsn = "sqlite:".to_string();
    dsn.append(p.as_str());
    dsn.append("?mode=rwc");
    Ok((p, dsn))
}

/// What `INFO` tells of a Redis server.
#[derive(Clone, Debug)]
pub struct RedisInfo {
    pub reachable: bool,
    pub error: String,
    pub version: String,
    pub mode: String,
    pub connected_clients: u64,
    pub used_memory_bytes: u64,
    pub max_memory_bytes: u64,
    pub max_memory_policy: String,
    pub keyspace_hits: u64,
    pub keyspace_misses: u64,
    pub total_commands_processed: u64,
    pub uptime_seconds: u64,
}

/// The information as values.
pub struct RedisInfoView {
    pub version: Seq<char>,
    pub mode: Seq<char>,
    pub connected_clients: u64,
    pub used_memory_bytes: u64,
    pub max_memory_bytes: u64,
    pub max_memory_policy: Seq<char>,
    pub keyspace_hits: u64,
    pub keyspace_misses: u64,
    pub total_commands_processed: u64,
    pub uptime_seconds: u64,
}

pub open spec fn redis_info_view(i: RedisInfo) -> RedisInfoView {
    RedisInfoView {
        version: i.version@,
        mode: i.mode@,
        connected_clients: i.connected_clients,
        used_memory_bytes: i.used_memory_bytes,
        max_memory_bytes: i.max_memory_bytes,
        max_memory_policy: i.max_memory_policy@,
        keyspace_hits: i.keyspace_hits,
        keyspace_misses: i.keyspace_misses,
        total_commands_processed: i.total_commands_processed,
        uptime_seconds: i.uptime_seconds,
    }
}

pub open spec fn info_number(value: Seq<char>) -> u64 {
    match parse_unsigned(value, u64::MAX as nat) {
        Some(n) => n as u64,
        None => 0,
    }
}

/// The information after one line of `INFO` output: blank lines and
/// comments are skipped; a `key:value` line sets the field of a known key
/// (numbers that do not read count as 0).
pub open spec fn apply_info_line(v: RedisInfoView, raw_line: Seq<char>) -> RedisInfoView {
    let line = trim_seq(raw_line);
    let k = index_of(line, ':');
    if line.len() == 0 || line[0] == '#' || k >= line.len() {
        v
    } else {
        let key = line.take(k as int);
        let value = line.skip(k as int + 1);
        if key == "redis_version"@ {
            RedisInfoView { version: value, ..v }
        } else if key == "redis_mode"@ {
            RedisInfoView { mode: value, ..v }
        } else if key == "connected_clients"@ {
            RedisInfoView { connected_clients: info_number(value), ..v }
        } else if key == "used_memory"@ {
            RedisInfoView { used_memory_bytes: info_number(value), ..v }
        } else if key == "maxmemory"@ {
            RedisInfoView { max_memory_bytes: info_number(value), ..v }
        } else if key == "maxmemory_policy"@ {
            RedisInfoView { max_memory_policy: value, ..v }
        } else if key == "keyspace_hits"@ {
            RedisInfoView { keyspace_hits: info_number(value), ..v }
        } else if key == "keyspace_misses"@ {
            RedisInfoView { keyspace_misses: info_number(value), ..v }
        } else if key == "total_commands_processed"@ {
            RedisInfoView { total_commands_processed: info_number(value), ..v }
        } else if key == "uptime_in_seconds"@ {
            RedisInfoView { uptime_seconds: info_number(value), ..v }
        } else {
            v
        }
    }
}

pub open spec fn apply_info_lines(v: RedisInfoView, lines: Seq<Seq<char>>) -> RedisInfoView
    decreases lines.len(),
{
    if lines.len() == 0 {
        v
    } else {
        apply_info_line(apply_info_lines(v, lines.drop_last()), lines.last())
    }
}

pub open spec fn empty_info_view() -> RedisInfoView {
    RedisInfoView {
        version: Seq::empty(),
        mode: Seq::empty(),
        connected_clients: 0,
        used_memory_bytes: 0,
        max_memory_bytes: 0,
        max_memory_policy: Seq::empty(),
        keyspace_hits: 0,
        keyspace_misses: 0,
        total_commands_processed: 0,
        uptime_seconds: 0,
    }
}

fn info_number_exec(value: &str) -> (r: u64)
    ensures
        r == info_number(value@),
{
    match parse_unsigned_exec(value, u64::MAX) {
        Some(n) => n,
        None => 0,
    }
}

fn apply_info_line_exec(info: &mut RedisInfo, raw_line: &str)
    ensures
        redis_info_view(*final(info)) == apply_info_line(redis_info_view(*old(info)), raw_line@),
        final(info).reachable == old(info).reachable,
        final(info).error == old(info).error,
{
    let t = trim(raw_line);
    let line = chars_of(t.as_str());
    proof {
        lemma_index_of(line@, ':');
    }
    if line.len() == 0 || line[0] == '#' {
        return;
    }
    let k = find_char_from(&line, ':', 0);
    assert(line@.skip(0) == line@);
    if k >= line.len() {
        return;
    }
    let key = string_of(&line, 0, k);
    let value = string_of(&line, k + 1, line.len());
    assert(key@ == line@.take(k as int));
    assert(value@ == line@.skip(k + 1));
    let ks = key.as_str();
    if eq_str(ks, "redis_version") {
        info.version = value;
    } else if eq_str(ks, "redis_mode") {
        info.mode = value;
    } else if eq_str(ks, "connected_clients") {
        info.connected_clients = info_number_exec(value.as_str());
    } else if eq_str(ks, "used_memory") {
        info.used_memory_bytes = info_number_exec(value.as_str());
    } else if eq_str(ks, "maxmemory") {
        info.max_memory_bytes = info_number_exec(value.as_str());
    } else if eq_str(ks, "maxmemory_policy") {
        info.max_memory_policy = value;
    } else if eq_str(ks, "keyspace_hits") {
        info.keyspace_hits = info_number_exec(value.as_str());
    } else if eq_str(ks, "keyspace_misses") {
        info.keyspace_misses = info_number_exec(value.as_str());
    } else if eq_str(ks, "total_commands_processed") {
        info.total_commands_processed = info_number_exec(value.as_str());
    } else if eq_str(ks, "uptime_in_seconds") {
        info.uptime_seconds = info_number_exec(value.as_str());
    }
}

/// The information in the text of an `INFO` reply from a reachable server;
/// a key given twice keeps its last value.
pub fn redis_info_from_text(raw: &str) -> (r: RedisInfo)
    ensures
        r.reachable,
        r.error@.len() == 0,
        redis_info_view(r) == apply_info_lines(empty_info_view(), pieces(raw@, '\n')),
{
    let lines = split_char(raw, '\n');
    let ghost ls = views(lines@);
    let mut info = RedisInfo {
        reachable: true,
        error: String::new(),
        version: String::new(),
        mode: String::new(),
        connected_clients: 0,
        used_memory_bytes: 0,
        max_memory_bytes: 0,
        max_memory_policy: String::new(),
        keyspace_hits: 0,
        keyspace_misses: 0,
        total_commands_processed: 0,
        uptime_seconds: 0,
    };
    let mut i: usize = 0;
    while i < lines.len()
        invariant
            i <= lines@.len(),
            ls == views(lines@),
            ls == pieces(raw@, '\n'),
            info.reachable,
            info.error@.len() == 0,
            redis_info_view(info) == apply_info_lines(empty_info_view(), ls.take(i as int)),
        decreases lines@.len() - i,
    {
        assert(ls.take(i + 1).drop_last() == ls.take(i as int));
        assert(ls.take(i + 1).last() == lines@[i as int]@);
        apply_info_line_exec(&mut info, lines[i].as_str());
        i += 1;
    }
    assert(ls.take(i as int) == ls);
    info
}

/// What is reported of an unreachable server: the error, all else empty.
pub fn unreachable_redis(error: String) -> (r: RedisInfo)
    ensures
        !r.reachable,
        r.error@ == error@,
        redis_info_view(r) == empty_info_view(),
{
    RedisInfo {
        reachable: false,
        error,
        version: String::new(),
        mode: String::new(),
        connected_clients: 0,
        used_memory_bytes: 0,
        max_memory_bytes: 0,
        max_memory_policy: String::new(),
        keyspace_hits: 0,
        keyspace_misses: 0,
        total_commands_processed: 0,
        uptime_seconds: 0,
    }
}

} // verus!
