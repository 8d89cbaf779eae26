//! Backup targets: validation, the secret that clients never see again, the
//! merge of an edited target into the stored one, and WebDAV addresses.

use vstd::prelude::*;

use crate::status::{Code, Status};
use crate::files::{file_name_spec, is_absolute, parts, path_parts};
use crate::listing::{sort_newest_first, sorted_newest_first, Timestamped};
use crate::text::{
    all_ws, chars_of, dec, eq_str, is_blank, lemma_trim_end_char_take, push_u64, string_of, trim,
    trim_end_char, trim_seq, views,
};

verus! {

pub const DEFAULT_BACKUP_ROOT: &'static str = "/tmp/rustpanel/backup";

/// What clients receive in place of a stored password.
pub const SECRET_REDACTED: &'static str = "__rustpanel_secret_kept__";

/// Where a backup target keeps archives.
#[derive(Clone, Copy, Debug, PartialEq, Eq, Structural)]
pub enum BackupTargetKind {
    Unspecified,
    Local,
    Webdav,
}

pub open spec fn target_kind_of(v: i32) -> BackupTargetKind {
    if v == 1 { BackupTargetKind::Local }
    else if v == 2 { BackupTargetKind::Webdav }
    else { BackupTargetKind::Unspecified }
}

/// A backup target as clients send and receive it.
#[derive(Clone, Debug)]
pub struct BackupTarget {
    pub id: String,
    pub name: String,
    pub kind: i32,
    pub endpoint: String,
    pub username: String,
    pub password: String,
    pub enabled: bool,
    pub created_at_seconds: u64,
}

impl Default for BackupTarget {
    fn default() -> (r: Self)
        ensures
            r.id@.len() == 0 && r.name@.len() == 0 && r.kind == 0 && r.endpoint@.len() == 0
                && r.username@.len() == 0 && r.password@.len() == 0 && !r.enabled
                && r.created_at_seconds == 0,
    {
        BackupTarget {
            id: String::new(),
            name: String::new(),
            kind: 0,
            endpoint: String::new(),
            username: String::new(),
            password: String::new(),
            enabled: false,
            created_at_seconds: 0,
        }
    }
}

/// A backup target as the store keeps it.
#[derive(Clone, Debug)]
pub struct StoredTarget {
    pub id: String,
    pub name: String,
    pub kind: i32,
    pub endpoint: String,
    pub username: String,
    pub password: String,
    pub enabled: bool,
    pub created_at_seconds: u64,
}

impl StoredTarget {
    pub fn from_proto(target: BackupTarget) -> (r: Self)
        ensures
            r.id == target.id && r.name == target.name && r.kind == target.kind && r.endpoint
                == target.endpoint && r.username == target.username && r.password == target.password
                && r.enabled == target.enabled && r.created_at_seconds == target.created_at_seconds,
    {
        StoredTarget {
            id: target.id,
            name: target.name,
            kind: target.kind,
            endpoint: target.endpoint,
            username: target.username,
            password: target.password,
            enabled: target.enabled,
            created_at_seconds: target.created_at_seconds,
        }
    }

    pub fn into_proto(self) -> (r: BackupTarget)
        ensures
            r.id == self.id && r.name == self.name && r.kind == self.kind && r.endpoint
                == self.endpoint && r.username == self.username && r.password == self.password
                && r.enabled == self.enabled && r.created_at_seconds == self.created_at_seconds,
    {
        BackupTarget {
            id: self.id,
            name: self.name,
            kind: self.kind,
            endpoint: self.endpoint,
            username: self.username,
            password: self.password,
            enabled: self.enabled,
            created_at_seconds: self.created_at_seconds,
        }
    }

    pub fn duplicate(&self) -> (r: Self)
        ensures
            r == *self,
    {
        StoredTarget {
            id: self.id.clone(),
            name: self.name.clone(),
            kind: self.kind,
            endpoint: self.endpoint.clone(),
            username: self.username.clone(),
            password: self.password.clone(),
            enabled: self.enabled,
            created_at_seconds: self.created_at_seconds,
        }
    }
}

pub open spec fn webdav_url_spec(endpoint: Seq<char>, archive_name: Seq<char>) -> Seq<char> {
    trim_end_char(endpoint, '/') + "/"@ + archive_name
}

/// The WebDAV address of an archive: the endpoint without trailing slashes,
/// a slash, the archive name.
pub fn webdav_url(target: &StoredTarget, archive_name: &str) -> (r: String)
    ensures
        r@ == webdav_url_spec(target.endpoint@, archive_name@),
{
    let v = chars_of(target.endpoint.as_str());
    let mut hi: usize = v.len();
    while hi > 0 && v[hi - 1] == '/'
        invariant
            hi <= v.len(),
            forall|j: int| hi <= j < v.len() ==> v@[j] == '/',
        decreases hi,
    {
        hi -= 1;
    }
    proof {
        lemma_trim_end_char_take(v@, '/', hi as int);
        if hi > 0 {
            assert(trim_end_char(v@.take(hi as int), '/') == v@.take(hi as int));
        } else {
            assert(v@.take(0).len() == 0);
        }
        assert(v@.take(hi as int) == v@.subrange(0, hi as int));
    }
    let mut s = string_of(&v, 0, hi);
    s.append("/");
    s.append(archive_name);
    s
}

/// Why a target is refused, if it is.
pub open spec fn target_error(target: BackupTarget) -> Option<Seq<char>> {
    if all_ws(target.name@) {
        Some("target name is required"@)
    } else {
        match target_kind_of(target.kind) {
            BackupTargetKind::Local => None,
            BackupTargetKind::Webdav => if all_ws(target.endpoint@) { Some("webdav endpoint is required"@) } else { None },
            BackupTargetKind::Unspecified => Some("target kind is required"@),
        }
    }
}

pub fn validate_target(target: &BackupTarget) -> (r: Result<(), Status>)
    ensures
        match target_error(*target) {
            None => r is Ok,
            Some(m) => r matches Err(e) && e.code == Code::InvalidArgument && e.message@ == m,
        },
{
    if is_blank(target.name.as_str()) {
        return Err(Status::invalid_argument("target name is required"));
    }
    if target.kind == 1 {
        Ok(())
    } else if target.kind == 2 {
        if is_blank(target.endpoint.as_str()) {
            Err(Status::invalid_argument("webdav endpoint is required"))
        } else {
            Ok(())
        }
    } else {
        Err(Status::invalid_argument("target kind is required"))
    }
}

/// The target with a non-empty password replaced by [`SECRET_REDACTED`].
pub fn redact(target: BackupTarget) -> (r: BackupTarget)
    ensures
        r.password@ == if target.password@.len() == 0 { Seq::<char>::empty() } else { SECRET_REDACTED@ },
        r.id == target.id && r.name == target.name && r.kind == target.kind && r.endpoint == target.endpoint
            && r.username == target.username && r.enabled == target.enabled
            && r.created_at_seconds == target.created_at_seconds,
{
    let mut target = target;
    if !target.password.as_str().is_empty() {
        target.password = SECRET_REDACTED.to_string();
    }
    target
}

/// The password an edit leaves stored: a blank or redacted password keeps
/// the one already stored.
pub open spec fn kept_password(incoming: Seq<char>, old: Seq<char>) -> Seq<char> {
    if all_ws(incoming) || incoming == SECRET_REDACTED@ { old } else { incoming }
}

/// An incoming target merged into the store: a new target (blank id) gets
/// `fresh_id` and is created `now`; an edit of a stored target keeps its
/// creation time and, when the password comes back blank or redacted, its
/// password; an unknown id is created `now`.
pub open spec fn merged_target(incoming: BackupTarget, existing: Option<StoredTarget>, now: u64, fresh_id: Seq<char>) -> (Seq<char>, u64, Seq<char>) {
    if all_ws(incoming.id@) {
        (fresh_id, now, incoming.password@)
    } else {
        match existing {
            Some(old) => (incoming.id@, old.created_at_seconds, kept_password(incoming.password@, old.password@)),
            None => (incoming.id@, now, incoming.password@),
        }
    }
}

/// The stored target for an incoming one (see [`merged_target`]); the id of
/// a new target is a random UUID.
pub fn prepare_target(incoming: BackupTarget, existing: Option<&StoredTarget>, now: u64) -> (r: StoredTarget)
    ensures
        all_ws(incoming.id@) ==> r.id@.len() == 36 && r.created_at_seconds == now && r.password == incoming.password,
        !all_ws(incoming.id@) ==> (r.id@, r.created_at_seconds, r.password@) == merged_target(
            incoming, match existing { Some(o) => Some(*o), None => None }, now, r.id@),
        r.name == incoming.name && r.kind == incoming.kind && r.endpoint == incoming.endpoint
            && r.username == incoming.username && r.enabled == incoming.enabled,
{
    let blank_id = is_blank(incoming.id.as_str());
    let mut stored = StoredTarget::from_proto(incoming);
    if blank_id {
        stored.id = crate::crypto::new_uuid();
        stored.created_at_seconds = now;
    } else {
        match existing {
            Some(old) => {
                stored.created_at_seconds = old.created_at_seconds;
                if is_blank(stored.password.as_str()) || eq_str(stored.password.as_str(), SECRET_REDACTED) {
                    stored.password = old.password.clone();
                }
            },
            None => {
                stored.created_at_seconds = now;
            },
        }
    }
    stored
}

/// The stored target with the given id, if any.
pub fn find_target<'a>(targets: &'a Vec<StoredTarget>, id: &str) -> (r: Option<&'a StoredTarget>)
    ensures
        match r {
            Some(t) => exists|i: int| 0 <= i < targets@.len() && targets@[i] == *t && t.id@ == id@
                && forall|j: int| 0 <= j < i ==> (#[trigger] targets@[j]).id@ != id@,
            None => forall|i: int| 0 <= i < targets@.len() ==> (#[trigger] targets@[i]).id@ != id@,
        },
{
    let mut i: usize = 0;
    while i < targets.len()
        invariant
            i <= targets@.len(),
            forall|j: int| 0 <= j < i ==> (#[trigger] targets@[j]).id@ != id@,
        decreases targets@.len() - i,
    {
        if eq_str(targets[i].id.as_str(), id) {
            return Some(&targets[i]);
        }
        i += 1;
    }
    None
}

/// Keeps the targets whose id differs from `id`.
pub open spec fn other_id(id: Seq<char>) -> spec_fn(StoredTarget) -> bool {
    |t: StoredTarget| t.id@ != id
}

/// The targets without those with the stored target's id, then the stored
/// target.
pub open spec fn upserted(targets: Seq<StoredTarget>, stored: StoredTarget) -> Seq<StoredTarget> {
    targets.filter(other_id(stored.id@)).push(stored)
}

/// Replaces the target with the same id, or adds it, at the end.
pub fn upsert_target(targets: &mut Vec<StoredTarget>, stored: StoredTarget)
    ensures
        final(targets)@ == upserted(old(targets)@, stored),
{
    let ghost orig = targets@;
    let mut rest: Vec<StoredTarget> = Vec::new();
    std::mem::swap(&mut rest, targets);
    let mut kept: Vec<StoredTarget> = Vec::new();
    let ghost mut i: int = 0;
    assert(orig.skip(0) == orig);
    assert(orig.take(0) == Seq::<StoredTarget>::empty());
    while rest.len() > 0
        invariant
            0 <= i <= orig.len(),
            rest@ == orig.skip(i),
            kept@ == orig.take(i).filter(other_id(stored.id@)),
        decreases rest.len(),
    {
        let t = rest.remove(0);
        proof {
            assert(t == orig[i]);
            assert(orig.take(i + 1) == orig.take(i).push(t));
            orig.take(i).lemma_filter_push(t, other_id(stored.id@));
            assert(orig.skip(i + 1) == orig.skip(i).remove(0));
        }
        if !eq_str(t.id.as_str(), stored.id.as_str()) {
            kept.push(t);
        }
        proof {
            i = i + 1;
        }
    }
    assert(orig.take(i) == orig);
    kept.push(stored);
    *targets = kept;
}

/// A target redacted for clients and merged back from them keeps the stored
/// password: what [`redact`] hides, [`prepare_target`] restores.
pub proof fn law_redacted_password_is_kept(incoming_password: Seq<char>, stored_password: Seq<char>)
    requires
        incoming_password == (if stored_password.len() == 0 { Seq::<char>::empty() } else { SECRET_REDACTED@ }),
    ensures
        kept_password(incoming_password, stored_password) == stored_password,
{
    if stored_password.len() == 0 {
        assert(all_ws(incoming_password));
    }
}


/// One archive made by a backup.
#[derive(Clone, Debug)]
pub struct StoredRecord {
    pub id: String,
    pub name: String,
    pub source_path: String,
    pub target_id: String,
    pub archive_name: String,
    pub size_bytes: u64,
    pub offsite_uploaded: bool,
    pub created_at_seconds: u64,
}

/// The directory to back up: the trimmed request, which must be an
/// absolute path.
pub fn backup_source_path(source_path: &str) -> (r: Result<String, Status>)
    ensures
        is_absolute(trim_seq(source_path@)) ==> (r matches Ok(s) && s@ == trim_seq(source_path@)),
        !is_absolute(trim_seq(source_path@)) ==> (r matches Err(e) && e.code == Code::InvalidArgument
            && e.message@ == "source_path must be an absolute directory path"@),
{
    let t = trim(source_path);
    let v = chars_of(t.as_str());
    if v.len() == 0 || v[0] != '/' {
        return Err(Status::invalid_argument("source_path must be an absolute directory path"));
    }
    Ok(t)
}

/// The target a backup goes to: none for a blank id, else the stored
/// target with that id (exactly), or not found.
pub fn resolve_backup_target<'a>(targets: &'a Vec<StoredTarget>, target_id: &str) -> (r: Result<Option<&'a StoredTarget>, Status>)
    ensures
        all_ws(target_id@) ==> r matches Ok(None),
        !all_ws(target_id@) ==> match r {
            Ok(Some(t)) => exists|i: int| 0 <= i < targets@.len() && targets@[i] == *t && t.id@ == target_id@
                && forall|j: int| 0 <= j < i ==> (#[trigger] targets@[j]).id@ != target_id@,
            Ok(None) => false,
            Err(e) => e.code == Code::NotFound && e.message@ == "backup target not found"@
                && forall|i: int| 0 <= i < targets@.len() ==> (#[trigger] targets@[i]).id@ != target_id@,
        },
{
    if is_blank(target_id) {
        return Ok(None);
    }
    match find_target(targets, target_id) {
        Some(t) => Ok(Some(t)),
        None => Err(Status::new(Code::NotFound, "backup target not found")),
    }
}

/// The name of a backup: the trimmed requested name, or else the source
/// directory's name (`backup` when it has none), a dash and the time.
pub open spec fn display_name_spec(name: Seq<char>, source: Seq<char>, now: u64) -> Seq<char> {
    if all_ws(name) {
        let base = match file_name_spec(source) {
            Some(base) => base,
            None => "backup"@,
        };
        base + "-"@ + dec(now as nat)
    } else {
        trim_seq(name)
    }
}

pub fn backup_display_name(name: &str, source: &str, now: u64) -> (r: String)
    ensures
        r@ == display_name_spec(name@, source@, now),
{
    if !is_blank(name) {
        return trim(name);
    }
    let ps = path_parts(source);
    let mut out = if ps.len() > 0 && !eq_str(ps[ps.len() - 1].as_str(), "..") {
        assert(views(ps@)[ps@.len() - 1] == ps@[ps@.len() - 1]@);
        ps[ps.len() - 1].clone()
    } else {
        "backup".to_string()
    };
    out.append("-");
    push_u64(&mut out, now);
    out
}

/// The archive of a backup is named after its id.
pub fn archive_name_for(id: &str) -> (r: String)
    ensures
        r@ == id@ + ".tar.gz"@,
{
    let mut s = id.to_string();
    s.append(".tar.gz");
    s
}

/// A backup is copied off site when its target is enabled and is WebDAV.
pub fn uploads_offsite(target: Option<&StoredTarget>) -> (r: bool)
    ensures
        r == match target {
            Some(t) => t.enabled && target_kind_of(t.kind) == BackupTargetKind::Webdav,
            None => false,
        },
{
    match target {
        Some(t) => t.enabled && t.kind == 2,
        None => false,
    }
}

/// The message of a finished backup, with the upload failure when the off
/// site copy failed (the local archive is kept either way).
pub fn backup_created_message(upload_error: Option<&str>) -> (r: String)
    ensures
        r@ == "backup created"@ + match upload_error {
            Some(e) => "(离站上传失败: "@ + e@ + ")"@,
            None => Seq::empty(),
        },
{
    let mut s = "backup created".to_string();
    match upload_error {
        Some(e) => {
            s.append("(离站上传失败: ");
            s.append(e);
            s.append(")");
        },
        None => {},
    }
    s
}

/// The record of a finished backup.
pub fn backup_record(id: String, name: String, source_path: String, target_id: String, size_bytes: u64, offsite_uploaded: bool, now: u64) -> (r: StoredRecord)
    ensures
        r.id@ == id@,
        r.name@ == name@,
        r.source_path@ == source_path@,
        r.target_id@ == target_id@,
        r.archive_name@ == id@ + ".tar.gz"@,
        r.size_bytes == size_bytes,
        r.offsite_uploaded == offsite_uploaded,
        r.created_at_seconds == now,
{
    let archive_name = archive_name_for(id.as_str());
    StoredRecord { id, name, source_path, target_id, archive_name, size_bytes, offsite_uploaded, created_at_seconds: now }
}

impl Timestamped for StoredRecord {
    open spec fn stamp_spec(&self) -> u64 {
        self.created_at_seconds
    }

    fn stamp(&self) -> (r: u64) {
        self.created_at_seconds
    }
}

/// The records for listing, newest first; records of the same second keep
/// their order.
pub fn records_newest_first(records: Vec<StoredRecord>) -> (r: Vec<StoredRecord>)
    ensures
        sorted_newest_first(r@, records@),
{
    sort_newest_first(records)
}

/// The first record with the given id, if any.
pub fn find_record<'a>(records: &'a Vec<StoredRecord>, id: &str) -> (r: Option<&'a StoredRecord>)
    ensures
        match r {
            Some(x) => exists|i: int| 0 <= i < records@.len() && records@[i] == *x && x.id@ == id@
                && forall|j: int| 0 <= j < i ==> (#[trigger] records@[j]).id@ != id@,
            None => forall|i: int| 0 <= i < records@.len() ==> (#[trigger] records@[i]).id@ != id@,
        },
{
    let mut i: usize = 0;
    while i < records.len()
        invariant
            i <= records@.len(),
            forall|j: int| 0 <= j < i ==> (#[trigger] records@[j]).id@ != id@,
        decreases records@.len() - i,
    {
        if eq_str(records[i].id.as_str(), id) {
            return Some(&records[i]);
        }
        i += 1;
    }
    None
}

/// Where a backup is restored: the trimmed requested path, or the record's
/// source when none is given; it must be absolute.
pub fn restore_path_for(record: &StoredRecord, requested: &str) -> (r: Result<String, Status>)
    ensures
        ({
            let p = if all_ws(requested@) { record.source_path@ } else { trim_seq(requested@) };
            &&& is_absolute(p) ==> (r matches Ok(s) && s@ == p)
            &&& !is_absolute(p) ==> (r matches Err(e) && e.code == Code::InvalidArgument
                && e.message@ == "restore_path must be absolute"@)
        }),
{
    let p = if is_blank(requested) {
        record.source_path.clone()
    } else {
        trim(requested)
    };
    let v = chars_of(p.as_str());
    if v.len() == 0 || v[0] != '/' {
        return Err(Status::invalid_argument("restore_path must be absolute"));
    }
    Ok(p)
}

/// The WebDAV target to fetch a missing local archive from: the first
/// target with the record's target id, when it is WebDAV.
pub fn download_target<'a>(targets: &'a Vec<StoredTarget>, record: &StoredRecord) -> (r: Result<&'a StoredTarget, Status>)
    ensures
        match r {
            Ok(t) => exists|i: int| 0 <= i < targets@.len() && targets@[i] == *t && t.id@ == record.target_id@
                && target_kind_of(t.kind) == BackupTargetKind::Webdav
                && forall|j: int| 0 <= j < i ==> (#[trigger] targets@[j]).id@ != record.target_id@,
            Err(e) => e.code == Code::FailedPrecondition && e.message@ == "local archive missing and no offsite target"@
                && forall|i: int| 0 <= i < targets@.len() && (#[trigger] targets@[i]).id@ == record.target_id@
                    ==> target_kind_of(targets@[i].kind) != BackupTargetKind::Webdav
                        || exists|j: int| 0 <= j < i && (#[trigger] targets@[j]).id@ == record.target_id@,
        },
{
    match find_target(targets, record.target_id.as_str()) {
        Some(t) => {
            if t.kind == 2 {
                Ok(t)
            } else {
                Err(Status::failed_precondition("local archive missing and no offsite target"))
            }
        },
        None => Err(Status::failed_precondition("local archive missing and no offsite target")),
    }
}

/// The off-site copy to delete with a record: only for an uploaded record,
/// at the first target with its target id, when that is WebDAV.
pub fn offsite_copy_target<'a>(targets: &'a Vec<StoredTarget>, record: &StoredRecord) -> (r: Option<&'a StoredTarget>)
    ensures
        !record.offsite_uploaded ==> r is None,
        r matches Some(t) ==> exists|i: int| 0 <= i < targets@.len() && targets@[i] == *t
            && t.id@ == record.target_id@ && target_kind_of(t.kind) == BackupTargetKind::Webdav
            && forall|j: int| 0 <= j < i ==> (#[trigger] targets@[j]).id@ != record.target_id@,
        record.offsite_uploaded && r is None ==> forall|i: int| 0 <= i < targets@.len()
            && (#[trigger] targets@[i]).id@ == record.target_id@ ==> target_kind_of(targets@[i].kind) != BackupTargetKind::Webdav
                || exists|j: int| 0 <= j < i && (#[trigger] targets@[j]).id@ == record.target_id@,
{
    if !record.offsite_uploaded {
        return None;
    }
    match find_target(targets, record.target_id.as_str()) {
        Some(t) => if t.kind == 2 { Some(t) } else { None },
        None => None,
    }
}

pub open spec fn other_record(id: Seq<char>) -> spec_fn(StoredRecord) -> bool {
    |r: StoredRecord| r.id@ != id
}

/// Drops the records with the given id.
pub fn remove_records(records: &mut Vec<StoredRecord>, id: &str)
    ensures
        final(records)@ == old(records)@.filter(other_record(id@)),
{
    let ghost orig = records@;
    let mut rest: Vec<StoredRecord> = Vec::new();
    std::mem::swap(&mut rest, records);
    let mut kept: Vec<StoredRecord> = Vec::new();
    let ghost mut i: int = 0;
    assert(orig.skip(0) == orig);
    assert(orig.take(0) == Seq::<StoredRecord>::empty());
    while rest.len() > 0
        invariant
            0 <= i <= orig.len(),
            rest@ == orig.skip(i),
            kept@ == orig.take(i).filter(other_record(id@)),
        decreases rest.len(),
    {
        let r = rest.remove(0);
        proof {
            assert(r == orig[i]);
            assert(orig.take(i + 1) == orig.take(i).push(r));
            orig.take(i).lemma_filter_push(r, other_record(id@));
            assert(orig.skip(i + 1) == orig.skip(i).remove(0));
        }
        if !eq_str(r.id.as_str(), id) {
            kept.push(r);
        }
        proof {
            i = i + 1;
        }
    }
    assert(orig.take(i) == orig);
    *records = kept;
}

} // verus!
