//! Docker request checks and results: image names, compose project names
//! and paths, resource-limit conversions, ports and container names as
//! listed, prune tallies, image-pull progress and compose commands.

use vstd::prelude::*;

use crate::status::{Code, Status};
use crate::text::{
    all_ws, chars_of, contains, dec, has_sub, is_blank, is_whitespace, is_ws, join, join_strings,
    push_u64, slug_spec, slug_text, trim, trim_seq, u64_text,
};

verus! {

pub const DEFAULT_DOCKER_COMPOSE_ROOT: &'static str = "/tmp/rustpanel/compose";

/// The docker service; it keeps no state of its own.
#[derive(Clone, Copy, Debug, Default)]
pub struct DockerServiceImpl;

/// Why an image name is refused, if it is: it must not be blank and, once
/// trimmed, must hold no white space.
pub open spec fn image_name_error(image: Seq<char>) -> Option<Seq<char>> {
    if all_ws(image) {
        Some("image is required"@)
    } else if exists|i: int| 0 <= i < trim_seq(image).len() && is_ws(#[trigger] trim_seq(image)[i]) {
        Some("image must not contain whitespace"@)
    } else {
        None
    }
}

pub fn validate_image_name(image: &str) -> (r: Result<(), Status>)
    ensures
        match image_name_error(image@) {
            None => r is Ok,
            Some(m) => r matches Err(e) && e.code == Code::InvalidArgument && e.message@ == m,
        },
{
    if is_blank(image) {
        return Err(Status::invalid_argument("image is required"));
    }
    let t = trim(image);
    let v = chars_of(t.as_str());
    let mut i: usize = 0;
    while i < v.len()
        invariant
            i <= v@.len(),
            v@ == trim_seq(image@),
            !all_ws(image@),
            forall|j: int| 0 <= j < i ==> !is_ws(#[trigger] v@[j]),
        decreases v@.len() - i,
    {
        if is_whitespace(v[i]) {
            assert(is_ws(trim_seq(image@)[i as int]));
            return Err(Status::invalid_argument("image must not contain whitespace"));
        }
        i += 1;
    }
    Ok(())
}

/// A compose project name fit for directories (see [`slug_spec`]); nothing
/// left of it is refused.
pub fn sanitize_project_name(name: &str) -> (r: Result<String, Status>)
    ensures
        slug_spec(name@).len() == 0 ==> (r matches Err(e) && e.code == Code::InvalidArgument
            && e.message@ == "compose project name is required"@),
        slug_spec(name@).len() > 0 ==> (r matches Ok(s) && s@ == slug_spec(name@)),
{
    let sanitized = slug_text(name);
    if sanitized.as_str().is_empty() {
        Err(Status::invalid_argument("compose project name is required"))
    } else {
        Ok(sanitized)
    }
}

/// The compose file of a project under a compose root.
pub fn compose_path(root: &str, name: &str) -> (r: String)
    ensures
        r@ == root@ + "/"@ + name@ + "/docker-compose.yml"@,
{
    let mut p = root.to_string();
    p.append("/");
    p.append(name);
    p.append("/docker-compose.yml");
    p
}

/// A memory limit as docker takes it; one beyond `i64::MAX` is refused.
pub fn memory_limit_i64(memory_limit_bytes: u64) -> (r: Result<Option<i64>, Status>)
    ensures
        memory_limit_bytes <= i64::MAX ==> r == Ok::<Option<i64>, Status>(Some(memory_limit_bytes as i64)),
        memory_limit_bytes > i64::MAX ==> (r matches Err(e) && e.code == Code::InvalidArgument
            && e.message@ == "memory limit is too large"@),
{
    if memory_limit_bytes > 9_223_372_036_854_775_807u64 {
        return Err(Status::invalid_argument("memory limit is too large"));
    }
    Ok(Some(memory_limit_bytes as i64))
}

/// A positive docker number as unsigned; zero and below are unset.
pub fn non_negative_i64(value: i64) -> (r: Option<u64>)
    ensures
        value > 0 ==> r == Some(value as u64),
        value <= 0 ==> r is None,
{
    if value > 0 { Some(value as u64) } else { None }
}

/// A docker number that is unset or not positive reads as zero.
pub fn positive_i64(value: Option<i64>) -> (r: u64)
    ensures
        r == match value {
            Some(v) => if v > 0 { v as u64 } else { 0u64 },
            None => 0u64,
        },
{
    match value {
        Some(v) => if v > 0 { v as u64 } else { 0 },
        None => 0,
    }
}


/// A container port as the daemon reports it, with the protocol already
/// named in lower case where the daemon gives one.
#[derive(Clone, Debug)]
pub struct PortInfo {
    pub ip: Option<String>,
    pub private_port: u16,
    pub public_port: Option<u16>,
    pub protocol: Option<String>,
}

/// A container port as the panel lists it: absent values read as empty or 0.
#[derive(Clone, Debug)]
pub struct ContainerPort {
    pub ip: String,
    pub private_port: u32,
    pub public_port: u32,
    pub protocol: String,
}

pub fn container_port(port: PortInfo) -> (r: ContainerPort)
    ensures
        r.ip@ == match port.ip { Some(s) => s@, None => Seq::<char>::empty() },
        r.private_port == port.private_port as u32,
        r.public_port == match port.public_port { Some(p) => p as u32, None => 0u32 },
        r.protocol@ == match port.protocol { Some(s) => s@, None => Seq::<char>::empty() },
{
    ContainerPort {
        ip: match port.ip { Some(s) => s, None => String::new() },
        private_port: port.private_port as u32,
        public_port: match port.public_port { Some(p) => p as u32, None => 0 },
        protocol: match port.protocol { Some(s) => s, None => String::new() },
    }
}

/// Container ids must not be blank.
pub fn require_container_id(container_id: &str) -> (r: Result<(), Status>)
    ensures
        all_ws(container_id@) ==> (r matches Err(e) && e.code == Code::InvalidArgument
            && e.message@ == "container id is required"@),
        !all_ws(container_id@) ==> r is Ok,
{
    if is_blank(container_id) {
        return Err(Status::invalid_argument("container id is required"));
    }
    Ok(())
}

/// A tag roll-back names a valid source image and target repository and a
/// target tag, checked in that order.
pub fn validate_tag_rollback(source_image: &str, target_repository: &str, target_tag: &str) -> (r: Result<(), Status>)
    ensures
        image_name_error(source_image@) matches Some(m) ==> (r matches Err(e) && e.code == Code::InvalidArgument && e.message@ == m),
        image_name_error(source_image@) is None ==> (image_name_error(target_repository@) matches Some(m)
            ==> (r matches Err(e) && e.code == Code::InvalidArgument && e.message@ == m)),
        image_name_error(source_image@) is None && image_name_error(target_repository@) is None && all_ws(target_tag@)
            ==> (r matches Err(e) && e.code == Code::InvalidArgument && e.message@ == "target tag is required"@),
        image_name_error(source_image@) is None && image_name_error(target_repository@) is None && !all_ws(target_tag@)
            ==> r is Ok,
{
    match validate_image_name(source_image) {
        Ok(()) => {},
        Err(e) => {
            return Err(e);
        },
    }
    match validate_image_name(target_repository) {
        Ok(()) => {},
        Err(e) => {
            return Err(e);
        },
    }
    if is_blank(target_tag) {
        return Err(Status::invalid_argument("target tag is required"));
    }
    Ok(())
}

/// What a prune has removed so far.
#[derive(Clone, Debug)]
pub struct PruneTally {
    pub deleted_count: u32,
    pub reclaimed_bytes: u64,
    /// One `kind=count` entry per pruned kind, in order.
    pub parts: Vec<String>,
}

impl PruneTally {
    pub fn new() -> (r: Self)
        ensures
            r.deleted_count == 0,
            r.reclaimed_bytes == 0,
            r.parts@.len() == 0,
    {
        PruneTally { deleted_count: 0, reclaimed_bytes: 0, parts: Vec::new() }
    }

    /// Counts one pruned kind: its deleted objects (as 32 bits) and the
    /// positive part of the space reclaimed (networks report none).
    pub fn add(&mut self, kind: &str, deleted: usize, space_reclaimed: Option<i64>)
        requires
            old(self).deleted_count + (deleted as u32) <= u32::MAX,
            old(self).reclaimed_bytes + match space_reclaimed { Some(v) => if v > 0 { v as int } else { 0 }, None => 0 } <= u64::MAX,
        ensures
            final(self).deleted_count == old(self).deleted_count + (deleted as u32),
            final(self).reclaimed_bytes == old(self).reclaimed_bytes + match space_reclaimed {
                Some(v) => if v > 0 { v as int } else { 0 },
                None => 0,
            },
            crate::text::views(final(self).parts@) == crate::text::views(old(self).parts@).push(
                kind@ + "="@ + dec((deleted as u32) as nat)),
    {
        let count = deleted as u32;
        self.deleted_count = self.deleted_count + count;
        self.reclaimed_bytes = self.reclaimed_bytes + positive_i64(space_reclaimed);
        let mut part = kind.to_string();
        part.append("=");
        push_u64(&mut part, count as u64);
        let ghost before = self.parts@;
        self.parts.push(part);
        assert(crate::text::views(self.parts@) =~= crate::text::views(before).push(kind@ + "="@ + dec((deleted as u32) as nat)));
    }

    /// The summary of the prune: the entries joined with `, `.
    pub fn summary(&self) -> (r: String)
        ensures
            r@ == join(crate::text::views(self.parts@), ", "@),
    {
        join_strings(&self.parts, ", ")
    }
}

/// The filters of an image prune: all unused images, not only dangling
/// ones, when asked.
pub fn image_prune_filters(all_images: bool) -> (r: Vec<(String, Vec<String>)>)
    ensures
        all_images ==> r@.len() == 1 && r@[0].0@ == "dangling"@ && r@[0].1@.len() == 1 && r@[0].1@[0]@ == "false"@,
        !all_images ==> r@.len() == 0,
{
    let mut filters: Vec<(String, Vec<String>)> = Vec::new();
    if all_images {
        let mut values: Vec<String> = Vec::new();
        values.push("false".to_string());
        filters.push(("dangling".to_string(), values));
    }
    filters
}

/// One progress event of an image pull as the daemon sends it.
#[derive(Clone, Debug)]
pub struct PullInfo {
    pub id: Option<String>,
    pub error: Option<String>,
    pub status: Option<String>,
    pub progress: Option<String>,
    /// The current and total bytes, when the daemon reports progress.
    pub progress_detail: Option<(Option<i64>, Option<i64>)>,
}

/// One progress event as the panel streams it.
#[derive(Clone, Debug)]
pub struct PullEvent {
    pub image_id: String,
    pub status_text: String,
    pub progress: String,
    pub current_bytes: u64,
    pub total_bytes: u64,
    pub done: bool,
}

pub open spec fn positive_part(v: Option<i64>) -> u64 {
    match v {
        Some(x) => if x > 0 { x as u64 } else { 0 },
        None => 0,
    }
}

/// The pull is over once the daemon says the image was downloaded or is
/// up to date.
pub open spec fn pull_done(status: Seq<char>) -> bool {
    has_sub(status, "Downloaded newer image"@) || has_sub(status, "Image is up to date"@)
        || has_sub(status, "Status: Downloaded"@)
}

/// The panel's view of a pull event; an event carrying an error ends the
/// stream as unavailable.
pub fn image_pull_event(info: PullInfo) -> (r: Result<PullEvent, Status>)
    ensures
        info.error matches Some(m) ==> (r matches Err(e) && e.code == Code::Unavailable && e.message@ == m@),
        info.error is None ==> (r matches Ok(ev) && {
            let status = match info.status { Some(s) => s@, None => Seq::<char>::empty() };
            &&& ev.image_id@ == match info.id { Some(s) => s@, None => Seq::<char>::empty() }
            &&& ev.status_text@ == status
            &&& ev.progress@ == match info.progress { Some(s) => s@, None => Seq::<char>::empty() }
            &&& ev.done == pull_done(status)
            &&& (ev.current_bytes, ev.total_bytes) == match info.progress_detail {
                Some(d) => (positive_part(d.0), positive_part(d.1)),
                None => (0u64, 0u64),
            }
        }),
{
    if let Some(m) = info.error {
        return Err(Status::new(Code::Unavailable, m.as_str()));
    }
    let status_text = match info.status { Some(s) => s, None => String::new() };
    let done = contains(status_text.as_str(), "Downloaded newer image")
        || contains(status_text.as_str(), "Image is up to date")
        || contains(status_text.as_str(), "Status: Downloaded");
    let (current_bytes, total_bytes) = match info.progress_detail {
        Some(d) => (positive_i64(d.0), positive_i64(d.1)),
        None => (0, 0),
    };
    Ok(PullEvent {
        image_id: match info.id { Some(s) => s, None => String::new() },
        status_text,
        progress: match info.progress { Some(s) => s, None => String::new() },
        current_bytes,
        total_bytes,
        done,
    })
}

/// How many log lines to replay first: the request's count, at least 100.
pub fn log_tail(tail_lines: u32) -> (r: String)
    ensures
        r@ == dec((if tail_lines > 100 { tail_lines } else { 100 }) as nat),
{
    let n: u32 = if tail_lines > 100 { tail_lines } else { 100 };
    u64_text(n as u64)
}

/// The arguments of a `docker compose` run for a project: the project is
/// named `rustpanel-<name>` and the file given, then the subcommand.
pub fn compose_command_args(name: &str, compose_path: &str, args: &Vec<String>) -> (r: Vec<String>)
    ensures
        crate::text::views(r@) == seq!["compose"@, "-p"@, "rustpanel-"@ + name@, "-f"@, compose_path@]
            + crate::text::views(args@),
{
    let mut out: Vec<String> = Vec::new();
    out.push("compose".to_string());
    out.push("-p".to_string());
    let mut project = "rustpanel-".to_string();
    project.append(name);
    out.push(project);
    out.push("-f".to_string());
    out.push(compose_path.to_string());
    let ghost head = crate::text::views(out@);
    assert(head =~= seq!["compose"@, "-p"@, "rustpanel-"@ + name@, "-f"@, compose_path@]);
    let mut i: usize = 0;
    while i < args.len()
        invariant
            i <= args@.len(),
            crate::text::views(out@) == head + crate::text::views(args@).take(i as int),
        decreases args@.len() - i,
    {
        let ghost before = out@;
        out.push(args[i].clone());
        assert(crate::text::views(out@) =~= crate::text::views(before).push(args@[i as int]@));
        assert(crate::text::views(args@).take(i + 1) =~= crate::text::views(args@).take(i as int).push(args@[i as int]@));
        i += 1;
    }
    assert(crate::text::views(args@).take(i as int) =~= crate::text::views(args@));
    out
}


/// `s` without its leading `/`s.
pub open spec fn strip_slashes(s: Seq<char>) -> Seq<char>
    decreases s.len(),
{
    if s.len() > 0 && s[0] == '/' { strip_slashes(s.drop_first()) } else { s }
}

/// The name a container is listed under: its first name without the
/// leading `/` that the daemon puts there; empty when it has none.
pub fn container_display_name(names: Option<Vec<String>>) -> (r: String)
    ensures
        r@ == match names {
            Some(v) => if v@.len() > 0 { strip_slashes(v@[0]@) } else { Seq::<char>::empty() },
            None => Seq::<char>::empty(),
        },
{
    let first = match names {
        Some(v) => {
            if v.len() > 0 {
                v[0].clone()
            } else {
                return String::new();
            }
        },
        None => {
            return String::new();
        },
    };
    let c = chars_of(first.as_str());
    let mut i: usize = 0;
    assert(c@.skip(0) =~= c@);
    while i < c.len() && c[i] == '/'
        invariant
            i <= c@.len(),
            strip_slashes(c@.skip(i as int)) == strip_slashes(first@),
            c@ == first@,
        decreases c@.len() - i,
    {
        assert(c@.skip(i as int).drop_first() =~= c@.skip(i + 1));
        i += 1;
    }
    assert(strip_slashes(c@.skip(i as int)) == c@.skip(i as int));
    crate::text::string_of(&c, i, c.len())
}

/// The verdict on a compose file once its `services` mapping is read
/// (`None` when there is none): it must name at least one service.
pub fn compose_services_verdict(service_count: Option<usize>) -> (r: Result<(), Status>)
    ensures
        service_count is None ==> (r matches Err(e) && e.code == Code::InvalidArgument
            && e.message@ == "compose yaml must contain services"@),
        service_count == Some(0usize) ==> (r matches Err(e) && e.code == Code::InvalidArgument
            && e.message@ == "compose yaml must contain at least one service"@),
        (service_count matches Some(n) && n > 0) ==> r is Ok,
{
    match service_count {
        None => Err(Status::invalid_argument("compose yaml must contain services")),
        Some(0) => Err(Status::invalid_argument("compose yaml must contain at least one service")),
        Some(_) => Ok(()),
    }
}

} // verus!
