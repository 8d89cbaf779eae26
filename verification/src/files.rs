//! File manager logic: requests reduced to safe relative paths, the check
//! that a path stays under the configured root, paths as clients see them,
//! the recycle bin, permissions, search and archive naming.

use vstd::prelude::*;

use crate::status::{Code, Status};
use vstd::hash_map::StringHashMap;

use crate::crypto::{new_uuid, text_to_lowercase, unicode_lowercase};
use vstd::hash_set::StringHashSet;
use crate::text::{
    all_ws, chars_of, contains, eq_str, has_sub, is_blank, free_of, join, join_strings, lemma_filter_all, lemma_filter_free, lemma_pieces_concat, lemma_pieces_free, lemma_pieces_join, pieces,
    replace_char, replace_char_str, split_char, starts_with_seq, string_of, trim, trim_seq, views,
};

verus! {

pub const DEFAULT_FILE_ROOT: &'static str = "/";
pub const DEFAULT_FILE_STATE_ROOT: &'static str = "/tmp/rustpanel/files";

/// A named step of a path: not empty and not `.`.
pub open spec fn is_part(c: Seq<char>) -> bool {
    c.len() > 0 && c != "."@
}

/// The named steps of a `/`-separated path, in order.
pub open spec fn parts(p: Seq<char>) -> Seq<Seq<char>> {
    pieces(p, '/').filter(|c: Seq<char>| is_part(c))
}

pub open spec fn is_absolute(p: Seq<char>) -> bool {
    p.len() > 0 && p[0] == '/'
}

pub(crate) fn path_parts(p: &str) -> (r: Vec<String>)
    ensures
        views(r@) == parts(p@),
{
    let all = split_char(p, '/');
    let ghost ps = views(all@);
    let mut out: Vec<String> = Vec::new();
    let mut i: usize = 0;
    proof { reveal_strlit("."); }
    while i < all.len()
        invariant
            i <= all@.len(),
            ps == views(all@),
            ps == pieces(p@, '/'),
            views(out@) == ps.take(i as int).filter(|c: Seq<char>| is_part(c)),
        decreases all@.len() - i,
    {
        proof {
            assert(ps.take(i + 1) == ps.take(i as int).push(ps[i as int]));
            ps.take(i as int).lemma_filter_push(ps[i as int], |c: Seq<char>| is_part(c));
        }
        let ghost before = views(out@);
        let c = &all[i];
        if !c.as_str().is_empty() && !eq_str(c.as_str(), ".") {
            out.push(c.clone());
            assert(views(out@) =~= before.push(ps[i as int]));
        }
        i += 1;
    }
    assert(ps.take(i as int) == ps);
    out
}

/// A requested path as a relative path under the root: its named steps
/// joined with `/`; a `..` step anywhere is refused.
pub fn safe_relative_path(requested: &str) -> (r: Result<String, Status>)
    ensures
        parts(requested@).contains(".."@) ==> (r matches Err(e) && e.code == Code::InvalidArgument
            && e.message@ == "path traversal is not allowed"@),
        !parts(requested@).contains(".."@) ==> (r matches Ok(s) && s@ == join(parts(requested@), "/"@)),
{
    let ps = path_parts(requested);
    let mut i: usize = 0;
    while i < ps.len()
        invariant
            i <= ps@.len(),
            views(ps@) == parts(requested@),
            forall|j: int| 0 <= j < i ==> views(ps@)[j] != ".."@,
        decreases ps@.len() - i,
    {
        if eq_str(ps[i].as_str(), "..") {
            assert(views(ps@)[i as int] == ".."@);
            return Err(Status::invalid_argument("path traversal is not allowed"));
        }
        i += 1;
    }
    assert(!parts(requested@).contains(".."@)) by {
        if parts(requested@).contains(".."@) {
            let j = choose|j: int| 0 <= j < parts(requested@).len() && parts(requested@)[j] == ".."@;
            assert(views(ps@)[j] != ".."@);
        }
    }
    Ok(join_strings(&ps, "/"))
}

/// `path` lies under `root`: both absolute or both relative, and the steps
/// of `root` begin those of `path` (`Path::starts_with`).
pub open spec fn under_root(root: Seq<char>, path: Seq<char>) -> bool {
    is_absolute(root) == is_absolute(path) && parts(root).len() <= parts(path).len()
        && parts(path).take(parts(root).len() as int) == parts(root)
}

fn under_root_exec(root: &str, path: &str) -> (r: bool)
    ensures
        r == under_root(root@, path@),
{
    let rp = path_parts(root);
    let pp = path_parts(path);
    let abs_root = absolute(root);
    let abs_path = absolute(path);
    if abs_root != abs_path || rp.len() > pp.len() {
        return false;
    }
    let mut i: usize = 0;
    while i < rp.len()
        invariant
            i <= rp@.len() <= pp@.len(),
            views(rp@) == parts(root@),
            views(pp@) == parts(path@),
            forall|j: int| 0 <= j < i ==> views(pp@)[j] == views(rp@)[j],
        decreases rp@.len() - i,
    {
        if !eq_str(rp[i].as_str(), pp[i].as_str()) {
            assert(views(pp@).take(views(rp@).len() as int)[i as int] != views(rp@)[i as int]);
            return false;
        }
        i += 1;
    }
    assert(views(pp@).take(views(rp@).len() as int) =~= views(rp@));
    true
}

fn absolute(s: &str) -> (r: bool)
    ensures
        r == is_absolute(s@),
{
    let v = crate::text::chars_of(s);
    v.len() > 0 && v[0] == '/'
}

/// Refuses a path outside the root.
pub fn ensure_inside_root(root: &str, path: &str) -> (r: Result<(), Status>)
    ensures
        under_root(root@, path@) ==> r is Ok,
        !under_root(root@, path@) ==> (r matches Err(e) && e.code == Code::PermissionDenied
            && e.message@ == "path escapes configured file root"@),
{
    if under_root_exec(root, path) {
        Ok(())
    } else {
        Err(Status::new(Code::PermissionDenied, "path escapes configured file root"))
    }
}

/// The files the manager serves and where it keeps its own state.
#[derive(Clone, Debug)]
pub struct FileManager {
    pub root: String,
    pub state_root: String,
}

/// A path as clients see it: under the root, `/` and the steps below the
/// root; elsewhere, the path itself.
pub open spec fn public_path_spec(root: Seq<char>, path: Seq<char>) -> Seq<char> {
    if under_root(root, path) {
        "/"@ + join(parts(path).skip(parts(root).len() as int), "/"@)
    } else {
        path
    }
}

proof fn lemma_parts_of_empty()
    ensures
        pieces(Seq::<char>::empty(), '/') == seq![Seq::<char>::empty()],
        seq![Seq::<char>::empty()].filter(|c: Seq<char>| is_part(c)) == Seq::<Seq<char>>::empty(),
{
    Seq::<Seq<char>>::empty().lemma_filter_push(Seq::<char>::empty(), |c: Seq<char>| is_part(c));
    assert(Seq::<Seq<char>>::empty().push(Seq::<char>::empty()) =~= seq![Seq::<char>::empty()]);
    reveal(Seq::filter);
}

/// What resolving a request gives: a `..` step is refused; a failed
/// resolution (`canonical`) is an internal error with its message; a
/// resolved path outside the root is refused; else the resolved path.
pub open spec fn resolve_requested_spec(root: Seq<char>, requested: Seq<char>, canonical: Result<Seq<char>, Seq<char>>) -> Result<
    Seq<char>,
    (Code, Seq<char>),
> {
    if parts(requested).contains(".."@) {
        Err((Code::InvalidArgument, "path traversal is not allowed"@))
    } else {
        match canonical {
            Err(m) => Err((Code::Internal, m)),
            Ok(p) => if under_root(root, p) {
                Ok(p)
            } else {
                Err((Code::PermissionDenied, "path escapes configured file root"@))
            },
        }
    }
}

/// The steps of `path` are free of `/` and all named.
proof fn lemma_parts_named(path: Seq<char>)
    ensures
        free_of(parts(path), '/'),
        forall|i: int| 0 <= i < parts(path).len() ==> is_part(#[trigger] parts(path)[i]),
{
    let pred = |c: Seq<char>| is_part(c);
    lemma_pieces_free(path, '/');
    lemma_filter_free(pieces(path, '/'), '/', pred);
    pieces(path, '/').filter_lemma(pred);
    assert forall|i: int| 0 <= i < parts(path).len() implies is_part(#[trigger] parts(path)[i]) by {
        assert(pred(pieces(path, '/').filter(pred)[i]));
    }
}

/// Steps free of `/` and all named, joined with `/` after a prefix, read
/// back as the prefix's steps and then themselves.
#[verifier::spinoff_prover]
proof fn lemma_parts_after(prefix: Seq<char>, rest: Seq<Seq<char>>)
    requires
        free_of(rest, '/'),
        forall|i: int| 0 <= i < rest.len() ==> is_part(#[trigger] rest[i]),
    ensures
        parts(prefix + "/"@ + join(rest, "/"@)) == parts(prefix) + rest,
{
    reveal_strlit("/");
    let slash = "/"@;
    assert(slash =~= seq!['/']);
    let pred = |c: Seq<char>| is_part(c);
    let e = Seq::<char>::empty();
    lemma_parts_of_empty();
    lemma_pieces_concat(prefix, join(rest, slash), '/');
    Seq::filter_distributes_over_add(pieces(prefix, '/'), pieces(join(rest, slash), '/'), pred);
    if rest.len() == 0 {
        assert(join(rest, slash) == e);
        assert(parts(prefix) + rest =~= parts(prefix));
    } else {
        lemma_pieces_join(rest, '/');
        assert forall|i: int| 0 <= i < rest.len() implies pred(#[trigger] rest[i]) by {}
        lemma_filter_all(rest, pred);
    }
}

/// The public path of a path under an absolute root leads back to it: the
/// path that [`FileManager::requested_path`] builds from the public path is
/// absolute and has the same steps as the path, and the public path names
/// no `..`; so when the file system resolves that path to the path again,
/// [`FileManager::resolve_requested`] gives the path back.
pub proof fn law_public_path_round_trip(root: Seq<char>, path: Seq<char>)
    requires
        is_absolute(root),
        under_root(root, path),
        !parts(path).contains(".."@),
    ensures
        !parts(public_path_spec(root, path)).contains(".."@),
        is_absolute(root + "/"@ + join(parts(public_path_spec(root, path)), "/"@)),
        parts(root + "/"@ + join(parts(public_path_spec(root, path)), "/"@)) == parts(path),
        resolve_requested_spec(root, public_path_spec(root, path), Ok(path)) == Ok::<Seq<char>, (Code, Seq<char>)>(path),
{
    reveal_strlit("/");
    let slash = "/"@;
    let n = parts(root).len() as int;
    let all = parts(path);
    let rest = all.skip(n);
    lemma_parts_named(path);
    assert forall|i: int, j: int| 0 <= i < rest.len() && 0 <= j < rest[i].len() implies #[trigger] rest[i][j] != '/' by {
        assert(rest[i] == all[n + i]);
        assert(all[n + i][j] != '/');
    }
    assert forall|i: int| 0 <= i < rest.len() implies is_part(#[trigger] rest[i]) by {
        assert(rest[i] == all[n + i]);
    }
    let pubp = public_path_spec(root, path);
    let e = Seq::<char>::empty();
    assert(pubp =~= e + slash + join(rest, slash));
    lemma_parts_after(e, rest);
    lemma_parts_of_empty();
    assert(parts(e) =~= Seq::<Seq<char>>::empty());
    assert(parts(pubp) =~= rest);
    if parts(pubp).contains(".."@) {
        let i = choose|i: int| 0 <= i < parts(pubp).len() && parts(pubp)[i] == ".."@;
        assert(all[n + i] == ".."@);
        assert(all.contains(".."@));
    }
    lemma_parts_after(root, rest);
    assert(all =~= all.take(n) + rest);
    assert((root + slash + join(rest, slash))[0] == root[0]);
}

impl FileManager {
    /// A manager over an already resolved root.
    pub fn with_roots(root: &str, state_root: &str) -> (r: Self)
        ensures
            r.root@ == root@ && r.state_root@ == state_root@,
    {
        FileManager { root: root.to_string(), state_root: state_root.to_string() }
    }

    pub fn public_path(&self, path: &str) -> (r: String)
        ensures
            r@ == public_path_spec(self.root@, path@),
    {
        if under_root_exec(self.root.as_str(), path) {
            let rp = path_parts(self.root.as_str());
            let pp = path_parts(path);
            let mut rest: Vec<String> = Vec::new();
            let mut i: usize = rp.len();
            let ghost base = rp@.len() as int;
            proof {
                assert(views(rp@).len() == rp@.len());
            }
            while i < pp.len()
                invariant
                    rp@.len() <= i <= pp@.len(),
                    base == rp@.len(),
                    views(rp@) == parts(self.root@),
                    views(pp@) == parts(path@),
                    views(rest@) == views(pp@).subrange(base, i as int),
                decreases pp@.len() - i,
            {
                let ghost before = views(rest@);
                let c = pp[i].clone();
                assert(c@ == views(pp@)[i as int]);
                rest.push(c);
                assert(views(rest@) =~= before.push(c@));
                assert(views(pp@).subrange(base, i + 1) =~= views(pp@).subrange(base, i as int).push(views(pp@)[i as int]));
                assert(views(rest@) =~= views(pp@).subrange(base, i + 1));
                i += 1;
            }
            assert(views(pp@).subrange(base, pp@.len() as int) =~= parts(path@).skip(parts(self.root@).len() as int));
            let mut s = "/".to_string();
            let j = join_strings(&rest, "/");
            s.append(j.as_str());
            s
        } else {
            path.to_string()
        }
    }

    /// The path that a request names under the root, before the file system
    /// resolves links: the root, `/`, the safe relative path.
    pub fn requested_path(&self, requested: &str) -> (r: Result<String, Status>)
        ensures
            parts(requested@).contains(".."@) ==> (r matches Err(e) && e.code == Code::InvalidArgument
                && e.message@ == "path traversal is not allowed"@),
            !parts(requested@).contains(".."@) ==> (r matches Ok(s)
                && s@ == self.root@ + "/"@ + join(parts(requested@), "/"@)),
    {
        let rel = safe_relative_path(requested)?;
        let mut p = self.root.clone();
        p.append("/");
        p.append(rel.as_str());
        Ok(p)
    }

    /// An existing path once the file system resolved the requested path
    /// (`canonical`, or the error it gave): a failed resolution is an
    /// internal error with its message; a path outside the root is refused.
    pub fn resolve_existing(&self, canonical: Result<String, String>) -> (r: Result<String, Status>)
        ensures
            canonical matches Err(m) ==> (r matches Err(e) && e.code == Code::Internal && e.message@ == m@),
            canonical matches Ok(p) ==> (under_root(self.root@, p@) ==> r == Ok::<String, Status>(p)),
            canonical matches Ok(p) ==> (!under_root(self.root@, p@) ==> (r matches Err(e)
                && e.code == Code::PermissionDenied && e.message@ == "path escapes configured file root"@)),
    {
        match canonical {
            Err(m) => Err(Status::new(Code::Internal, m.as_str())),
            Ok(p) => {
                ensure_inside_root(self.root.as_str(), p.as_str())?;
                Ok(p)
            },
        }
    }

    /// An existing path that a request names: a request with a `..` step
    /// is refused before the file system is asked; otherwise `canonical` is
    /// what the file system gave when it resolved the path that
    /// [`FileManager::requested_path`] builds, checked as
    /// [`FileManager::resolve_existing`] checks it.
    pub fn resolve_requested(&self, requested: &str, canonical: Result<String, String>) -> (r: Result<String, Status>)
        ensures
            match resolve_requested_spec(
                self.root@,
                requested@,
                match canonical {
                    Ok(p) => Ok(p@),
                    Err(m) => Err(m@),
                },
            ) {
                Ok(p) => r matches Ok(x) && x@ == p,
                Err((c, m)) => r matches Err(e) && e.code == c && e.message@ == m,
            },
    {
        let _path = self.requested_path(requested)?;
        self.resolve_existing(canonical)
    }

    /// A path to write once the file system resolved its parent directory
    /// (`parent`, or the error it gave): the requested path (see
    /// [`FileManager::requested_path`]) when the parent lies under the root.
    pub fn resolve_for_write(&self, path: String, parent: Result<String, String>) -> (r: Result<String, Status>)
        ensures
            parent matches Err(m) ==> (r matches Err(e) && e.code == Code::Internal && e.message@ == m@),
            parent matches Ok(p) ==> (under_root(self.root@, p@) ==> r == Ok::<String, Status>(path)),
            parent matches Ok(p) ==> (!under_root(self.root@, p@) ==> (r matches Err(e)
                && e.code == Code::PermissionDenied && e.message@ == "path escapes configured file root"@)),
    {
        match parent {
            Err(m) => Err(Status::new(Code::Internal, m.as_str())),
            Ok(p) => {
                ensure_inside_root(self.root.as_str(), p.as_str())?;
                Ok(path)
            },
        }
    }
}


/// The last named step of a path, unless that is `..` (`Path::file_name`).
pub open spec fn file_name_spec(p: Seq<char>) -> Option<Seq<char>> {
    let ps = parts(p);
    if ps.len() > 0 && ps.last() != ".."@ {
        Some(ps.last())
    } else {
        None
    }
}

pub fn file_name(p: &str) -> (r: Option<String>)
    ensures
        match file_name_spec(p@) {
            Some(n) => r matches Some(s) && s@ == n,
            None => r is None,
        },
{
    let ps = path_parts(p);
    if ps.len() > 0 && !eq_str(ps[ps.len() - 1].as_str(), "..") {
        assert(views(ps@)[ps@.len() - 1] == ps@[ps@.len() - 1]@);
        Some(ps[ps.len() - 1].clone())
    } else {
        None
    }
}

/// The paths the integrity monitor watches: the comma-separated entries of
/// the setting, trimmed, without empty ones.
pub fn protected_paths_setting(value: &str) -> (r: Vec<String>)
    ensures
        views(r@) == pieces(value@, ',').map_values(|p: Seq<char>| trim_seq(p)).filter(|p: Seq<char>| p.len() > 0),
{
    let all = split_char(value, ',');
    let ghost ps = views(all@).map_values(|p: Seq<char>| trim_seq(p));
    let mut out: Vec<String> = Vec::new();
    let mut i: usize = 0;
    while i < all.len()
        invariant
            i <= all@.len(),
            views(all@) == pieces(value@, ','),
            ps == views(all@).map_values(|p: Seq<char>| trim_seq(p)),
            views(out@) == ps.take(i as int).filter(|p: Seq<char>| p.len() > 0),
        decreases all@.len() - i,
    {
        proof {
            assert(ps.take(i + 1) == ps.take(i as int).push(ps[i as int]));
            ps.take(i as int).lemma_filter_push(ps[i as int], |p: Seq<char>| p.len() > 0);
        }
        let ghost before = views(out@);
        let t = trim(all[i].as_str());
        assert(t@ == ps[i as int]);
        if chars_of(t.as_str()).len() > 0 {
            out.push(t);
            assert(views(out@) =~= before.push(ps[i as int]));
        }
        i += 1;
    }
    assert(ps.take(i as int) == ps);
    out
}

/// Records the modification time seen for a watched path; a change is a
/// time that differs from the one seen before (the first sighting is none).
pub fn note_modified(seen: &mut StringHashMap<u64>, path: &str, modified: u64) -> (changed: bool)
    ensures
        final(seen)@ == old(seen)@.insert(path@, modified),
        changed == (old(seen)@.contains_key(path@) && old(seen)@[path@] != modified),
{
    let previous = match seen.get(path) {
        Some(p) => Some(*p),
        None => None,
    };
    seen.insert(path.to_string(), modified);
    match previous {
        Some(p) => p != modified,
        None => false,
    }
}

/// An item in the recycle bin.
#[derive(Clone, Debug)]
pub struct StoredRecycleItem {
    pub id: String,
    pub original_path: String,
    pub recycle_path: String,
    pub deleted_at_seconds: u64,
}

/// The name of a deleted item in the recycle directory: its id, a dash and
/// its file name (`item` when it has none).
pub fn recycle_entry_name(id: &str, path: &str) -> (r: String)
    ensures
        r@ == id@ + "-"@ + match file_name_spec(path@) { Some(n) => n, None => "item"@ },
{
    let mut s = id.to_string();
    s.append("-");
    match file_name(path) {
        Some(n) => s.append(n.as_str()),
        None => s.append("item"),
    }
    s
}

/// The first recycle-bin item with the id, or not found.
pub fn find_recycle_item<'a>(items: &'a Vec<StoredRecycleItem>, id: &str) -> (r: Result<&'a StoredRecycleItem, Status>)
    ensures
        match r {
            Ok(x) => exists|i: int| 0 <= i < items@.len() && items@[i] == *x && x.id@ == id@
                && forall|j: int| 0 <= j < i ==> (#[trigger] items@[j]).id@ != id@,
            Err(e) => e.code == Code::NotFound && e.message@ == "recycle item not found"@
                && forall|i: int| 0 <= i < items@.len() ==> (#[trigger] items@[i]).id@ != id@,
        },
{
    let mut i: usize = 0;
    while i < items.len()
        invariant
            i <= items@.len(),
            forall|j: int| 0 <= j < i ==> (#[trigger] items@[j]).id@ != id@,
        decreases items@.len() - i,
    {
        if eq_str(items[i].id.as_str(), id) {
            return Ok(&items[i]);
        }
        i += 1;
    }
    Err(Status::new(Code::NotFound, "recycle item not found"))
}

pub open spec fn other_item(id: Seq<char>) -> spec_fn(StoredRecycleItem) -> bool {
    |x: StoredRecycleItem| x.id@ != id
}

/// Drops the items with the id once restored.
pub fn remove_recycle_items(items: &mut Vec<StoredRecycleItem>, id: &str)
    ensures
        final(items)@ == old(items)@.filter(other_item(id@)),
{
    let ghost orig = items@;
    let mut rest: Vec<StoredRecycleItem> = Vec::new();
    std::mem::swap(&mut rest, items);
    let mut kept: Vec<StoredRecycleItem> = Vec::new();
    let ghost mut i: int = 0;
    assert(orig.skip(0) == orig);
    assert(orig.take(0) == Seq::<StoredRecycleItem>::empty());
    while rest.len() > 0
        invariant
            0 <= i <= orig.len(),
            rest@ == orig.skip(i),
            kept@ == orig.take(i).filter(other_item(id@)),
        decreases rest.len(),
    {
        let x = rest.remove(0);
        proof {
            assert(x == orig[i]);
            assert(orig.take(i + 1) == orig.take(i).push(x));
            orig.take(i).lemma_filter_push(x, other_item(id@));
            assert(orig.skip(i + 1) == orig.skip(i).remove(0));
        }
        if !eq_str(x.id.as_str(), id) {
            kept.push(x);
        }
        proof {
            i = i + 1;
        }
    }
    assert(orig.take(i) == orig);
    *items = kept;
}

/// What a delete does with a path.
#[derive(Clone, Copy, Debug, PartialEq, Eq, Structural)]
pub enum DeleteAction {
    RemoveDirAll,
    RemoveDir,
    RemoveFile,
    Recycle,
}

/// A permanent delete removes a directory (with its contents when
/// recursive) or a file; otherwise the path goes to the recycle bin.
pub fn delete_action(permanent: bool, is_dir: bool, recursive: bool) -> (r: (DeleteAction, &'static str))
    ensures
        !permanent ==> r.0 == DeleteAction::Recycle && r.1@ == "delete_recycle"@,
        permanent && is_dir && recursive ==> r.0 == DeleteAction::RemoveDirAll && r.1@ == "delete_permanent"@,
        permanent && is_dir && !recursive ==> r.0 == DeleteAction::RemoveDir && r.1@ == "delete_permanent"@,
        permanent && !is_dir ==> r.0 == DeleteAction::RemoveFile && r.1@ == "delete_permanent"@,
{
    if !permanent {
        (DeleteAction::Recycle, "delete_recycle")
    } else if is_dir {
        if recursive {
            (DeleteAction::RemoveDirAll, "delete_permanent")
        } else {
            (DeleteAction::RemoveDir, "delete_permanent")
        }
    } else {
        (DeleteAction::RemoveFile, "delete_permanent")
    }
}

/// The audit text of a move.
pub fn move_audit_text(source: &str, target: &str) -> (r: String)
    ensures
        r@ == source@ + " -> "@ + target@,
{
    let mut s = source.to_string();
    s.append(" -> ");
    s.append(target);
    s
}

/// The panel-wide audit message of a file operation.
pub fn file_audit_message(action: &str, path: &str) -> (r: String)
    ensures
        r@ == "file "@ + action@ + ": "@ + path@,
{
    let mut s = "file ".to_string();
    s.append(action);
    s.append(": ");
    s.append(path);
    s
}

/// The argument of `chown`: `owner`, `:group` or `owner:group`; at least
/// one of them is needed.
pub fn chown_target(owner: &str, group: &str) -> (r: Result<String, Status>)
    ensures
        all_ws(owner@) && all_ws(group@) ==> (r matches Err(e) && e.code == Code::InvalidArgument
            && e.message@ == "owner or group is required"@),
        !all_ws(owner@) && all_ws(group@) ==> (r matches Ok(t) && t@ == owner@),
        all_ws(owner@) && !all_ws(group@) ==> (r matches Ok(t) && t@ == ":"@ + group@),
        !all_ws(owner@) && !all_ws(group@) ==> (r matches Ok(t) && t@ == owner@ + ":"@ + group@),
{
    if is_blank(owner) && is_blank(group) {
        return Err(Status::invalid_argument("owner or group is required"));
    }
    if is_blank(group) {
        Ok(owner.to_string())
    } else if is_blank(owner) {
        let mut t = ":".to_string();
        t.append(group);
        Ok(t)
    } else {
        let mut t = owner.to_string();
        t.append(":");
        t.append(group);
        Ok(t)
    }
}

/// The permission bits reported for a file.
pub fn permission_bits(mode: u32) -> (r: u32)
    ensures
        r == mode & 0o7777,
{
    mode & 0o7777
}

/// The kind of a file system entry.
#[derive(Clone, Copy, Debug, PartialEq, Eq, Structural)]
pub enum FileKind {
    File,
    Directory,
    Symlink,
    Other,
}

/// A link is reported as a link, before being a directory or a file.
pub fn file_kind(is_symlink: bool, is_dir: bool, is_file: bool) -> (r: FileKind)
    ensures
        is_symlink ==> r == FileKind::Symlink,
        !is_symlink && is_dir ==> r == FileKind::Directory,
        !is_symlink && !is_dir && is_file ==> r == FileKind::File,
        !is_symlink && !is_dir && !is_file ==> r == FileKind::Other,
{
    if is_symlink {
        FileKind::Symlink
    } else if is_dir {
        FileKind::Directory
    } else if is_file {
        FileKind::File
    } else {
        FileKind::Other
    }
}

/// The modification time of a file from how long ago it was modified; 0
/// when that is unknown.
pub fn modified_at(now: u64, elapsed: Option<u64>) -> (r: u64)
    ensures
        r == match elapsed { Some(e) => if now >= e { (now - e) as u64 } else { 0u64 }, None => 0u64 },
{
    match elapsed {
        Some(e) => now.saturating_sub(e),
        None => 0,
    }
}

/// How many matches a search returns: the request's maximum, between 1 and
/// 500.
pub fn search_limit(max_results: u32) -> (r: usize)
    ensures
        r == if max_results < 1 { 1 } else if max_results > 500 { 500 } else { max_results },
{
    if max_results < 1 { 1 } else if max_results > 500 { 500 } else { max_results as usize }
}

/// A plain search matches a line whose lower-case form contains the
/// lower-case query.
pub fn plain_line_matches(line: &str, query_lower: &str) -> (r: bool)
    ensures
        r == has_sub(unicode_lowercase(line@), query_lower@),
{
    let l = text_to_lowercase(line);
    contains(l.as_str(), query_lower)
}

/// The query of a plain search, in lower case.
pub fn plain_query(query: &str) -> (r: Result<String, Status>)
    ensures
        all_ws(query@) ==> (r matches Err(e) && e.code == Code::InvalidArgument && e.message@ == "search query is required"@),
        !all_ws(query@) ==> (r matches Ok(q) && q@ == unicode_lowercase(query@)),
{
    if is_blank(query) {
        return Err(Status::invalid_argument("search query is required"));
    }
    Ok(text_to_lowercase(query))
}

/// The part of a matching line that a search reports: its first 240
/// characters.
pub fn line_excerpt(line: &str) -> (r: String)
    ensures
        r@ == line@.take(if line@.len() < 240 { line@.len() as int } else { 240 }),
{
    let v = chars_of(line);
    let n = if v.len() < 240 { v.len() } else { 240 };
    string_of(&v, 0, n)
}

/// The formats an archive can be written in.
#[derive(Clone, Copy, Debug, PartialEq, Eq, Structural)]
pub enum ArchiveFormat {
    Zip,
    TarGz,
}

/// The format a request names (1 zip, 2 tar.gz); anything else is refused.
pub fn archive_format(format: i32) -> (r: Result<ArchiveFormat, Status>)
    ensures
        format == 1 ==> r == Ok::<ArchiveFormat, Status>(ArchiveFormat::Zip),
        format == 2 ==> r == Ok::<ArchiveFormat, Status>(ArchiveFormat::TarGz),
        format != 1 && format != 2 ==> (r matches Err(e) && e.code == Code::InvalidArgument
            && e.message@ == "archive format is required"@),
{
    if format == 1 {
        Ok(ArchiveFormat::Zip)
    } else if format == 2 {
        Ok(ArchiveFormat::TarGz)
    } else {
        Err(Status::invalid_argument("archive format is required"))
    }
}

/// An archive needs at least one source.
pub fn require_archive_sources(count: usize) -> (r: Result<(), Status>)
    ensures
        count == 0 ==> (r matches Err(e) && e.code == Code::InvalidArgument
            && e.message@ == "archive requires at least one source path"@),
        count > 0 ==> r is Ok,
{
    if count == 0 {
        return Err(Status::invalid_argument("archive requires at least one source path"));
    }
    Ok(())
}

/// The file system's answer for a requested path, as values.
pub open spec fn canonical_view(c: Result<String, String>) -> Result<Seq<char>, Seq<char>> {
    match c {
        Ok(p) => Ok(p@),
        Err(m) => Err(m@),
    }
}

/// The first refusal among the sources, in order: each source is a
/// requested path and what the file system gave when it resolved it,
/// checked as [`resolve_requested_spec`] says.
pub open spec fn source_failure(root: Seq<char>, sources: Seq<(String, Result<String, String>)>) -> Option<(Code, Seq<char>)>
    decreases sources.len(),
{
    if sources.len() == 0 {
        None
    } else {
        match resolve_requested_spec(root, sources[0].0@, canonical_view(sources[0].1)) {
            Err(e) => Some(e),
            Ok(_) => source_failure(root, sources.drop_first()),
        }
    }
}

/// The archive format that a request's number names.
pub open spec fn archive_format_spec(format: i32) -> Option<ArchiveFormat> {
    if format == 1 {
        Some(ArchiveFormat::Zip)
    } else if format == 2 {
        Some(ArchiveFormat::TarGz)
    } else {
        None
    }
}

/// The checks of an archive request, in the order they are made: at least
/// one source; every source (a requested path with what the file system
/// gave for it) safe and resolved under the root; the archive path safe (see
/// [`FileManager::requested_path`]) and its parent, resolved (`parent`),
/// under the root; a known format. The first failing check is the answer;
/// otherwise the resolved sources, the archive path and the format.
pub open spec fn archive_plan_spec(
    root: Seq<char>,
    sources: Seq<(String, Result<String, String>)>,
    path: Seq<char>,
    parent: Result<String, String>,
    format: i32,
) -> Result<(Seq<Seq<char>>, Seq<char>, ArchiveFormat), (Code, Seq<char>)> {
    if sources.len() == 0 {
        Err((Code::InvalidArgument, "archive requires at least one source path"@))
    } else if let Some(e) = source_failure(root, sources) {
        Err(e)
    } else if parts(path).contains(".."@) {
        Err((Code::InvalidArgument, "path traversal is not allowed"@))
    } else if parent is Err {
        Err((Code::Internal, parent->Err_0@))
    } else if !under_root(root, parent->Ok_0@) {
        Err((Code::PermissionDenied, "path escapes configured file root"@))
    } else if archive_format_spec(format) is None {
        Err((Code::InvalidArgument, "archive format is required"@))
    } else {
        Ok((
            Seq::new(sources.len(), |i: int| sources[i].1->Ok_0@),
            root + "/"@ + join(parts(path), "/"@),
            archive_format_spec(format)->0,
        ))
    }
}

impl FileManager {
    /// Checks an archive request once the file system has resolved its
    /// sources and the archive's parent directory, as
    /// [`archive_plan_spec`] orders the checks.
    pub fn archive_plan(
        &self,
        sources: &Vec<(String, Result<String, String>)>,
        archive_path: &str,
        archive_parent: Result<String, String>,
        format: i32,
    ) -> (r: Result<(Vec<String>, String, ArchiveFormat), Status>)
        ensures
            match archive_plan_spec(self.root@, sources@, archive_path@, archive_parent, format) {
                Ok((s, p, f)) => r matches Ok(x) && views(x.0@) == s && x.1@ == p && x.2 == f,
                Err((c, m)) => r matches Err(e) && e.code == c && e.message@ == m,
            },
    {
        require_archive_sources(sources.len())?;
        let mut resolved: Vec<String> = Vec::new();
        let mut i: usize = 0;
        assert(sources@.skip(0) =~= sources@);
        while i < sources.len()
            invariant
                i <= sources@.len(),
                sources@.len() > 0,
                source_failure(self.root@, sources@) == source_failure(self.root@, sources@.skip(i as int)),
                forall|j: int| 0 <= j < i ==> #[trigger] sources@[j].1 is Ok,
                views(resolved@) == Seq::new(i as nat, |j: int| sources@[j].1->Ok_0@),
            decreases sources@.len() - i,
        {
            assert(sources@.skip(i as int)[0] == sources@[i as int]);
            assert(sources@.skip(i as int).drop_first() =~= sources@.skip(i + 1));
            let canonical = match &sources[i].1 {
                Ok(p) => Ok(p.clone()),
                Err(m) => Err(m.clone()),
            };
            assert(canonical_view(canonical) == canonical_view(sources@[i as int].1));
            let p = self.resolve_requested(sources[i].0.as_str(), canonical)?;
            assert(sources@[i as int].1 is Ok);
            assert(sources@[i as int].1->Ok_0@ == p@);
            let ghost before = views(resolved@);
            resolved.push(p);
            assert(views(resolved@) =~= before.push(sources@[i as int].1->Ok_0@));
            assert(views(resolved@) =~= Seq::new((i + 1) as nat, |j: int| sources@[j].1->Ok_0@));
            i += 1;
        }
        assert(sources@.skip(i as int) =~= Seq::<(String, Result<String, String>)>::empty());
        let path = self.requested_path(archive_path)?;
        let path = self.resolve_for_write(path, archive_parent)?;
        let fmt = archive_format(format)?;
        Ok((resolved, path, fmt))
    }
}

/// The archive tasks that were started, by id.
pub struct ArchiveTasks {
    ids: StringHashSet,
}

impl View for ArchiveTasks {
    type V = Set<Seq<char>>;

    closed spec fn view(&self) -> Set<Seq<char>> {
        self.ids@
    }
}

impl ArchiveTasks {
    /// No task started yet.
    pub fn new() -> (r: Self)
        ensures
            r@ == Set::<Seq<char>>::empty(),
    {
        ArchiveTasks { ids: StringHashSet::new() }
    }

    /// Starts an archive task for a request: the request is checked as
    /// [`archive_plan_spec`] says, and only when every check passes is a
    /// task registered, under a fresh random id. The id and the checked
    /// sources, archive path and format come back for the job to run.
    pub fn create(
        &mut self,
        manager: &FileManager,
        sources: &Vec<(String, Result<String, String>)>,
        archive_path: &str,
        archive_parent: Result<String, String>,
        format: i32,
    ) -> (r: Result<(String, Vec<String>, String, ArchiveFormat), Status>)
        ensures
            match archive_plan_spec(manager.root@, sources@, archive_path@, archive_parent, format) {
                Ok((s, p, f)) => r matches Ok(t) && final(self)@ == old(self)@.insert(t.0@) && t.0@.len() == 36
                    && views(t.1@) == s && t.2@ == p && t.3 == f,
                Err((c, m)) => r matches Err(e) && e.code == c && e.message@ == m && final(self)@ == old(self)@,
            },
    {
        let (resolved, path, fmt) = manager.archive_plan(sources, archive_path, archive_parent, format)?;
        let id = new_uuid();
        self.ids.insert(id.clone());
        Ok((id, resolved, path, fmt))
    }

    /// Follows a task's progress: only a started task can be followed.
    pub fn subscribe(&self, id: &str) -> (r: Result<(), Status>)
        ensures
            self@.contains(id@) ==> r is Ok,
            !self@.contains(id@) ==> (r matches Err(e) && e.code == Code::NotFound && e.message@
                == "archive task not found"@),
    {
        if self.ids.contains(id) {
            Ok(())
        } else {
            Err(Status::new(Code::NotFound, "archive task not found"))
        }
    }
}

/// The state of an archive task.
#[derive(Clone, Copy, Debug, PartialEq, Eq, Structural)]
pub enum ArchiveTaskState {
    Running,
    Succeeded,
    Failed,
}

/// The progress reported when an archive task starts.
pub fn archive_started() -> (r: (ArchiveTaskState, u32, String))
    ensures
        r.0 == ArchiveTaskState::Running && r.1 == 5 && r.2@ == "running"@,
{
    (ArchiveTaskState::Running, 5, "running".to_string())
}

/// The progress reported when an archive task ends: done, or failed with
/// the error.
pub fn archive_finished(result: Result<(), String>) -> (r: (ArchiveTaskState, u32, String))
    ensures
        result is Ok ==> r.0 == ArchiveTaskState::Succeeded && r.1 == 100 && r.2@ == "archive created"@,
        result matches Err(m) ==> r.0 == ArchiveTaskState::Failed && r.1 == 100 && r.2@ == m@,
{
    match result {
        Ok(()) => (ArchiveTaskState::Succeeded, 100, "archive created".to_string()),
        Err(m) => (ArchiveTaskState::Failed, 100, m),
    }
}

/// The name of an entry in a zip archive: the relative path with `/`
/// separators, and a trailing `/` for a directory.
pub fn zip_entry_name(relative: &str, is_dir: bool) -> (r: String)
    ensures
        r@ == replace_char(relative@, '\\', "/"@) + if is_dir { "/"@ } else { Seq::<char>::empty() },
{
    let mut s = replace_char_str(relative, '\\', "/");
    if is_dir {
        s.append("/");
    }
    s
}

/// The name a source takes in a tar.gz archive: its file name, or
/// `archive` when it has none.
pub fn tar_entry_name(source: &str) -> (r: String)
    ensures
        r@ == match file_name_spec(source@) { Some(n) => n, None => "archive"@ },
{
    match file_name(source) {
        Some(n) => n,
        None => "archive".to_string(),
    }
}

} // verus!
