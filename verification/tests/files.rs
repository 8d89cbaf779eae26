use rustpanel_core::security::normalize_panel_access_path;
use rustpanel_core::status::Code;
use rustpanel_core::files::{
    ensure_inside_root, line_excerpt, plain_line_matches, plain_query, safe_relative_path, FileManager,
};

#[test]
fn rejects_parent_path_components() {
    let result = safe_relative_path("../etc/passwd");
    assert!(result.is_err());
}

#[test]
fn relative_paths_drop_root_and_dot_steps() {
    assert_eq!(safe_relative_path("/var/./www//site/").expect("path"), "var/www/site");
    assert_eq!(safe_relative_path("/").expect("root"), "");
    assert!(safe_relative_path("a/../b").is_err());
}

#[test]
fn paths_must_stay_under_the_root() {
    assert!(ensure_inside_root("/srv/data", "/srv/data/x/y").is_ok());
    assert!(ensure_inside_root("/srv/data", "/srv/data").is_ok());
    assert!(ensure_inside_root("/srv/data", "/srv/database").is_err());
    assert!(ensure_inside_root("/srv/data", "/etc").is_err());
}

#[test]
fn public_paths_are_relative_to_the_root() {
    let manager = FileManager::with_roots("/srv/data", "/tmp/state");
    assert_eq!(manager.public_path("/srv/data/a/b.txt"), "/a/b.txt");
    assert_eq!(manager.public_path("/srv/data"), "/");
    assert_eq!(manager.public_path("/etc/passwd"), "/etc/passwd");
    assert_eq!(manager.requested_path("../x").is_err(), true);
    assert_eq!(manager.requested_path("/a/b").expect("path"), "/srv/data/a/b");
}

#[test]
fn resolves_path_inside_root() {
    let manager = FileManager::with_roots("/srv/files", "/var/lib/rustpanel/files");
    let requested = manager.requested_path("docs/readme.txt").expect("requested");
    assert_eq!(requested, "/srv/files/docs/readme.txt");
    let resolved = manager.resolve_existing(Ok(requested.clone())).expect("inside root");
    assert_eq!(resolved, requested);
    assert_eq!(manager.public_path(&resolved), "/docs/readme.txt");

    let target = manager.requested_path("rustpanel-test-file.txt").expect("requested");
    let path = manager.resolve_for_write(target, Ok("/srv/files".to_owned()));
    assert!(path.is_ok());
}

#[test]
fn searches_plain_and_regex_content() {
    // app.log holds "alpha\nerror: failed\n"; a plain search ignores case.
    let content = "alpha\nerror: failed\n";
    let query = plain_query("ERROR").expect("query");
    let hits: Vec<(usize, &str)> = content
        .lines()
        .enumerate()
        .filter(|(_, line)| plain_line_matches(line, &query))
        .map(|(i, line)| (i + 1, line))
        .collect();

    assert_eq!(hits.len(), 1);
    assert_eq!(hits[0].0, 2);
    assert_eq!(line_excerpt(hits[0].1), "error: failed");
}

#[test]
fn resolution_refuses_escapes_and_reports_io_errors() {
    let manager = FileManager::with_roots("/srv/files", "/state");
    let escaped = manager.resolve_existing(Ok("/etc/passwd".to_owned())).unwrap_err();
    assert_eq!(escaped.message, "path escapes configured file root");
    let missing = manager.resolve_existing(Err("No such file or directory".to_owned())).unwrap_err();
    assert_eq!(missing.message, "No such file or directory");
    let write = manager.resolve_for_write("/srv/files/new.txt".to_owned(), Ok("/srv/files".to_owned()));
    assert_eq!(write.expect("parent inside"), "/srv/files/new.txt");
    assert!(manager.resolve_for_write("/x/new.txt".to_owned(), Ok("/x".to_owned())).is_err());
}

#[test]
fn archive_requests_are_checked_in_order() {
    let m = FileManager::with_roots("/srv/files", "/srv/state");
    let none: Vec<(String, Result<String, String>)> = Vec::new();
    let e = m.archive_plan(&none, "out.zip", Ok("/srv/files".to_owned()), 1).unwrap_err();
    assert_eq!(e.code, Code::InvalidArgument);
    assert_eq!(e.message, "archive requires at least one source path");

    let outside = vec![("a".to_owned(), Ok("/srv/files/a".to_owned())), ("link".to_owned(), Ok("/etc".to_owned()))];
    let e = m.archive_plan(&outside, "../out.zip", Ok("/srv/files".to_owned()), 0).unwrap_err();
    assert_eq!(e.code, Code::PermissionDenied);

    let missing = vec![("gone".to_owned(), Err("no such file".to_owned()))];
    let e = m.archive_plan(&missing, "out.zip", Ok("/srv/files".to_owned()), 1).unwrap_err();
    assert_eq!(e.code, Code::Internal);
    assert_eq!(e.message, "no such file");

    let traversal = vec![("a/../../etc".to_owned(), Ok("/etc".to_owned()))];
    let e = m.archive_plan(&traversal, "out.zip", Ok("/srv/files".to_owned()), 1).unwrap_err();
    assert_eq!(e.code, Code::InvalidArgument);
    assert_eq!(e.message, "path traversal is not allowed");

    let good = vec![("a".to_owned(), Ok("/srv/files/a".to_owned()))];
    let e = m.archive_plan(&good, "../out.zip", Ok("/srv/files".to_owned()), 0).unwrap_err();
    assert_eq!(e.message, "path traversal is not allowed");
    let e = m.archive_plan(&good, "out.zip", Ok("/tmp".to_owned()), 0).unwrap_err();
    assert_eq!(e.code, Code::PermissionDenied);
    let e = m.archive_plan(&good, "out.zip", Ok("/srv/files".to_owned()), 7).unwrap_err();
    assert_eq!(e.message, "archive format is required");

    let (sources, path, format) = m.archive_plan(&good, "out.zip", Ok("/srv/files".to_owned()), 2).expect("plan");
    assert_eq!(sources, vec!["/srv/files/a".to_owned()]);
    assert_eq!(path, "/srv/files/out.zip");
    assert_eq!(format, rustpanel_core::files::ArchiveFormat::TarGz);
}

#[test]
fn public_paths_lead_back_to_their_path() {
    let m = FileManager::with_roots("/srv/files", "/srv/state");
    let public = m.public_path("/srv/files/a/b.txt");
    assert_eq!(public, "/a/b.txt");
    assert_eq!(m.requested_path(&public).expect("requested"), "/srv/files/a/b.txt");
    assert_eq!(m.public_path("/srv/files"), "/");
    assert_eq!(m.requested_path("/").expect("requested"), "/srv/files/");
    assert_eq!(m.public_path("/etc/passwd"), "/etc/passwd");
}

#[test]
fn panel_paths_normalize_once() {
    for raw in ["/secure/", " /a/b/ ", "", "/"] {
        let once = normalize_panel_access_path(raw).expect("path");
        assert_eq!(normalize_panel_access_path(&once).expect("again"), once);
    }
}

#[test]
fn requests_are_refused_before_resolution_and_checked_after() {
    let m = FileManager::with_roots("/srv/files", "/srv/state");
    let e = m.resolve_requested("../etc", Ok("/etc".to_owned())).unwrap_err();
    assert_eq!(e.code, Code::InvalidArgument);
    assert_eq!(e.message, "path traversal is not allowed");
    let e = m.resolve_requested("a", Err("No such file or directory".to_owned())).unwrap_err();
    assert_eq!(e.code, Code::Internal);
    let e = m.resolve_requested("link", Ok("/etc/passwd".to_owned())).unwrap_err();
    assert_eq!(e.code, Code::PermissionDenied);
    assert_eq!(m.resolve_requested("a/b", Ok("/srv/files/a/b".to_owned())).unwrap(), "/srv/files/a/b");
    let p = "/srv/files/a/b";
    assert_eq!(m.resolve_requested(&m.public_path(p), Ok(p.to_owned())).unwrap(), p);
}

#[test]
fn archive_tasks_are_registered_only_for_checked_requests() {
    let m = FileManager::with_roots("/srv/files", "/srv/state");
    let mut tasks = rustpanel_core::files::ArchiveTasks::new();
    let bad = vec![("../x".to_owned(), Err("unused".to_owned()))];
    let e = tasks.create(&m, &bad, "out.zip", Ok("/srv/files".to_owned()), 1).unwrap_err();
    assert_eq!(e.code, Code::InvalidArgument);
    let good = vec![("a".to_owned(), Ok("/srv/files/a".to_owned()))];
    let (id, sources, path, _) = tasks.create(&m, &good, "out.zip", Ok("/srv/files".to_owned()), 1).expect("task");
    assert_eq!(id.len(), 36);
    assert_eq!(sources, vec!["/srv/files/a".to_owned()]);
    assert_eq!(path, "/srv/files/out.zip");
    assert!(tasks.subscribe(&id).is_ok());
    let missing = tasks.subscribe("no-such-task").unwrap_err();
    assert_eq!(missing.code, Code::NotFound);
    assert_eq!(missing.message, "archive task not found");
}
