use rustpanel_core::web::{deploy_site_name, deploy_upload_file_name, is_archive_field, previous_backup_text, site_not_found_message, staging_dir};
use rustpanel_core::web::{
    asset_reply, etag_for, fallback_asset, accepts_gzip, cache_control, extract_token, is_grpc_content_type, normalize_path, request_matches_etag,
    sanitize_upload_name, should_fallback_to_spa, urlencoding_decode, use_compressed,
};

#[test]
fn extract_http_token_supports_header_and_query() {
    // /api/monitor/status with a bearer header
    assert_eq!(extract_token(Some("Bearer abc.def.ghi"), None).as_deref(), Some("abc.def.ghi"));

    // /api/terminal/ws?cwd=/&token=qrs.tuv.wxy
    assert_eq!(extract_token(None, Some("cwd=/&token=qrs.tuv.wxy")).as_deref(), Some("qrs.tuv.wxy"));

    // /api/monitor/status without either
    assert!(extract_token(None, None).is_none());
}

#[test]
fn grpc_detection_uses_content_type() {
    assert!(is_grpc_content_type("application/grpc+proto"));
    assert!(is_grpc_content_type("application/grpc-web+proto"));
    assert!(!is_grpc_content_type("application/json"));
}

#[test]
fn header_token_wins_and_query_values_are_decoded() {
    assert_eq!(extract_token(Some("Bearer h"), Some("token=q")).as_deref(), Some("h"));
    assert_eq!(extract_token(Some("Basic abc"), Some("token=a%2Eb+c")).as_deref(), Some("a.b c"));
    assert_eq!(extract_token(Some("Bearer    "), Some("token=&token=x")).as_deref(), Some("x"));
    assert_eq!(urlencoding_decode("%41%zz"), "A%zz");
}

#[test]
fn upload_names_and_paths() {
    assert_eq!(sanitize_upload_name("my file (1).txt"), "my_file__1_.txt");
    assert!(!normalize_path("/assets/app.js").is_empty());
    assert!(should_fallback_to_spa("/dashboard"));
    assert!(!should_fallback_to_spa("/missing.png"));
    assert!(!cache_control("/index.html").is_empty());
}

#[test]
fn etags_and_compression_choices() {
    assert!(request_matches_etag(Some("\"abc\""), "\"abc\""));
    assert!(!request_matches_etag(Some("\"old\""), "\"abc\""));
    assert!(!request_matches_etag(None, "\"abc\""));
    assert!(accepts_gzip(Some("gzip, deflate")));
    assert!(!accepts_gzip(None));
    assert!(use_compressed(4096, true, 1000));
    assert!(!use_compressed(4096, false, 1000));
}

fn index_etag() -> String {
    let mut hash = [0u8; 32];
    for (i, b) in hash.iter_mut().enumerate() {
        *b = i as u8;
    }
    etag_for(&hash)
}

#[test]
fn root_serves_index_html() {
    let path = normalize_path("/");
    assert_eq!(path, "index.html");
    let reply = asset_reply(&path, index_etag(), None);
    assert_eq!(reply.status, 200);
}

#[test]
fn spa_route_falls_back_to_index_html() {
    let path = normalize_path("/dashboard/overview");
    let served = fallback_asset(&path).expect("spa fallback");
    assert_eq!(served, "index.html");
    let reply = asset_reply(served, index_etag(), None);
    assert_eq!(reply.status, 200);
    assert_eq!(reply.cache_control, "no-cache");
}

#[test]
fn missing_asset_with_extension_returns_not_found() {
    let path = normalize_path("/missing.js");
    assert!(fallback_asset(&path).is_none());
}

#[test]
fn matching_etag_returns_304_without_body() {
    let first = asset_reply("index.html", index_etag(), None);
    let second = asset_reply("index.html", index_etag(), Some(&first.etag));
    assert_eq!(second.status, 304);
    assert!(!second.vary_encoding);
}

#[test]
fn stale_etag_still_serves_body() {
    let reply = asset_reply("index.html", index_etag(), Some("\"deadbeef\""));
    assert_eq!(reply.status, 200);
}

#[test]
fn etag_is_quoted_hex_of_the_first_sixteen_bytes() {
    assert_eq!(index_etag(), "\"000102030405060708090a0b0c0d0e0f\"");
    assert!(request_matches_etag(Some("W/\"x\", *"), "\"y\""));
}

#[test]
fn site_deploy_names_and_checks() {
    assert_eq!(deploy_site_name("  blog ").unwrap(), "blog");
    assert_eq!(deploy_site_name("   ").unwrap_err(), "name is required");
    assert_eq!(site_not_found_message("blog"), "site `blog` not found or has no webroot configured");
    assert_eq!(deploy_upload_file_name("blog", 42), "rustpanel-deploy-blog-42.zip");
    assert!(is_archive_field(Some("site.zip"), Some("file")));
    assert!(is_archive_field(None, Some("archive")));
    assert!(!is_archive_field(None, Some("other")));
    assert!(!is_archive_field(None, None));
    assert_eq!(staging_dir("/var/www/blog", 7), "/var/www/blog.staging-7");
    assert_eq!(staging_dir("/var/www/example.com", 7), "/var/www/example.staging-7");
    assert_eq!(staging_dir("/var/www/blog/", 7), "/var/www/blog.staging-7");
    assert_eq!(staging_dir("/var/www/.hidden", 7), "/var/www/.hidden.staging-7");
    assert_eq!(staging_dir("/var/www/blog/.", 7), "/var/www/blog.staging-7");
    assert_eq!(staging_dir("/", 7), "/");
    assert_eq!(staging_dir("/var/..", 7), "/var/..");
    for webroot in ["/var/www/blog", "/srv/a.b.c", "rel/dir/", "/x/y.", "/srv/a b/c.d/"] {
        let expected = std::path::Path::new(webroot).with_extension("staging-7");
        assert_eq!(staging_dir(webroot, 7), expected.to_string_lossy());
    }
    assert_eq!(previous_backup_text(true, "/var/www/blog.bak".to_owned()), "/var/www/blog.bak");
    assert_eq!(previous_backup_text(false, "/var/www/blog.bak".to_owned()), "");
}
