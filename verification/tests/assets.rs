use bevy_webgate::assets::{
    sanitize_path, cache_control_for, content_type_for_extension, file_extension, is_static_extension_in,
    WebStaticFileExtensions,
};

#[test]
fn default_extensions() {
    let e = WebStaticFileExtensions::new();
    for ext in ["css", "js", "png", "jpg", "jpeg", "gif", "svg", "ico", "woff", "woff2", "ttf", "eot", "pdf", "webp", "avif"] {
        assert!(e.contains(ext), "{}", ext);
    }
    assert!(!e.contains("html"));
    assert!(!e.contains(".css"));
}

#[test]
fn editing_extensions() {
    let mut e = WebStaticFileExtensions::with_extensions(vec!["html".to_string(), "htm".to_string(), "html".to_string()]);
    assert!(e.contains("html"));
    assert!(e.contains("htm"));
    assert!(!e.contains("css"));
    e.add_extension("css".to_string());
    assert!(e.contains("css"));
    e.add_extension("css".to_string());
    e.remove_extension("css");
    assert!(!e.contains("css"));
    e.remove_extension("html");
    assert!(!e.contains("html"));
    assert!(e.contains("htm"));
    e.clear();
    assert!(!e.contains("htm"));
}

#[test]
fn static_asset_rules() {
    let custom = WebStaticFileExtensions::with_extensions(vec!["txt".to_string()]);
    assert!(is_static_extension_in(Some("css"), None));
    assert!(!is_static_extension_in(Some("txt"), None));
    assert!(is_static_extension_in(Some("txt"), Some(&custom)));
    assert!(!is_static_extension_in(Some("css"), Some(&custom)));
    assert!(!is_static_extension_in(None, None));
    assert!(WebStaticFileExtensions::is_static_asset("assets/site.css", None));
    assert!(!WebStaticFileExtensions::is_static_asset("assets/index.html", None));
    assert!(!WebStaticFileExtensions::is_static_asset("assets/README", None));
    assert!(!WebStaticFileExtensions::is_static_asset("styles.css/readme", None));
    assert!(!WebStaticFileExtensions::is_static_asset(".css", None));
    assert!(WebStaticFileExtensions::is_static_asset("notes.txt", Some(&custom)));
}

#[test]
fn extensions_and_content_types() {
    assert_eq!(file_extension("a/b.txt"), Some("txt".to_string()));
    assert_eq!(file_extension("archive.tar.gz"), Some("gz".to_string()));
    assert_eq!(file_extension("README"), None);
    assert_eq!(file_extension(".hidden"), None);
    assert_eq!(file_extension("site.v2/notes"), None);
    assert_eq!(file_extension("dir/.profile.bak"), Some("bak".to_string()));
    assert_eq!(file_extension("trailing."), Some("".to_string()));
    assert_eq!(file_extension("/srv/www/a.css"), Some("css".to_string()));
    assert_eq!(file_extension("dir/style.css/"), Some("css".to_string()));
    assert_eq!(file_extension("dir/a:b.css"), Some("css".to_string()));
    assert_eq!(file_extension("a/b.css/."), Some("css".to_string()));
    assert_eq!(file_extension("a//b.tar.gz"), Some("gz".to_string()));
    assert_eq!(file_extension("a/b.css/.."), None);
    assert_eq!(file_extension("./"), None);
    assert_eq!(file_extension("/"), None);
    assert_eq!(file_extension(""), None);
    assert_eq!(content_type_for_extension(Some("html")), "text/html");
    assert_eq!(content_type_for_extension(Some("css")), "text/css");
    assert_eq!(content_type_for_extension(Some("png")), "image/png");
    assert_eq!(content_type_for_extension(Some("nope-not-a-type")), "application/octet-stream");
    assert_eq!(content_type_for_extension(None), "application/octet-stream");
    assert_eq!(cache_control_for(true), Some("public, max-age=3600".to_string()));
    assert_eq!(cache_control_for(false), None);
}

#[test]
fn sanitize_path_drops_parent_segments() {
    assert_eq!(sanitize_path("examples/assets/index.html"), "examples/assets/index.html");
    assert_eq!(sanitize_path("examples/../../etc/passwd"), "examples/etc/passwd");
    assert_eq!(sanitize_path(".."), "");
    assert_eq!(sanitize_path("/a/./b"), "/a/./b");
    assert_eq!(sanitize_path("a/..b/c"), "a/..b/c");
    assert_eq!(sanitize_path(""), "");
}

#[test]
fn default_matches_new() {
    let d = WebStaticFileExtensions::default();
    assert!(d.contains("woff2"));
    assert!(d.contains("avif"));
    assert!(!d.contains("txt"));
}

#[test]
fn clone_keeps_the_set() {
    let mut e = WebStaticFileExtensions::with_extensions(vec!["a".to_string(), "b".to_string()]);
    let c = e.clone();
    e.remove_extension("a");
    assert!(c.contains("a"));
    assert!(c.contains("b"));
    assert!(!e.contains("a"));
}

#[test]
fn size_and_listing_of_the_set() {
    let mut e = WebStaticFileExtensions::with_extensions(vec!["a".to_string(), "b".to_string(), "a".to_string()]);
    assert_eq!(e.len(), 2);
    assert!(!e.is_empty());
    let mut listed = e.iter();
    listed.sort();
    assert_eq!(listed, vec!["a".to_string(), "b".to_string()]);
    assert_eq!(WebStaticFileExtensions::new().len(), 15);
    assert!(WebStaticFileExtensions::is_static_asset("/srv/www/site.css", None));
    assert!(WebStaticFileExtensions::is_static_asset("dir/a:b.css", None));
    assert!(WebStaticFileExtensions::is_static_asset("assets/site.css/", None));
    assert!(!WebStaticFileExtensions::is_static_asset("assets/site.css/..", None));
    e.clear();
    assert!(e.is_empty());
    assert_eq!(e.len(), 0);
}
