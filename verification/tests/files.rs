use exum::files::{
    content_type, content_type_of, join_under, normal_components, safe_components,
    StaticFileService, StaticFileServiceBuilder,
};

fn strings(items: &[&str]) -> Vec<String> {
    items.iter().map(|s| s.to_string()).collect()
}

#[test]
fn request_path_stays_under_root() {
    let service = StaticFileService::new("/srv/www".to_string(), false);
    assert_eq!(service.resolve_path("/css/site.css"), "/srv/www/css/site.css");
    assert_eq!(service.resolve_path("/../../etc/passwd"), "/srv/www/etc/passwd");
    assert_eq!(service.resolve_path("/a/./b/../c"), "/srv/www/a/b/c");
    assert_eq!(service.resolve_path("/%2e%2e/%2E%2E/secret"), "/srv/www/secret");
    assert_eq!(service.resolve_path("/a%2Fb"), "/srv/www/a/b");
    assert_eq!(service.resolve_path("/"), "/srv/www");
    assert_eq!(service.resolve_path(""), "/srv/www");
    assert_eq!(service.resolve_path("//x//"), "/srv/www/x");
}

#[test]
fn request_path_is_percent_decoded() {
    assert_eq!(safe_components("/a%20b/%41"), strings(&["a b", "A"]));
    assert_eq!(safe_components("/%E4%BD%A0%E5%A5%BD"), strings(&["\u{4f60}\u{597d}"]));
    assert_eq!(safe_components("/100%/%zz"), strings(&["100%", "%zz"]));
    assert_eq!(safe_components("/%ff"), strings(&["\u{fffd}"]));
    assert_eq!(safe_components("/..."), strings(&["..."]));
}

#[test]
fn only_normal_segments_are_kept() {
    assert_eq!(normal_components("/a/./b/../c//"), strings(&["a", "b", "c"]));
    assert_eq!(normal_components("../.."), Vec::<String>::new());
    assert_eq!(normal_components(""), Vec::<String>::new());
    assert_eq!(normal_components("%2e%2e/x"), strings(&["%2e%2e", "x"]));
    assert_eq!(normal_components(".../..a/.b"), strings(&["...", "..a", ".b"]));
}

#[test]
fn join_under_root() {
    assert_eq!(join_under("/srv/", &strings(&["a", "b"])), "/srv/a/b");
    assert_eq!(join_under("", &strings(&["a"])), "/a");
    assert_eq!(join_under("rel", &vec![]), "rel");
}

#[test]
fn fallback_adds_the_index_file() {
    let plain = StaticFileService::new("/srv".to_string(), false);
    assert!(!plain.spa_fallback());
    assert_eq!(plain.root(), "/srv");
    assert_eq!(plain.root, "/srv");
    assert_eq!(plain.candidates("/app/page"), strings(&["/srv/app/page"]));
    let spa = StaticFileService::new("/srv".to_string(), true);
    assert!(spa.spa_fallback());
    assert_eq!(spa.candidates("/app/page"), strings(&["/srv/app/page", "/srv/index.html"]));
}

#[test]
fn builder_sets_the_fallback() {
    let service = StaticFileService::builder("./site".to_string()).build();
    assert_eq!(service.root, "./site");
    assert!(!service.spa_fallback());
    let service = StaticFileServiceBuilder::new("./site".to_string()).with_spa_fallback(true).build();
    assert!(service.spa_fallback());
    let service = StaticFileServiceBuilder::new("./site".to_string())
        .with_spa_fallback(true)
        .with_spa_fallback(false)
        .build();
    assert!(!service.spa_fallback());
}

#[test]
fn text_is_sent_as_utf8() {
    assert_eq!(content_type("/srv/index.html"), "text/html; charset=utf-8");
    assert_eq!(content_type("notes.TXT"), "text/plain; charset=utf-8");
    assert_eq!(content_type("logo.png"), "image/png");
    assert_eq!(content_type("data.json"), "application/json");
    assert_eq!(content_type("README"), "application/octet-stream");
    assert_eq!(content_type(""), "application/octet-stream");
    assert_eq!(content_type_of("text/css", "text"), "text/css; charset=utf-8");
    assert_eq!(content_type_of("image/png", "image"), "image/png");
    assert_eq!(content_type_of("text/css", "TEXT"), "text/css");
}
