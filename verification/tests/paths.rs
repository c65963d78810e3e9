use exum::path::{compile, extract_params, join_path, normalize_one, normalize_path};
use exum::percent::{encode_segment, path_safe};
use percent_encoding::percent_decode_str;

fn strings(items: &[&str]) -> Vec<String> {
    items.iter().map(|s| s.to_string()).collect()
}

#[test]
fn compile_root() {
    assert_eq!(compile(""), ("/".to_string(), Vec::<String>::new()));
    assert_eq!(compile("/"), ("/".to_string(), Vec::<String>::new()));
    assert_eq!(compile("///"), ("/".to_string(), Vec::<String>::new()));
}

#[test]
fn colon_and_brace_forms_compile_identically() {
    assert_eq!(normalize_path("/a/:id"), "/a/{id}");
    assert_eq!(normalize_path("/a/{id}"), "/a/{id}");
    assert_eq!(compile("/a/:id"), compile("/a/{id}"));
    assert_eq!(compile("/a/:id").1, strings(&["id"]));
    assert_eq!(compile("/users/:uid/posts/{pid}"), compile("/users/{uid}/posts/:pid"));
    assert_eq!(compile("/users/:uid/posts/{pid}").1, strings(&["uid", "pid"]));
}

#[test]
fn wildcard_forms() {
    assert_eq!(normalize_path("/files/*rest"), "/files/{*rest}");
    assert_eq!(normalize_path("/files/**rest"), "/files/{**rest}");
    assert_eq!(normalize_path("/files/{*rest}"), "/files/{*rest}");
    assert_eq!(normalize_path("/*"), "/{*}");
    assert_eq!(extract_params("/files/{*rest}"), strings(&["rest"]));
    assert_eq!(extract_params("/files/{**rest}"), strings(&["rest"]));
    assert_eq!(extract_params("/files/{***rest}"), strings(&["rest"]));
    assert_eq!(compile("/files/*rest"), compile("/files/{*rest}"));
    assert_eq!(compile("/files/**rest"), compile("/files/{**rest}"));
}

#[test]
fn empty_segments_are_dropped() {
    assert_eq!(normalize_path("//a"), "/a");
    assert_eq!(normalize_path("/a"), "/a");
    assert_eq!(normalize_path("a/b"), "/a/b");
    assert_eq!(normalize_path("/a//b/"), "/a/b");
}

#[test]
fn colon_without_a_name_stays() {
    assert_eq!(normalize_path("/:"), "/:");
    assert_eq!(normalize_path("/: "), "/: ");
    assert_eq!(normalize_one(":"), ":");
    assert_eq!(normalize_path("/: id "), "/{id}");
    assert_eq!(normalize_path("/:\u{3000}id\u{a0}"), "/{id}");
}

#[test]
fn literal_segments_are_percent_encoded() {
    assert_eq!(normalize_path("/a b"), "/a%20b");
    assert_eq!(normalize_path("/a.b"), "/a%2Eb");
    assert_eq!(normalize_path("/a_b-c9"), "/a_b-c9");
    assert_eq!(normalize_path("/\u{fc}"), "/%C3%BC");
    assert_eq!(normalize_path("/\u{4f60}\u{597d}"), "/%E4%BD%A0%E5%A5%BD");
    assert_eq!(normalize_path("/a}"), "/a%7D");
    assert_eq!(normalize_path("/{a"), "/%7Ba");
    assert_eq!(encode_segment("100%"), "100%25");
    assert_eq!(encode_segment("\u{1f600}"), "%F0%9F%98%80");
}

#[test]
fn path_safe_bytes() {
    for b in 0u8..=255 {
        let expected = b.is_ascii_alphanumeric() || b == b'/' || b == b'_' || b == b'-';
        assert_eq!(path_safe(b), expected);
    }
}

#[test]
fn literal_segments_round_trip() {
    for literal in ["a b", "100%", "caf\u{e9}", "x+y=z", "\u{4f60}\u{597d}", "a.b,c;d", "%41"] {
        let compiled = normalize_path(&format!("/{}", literal));
        let decoded = percent_decode_str(&compiled).decode_utf8().unwrap().to_string();
        assert_eq!(decoded, format!("/{}", literal));
    }
}

#[test]
fn extract_params_in_order() {
    assert_eq!(extract_params("/a/{id}/b/{*rest}"), strings(&["id", "rest"]));
    assert_eq!(extract_params("/a/b"), Vec::<String>::new());
    assert_eq!(extract_params("/{}"), strings(&[""]));
    assert_eq!(extract_params("/{"), Vec::<String>::new());
    assert_eq!(extract_params("{a}/{b}"), strings(&["a", "b"]));
}

#[test]
fn join_path_adds_one_slash() {
    assert_eq!(join_path("/api", "users"), "/api/users");
    assert_eq!(join_path("/api/", "users"), "/api/users");
    assert_eq!(join_path("/api", "/users"), "/api/users");
    assert_eq!(join_path("/api/", "/users"), "/api//users");
    assert_eq!(join_path("", ""), "/");
    assert_eq!(join_path("", "/x"), "/x");
}
