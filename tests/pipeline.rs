use sonic_wave::config::Config;
use sonic_wave::headers::HeaderList;
use sonic_wave::pipeline::{
    apply_cache_control, apply_embedder_policy, apply_opener_policy, decorate_response,
};
use sonic_wave::policy::{is_html_like, CacheControl};

const ASSET: &str = "public, max-age=31536000, immutable";
const HTML: &str = "no-cache, must-revalidate";

fn values(h: &HeaderList, name: &str) -> Vec<String> {
    h.entries
        .iter()
        .filter(|e| e.0 == name)
        .map(|e| String::from_utf8(e.1.clone()).unwrap())
        .collect()
}

fn default_policies() -> CacheControl {
    Config::default().cache_policies()
}

fn decorated(path: &str, start: HeaderList) -> HeaderList {
    let mut h = start;
    decorate_response(&mut h, path, &default_policies());
    h
}

#[test]
fn classifies_document_paths() {
    assert!(is_html_like("/index.html"));
    assert!(is_html_like("/"));
    assert!(is_html_like("/docs/"));
    assert!(is_html_like("/dashboard"));
    assert!(is_html_like(""));
    assert!(is_html_like("/v1.2/"));
}

#[test]
fn classifies_asset_paths() {
    assert!(!is_html_like("/assets/app.js"));
    assert!(!is_html_like("/style.css"));
    assert!(!is_html_like("/missing/file.png"));
    assert!(!is_html_like("/page.htm"));
    assert!(!is_html_like("/index.html.gz"));
}

#[test]
fn index_html_gets_document_policy() {
    let h = decorated("/index.html", HeaderList::new());
    assert_eq!(values(&h, "cache-control"), vec![HTML.to_string()]);
}

#[test]
fn script_gets_asset_policy() {
    let h = decorated("/assets/app.js", HeaderList::new());
    assert_eq!(values(&h, "cache-control"), vec![ASSET.to_string()]);
}

#[test]
fn extensionless_route_gets_document_policy() {
    let h = decorated("/dashboard", HeaderList::new());
    assert_eq!(values(&h, "cache-control"), vec![HTML.to_string()]);
}

#[test]
fn trailing_slash_gets_document_policy() {
    let h = decorated("/docs/", HeaderList::new());
    assert_eq!(values(&h, "cache-control"), vec![HTML.to_string()]);
}

#[test]
fn not_found_response_still_decorated() {
    let mut start = HeaderList::new();
    start.append("content-length".to_string(), b"0".to_vec());
    let h = decorated("/missing/file.png", start);
    assert_eq!(values(&h, "cross-origin-opener-policy"), vec!["same-origin".to_string()]);
    assert_eq!(values(&h, "cross-origin-embedder-policy"), vec!["require-corp".to_string()]);
    assert_eq!(values(&h, "cache-control"), vec![ASSET.to_string()]);
    assert_eq!(values(&h, "content-length"), vec!["0".to_string()]);
    assert_eq!(h.len(), 4);
}

#[test]
fn existing_opener_policy_is_kept() {
    let mut start = HeaderList::new();
    start.append("cross-origin-opener-policy".to_string(), b"unsafe-none".to_vec());
    let h = decorated("/index.html", start);
    assert_eq!(values(&h, "cross-origin-opener-policy"), vec!["unsafe-none".to_string()]);
    assert_eq!(values(&h, "cross-origin-embedder-policy"), vec!["require-corp".to_string()]);
}

#[test]
fn existing_embedder_policy_is_kept() {
    let mut start = HeaderList::new();
    start.append("cross-origin-embedder-policy".to_string(), b"credentialless".to_vec());
    start.append("cross-origin-embedder-policy".to_string(), b"unsafe-none".to_vec());
    let h = decorated("/a.js", start);
    assert_eq!(
        values(&h, "cross-origin-embedder-policy"),
        vec!["credentialless".to_string(), "unsafe-none".to_string()]
    );
    assert_eq!(values(&h, "cross-origin-opener-policy"), vec!["same-origin".to_string()]);
}

#[test]
fn cache_control_overwrites_responder_value() {
    let mut start = HeaderList::new();
    start.append("cache-control".to_string(), b"max-age=5".to_vec());
    start.append("cache-control".to_string(), b"private".to_vec());
    let h = decorated("/app.css", start);
    assert_eq!(values(&h, "cache-control"), vec![ASSET.to_string()]);
}

#[test]
fn invalid_policy_leaves_cache_control_alone() {
    let cache = CacheControl::new("bad\nvalue".to_string(), HTML.to_string());
    let mut h = HeaderList::new();
    h.append("cache-control".to_string(), b"max-age=5".to_vec());
    apply_cache_control(&mut h, "/app.js", &cache);
    assert_eq!(values(&h, "cache-control"), vec!["max-age=5".to_string()]);
    apply_cache_control(&mut h, "/index.html", &cache);
    assert_eq!(values(&h, "cache-control"), vec![HTML.to_string()]);
}

#[test]
fn delete_character_is_not_a_header_value() {
    let cache = CacheControl::uniform("no\u{7f}store".to_string());
    let mut h = HeaderList::new();
    apply_cache_control(&mut h, "/", &cache);
    assert_eq!(h.len(), 0);
}

#[test]
fn tab_and_non_ascii_are_header_values() {
    let cache = CacheControl::uniform("max-age=1,\tprivate é".to_string());
    let mut h = HeaderList::new();
    apply_cache_control(&mut h, "/x.png", &cache);
    assert_eq!(values(&h, "cache-control"), vec!["max-age=1,\tprivate é".to_string()]);
}

#[test]
fn uniform_policy_applies_to_every_path() {
    let cache = CacheControl::uniform("no-store".to_string());
    for path in ["/index.html", "/app.js", "/dashboard", "/img/a.png", "/"] {
        let mut h = HeaderList::new();
        decorate_response(&mut h, path, &cache);
        assert_eq!(values(&h, "cache-control"), vec!["no-store".to_string()]);
    }
}

#[test]
fn decorating_twice_changes_nothing() {
    for path in ["/index.html", "/assets/app.js", "/dashboard"] {
        let mut start = HeaderList::new();
        start.append("content-type".to_string(), b"text/html".to_vec());
        let once = decorated(path, start);
        let mut twice = HeaderList { entries: once.entries.clone() };
        decorate_response(&mut twice, path, &default_policies());
        assert_eq!(once.entries, twice.entries);
    }
}

#[test]
fn policy_for_is_repeatable() {
    let cache = default_policies();
    for path in ["/index.html", "/assets/app.js", "/dashboard", "/a/b.c/"] {
        assert_eq!(cache.policy_for(path), cache.policy_for(path));
    }
    assert_eq!(cache.policy_for("/a/b.c/"), HTML);
}

#[test]
fn stages_one_at_a_time() {
    let mut h = HeaderList::new();
    apply_opener_policy(&mut h);
    apply_opener_policy(&mut h);
    assert_eq!(values(&h, "cross-origin-opener-policy"), vec!["same-origin".to_string()]);
    apply_embedder_policy(&mut h);
    assert_eq!(values(&h, "cross-origin-embedder-policy"), vec!["require-corp".to_string()]);
    assert_eq!(h.len(), 2);
}

#[test]
fn insert_replaces_all_values() {
    let mut h = HeaderList::new();
    h.append("a".to_string(), b"1".to_vec());
    h.append("b".to_string(), b"2".to_vec());
    h.append("a".to_string(), b"3".to_vec());
    assert!(h.contains("a"));
    assert!(!h.contains("c"));
    h.insert("a", b"4".to_vec());
    assert_eq!(h.entries, vec![("b".to_string(), b"2".to_vec()), ("a".to_string(), b"4".to_vec())]);
    h.insert_if_absent("b", b"9".to_vec());
    h.insert_if_absent("c", b"5".to_vec());
    assert_eq!(values(&h, "b"), vec!["2".to_string()]);
    assert_eq!(values(&h, "c"), vec!["5".to_string()]);
}
