use cache_buster::config::{process_config, Config};
use cache_buster::hashing::hash_bytes;
use cache_buster::manifest::Manifest;
use cache_buster::walk::{clean_marked_paths, hash_and_copy, hash_and_copy_dir, FileRec};

fn config(asset_path: Option<&str>, marker: Option<&str>) -> Config {
    Config {
        patterns: vec!["assets/**/*".to_string()],
        manifest: "assets.json".to_string(),
        asset_path: asset_path.map(|s| s.to_string()),
        marker: marker.map(|s| s.to_string()),
    }
}

fn file(dir: &str, name: &str, bytes: &[u8]) -> FileRec {
    FileRec { dir: dir.to_string(), name: name.to_string(), bytes: bytes.to_vec() }
}

#[test]
fn process_config_defaults_the_marker() {
    let p = process_config(&config(None, None));
    assert_eq!(p.marker, "cached");
    assert_eq!(p.manifest, "assets.json");
    assert_eq!(p.asset_path, None);
    assert_eq!(p.patterns, vec!["assets/**/*".to_string()]);
}

#[test]
fn process_config_keeps_the_override() {
    let p = process_config(&config(Some("/site/assets"), Some("rev")));
    assert_eq!(p.marker, "rev");
    assert_eq!(p.asset_path, Some("/site/assets".to_string()));
}

#[test]
fn manifest_entry_is_relativized() {
    let pconfig = process_config(&config(Some("/site/assets"), None));
    let mut m = Manifest::new();
    let files = vec![file("/site/assets/css", "app.css", b"body { color: red }")];
    let copies = hash_and_copy_dir(&pconfig, &mut m, &files);
    let digest = hash_bytes(b"body { color: red }");
    assert_eq!(copies.len(), 1);
    assert_eq!(copies[0].dir, "/site/assets/css");
    assert_eq!(copies[0].name, format!("app.{}.cached.css", digest));
    assert_eq!(m.len(), 1);
    assert_eq!(m.get("css/app.css"), Some(&format!("css/app.{}.cached.css", digest)));
}

#[test]
fn marked_file_is_skipped_entirely() {
    let pconfig = process_config(&config(None, None));
    let mut m = Manifest::new();
    let r = hash_and_copy(&pconfig, &mut m, &file("assets", "app.ABC123.cached.js", b"x"));
    assert!(r.is_none());
    assert_eq!(m.len(), 0);
}

#[test]
fn fingerprint_twice_changes_nothing() {
    let pconfig = process_config(&config(None, None));
    let js = b"alert(1)";
    let css = b"h1 { }";

    let mut m1 = Manifest::new();
    let files = vec![file("assets", "app.js", js), file("assets/style", "site.css", css)];
    let copies1 = hash_and_copy_dir(&pconfig, &mut m1, &files);
    assert_eq!(copies1.len(), 2);

    let mut tree2 = vec![file("assets", "app.js", js), file("assets/style", "site.css", css)];
    tree2.extend(copies1);
    let mut m2 = Manifest::new();
    let copies2 = hash_and_copy_dir(&pconfig, &mut m2, &tree2);

    let js_name = format!("app.{}.cached.js", hash_bytes(js));
    let css_name = format!("site.{}.cached.css", hash_bytes(css));
    assert_eq!(copies2.len(), 2);
    assert_eq!(copies2[0].name, js_name);
    assert_eq!(copies2[1].name, css_name);

    assert_eq!(m1.len(), 2);
    assert_eq!(m2.len(), 2);
    for key in ["/assets/app.js", "/assets/style/site.css"] {
        assert!(m1.get(key).is_some());
        assert_eq!(m1.get(key), m2.get(key));
    }
    assert_eq!(m1.get("/assets/app.js"), Some(&format!("/assets/{}", js_name)));
}

#[test]
fn clean_after_fingerprint_removes_exactly_the_copies() {
    let pconfig = process_config(&config(None, None));
    let js = b"alert(1)";
    let css = b"h1 { }";

    let mut m = Manifest::new();
    let files = vec![file("assets", "app.js", js), file("assets/style", "site.css", css)];
    let copies = hash_and_copy_dir(&pconfig, &mut m, &files);

    let mut tree2 = vec![file("assets", "app.js", js), file("assets/style", "site.css", css)];
    tree2.extend(copies);
    let doomed = clean_marked_paths(&pconfig, &tree2);

    assert_eq!(
        doomed,
        vec![
            format!("assets/app.{}.cached.js", hash_bytes(js)),
            format!("assets/style/site.{}.cached.css", hash_bytes(css)),
        ]
    );
}

#[test]
fn clean_leaves_unmarked_files_alone() {
    let pconfig = process_config(&config(None, None));
    let files = vec![file("assets", "app.js", b"x"), file("assets", "notes.txt", b"y")];
    let doomed = clean_marked_paths(&pconfig, &files);
    assert!(doomed.is_empty());
}

#[test]
fn manifest_last_write_wins() {
    let mut m = Manifest::new();
    m.insert("a".to_string(), "1".to_string());
    m.insert("b".to_string(), "2".to_string());
    m.insert("a".to_string(), "3".to_string());
    assert_eq!(m.len(), 2);
    assert_eq!(m.get("a"), Some(&"3".to_string()));
    assert_eq!(m.get("b"), Some(&"2".to_string()));
    assert_eq!(m.get("c"), None);
}

#[test]
fn custom_marker_is_embedded_and_detected() {
    let pconfig = process_config(&config(None, Some("rev")));
    let mut m = Manifest::new();
    let r = hash_and_copy(&pconfig, &mut m, &file("assets", "app.js", b"x"));
    let copy = r.expect("unmarked file must be fingerprinted");
    assert_eq!(copy.name, format!("app.{}.rev.js", hash_bytes(b"x")));
    let again = hash_and_copy(&pconfig, &mut m, &copy);
    assert!(again.is_none());
}
