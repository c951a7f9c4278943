use mcfetch::errors::FetchError;
use mcfetch::manifest::parse_asset_index_text;
use mcfetch::manifest::parse_manifest_text;

const MANIFEST: &str = r#"{
  "downloads": { "client": { "url": "https://example.net/client.jar" } },
  "assetIndex": { "id": "12", "url": "https://example.net/indexes/12.json" },
  "libraries": [
    { "downloads": { "artifact": { "path": "org/a/a.jar", "url": "https://example.net/a.jar" } } },
    { "downloads": { "artifact": { "path": "org/b/b.jar", "url": "https://example.net/b.jar" } },
      "rules": [ { "os": { "name": "windows" } } ] },
    { "downloads": { "artifact": { "path": "org/c/c.jar", "url": "https://example.net/c.jar" } },
      "rules": [ { "os": { "name": "osx" } }, { "os": { "name": "windows" } } ] }
  ]
}"#;

#[test]
fn manifest_fields_are_read() {
    let m = parse_manifest_text(MANIFEST).unwrap();
    assert_eq!(m.client_url, "https://example.net/client.jar");
    assert_eq!(m.index_id, "12");
    assert_eq!(m.index_url, "https://example.net/indexes/12.json");
    assert_eq!(m.libraries.len(), 3);
    assert_eq!(m.libraries[0].path, "org/a/a.jar");
    assert_eq!(m.libraries[0].url, "https://example.net/a.jar");
    assert!(m.libraries[0].rules.is_none());
    let rules = m.libraries[1].rules.as_ref().unwrap();
    assert_eq!(rules.len(), 1);
    assert_eq!(rules[0].os_name.as_deref(), Some("windows"));
    let rules2 = m.libraries[2].rules.as_ref().unwrap();
    assert_eq!(rules2.len(), 2);
    assert_eq!(rules2[0].os_name.as_deref(), Some("osx"));
    assert_eq!(rules2[1].os_name.as_deref(), Some("windows"));
}

#[test]
fn manifest_invalid_json_is_parse_error() {
    assert_eq!(
        parse_manifest_text("{ not json").unwrap_err(),
        FetchError::ParseError
    );
}

#[test]
fn manifest_missing_client_url_is_parse_error() {
    let text = r#"{
      "downloads": { "client": {} },
      "assetIndex": { "id": "12", "url": "https://example.net/i.json" },
      "libraries": []
    }"#;
    assert_eq!(parse_manifest_text(text).unwrap_err(), FetchError::ParseError);
}

#[test]
fn manifest_library_without_artifact_is_parse_error() {
    let text = r#"{
      "downloads": { "client": { "url": "https://example.net/client.jar" } },
      "assetIndex": { "id": "12", "url": "https://example.net/i.json" },
      "libraries": [ { "name": "broken" } ]
    }"#;
    assert_eq!(parse_manifest_text(text).unwrap_err(), FetchError::ParseError);
}

#[test]
fn manifest_rule_without_os_name_is_kept() {
    let text = r#"{
      "downloads": { "client": { "url": "u" } },
      "assetIndex": { "id": "12", "url": "v" },
      "libraries": [
        { "downloads": { "artifact": { "path": "p.jar", "url": "w" } },
          "rules": [ { "action": "allow" } ] }
      ]
    }"#;
    let m = parse_manifest_text(text).unwrap();
    let rules = m.libraries[0].rules.as_ref().unwrap();
    assert_eq!(rules.len(), 1);
    assert!(rules[0].os_name.is_none());
}

#[test]
fn index_entries_are_read() {
    let text = r#"{ "objects": {
      "a/icon.png": { "hash": "aa11223344", "size": 10 },
      "b/sound.ogg": { "hash": "bb55667788", "size": 20 }
    } }"#;
    let ix = parse_asset_index_text(text).unwrap();
    assert_eq!(ix.objects.len(), 2);
    assert_eq!(ix.objects[0].name, "a/icon.png");
    assert_eq!(ix.objects[0].hash, "aa11223344");
    assert_eq!(ix.objects[0].size, 10);
    assert_eq!(ix.objects[1].name, "b/sound.ogg");
    assert_eq!(ix.objects[1].hash, "bb55667788");
    assert_eq!(ix.objects[1].size, 20);
}

#[test]
fn index_invalid_json_is_parse_error() {
    assert_eq!(
        parse_asset_index_text("[]").unwrap_err(),
        FetchError::ParseError
    );
}

#[test]
fn index_short_hash_is_parse_error() {
    let text = r#"{ "objects": { "a": { "hash": "x", "size": 1 } } }"#;
    assert_eq!(
        parse_asset_index_text(text).unwrap_err(),
        FetchError::ParseError
    );
}

#[test]
fn index_missing_size_is_parse_error() {
    let text = r#"{ "objects": { "a": { "hash": "aabbcc" } } }"#;
    assert_eq!(
        parse_asset_index_text(text).unwrap_err(),
        FetchError::ParseError
    );
}

#[test]
fn index_largest_size_is_kept() {
    let text = r#"{ "objects": { "a": { "hash": "ffee11", "size": 18446744073709551615 } } }"#;
    let ix = parse_asset_index_text(text).unwrap();
    assert_eq!(ix.objects[0].size, u64::MAX);
}

#[test]
fn index_with_no_entries_is_empty() {
    let ix = parse_asset_index_text(r#"{ "objects": {} }"#).unwrap();
    assert!(ix.objects.is_empty());
}

#[test]
fn index_entry_that_is_no_object_is_parse_error() {
    let text = r#"{ "objects": { "a": 3 } }"#;
    assert_eq!(
        parse_asset_index_text(text).unwrap_err(),
        FetchError::ParseError
    );
}

#[test]
fn manifest_that_is_no_object_is_parse_error() {
    assert_eq!(parse_manifest_text("[]").unwrap_err(), FetchError::ParseError);
}
