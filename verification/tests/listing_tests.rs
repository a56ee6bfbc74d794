use arduino_mcp_adapter::listing::{bytes_before_or_equal, manifest_identity};
use arduino_mcp_adapter::manifest::ManifestManager;

fn names(list: &[&str]) -> Vec<String> {
    list.iter().map(|s| s.to_string()).collect()
}

#[test]
fn manifest_identity_strips_the_json_extension() {
    assert_eq!(manifest_identity("uno.json"), Some("uno".to_string()));
    assert_eq!(manifest_identity("a.b.json"), Some("a.b".to_string()));
    assert_eq!(manifest_identity("..json"), Some(".".to_string()));
    assert_eq!(manifest_identity("méga.json"), Some("méga".to_string()));
    assert_eq!(manifest_identity(".json"), None);
    assert_eq!(manifest_identity("json"), None);
    assert_eq!(manifest_identity("uno.JSON"), None);
    assert_eq!(manifest_identity("uno.json.bak"), None);
    assert_eq!(manifest_identity("unojson"), None);
    assert_eq!(manifest_identity(""), None);
}

#[test]
fn byte_order_is_the_order_of_strings() {
    let words = ["", "a", "ab", "b", "B", "é", "z", "aa", "a\u{0}"];
    for a in words {
        for b in words {
            assert_eq!(bytes_before_or_equal(a.as_bytes(), b.as_bytes()), a <= b, "{:?} {:?}", a, b);
        }
    }
}

#[test]
fn available_manifests_are_listed_in_sorted_order() {
    let registry = ManifestManager::new("manifests".to_string());
    let files = names(&["uno.json", "README.md", "mega.json", ".json", "Zero.json", "nano.json.bak", "due.json"]);
    assert_eq!(registry.list_available_manifests(&files), names(&["Zero", "due", "mega", "uno"]));
    assert_eq!(registry.list_available_manifests(&Vec::new()), Vec::<String>::new());
    let files = names(&["m.json", "a.json", "z.json", "m.json", "b.json"]);
    assert_eq!(registry.list_available_manifests(&files), names(&["a", "b", "m", "m", "z"]));
}

#[test]
fn available_manifests_agree_with_sorting_the_stems() {
    let registry = ManifestManager::new("manifests".to_string());
    let files = names(&["b.json", "a.json", "c.txt", "ab.json", "a.json", "é.json", "B.json"]);
    let mut expected: Vec<String> = files
        .iter()
        .filter(|f| f.ends_with(".json") && f.len() > 5)
        .map(|f| f[..f.len() - 5].to_string())
        .collect();
    expected.sort();
    assert_eq!(registry.list_available_manifests(&files), expected);
}
