//! Workspaces, maps and text.

use release_plz_core::fake_package::FakePackage;
use release_plz_core::name_map::NameMap;
use release_plz_core::package::Package;
use release_plz_core::text::{contains_text, is_text_before, same_text, split_terminated};
use release_plz_core::workspace::{
    publishable_members, publishable_packages, workspace_package, workspace_packages, Metadata,
};

fn package(name: &str, id: &str) -> Package {
    let mut package = Package::from(FakePackage::new(name).with_targets(&["lib"]));
    package.id = id.to_string();
    package
}

fn metadata() -> Metadata {
    let mut private = package("private", "4");
    private.publish = Some(vec![]);
    Metadata {
        packages: vec![
            package("dep", "1"),
            package("b", "2"),
            package("a", "3"),
            private,
            package("b", "5"),
        ],
        workspace_members: ["5", "4", "3", "2"].iter().map(|id| id.to_string()).collect(),
        workspace_root: "/ro\"ot".to_string(),
    }
}

#[test]
fn members_come_in_the_order_of_the_packages() {
    let metadata = metadata();
    let ids = |packages: &[Package]| packages.iter().map(|p| p.id.clone()).collect::<Vec<_>>();
    assert_eq!(ids(&workspace_packages(&metadata)), ["2", "3", "4", "5"]);
    assert_eq!(metadata.workspace_packages().len(), 4);
    assert_eq!(ids(&publishable_members(&metadata)), ["2", "3", "5"]);
    assert_eq!(ids(&publishable_packages(workspace_packages(&metadata))), ["2", "3", "5"]);
}

#[test]
fn first_member_of_a_name_is_found() {
    let metadata = metadata();
    assert_eq!(workspace_package(&metadata, "b").unwrap().id, "2");
    assert_eq!(workspace_package(&metadata, "a").unwrap().id, "3");
    // A package that is no member is not found.
    let error = workspace_package(&metadata, "dep").unwrap_err();
    assert_eq!(error.package_name, "dep");
    assert_eq!(error.message(), "cannot find package \"dep\" in workspace \"/ro\\\"ot\"");
}

#[test]
fn maps_are_ordered_by_name() {
    let mut map = NameMap::new();
    assert_eq!(map.len(), 0);
    for (name, value) in [("b", 1), ("é", 2), ("a", 3), ("aa", 4), ("b", 5), ("", 6)] {
        map = map.insert(name.to_string(), value);
    }
    assert_eq!(map.len(), 5);
    assert_eq!(map.get("b"), Some(&5));
    assert_eq!(map.get("é"), Some(&2));
    assert_eq!(map.get("c"), None);
    assert_eq!(map.into_values(), [6, 3, 4, 5, 2]);
}

#[test]
fn extension_replaces_what_was_there() {
    let one = NameMap::new().insert("a".to_string(), 1).insert("b".to_string(), 2);
    let two = NameMap::new().insert("b".to_string(), 3).insert("c".to_string(), 4);
    assert_eq!(one.extend(two).into_values(), [1, 3, 4]);
    let one = NameMap::new().insert("a".to_string(), 1);
    assert_eq!(one.extend(NameMap::new()).into_values(), [1]);
}

#[test]
fn text_is_ordered_as_str_is() {
    let words = ["", "a", "aa", "ab", "b", "z", "é", "\u{ffff}", "\u{10000}"];
    for a in words {
        for b in words {
            assert_eq!(is_text_before(a, b), a < b, "{a:?} {b:?}");
            assert_eq!(same_text(a, b), a == b);
        }
    }
    let list = vec!["x".to_string(), "é".to_string()];
    assert!(contains_text(&list, "é"));
    assert!(!contains_text(&list, "e"));
}

#[test]
fn pieces_end_in_the_terminator() {
    for text in ["", "\0", "a", "a\0", "a\0b", "a\0\0b\0", "\0a", "é\0\n\0"] {
        let expected: Vec<&str> = text.split_terminator('\0').collect();
        assert_eq!(split_terminated(text, '\0'), expected, "{text:?}");
    }
}
