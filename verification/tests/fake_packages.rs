//! Made-up packages and whether they take part in a release.

use release_plz_core::fake_package::{FakeDependency, FakePackage};
use release_plz_core::package::{
    is_example_package, is_unpublished_example, takes_part_in_release, Package, Publishable, Target,
    TargetKind,
};

#[test]
fn default_package_has_no_publish_restriction_and_no_targets() {
    let package = Package::from(FakePackage::new("pkg"));
    assert_eq!(package.publish, None);
    assert!(package.targets.is_empty());
}

#[test]
fn unpublishable_package_has_no_registries() {
    let package = Package::from(FakePackage::new("pkg").unpublishable());
    assert_eq!(package.publish, Some(vec![]));
}

#[test]
fn builders_set_publish_and_targets() {
    let package = Package::from(
        FakePackage::new("pkg")
            .with_publish(Some(vec!["my-reg".into()]))
            .with_targets(&["lib", "example"]),
    );
    assert_eq!(package.publish, Some(vec!["my-reg".to_string()]));
    let kinds: Vec<_> = package.targets.iter().map(|t| t.kind[0].name().to_string()).collect();
    assert_eq!(kinds, ["lib", "example"]);
}

#[test]
fn packages_taking_part_in_a_release() {
    let lib = FakePackage::new("pkg").with_targets(&["lib"]);
    let private_lib = lib.clone().unpublishable();
    let example = FakePackage::new("pkg").with_targets(&["example"]);
    let published_example = example.clone().with_publish(Some(vec!["my-reg".into()]));

    // (name, package, released in registry mode, released in git-only mode)
    for (name, package, registry, git_only) in [
        ("lib", lib, true, true),
        ("private lib", private_lib, false, true),
        // Without `publish`, an example-only package is never a release candidate.
        ("example", example, false, false),
        // With `publish`, the user asked for it to be published.
        ("published example", published_example, true, true),
    ] {
        let package = Package::from(package);
        assert_eq!(takes_part_in_release(&package, false), registry, "{name} in registry mode");
        assert_eq!(takes_part_in_release(&package, true), git_only, "{name} in git-only mode");
    }
}

#[test]
fn described_package_has_the_fields_of_the_made_up_one() {
    let package = Package::from(
        FakePackage::new("pkg")
            .with_dependencies(vec![FakeDependency::new("one"), FakeDependency::new("two")]),
    );
    assert_eq!(package.name, "pkg");
    assert_eq!(package.version, "0.1.0");
    assert_eq!(package.id, "pkg");
    assert_eq!(package.manifest_path, "pkg/Cargo.toml");
    let names: Vec<_> = package.dependencies.iter().map(|d| d.name.as_str()).collect();
    assert_eq!(names, ["one", "two"]);
    assert_eq!(FakeDependency::new("one").name(), "one");
}

#[test]
fn kinds_have_the_names_of_cargo() {
    for name in [
        "bench", "bin", "custom-build", "cdylib", "dylib", "example", "lib", "proc-macro", "rlib",
        "staticlib", "test", "something-new",
    ] {
        assert_eq!(TargetKind::named(name).name(), name);
    }
    assert!(matches!(TargetKind::named("example"), TargetKind::Example));
    assert!(matches!(TargetKind::named("custom-build"), TargetKind::CustomBuild));
    assert!(matches!(TargetKind::named("something-new"), TargetKind::Unknown(_)));
}

#[test]
fn one_target_that_is_no_example_makes_a_package_publishable() {
    let mixed = Package::from(FakePackage::new("pkg").with_targets(&["example", "bin"]));
    assert!(!is_example_package(&mixed));
    assert!(mixed.is_publishable());
    let example = Package::from(FakePackage::new("pkg").with_targets(&["example", "example"]));
    assert!(is_example_package(&example));
    assert!(!example.is_publishable());
    assert!(is_unpublished_example(&example));
    // Without targets all targets are examples.
    assert!(is_example_package(&Package::from(FakePackage::new("pkg"))));
}

#[test]
fn target_of_two_kinds_is_no_example() {
    let mut package = Package::from(FakePackage::new("pkg"));
    package.targets.push(Target { kind: vec![TargetKind::Example, TargetKind::Lib] });
    assert!(!is_example_package(&package));
}

#[test]
fn git_only_releases_no_less_than_a_registry() {
    for targets in [&["lib"][..], &["example"][..], &[][..]] {
        for publish in [None, Some(vec![]), Some(vec!["my-reg".to_string()])] {
            let fake = FakePackage::new("pkg").with_targets(targets).with_publish(publish.clone());
            let package = Package::from(fake);
            assert_eq!(takes_part_in_release(&package, false), package.is_publishable());
            assert!(!takes_part_in_release(&package, false) || takes_part_in_release(&package, true));
            if publish.is_some() {
                assert!(takes_part_in_release(&package, true));
            }
        }
    }
}

#[test]
fn copy_of_a_package_is_equal() {
    let package = Package::from(
        FakePackage::new("pkg")
            .with_publish(Some(vec!["a".to_string(), "b".to_string()]))
            .with_targets(&["bench", "bin", "cdylib", "dylib", "example", "lib", "odd"])
            .with_dependencies(vec![FakeDependency::new("dep")]),
    );
    assert_eq!(format!("{:?}", package.copy()), format!("{package:?}"));
}
