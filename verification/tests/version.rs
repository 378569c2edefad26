use seaki::pipeline::version::{
    check_compatibility, ManifestVersion, VersionCompatibility, VersionedManifest, VersionedRegistry,
};

#[test]
fn versioned_registry_ignores_deprecated() {
    let mut registry = VersionedRegistry::new();
    registry.register(VersionedManifest {
        command_id: "wiki.search".to_string(),
        version: ManifestVersion::new(1, 0, 0),
        schema_hash: "old".to_string(),
        deprecated: true,
    });
    registry.register(VersionedManifest {
        command_id: "wiki.search".to_string(),
        version: ManifestVersion::new(1, 1, 0),
        schema_hash: "new".to_string(),
        deprecated: false,
    });

    let resolved = registry.resolve("wiki.search", &ManifestVersion::new(1, 0, 0));
    assert!(resolved.is_some());
    assert_eq!(resolved.unwrap().schema_hash, "new");
}

#[test]
fn versioned_registry_returns_none_for_incompatible() {
    let mut registry = VersionedRegistry::new();
    registry.register(VersionedManifest {
        command_id: "wiki.search".to_string(),
        version: ManifestVersion::new(1, 0, 0),
        schema_hash: "v1".to_string(),
        deprecated: false,
    });

    let incompatible = registry.resolve("wiki.search", &ManifestVersion::new(2, 0, 0));
    assert!(incompatible.is_none());
}

#[test]
fn versioned_registry_selects_best_match() {
    let mut registry = VersionedRegistry::new();
    registry.register(VersionedManifest {
        command_id: "wiki.search".to_string(),
        version: ManifestVersion::new(1, 0, 0),
        schema_hash: "v1".to_string(),
        deprecated: false,
    });
    registry.register(VersionedManifest {
        command_id: "wiki.search".to_string(),
        version: ManifestVersion::new(1, 2, 0),
        schema_hash: "v12".to_string(),
        deprecated: false,
    });
    registry.register(VersionedManifest {
        command_id: "wiki.search".to_string(),
        version: ManifestVersion::new(1, 5, 0),
        schema_hash: "v15".to_string(),
        deprecated: false,
    });

    let resolved = registry.resolve("wiki.search", &ManifestVersion::new(1, 3, 0));
    assert!(resolved.is_some());
    assert_eq!(resolved.unwrap().version, ManifestVersion::new(1, 5, 0));
}

#[test]
fn compatibility_backward_compatible() {
    let v1_0 = ManifestVersion::new(1, 0, 0);
    let v1_2 = ManifestVersion::new(1, 2, 0);

    assert_eq!(
        check_compatibility(&v1_0, &v1_2),
        VersionCompatibility::BackwardCompatible
    );
}

#[test]
fn version_parsing() {
    let v = ManifestVersion::parse("1.2.3").unwrap();
    assert_eq!(v, ManifestVersion::new(1, 2, 3));
    assert!(ManifestVersion::parse("1.2").is_none());
    assert!(ManifestVersion::parse("a.b.c").is_none());
}

#[test]
fn compatibility_checks() {
    let v1_0 = ManifestVersion::new(1, 0, 0);
    let v1_2 = ManifestVersion::new(1, 2, 0);
    let v2_0 = ManifestVersion::new(2, 0, 0);

    assert_eq!(
        check_compatibility(&v1_2, &v1_0),
        VersionCompatibility::Compatible
    );
    assert_eq!(
        check_compatibility(&v1_0, &v1_2),
        VersionCompatibility::BackwardCompatible
    );
    assert_eq!(
        check_compatibility(&v2_0, &v1_0),
        VersionCompatibility::Incompatible
    );
}

#[test]
fn versioned_registry_resolution() {
    let mut registry = VersionedRegistry::new();
    registry.register(VersionedManifest {
        command_id: "wiki.search".to_string(),
        version: ManifestVersion::new(1, 0, 0),
        schema_hash: "abc".to_string(),
        deprecated: false,
    });
    registry.register(VersionedManifest {
        command_id: "wiki.search".to_string(),
        version: ManifestVersion::new(1, 2, 0),
        schema_hash: "def".to_string(),
        deprecated: false,
    });
    registry.register(VersionedManifest {
        command_id: "wiki.search".to_string(),
        version: ManifestVersion::new(2, 0, 0),
        schema_hash: "ghi".to_string(),
        deprecated: false,
    });

    let resolved = registry.resolve("wiki.search", &ManifestVersion::new(1, 1, 0));
    assert!(resolved.is_some());
    assert_eq!(resolved.unwrap().version, ManifestVersion::new(1, 2, 0));

    let incompatible = registry.resolve("wiki.search", &ManifestVersion::new(3, 0, 0));
    assert!(incompatible.is_none());
}

#[test]
fn version_parse_rejects_extra_parts_and_overflow() {
    assert!(ManifestVersion::parse("1.2.3.4").is_none());
    assert!(ManifestVersion::parse("4294967296.0.0").is_none());
    assert_eq!(ManifestVersion::parse("0.10.7"), Some(ManifestVersion::new(0, 10, 7)));
}

#[test]
fn compatibility_ignores_patch_level() {
    assert_eq!(
        check_compatibility(&ManifestVersion::new(1, 2, 0), &ManifestVersion::new(1, 2, 1)),
        VersionCompatibility::Compatible
    );
    assert_eq!(
        check_compatibility(&ManifestVersion::new(1, 2, 0), &ManifestVersion::new(1, 0, 0)),
        VersionCompatibility::Compatible
    );
    assert_eq!(
        check_compatibility(&ManifestVersion::new(1, 0, 0), &ManifestVersion::new(1, 2, 0)),
        VersionCompatibility::BackwardCompatible
    );
    assert_eq!(
        check_compatibility(&ManifestVersion::new(2, 0, 0), &ManifestVersion::new(1, 0, 0)),
        VersionCompatibility::Incompatible
    );
}

#[test]
fn manifest_version_text_round_trip() {
    let v = ManifestVersion::new(1, 20, 3);
    assert_eq!(v.to_string(), "1.20.3");
    assert_eq!(ManifestVersion::parse(&v.to_string()), Some(v));
}
