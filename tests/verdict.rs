use trusted_repos::matching::{evaluate, is_allowed_image, is_allowed_registry, is_allowed_tag};
use trusted_repos::reference::ImageRef;
use trusted_repos::settings::{Images, Registries, Settings, Tags};
use trusted_repos::verdict::{PodRejectionReasons, PodSpecValidationResult};

fn strings(v: &[&str]) -> Vec<String> {
    v.iter().map(|s| s.to_string()).collect()
}

#[test]
fn allowed_gives_accepted_without_message() {
    let v = PodSpecValidationResult::Allowed.into_response();
    assert!(v.accepted);
    assert_eq!(v.message, None);
}

#[test]
fn not_allowed_lists_every_axis() {
    let r = PodRejectionReasons {
        registries_not_allowed: strings(&["registry1"]),
        tags_not_allowed: strings(&["tag1"]),
        images_not_allowed: strings(&["image1"]),
    };
    let v = PodSpecValidationResult::NotAllowed(r).into_response();
    assert!(!v.accepted);
    assert_eq!(
        v.message.as_deref(),
        Some(
            "not allowed, reported errors: registries not allowed: registry1; \
             tags not allowed: tag1; images not allowed: image1"
        )
    );
}

#[test]
fn not_allowed_skips_empty_axes_and_joins_reasons() {
    let r = PodRejectionReasons {
        registries_not_allowed: vec![],
        tags_not_allowed: strings(&["dev", "latest"]),
        images_not_allowed: vec![],
    };
    let v = PodSpecValidationResult::NotAllowed(r).into_response();
    assert_eq!(v.message.as_deref(), Some("not allowed, reported errors: tags not allowed: dev, latest"));
}

#[test]
fn no_registry_lists_allow_any_registry() {
    let s = Settings::default();
    assert!(is_allowed_registry("anything.example", &s));
    assert!(is_allowed_registry("", &s));
}

#[test]
fn reject_list_wins_over_allow_list() {
    let s = Settings {
        registries: Registries { allow: strings(&["a.io"]), reject: strings(&["b.io"]) },
        ..Settings::default()
    };
    assert!(!is_allowed_registry("b.io", &s));
    assert!(is_allowed_registry("c.io", &s));
}

#[test]
fn tag_axis() {
    let s = Settings { tags: Tags { reject: strings(&["latest", "dev"]) }, ..Settings::default() };
    assert!(!is_allowed_tag("dev", &s));
    assert!(is_allowed_tag("1.0", &s));
    assert!(is_allowed_tag("dev", &Settings::default()));
}

#[test]
fn allowed_repository_admits_any_tag_and_digest() {
    let s = Settings {
        images: Images { allow: vec![ImageRef::parse("quay.io/coreos/etcd").unwrap()], ..Images::default() },
        ..Settings::default()
    };
    for raw in [
        "quay.io/coreos/etcd",
        "quay.io/coreos/etcd:v3.4.12",
        "quay.io/coreos/etcd:anything",
        "quay.io/coreos/etcd@sha256:7ed2739c96eb16de3d7169e2a0aa4ccf3a1f44af24f2bb6cad826935a51bcb3d",
    ] {
        assert!(is_allowed_image(&ImageRef::parse(raw).unwrap(), &s), "{raw}");
    }
    assert!(!is_allowed_image(&ImageRef::parse("quay.io/coreos/other:v1").unwrap(), &s));
}

#[test]
fn evaluation_reports_each_axis() {
    let s = Settings {
        registries: Registries { allow: strings(&["ghcr.io"]), ..Registries::default() },
        tags: Tags { reject: strings(&["latest"]) },
        images: Images { reject: vec![ImageRef::parse("busybox").unwrap()], ..Images::default() },
    };
    let e = evaluate(&ImageRef::parse("busybox").unwrap(), &s);
    assert!(!e.registry_ok && !e.tag_ok && !e.image_ok);
    let e = evaluate(&ImageRef::parse("ghcr.io/org/app:1").unwrap(), &s);
    assert!(e.registry_ok && e.tag_ok && e.image_ok);
    assert!(evaluate(&ImageRef::parse("ghcr.io/org/app:1").unwrap(), &s) == e);
}
