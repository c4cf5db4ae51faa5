use trusted_repos::reference::ImageRef;

const SHA: &str = "sha256:3fc9b689459d738f8c88a3a48aa9e33542016b7a4052e001aaa536fca74813cb";

#[test]
fn bare_name_gets_default_registry_namespace_and_tag() {
    let r = ImageRef::parse("busybox").unwrap();
    assert_eq!(r.registry(), "docker.io");
    assert_eq!(r.repository(), "library/busybox");
    assert_eq!(r.tag(), Some("latest"));
    assert_eq!(r.digest(), None);
}

#[test]
fn explicit_registry_with_port() {
    let r = ImageRef::parse("example.com:5000/path/to/image:tag").unwrap();
    assert_eq!(r.registry(), "example.com:5000");
    assert_eq!(r.repository(), "path/to/image");
    assert_eq!(r.tag(), Some("tag"));
}

#[test]
fn localhost_is_a_registry() {
    let r = ImageRef::parse("localhost/app").unwrap();
    assert_eq!(r.registry(), "localhost");
    assert_eq!(r.repository(), "app");
}

#[test]
fn first_segment_without_dot_is_a_path() {
    let r = ImageRef::parse("coreos/etcd:v3.4.12").unwrap();
    assert_eq!(r.registry(), "docker.io");
    assert_eq!(r.repository(), "coreos/etcd");
    assert_eq!(r.tag(), Some("v3.4.12"));
}

#[test]
fn dotted_name_without_slash_is_a_repository() {
    let r = ImageRef::parse("test.com:5000").unwrap();
    assert_eq!(r.registry(), "docker.io");
    assert_eq!(r.repository(), "library/test.com");
    assert_eq!(r.tag(), Some("5000"));
}

#[test]
fn ipv4_registry() {
    let r = ImageRef::parse("10.0.0.100:5000/image:tag").unwrap();
    assert_eq!(r.registry(), "10.0.0.100:5000");
    assert_eq!(r.repository(), "image");
}

#[test]
fn digest_only_reference() {
    let raw = format!("example.com/image@{SHA}");
    let r = ImageRef::parse(&raw).unwrap();
    assert_eq!(r.tag(), None);
    assert_eq!(r.digest(), Some(SHA));
}

#[test]
fn short_digest_is_refused() {
    let e = ImageRef::parse("x@sha256:abc").unwrap_err();
    assert_eq!(e.input, "x@sha256:abc");
}

#[test]
fn non_hex_digest_is_refused() {
    let raw = format!("x@sha256:{}", "g".repeat(64));
    assert!(ImageRef::parse(&raw).is_err());
}

#[test]
fn long_digest_is_refused() {
    let raw = format!("x@sha256:{}", "a".repeat(65));
    assert!(ImageRef::parse(&raw).is_err());
}

#[test]
fn empty_string_is_refused() {
    assert!(ImageRef::parse("").is_err());
}

#[test]
fn uppercase_repository_is_refused() {
    assert!(ImageRef::parse("Busybox").is_err());
}

#[test]
fn whole_writes_the_canonical_form() {
    let r = ImageRef::parse("nginx").unwrap();
    assert_eq!(r.whole(), "docker.io/library/nginx:latest");
    let raw = format!("quay.io/coreos/etcd:v3.4.12@{SHA}");
    assert_eq!(ImageRef::parse(&raw).unwrap().whole(), raw);
}

#[test]
fn implicit_defaults_survive_a_round_trip() {
    let r = ImageRef::parse("nginx").unwrap();
    let back = ImageRef::parse(&r.whole()).unwrap();
    assert_eq!(back.registry(), "docker.io");
    assert_eq!(back.tag(), Some("latest"));
    assert!(back == r);
}

#[test]
fn equality_is_by_every_part() {
    let a = ImageRef::parse("nginx").unwrap();
    let b = ImageRef::parse("docker.io/library/nginx:latest").unwrap();
    let c = ImageRef::parse("nginx:1.21").unwrap();
    assert!(a == b);
    assert!(a != c);
    assert!(a.clone() == a);
}

#[test]
fn new_keeps_the_parts() {
    let r = ImageRef::new("ghcr.io".to_string(), "org/app".to_string(), Some("1".to_string()), None);
    assert_eq!(r.registry(), "ghcr.io");
    assert_eq!(r.repository(), "org/app");
    assert_eq!(r.whole(), "ghcr.io/org/app:1");
    assert!(r == ImageRef::parse("ghcr.io/org/app:1").unwrap());
}
