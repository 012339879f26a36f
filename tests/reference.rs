use dkregistry::errors::Error;
use dkregistry::reference::Reference;

#[test]
fn canonical_references_round_trip() {
    for s in [
        "quay.io/coreos/etcd:v3.5",
        "localhost/app:1",
        "registry.example:5000/a/b/c:latest",
        "gcr.io/p/img@sha256:ba7816bf8f01cfea414140de5dae2223b00361a396177a9cb410ff61f20015ad",
    ] {
        let r = Reference::from_str(s).unwrap();
        assert_eq!(r.to_raw_string(), s);
    }
}

#[test]
fn reference_parts() {
    let r = Reference::from_str("quay.io/coreos/etcd").unwrap();
    assert_eq!(r.registry(), "quay.io");
    assert_eq!(r.repository(), "coreos/etcd");
    assert_eq!(r.version(), "latest");
    assert_eq!(r.to_raw_string(), "quay.io/coreos/etcd:latest");

    let r = Reference::from_str("library/alpine:3.19").unwrap();
    assert_eq!(r.registry(), "registry-1.docker.io");
    assert_eq!(r.repository(), "library/alpine");
    assert_eq!(r.version(), "3.19");

    let d = "sha256:ba7816bf8f01cfea414140de5dae2223b00361a396177a9cb410ff61f20015ad";
    let r = Reference::from_str(&format!("localhost:5000/x@{}", d)).unwrap();
    assert_eq!(r.registry(), "localhost:5000");
    assert_eq!(r.repository(), "x");
    assert_eq!(r.version(), format!("@{}", d));
}

#[test]
fn invalid_references() {
    for s in ["", "quay.io/", "quay.io//x", "x:", "quay.io/x@sha256:abc", "bad host!/x:1"] {
        assert_eq!(Reference::from_str(s), Err(Error::InvalidReference(s.to_string())));
    }
}
