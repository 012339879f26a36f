use dkregistry::blobs::{blob_status, check_blob, has_blob_status, BlobStream};
use dkregistry::client::Client;
use dkregistry::digest::ContentDigest;
use dkregistry::errors::{Error, ManifestError};
use dkregistry::manifest::{
    check_manifest_media_type, evaluate_media_type, has_manifest_accept_types,
    has_manifest_status, require_ok, require_success, to_mimes, ConfigBlob, Manifest, ManifestList, ManifestObj,
    ManifestSchema1Signed, ManifestSchema2Spec, Platform, S1Layer, S2Layer,
};
use dkregistry::mediatypes::{MediaTypes, MimeParts};

const ALL: [MediaTypes; 10] = [
    MediaTypes::OciV1ManifestList,
    MediaTypes::OciV1Manifest,
    MediaTypes::OciV1ManifestConfig,
    MediaTypes::ManifestV2S1,
    MediaTypes::ManifestV2S1Signed,
    MediaTypes::ManifestV2S2,
    MediaTypes::ManifestList,
    MediaTypes::ImageLayerTgz,
    MediaTypes::ContainerConfigV1,
    MediaTypes::ApplicationJson,
];

#[test]
fn media_types_round_trip() {
    for m in ALL {
        assert_eq!(MediaTypes::from_str(&m.to_mime()), Ok(m));
    }
    assert_eq!(MediaTypes::ManifestV2S2.to_mime(), "application/vnd.docker.distribution.manifest.v2+json");
    assert_eq!(
        MediaTypes::from_str("text/plain"),
        Err(Error::UnknownMimeType("text/plain".to_string()))
    );
}

fn parts(t: &str, st: &str, suffix: Option<&str>) -> MimeParts {
    MimeParts { type_: t.to_string(), subtype: st.to_string(), suffix: suffix.map(|s| s.to_string()) }
}

#[test]
fn media_types_from_mime_parts() {
    assert_eq!(MediaTypes::from_mime(&parts("application", "json", None)), Ok(MediaTypes::ApplicationJson));
    assert_eq!(
        MediaTypes::from_mime(&parts("application", "vnd.docker.distribution.manifest.v1", Some("prettyjws"))),
        Ok(MediaTypes::ManifestV2S1Signed)
    );
    assert_eq!(
        MediaTypes::from_mime(&parts("application", "vnd.docker.image.rootfs.diff.tar.gzip", Some("x"))),
        Ok(MediaTypes::ImageLayerTgz)
    );
    assert_eq!(
        MediaTypes::from_mime(&parts("application", "vnd.oci.image.index.v1", Some("json"))),
        Ok(MediaTypes::OciV1ManifestList)
    );
    assert_eq!(
        MediaTypes::from_mime(&parts("application", "vnd.docker.image.rootfs.diff.tar.gzip", None)),
        Ok(MediaTypes::ImageLayerTgz)
    );
    assert_eq!(
        MediaTypes::from_mime(&parts("text", "plain", None)),
        Err(Error::UnknownMimeType("text/plain".to_string()))
    );
    assert_eq!(
        MediaTypes::from_mime(&parts("application", "vnd.foo", Some("json"))),
        Err(Error::UnknownMimeType("application/vnd.foo+json".to_string()))
    );
    for m in ALL {
        let p = m.mime_parts();
        assert_eq!(p.to_text(), m.to_mime());
        assert_eq!(MediaTypes::from_mime(&p), Ok(m));
    }
    assert!(MediaTypes::from_mime(&parts("text", "json", None)).is_err());
    assert!(MediaTypes::from_mime(&parts("application", "vnd.docker.distribution.manifest.v2", None)).is_err());
}

#[test]
fn media_type_of_manifest_answers() {
    let s2 = "application/vnd.docker.distribution.manifest.v2+json";
    assert_eq!(evaluate_media_type(Some(s2), "/v2/x/manifests/latest"), Ok(MediaTypes::ManifestV2S2));
    assert_eq!(evaluate_media_type(None, "/v2/x/manifests/latest"), Err(Error::MediaTypeSniff));
    assert_eq!(
        evaluate_media_type(None, "/pulp/docker/v2/x/manifests/latest"),
        Ok(MediaTypes::ManifestV2S1Signed)
    );
    assert_eq!(
        evaluate_media_type(Some("application/x-troff-man"), "/pulp/docker/v2/x"),
        Ok(MediaTypes::ManifestV2S1Signed)
    );
    assert_eq!(
        evaluate_media_type(Some("application/x-troff-man"), "/v2/x"),
        Err(Error::UnknownMimeType("application/x-troff-man".to_string()))
    );
    assert_eq!(evaluate_media_type(Some(s2), "/pulp/docker/v2/x"), Ok(MediaTypes::ManifestV2S2));
}

#[test]
fn manifest_head_decisions() {
    assert_eq!(
        has_manifest_accept_types(None),
        vec!["application/vnd.docker.distribution.manifest.v2+json".to_string()]
    );
    let given = ["application/json", "nope", "application/vnd.oci.image.manifest.v1+json"];
    assert_eq!(
        has_manifest_accept_types(Some(&given)),
        vec!["application/json".to_string(), "application/vnd.oci.image.manifest.v1+json".to_string()]
    );
    assert_eq!(to_mimes(&["x"]), Vec::<String>::new());
    let s2 = Some("application/vnd.docker.distribution.manifest.v2+json");
    assert_eq!(has_manifest_status(200, s2, "/v2/x"), Ok(Some(MediaTypes::ManifestV2S2)));
    assert_eq!(has_manifest_status(307, s2, "/v2/x"), Ok(Some(MediaTypes::ManifestV2S2)));
    assert_eq!(has_manifest_status(404, None, "/v2/x"), Ok(None));
    assert_eq!(has_manifest_status(500, s2, "/v2/x"), Err(Error::UnexpectedHttpStatus(500)));
    assert_eq!(require_ok(200), Ok(()));
    assert_eq!(require_ok(404), Err(Error::UnexpectedHttpStatus(404)));
    assert_eq!(require_success(204), Ok(()));
    assert_eq!(require_success(302), Err(Error::UnexpectedHttpStatus(302)));
    assert_eq!(check_manifest_media_type(MediaTypes::ManifestList), Ok(MediaTypes::ManifestList));
    assert_eq!(
        check_manifest_media_type(MediaTypes::OciV1Manifest),
        Err(Error::UnsupportedMediaType(MediaTypes::OciV1Manifest))
    );
}

#[test]
fn urls_of_objects() {
    let c = Client::configure().registry("r.example").build().unwrap();
    assert_eq!(c.manifest_url("lib/a", "latest", None), "https://r.example/v2/lib/a/manifests/latest");
    assert_eq!(c.blob_url("lib/a", "sha256:ab", Some("ns1")), "https://r.example/v2/lib/a/blobs/sha256:ab?ns=ns1");
}

fn s1() -> Manifest {
    Manifest::S1Signed(ManifestSchema1Signed {
        architecture: "amd64".to_string(),
        fs_layers: vec![
            S1Layer { blob_sum: "top".to_string() },
            S1Layer { blob_sum: "base".to_string() },
        ],
        ..Default::default()
    })
}

fn s2() -> Manifest {
    let spec = ManifestSchema2Spec {
        schema_version: 2,
        media_type: MediaTypes::ManifestV2S2,
        config: Default::default(),
        layers: vec![
            S2Layer { digest: "l0".to_string(), ..Default::default() },
            S2Layer { digest: "l1".to_string(), ..Default::default() },
        ],
    };
    Manifest::S2(spec.with_config_blob(ConfigBlob { architecture: "arm64".to_string() }))
}

fn ml() -> Manifest {
    let obj = |d: &str, a: &str| ManifestObj {
        digest: d.to_string(),
        platform: Platform { architecture: a.to_string(), ..Default::default() },
        ..Default::default()
    };
    Manifest::ML(ManifestList { manifests: vec![obj("d0", "amd64"), obj("d1", "s390x")], ..Default::default() })
}

#[test]
fn manifest_queries() {
    assert_eq!(s1().layers_digests(None).unwrap(), vec!["base", "top"]);
    assert_eq!(s1().layers_digests(Some("amd64")).unwrap(), vec!["base", "top"]);
    assert_eq!(
        s1().layers_digests(Some("arm64")).unwrap_err(),
        Error::Manifest(ManifestError::ArchitectureMismatch)
    );
    assert_eq!(s2().layers_digests(Some("arm64")).unwrap(), vec!["l0", "l1"]);
    assert_eq!(
        s2().layers_digests(Some("amd64")).unwrap_err(),
        Error::Manifest(ManifestError::ArchitectureMismatch)
    );
    assert_eq!(ml().layers_digests(Some("ppc64le")).unwrap(), vec!["d0", "d1"]);
    assert_eq!(s1().architectures().unwrap(), vec!["amd64"]);
    assert_eq!(s2().architectures().unwrap(), vec!["arm64"]);
    assert_eq!(ml().architectures().unwrap(), vec!["amd64", "s390x"]);
    assert_eq!(s1().media_type(), MediaTypes::ManifestV2S1Signed);
    assert_eq!(s2().media_type(), MediaTypes::ManifestV2S2);
    assert_eq!(ml().media_type(), MediaTypes::ManifestList);
}

const ABC_SHA256: &str = "ba7816bf8f01cfea414140de5dae2223b00361a396177a9cb410ff61f20015ad";
const ABC_SHA512: &str = "ddaf35a193617abacc417349ae20413112e6fa4e89a97ea20a9eeee64b55d39a2192992a274fc1a836ba3c23a3feebbd454d4423643ce80e2a9ac94fa54ca49f";

#[test]
fn blob_digest_verification() {
    let ok = check_blob(&format!("sha256:{}", ABC_SHA256), b"abc".to_vec());
    assert_eq!(ok, Ok(b"abc".to_vec()));
    let upper = check_blob(&format!("sha256:{}", ABC_SHA256.to_uppercase()), b"abc".to_vec());
    assert_eq!(upper, Ok(b"abc".to_vec()));
    let other = "0".repeat(64);
    match check_blob(&format!("sha256:{}", other), b"abc".to_vec()) {
        Err(Error::DigestMismatch { declared, computed }) => {
            assert_eq!(declared, format!("sha256:{}", other));
            assert_eq!(computed, format!("sha256:{}", ABC_SHA256));
        }
        r => panic!("unexpected {:?}", r),
    }
    assert_eq!(check_blob(&format!("sha512:{}", ABC_SHA512), b"abc".to_vec()), Ok(b"abc".to_vec()));
}

#[test]
fn invalid_digests() {
    for d in ["sha256:abc", "md5:00", "nocolon", &format!("sha512:{}", ABC_SHA256)] {
        assert_eq!(ContentDigest::try_new(d).err(), Some(Error::InvalidDigest(d.to_string())));
    }
}

#[test]
fn digest_of_chunks_equals_digest_of_whole() {
    let whole = b"hello registry world".to_vec();
    let declared = {
        let mut d = ContentDigest::try_new(&format!("sha256:{}", "0".repeat(64))).unwrap();
        d.update(&whole);
        match d.verify() {
            Err(Error::DigestMismatch { computed, .. }) => computed,
            r => panic!("unexpected {:?}", r),
        }
    };
    for split in 0..whole.len() {
        let mut d = ContentDigest::try_new(&declared).unwrap();
        d.update(&whole[..split]);
        d.update(&whole[split..]);
        assert!(d.verify().is_ok());
    }
    let mut d = ContentDigest::try_new(&declared).unwrap();
    d.update(b"hello");
    assert!(d.verify().is_err());
}

#[test]
fn blob_stream_checks_at_the_end() {
    let mut s = BlobStream::new(&format!("sha256:{}", ABC_SHA256)).unwrap();
    assert!(s.on_chunk(b"a"));
    assert!(s.on_chunk(b"bc"));
    assert_eq!(s.on_end(), Ok(()));
    assert!(!s.on_chunk(b"more"));
    assert_eq!(s.on_end(), Ok(()));

    let mut bad = BlobStream::new(&format!("sha256:{}", ABC_SHA256)).unwrap();
    assert!(bad.on_chunk(b"ab"));
    assert!(matches!(bad.on_end(), Err(Error::DigestMismatch { .. })));
    assert_eq!(bad.on_end(), Ok(()));
}

#[test]
fn blob_statuses() {
    assert!(has_blob_status(200));
    assert!(!has_blob_status(404));
    assert_eq!(blob_status(200), Ok(()));
    assert_eq!(blob_status(404), Err(Error::Client { status: 404 }));
    assert_eq!(blob_status(503), Err(Error::Server { status: 503 }));
    assert_eq!(blob_status(304), Err(Error::UnexpectedHttpStatus(304)));
}
