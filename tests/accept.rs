use dkregistry::client::{build_accept_headers, Client, QWeight};
use dkregistry::mediatypes::MediaTypes;

fn accept_for_registry(registry: &str) -> String {
    let client = Client::configure().registry(registry).build().unwrap();
    build_accept_headers(&client.accepted_types)
}

fn q(t: u16) -> Option<QWeight> {
    Some(QWeight::new(t).unwrap())
}

fn accept_with_types(types: Option<Vec<(MediaTypes, Option<QWeight>)>>) -> String {
    let client = Client::configure()
        .registry("https://example.com")
        .accepted_types(types)
        .build()
        .unwrap();
    build_accept_headers(&client.accepted_types)
}

const WEIGHTED: &str = "application/vnd.docker.distribution.manifest.v2+json; q=0.5,application/vnd.docker.distribution.manifest.v1+prettyjws; q=0.4,application/vnd.docker.distribution.manifest.list.v2+json; q=0.5";
const UNWEIGHTED: &str = "application/vnd.docker.distribution.manifest.v2+json,application/vnd.docker.distribution.manifest.v1+prettyjws,application/vnd.docker.distribution.manifest.list.v2+json";

#[test]
fn gcr_io_accept_headers_not_gcr() {
    assert_eq!(accept_for_registry("not-gcr.io"), WEIGHTED);
}

#[test]
fn gcr_io_accept_headers_gcr() {
    assert_eq!(accept_for_registry("gcr.io"), UNWEIGHTED);
}

#[test]
fn gcr_io_accept_headers_custom_gcr() {
    assert_eq!(accept_for_registry("foobar.gcr.io"), UNWEIGHTED);
    assert!(!accept_for_registry("eu.gcr.io").contains("q="));
}

#[test]
fn custom_accept_headers_default() {
    assert_eq!(accept_with_types(None), WEIGHTED);
}

#[test]
fn custom_accept_headers_with_weight() {
    assert_eq!(
        accept_with_types(Some(vec![
            (MediaTypes::ManifestV2S2, q(500)),
            (MediaTypes::ManifestV2S1Signed, q(200)),
            (MediaTypes::ManifestList, q(500)),
        ])),
        "application/vnd.docker.distribution.manifest.v2+json; q=0.5,application/vnd.docker.distribution.manifest.v1+prettyjws; q=0.2,application/vnd.docker.distribution.manifest.list.v2+json; q=0.5"
    );
}

#[test]
fn custom_accept_headers_no_weight() {
    assert_eq!(
        accept_with_types(Some(vec![
            (MediaTypes::ManifestV2S2, None),
            (MediaTypes::ManifestList, None),
        ])),
        "application/vnd.docker.distribution.manifest.v2+json,application/vnd.docker.distribution.manifest.list.v2+json"
    );
}

#[test]
fn weights_render_as_short_decimals() {
    let text = |t: u16| QWeight::new(t).unwrap().to_text();
    assert_eq!(text(1000), "1");
    assert_eq!(text(0), "0");
    assert_eq!(text(500), "0.5");
    assert_eq!(text(250), "0.25");
    assert_eq!(text(125), "0.125");
    assert_eq!(text(5), "0.005");
    assert!(QWeight::new(1001).is_none());
    assert_eq!(build_accept_headers(&[]), "");
}

#[test]
fn client_base_url_and_credentials() {
    let c = Client::configure().registry("r.example:5000").build().unwrap();
    assert_eq!(c.base_url, "https://r.example:5000");
    assert!(c.credentials.is_none());
    let c = Client::configure()
        .registry("r.example")
        .insecure_registry(true)
        .username(Some("u".to_string()))
        .build()
        .unwrap();
    assert_eq!(c.base_url, "http://r.example");
    assert_eq!(c.credentials, Some(("u".to_string(), String::new())));
    let c = Client::configure().build().unwrap();
    assert_eq!(c.base_url, "https://registry-1.docker.io");
}
