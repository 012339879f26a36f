use dkregistry::auth::{check_token_status, is_auth_status, AuthStep, BearerAuth};
use dkregistry::challenge::{
    WwwAuthenticateHeaderContent, WwwAuthenticateHeaderContentBasic,
    WwwAuthenticateHeaderContentBearer,
};
use dkregistry::client::Client;
use dkregistry::errors::{Error, WwwHeaderParseError};

#[test]
fn bearer_realm_parses_correctly() {
    let realm = "https://sat-r220-02.lab.eng.rdu2.redhat.com/v2/token";
    let service = "sat-r220-02.lab.eng.rdu2.redhat.com";
    let scope = "repository:registry:pull,push";

    for header_value in [
        format!(r#"Bearer realm="{}",service="{}",scope="{}""#, realm, service, scope),
        format!(r#"bearer realm="{}",service="{}",scope="{}""#, realm, service, scope),
        format!(r#"BEARER realm="{}",service="{}",scope="{}""#, realm, service, scope),
        format!(r#"Bearer Realm="{}",Service="{}",Scope="{}""#, realm, service, scope),
        format!(r#"Bearer REALM="{}",SERVICE="{}",SCOPE="{}""#, realm, service, scope),
    ]
    .iter()
    {
        let content =
            WwwAuthenticateHeaderContent::from_www_authentication_header(header_value).unwrap();

        assert_eq!(
            WwwAuthenticateHeaderContent::Bearer(WwwAuthenticateHeaderContentBearer {
                realm: realm.to_string(),
                service: Some(service.to_string()),
                scope: Some(scope.to_string()),
            }),
            content
        );
    }
}

#[test]
fn basic_realm_parses_correctly() {
    let realm = "Registry realm";

    for header_value in [
        format!(r#"Basic realm="{}""#, realm),
        format!(r#"basic realm="{}""#, realm),
        format!(r#"BASIC realm="{}""#, realm),
        format!(r#"Basic Realm="{}""#, realm),
        format!(r#"Basic REALM="{}""#, realm),
    ]
    .iter()
    {
        let content =
            WwwAuthenticateHeaderContent::from_www_authentication_header(header_value).unwrap();

        assert_eq!(
            WwwAuthenticateHeaderContent::Basic(WwwAuthenticateHeaderContentBasic {
                realm: realm.to_string(),
            }),
            content
        );
    }
}

fn query_pairs(url: &str) -> Vec<(String, String)> {
    url::Url::parse(url).unwrap().query_pairs().into_owned().collect()
}

fn bearer_auth_ep_scope_construction(scopes: &[&str], include_service: bool) {
    let realm = "https://sat-r220-02.lab.eng.rdu2.redhat.com/v2/token";
    let service = "sat-r220-02.lab.eng.rdu2.redhat.com";

    let bearer_header_content = WwwAuthenticateHeaderContentBearer {
        realm: realm.to_string(),
        service: if include_service { Some(service.to_string()) } else { None },
        scope: None,
    };

    let mut expected: Vec<(String, String)> =
        scopes.iter().map(|a| ("scope".to_owned(), a.to_string())).collect();
    if include_service {
        expected.insert(0, ("service".to_owned(), service.to_string()));
    }

    let result = bearer_header_content.auth_ep(scopes);
    assert_eq!(query_pairs(&result), expected);
}

#[test]
fn bearer_auth_ep_no_scopes_with_service() {
    bearer_auth_ep_scope_construction(&[], true);
}

#[test]
fn bearer_auth_ep_single_scope_with_service() {
    bearer_auth_ep_scope_construction(&["repository:test:pull"], true);
}

#[test]
fn bearer_auth_ep_multiple_scopes() {
    bearer_auth_ep_scope_construction(
        &["repository:test:pull", "repository:example:pull,push", "repository:another:*"],
        false,
    );
}

#[test]
fn bearer_challenge_and_token_url() {
    let h = r#"Bearer realm="https://auth.example/token",service="example.com",scope="repository:x:pull""#;
    let content = WwwAuthenticateHeaderContent::from_www_authentication_header(h).unwrap();
    let bearer = WwwAuthenticateHeaderContentBearer {
        realm: "https://auth.example/token".to_string(),
        service: Some("example.com".to_string()),
        scope: Some("repository:x:pull".to_string()),
    };
    assert_eq!(content, WwwAuthenticateHeaderContent::Bearer(bearer.clone()));
    assert_eq!(
        bearer.auth_ep(&["repository:x:pull"]),
        "https://auth.example/token?service=example.com&scope=repository:x:pull"
    );
}

#[test]
fn basic_challenge_parse() {
    let content =
        WwwAuthenticateHeaderContent::from_www_authentication_header(r#"Basic realm="Registry realm""#)
            .unwrap();
    assert_eq!(
        content,
        WwwAuthenticateHeaderContent::Basic(WwwAuthenticateHeaderContentBasic {
            realm: "Registry realm".to_string()
        })
    );
}

#[test]
fn token_url_without_service_and_several_scopes() {
    let bearer = WwwAuthenticateHeaderContentBearer {
        realm: "https://auth.example/token".to_string(),
        service: None,
        scope: None,
    };
    assert_eq!(
        bearer.auth_ep(&["a:pull", "b:push"]),
        "https://auth.example/token?scope=a:pull&scope=b:push"
    );
    assert_eq!(bearer.auth_ep(&[]), "https://auth.example/token");
}

#[test]
fn challenge_with_white_space_and_unknown_keys() {
    let h = "  bEaReR   realm = \"r\" ,  foo=\"bar\",SERVICE=\"s\"  ";
    let content = WwwAuthenticateHeaderContent::from_www_authentication_header(h).unwrap();
    assert_eq!(
        content,
        WwwAuthenticateHeaderContent::Bearer(WwwAuthenticateHeaderContentBearer {
            realm: "r".to_string(),
            service: Some("s".to_string()),
            scope: None,
        })
    );
}

#[test]
fn challenge_errors() {
    assert_eq!(
        WwwAuthenticateHeaderContent::from_www_authentication_header(""),
        Err(Error::InvalidChallenge(WwwHeaderParseError::InvalidValue))
    );
    assert_eq!(
        WwwAuthenticateHeaderContent::from_www_authentication_header("Bearer"),
        Err(Error::InvalidChallenge(WwwHeaderParseError::InvalidValue))
    );
    assert_eq!(
        WwwAuthenticateHeaderContent::from_www_authentication_header(r#"realm="x""#),
        Err(Error::InvalidChallenge(WwwHeaderParseError::FieldMethodMissing))
    );
    assert_eq!(
        WwwAuthenticateHeaderContent::from_www_authentication_header(r#"Bearer realm="x"#),
        Err(Error::InvalidChallenge(WwwHeaderParseError::InvalidValue))
    );
    assert_eq!(
        WwwAuthenticateHeaderContent::from_www_authentication_header(r#"Bearer realm="x" service="y""#),
        Err(Error::InvalidChallenge(WwwHeaderParseError::InvalidValue))
    );
    assert_eq!(
        WwwAuthenticateHeaderContent::from_www_authentication_header(r#"Digest realm="x""#),
        Err(Error::UnsupportedChallenge("digest".to_string()))
    );
    assert_eq!(
        WwwAuthenticateHeaderContent::from_www_authentication_header(r#"Bearer service="x""#),
        Err(Error::UnsupportedChallenge("bearer".to_string()))
    );
    assert_eq!(
        WwwAuthenticateHeaderContent::from_www_authentication_header(r#"Basic realm="a",realm="b""#),
        Err(Error::UnsupportedChallenge("basic".to_string()))
    );
}

fn token(t: &str) -> BearerAuth {
    BearerAuth { token: t.to_string(), ..Default::default() }
}

#[test]
fn invalid_tokens_are_rejected() {
    assert_eq!(
        token("unauthenticated").check().unwrap_err(),
        Error::InvalidAuthToken("unauthenticated".to_string())
    );
    assert_eq!(token("").check().unwrap_err(), Error::InvalidAuthToken(String::new()));
    assert_eq!(token("abc").check().unwrap().token, "abc");
}

#[test]
fn token_and_auth_statuses() {
    assert!(check_token_status(200).is_ok());
    assert_eq!(check_token_status(403), Err(Error::UnexpectedHttpStatus(403)));
    assert_eq!(is_auth_status(200), Ok(true));
    assert_eq!(is_auth_status(401), Ok(false));
    assert_eq!(is_auth_status(500), Err(Error::UnexpectedHttpStatus(500)));
}

#[test]
fn anonymous_probe_leaves_no_auth() {
    let mut client = Client::configure().registry("example.com").build().unwrap();
    client.auth = Some(dkregistry::auth::Auth::Bearer(token("old")));
    assert!(client.authorization().is_some());
    assert!(matches!(client.on_probe(&[], 200, None), Ok(AuthStep::Done)));
    assert!(client.auth.is_none());
    assert!(client.authorization().is_none());
    assert!(matches!(client.on_probe(&[], 401, None), Ok(AuthStep::Done)));
    assert!(client.auth.is_none());
    assert_eq!(client.on_probe(&[], 500, None).unwrap_err(), Error::UnexpectedHttpStatus(500));
}

#[test]
fn basic_probe_needs_credentials() {
    let mut anon = Client::configure().registry("example.com").build().unwrap();
    assert_eq!(
        anon.on_probe(&[], 401, Some(r#"Basic realm="r""#)).unwrap_err(),
        Error::NoCredentials
    );
    let mut client = Client::configure()
        .registry("example.com")
        .username(Some("u".to_string()))
        .password(Some("p".to_string()))
        .build()
        .unwrap();
    assert!(matches!(client.on_probe(&[], 401, Some(r#"Basic realm="r""#)), Ok(AuthStep::Done)));
    match &client.auth {
        Some(dkregistry::auth::Auth::Basic(b)) => {
            assert_eq!(b.user, "u");
            assert_eq!(b.password.as_deref(), Some("p"));
        }
        _ => panic!("expected basic auth"),
    }
}

#[test]
fn bearer_probe_asks_for_token() {
    let mut client = Client::configure().registry("example.com").build().unwrap();
    let step = client
        .on_probe(&["repository:x:pull"], 401, Some(r#"Bearer realm="https://a/t",service="s""#))
        .unwrap();
    match step {
        AuthStep::FetchToken { url, credentials } => {
            assert_eq!(url, "https://a/t?service=s&scope=repository:x:pull");
            assert!(credentials.is_none());
        }
        _ => panic!("expected a token request"),
    }
    assert!(client.auth.is_none());
    assert_eq!(
        client.on_token(token("unauthenticated")).unwrap_err(),
        Error::InvalidAuthToken("unauthenticated".to_string())
    );
    assert!(client.auth.is_none());
    client.on_token(token("tok")).unwrap();
    match &client.auth {
        Some(dkregistry::auth::Auth::Bearer(b)) => assert_eq!(b.token, "tok"),
        _ => panic!("expected bearer auth"),
    }
    assert_eq!(
        client.authorization(),
        Some(dkregistry::auth::Authorization::Bearer { token: "tok".to_string() })
    );
}
