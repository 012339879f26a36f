//! Authentication material and the decisions of the authentication
//! exchange: which token endpoint to ask, which tokens to accept, and what
//! the client holds afterwards.
//!
//! The exchange itself (the probe `GET /v2/`, the token request) is sent by
//! the caller, which hands each answer to `Client::on_probe` and
//! `Client::on_token`.

use vstd::prelude::*;
use crate::challenge::{
    opt_view, parsed_challenge, ChallengeModel, WwwAuthenticateHeaderContent,
    WwwAuthenticateHeaderContentBearer,
};
use crate::client::Client;
use crate::errors::Error;
use crate::text::{push_str, str_eq};

verus! {

/// Material for Bearer authentication, as the token service hands it out.
#[derive(Debug, Clone, Default)]
pub struct BearerAuth {
    pub token: String,
    pub expires_in: Option<u32>,
    pub issued_at: Option<String>,
    pub refresh_token: Option<String>,
}

/// Material for Basic authentication.
#[derive(Debug, Clone)]
pub struct BasicAuth {
    pub user: String,
    pub password: Option<String>,
}

/// The authentication that a client holds.
#[derive(Debug, Clone)]
pub enum Auth {
    Bearer(BearerAuth),
    Basic(BasicAuth),
}

/// The `scope=` parameters of a token request, joined by `&`.
pub open spec fn scope_query(scopes: Seq<Seq<char>>) -> Seq<char>
    decreases scopes.len(),
{
    if scopes.len() == 0 {
        Seq::empty()
    } else if scopes.len() == 1 {
        "scope="@ + scopes[0]
    } else {
        scope_query(scopes.drop_last()) + "&scope="@ + scopes.last()
    }
}

/// The token endpoint: the realm, then `?service=<service>` if a service is
/// given, then the scopes, the first one after `?` where no service stands
/// before it and after `&` otherwise. Nothing is percent-encoded.
pub open spec fn token_endpoint(realm: Seq<char>, service: Option<Seq<char>>, scopes: Seq<Seq<char>>) -> Seq<char> {
    let sv = match service {
        Some(s) => "?service="@ + s,
        None => Seq::empty(),
    };
    let prefix = if scopes.len() == 0 {
        Seq::empty()
    } else if service is None {
        "?"@
    } else {
        "&"@
    };
    realm + sv + prefix + scope_query(scopes)
}

/// The view of a list of string slices.
pub open spec fn strs_view(v: Seq<&str>) -> Seq<Seq<char>> {
    v.map_values(|s: &str| s@)
}

/// Whether the token service handed out a usable token: neither empty nor
/// the literal `unauthenticated`.
pub open spec fn token_is_valid(token: Seq<char>) -> bool {
    token.len() > 0 && token != "unauthenticated"@
}

impl WwwAuthenticateHeaderContentBearer {
    /// The URL of the token endpoint for the given scopes.
    pub fn auth_ep(&self, scopes: &[&str]) -> (r: String)
        ensures
            r@ == token_endpoint(self.realm@, opt_view(self.service), strs_view(scopes@)),
    {
        let mut out = self.realm.clone();
        match &self.service {
            Some(sv) => {
                push_str(&mut out, "?service=");
                push_str(&mut out, sv.as_str());
            },
            None => {},
        }
        let ghost head = out@;
        let mut i: usize = 0;
        while i < scopes.len()
            invariant
                i <= scopes@.len(),
                out@ == head + (if i == 0 {
                    Seq::empty()
                } else if self.service is None {
                    "?"@
                } else {
                    "&"@
                }) + scope_query(strs_view(scopes@).take(i as int)),
            decreases scopes.len() - i,
        {
            let ghost before = out@;
            if i == 0 {
                if self.service.is_none() {
                    push_str(&mut out, "?");
                } else {
                    push_str(&mut out, "&");
                }
                push_str(&mut out, "scope=");
            } else {
                push_str(&mut out, "&scope=");
            }
            push_str(&mut out, scopes[i]);
            proof {
                let tk = strs_view(scopes@).take(i + 1);
                assert(tk.drop_last() =~= strs_view(scopes@).take(i as int));
                assert(tk.last() == scopes@[i as int]@);
                if i == 0 {
                    assert(strs_view(scopes@).take(0) =~= Seq::<Seq<char>>::empty());
                    assert(tk.len() == 1);
                }
                assert(out@ =~= head + (if self.service is None {
                    "?"@
                } else {
                    "&"@
                }) + scope_query(tk));
            }
            i += 1;
        }
        proof {
            assert(strs_view(scopes@).take(scopes@.len() as int) =~= strs_view(scopes@));
            if scopes@.len() == 0 {
                assert(out@ =~= head);
            }
            assert(out@ =~= token_endpoint(self.realm@, opt_view(self.service), strs_view(scopes@)));
        }
        out
    }
}

impl BearerAuth {
    /// Accepts what the token service handed out, unless its token is empty
    /// or `unauthenticated`.
    pub fn check(self) -> (r: Result<BearerAuth, Error>)
        ensures
            token_is_valid(self.token@) ==> r == Ok::<BearerAuth, Error>(self),
            !token_is_valid(self.token@) ==> (r matches Err(Error::InvalidAuthToken(t)) && t@
                == self.token@),
    {
        if self.token.as_str().is_empty() || str_eq(self.token.as_str(), "unauthenticated") {
            Err(Error::InvalidAuthToken(self.token))
        } else {
            Ok(self)
        }
    }
}

/// The credentials of an `Authorization` header.
#[derive(Debug, Clone, PartialEq, Eq)]
pub enum Authorization {
    Bearer { token: String },
    Basic { user: String, password: Option<String> },
}

/// What the caller does next in the authentication exchange.
#[derive(Debug, Clone)]
pub enum AuthStep {
    /// The exchange is over, and the client holds its authentication.
    Done,
    /// Ask the token endpoint `url` (with Basic credentials if given), and
    /// hand the answer to `Client::on_token`.
    FetchToken { url: String, credentials: Option<(String, String)> },
}

/// Whether a status is 2xx.
pub open spec fn is_success(status: u16) -> bool {
    200 <= status < 300
}

/// The answer of the token endpoint is usable only with status 200.
pub fn check_token_status(status: u16) -> (r: Result<(), Error>)
    ensures
        status == 200 ==> r is Ok,
        status != 200 ==> r == Err::<(), Error>(Error::UnexpectedHttpStatus(status)),
{
    if status == 200 {
        Ok(())
    } else {
        Err(Error::UnexpectedHttpStatus(status))
    }
}

/// The answer to an authenticated `GET /v2/`: 200 means access, 401 means
/// none; any other status is an error.
pub fn is_auth_status(status: u16) -> (r: Result<bool, Error>)
    ensures
        status == 200 ==> r == Ok::<bool, Error>(true),
        status == 401 ==> r == Ok::<bool, Error>(false),
        status != 200 && status != 401 ==> r == Err::<bool, Error>(
            Error::UnexpectedHttpStatus(status),
        ),
{
    if status == 200 {
        Ok(true)
    } else if status == 401 {
        Ok(false)
    } else {
        Err(Error::UnexpectedHttpStatus(status))
    }
}

impl Client {
    /// Starts authentication from the answer to the unauthenticated probe
    /// `GET /v2/`: its status and its `WWW-Authenticate` header, if any.
    ///
    /// The client's authentication is cleared first. Without a challenge, a
    /// 2xx or 401 status leaves the client anonymous. A Basic challenge sets
    /// Basic authentication from the credentials, or fails without them. A
    /// Bearer challenge asks the caller to fetch a token from its endpoint.
    pub fn on_probe(&mut self, scopes: &[&str], status: u16, www_authenticate: Option<&str>) -> (r:
        Result<AuthStep, Error>)
        ensures
            final(self).base_url == old(self).base_url,
            final(self).index == old(self).index,
            final(self).credentials == old(self).credentials,
            final(self).accepted_types == old(self).accepted_types,
            !(r matches Ok(AuthStep::Done)) ==> final(self).auth is None,
            www_authenticate is None ==> if is_success(status) || status == 401 {
                r matches Ok(AuthStep::Done) && final(self).auth is None
            } else {
                r == Err::<AuthStep, Error>(Error::UnexpectedHttpStatus(status))
            },
            www_authenticate matches Some(h) ==> match parsed_challenge(h@) {
                None => r is Err,
                Some(ChallengeModel::Basic { .. }) => match old(self).credentials {
                    None => r == Err::<AuthStep, Error>(Error::NoCredentials),
                    Some((u, p)) => r matches Ok(AuthStep::Done) && (final(self).auth matches Some(
                        Auth::Basic(b),
                    ) && b.user@ == u@ && (b.password matches Some(bp) && bp@ == p@)),
                },
                Some(ChallengeModel::Bearer { realm, service, .. }) => r matches Ok(
                    AuthStep::FetchToken { url, credentials },
                ) && url@ == token_endpoint(realm, service, strs_view(scopes@)) && credentials
                    == old(self).credentials,
            },
    {
        self.auth = None;
        let h = match www_authenticate {
            None => {
                if (200 <= status && status < 300) || status == 401 {
                    return Ok(AuthStep::Done);
                } else {
                    return Err(Error::UnexpectedHttpStatus(status));
                }
            },
            Some(h) => h,
        };
        match WwwAuthenticateHeaderContent::from_www_authentication_header(h) {
            Err(e) => Err(e),
            Ok(WwwAuthenticateHeaderContent::Basic(_)) => match &self.credentials {
                None => Err(Error::NoCredentials),
                Some((u, p)) => {
                    let b = BasicAuth { user: u.clone(), password: Some(p.clone()) };
                    self.auth = Some(Auth::Basic(b));
                    Ok(AuthStep::Done)
                },
            },
            Ok(WwwAuthenticateHeaderContent::Bearer(b)) => {
                let url = b.auth_ep(scopes);
                let credentials = match &self.credentials {
                    Some((u, p)) => Some((u.clone(), p.clone())),
                    None => None,
                };
                Ok(AuthStep::FetchToken { url, credentials })
            },
        }
    }

    /// The `Authorization` header that requests of this client carry: none
    /// while the client is anonymous, the token for Bearer authentication,
    /// the user and password for Basic authentication.
    pub fn authorization(&self) -> (r: Option<Authorization>)
        ensures
            self.auth is None <==> r is None,
            self.auth matches Some(Auth::Bearer(b)) ==> (r matches Some(Authorization::Bearer { token })
                && token@ == b.token@),
            self.auth matches Some(Auth::Basic(b)) ==> (r matches Some(
                Authorization::Basic { user, password },
            ) && user@ == b.user@ && opt_view(password) == opt_view(b.password)),
    {
        match &self.auth {
            None => None,
            Some(Auth::Bearer(b)) => Some(Authorization::Bearer { token: b.token.clone() }),
            Some(Auth::Basic(b)) => {
                let password = match &b.password {
                    Some(p) => Some(p.clone()),
                    None => None,
                };
                Some(Authorization::Basic { user: b.user.clone(), password })
            },
        }
    }

    /// Ends a Bearer exchange with what the token endpoint handed out: the
    /// client holds it, unless its token is empty or `unauthenticated`.
    pub fn on_token(&mut self, token: BearerAuth) -> (r: Result<(), Error>)
        ensures
            final(self).base_url == old(self).base_url,
            final(self).index == old(self).index,
            final(self).credentials == old(self).credentials,
            final(self).accepted_types == old(self).accepted_types,
            token_is_valid(token.token@) ==> r is Ok && final(self).auth == Some(
                Auth::Bearer(token),
            ),
            !token_is_valid(token.token@) ==> final(self).auth is None && (r matches Err(
                Error::InvalidAuthToken(t),
            ) && t@ == token.token@),
    {
        self.auth = None;
        let t = token.check()?;
        self.auth = Some(Auth::Bearer(t));
        Ok(())
    }
}

} // verus!
