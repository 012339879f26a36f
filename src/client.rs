//! The client's configuration and state, and the `Accept` header it sends
//! for manifests.

use vstd::prelude::*;
use crate::auth::Auth;
use crate::errors::Error;
use crate::mediatypes::{mime_of, MediaTypes};
use crate::text::{ends_with, push_str, str_ends_with, str_eq};

verus! {

/// A quality weight of an `Accept` entry, in thousandths: 0 to 1000 (a
/// larger number stands for 1).
#[derive(Debug, Clone, Copy, PartialEq, Eq, Structural)]
pub struct QWeight {
    pub thousandths: u16,
}

/// The decimal digit `d` (0 to 9) as a character.
pub open spec fn digit_char(d: int) -> char {
    ((d + 48) as u8) as char
}

/// The text of a weight as a decimal number with no trailing zeros:
/// `1`, `0`, `0.5`, `0.25`, `0.125`.
pub open spec fn qvalue_text(t: int) -> Seq<char> {
    if t >= 1000 {
        seq!['1']
    } else if t == 0 {
        seq!['0']
    } else {
        let d1 = t / 100;
        let d2 = (t / 10) % 10;
        let d3 = t % 10;
        if d3 != 0 {
            seq!['0', '.', digit_char(d1), digit_char(d2), digit_char(d3)]
        } else if d2 != 0 {
            seq!['0', '.', digit_char(d1), digit_char(d2)]
        } else {
            seq!['0', '.', digit_char(d1)]
        }
    }
}

fn digit_exec(d: u16) -> (c: char)
    requires
        d < 10,
    ensures
        c == digit_char(d as int),
{
    ((d as u8) + 48) as char
}

impl QWeight {
    pub open spec fn value(&self) -> int {
        self.thousandths as int
    }

    pub open spec fn wf(&self) -> bool {
        self.thousandths <= 1000
    }

    /// A weight of `thousandths`/1000, if that is at most 1.
    pub fn new(thousandths: u16) -> (r: Option<QWeight>)
        ensures
            r is Some <==> thousandths <= 1000,
            r matches Some(w) ==> w.value() == thousandths && w.wf(),
    {
        if thousandths <= 1000 {
            Some(QWeight { thousandths })
        } else {
            None
        }
    }

    /// The weight in thousandths.
    pub fn thousandths(&self) -> (r: u16)
        ensures
            r == self.value(),
    {
        self.thousandths
    }

    /// The weight as it stands after `q=`.
    pub fn to_text(&self) -> (r: String)
        ensures
            r@ == qvalue_text(self.value()),
    {
        let t = self.thousandths;
        if t >= 1000 {
            proof {
                reveal_strlit("1");
                assert("1"@ =~= seq!['1']);
            }
            return "1".to_owned();
        }
        if t == 0 {
            proof {
                reveal_strlit("0");
                assert("0"@ =~= seq!['0']);
            }
            return "0".to_owned();
        }
        let d1 = t / 100;
        let d2 = (t / 10) % 10;
        let d3 = t % 10;
        let mut cs: Vec<char> = vec!['0', '.', digit_exec(d1)];
        if d2 != 0 || d3 != 0 {
            cs.push(digit_exec(d2));
        }
        if d3 != 0 {
            cs.push(digit_exec(d3));
        }
        proof {
            if d3 != 0 {
                assert(cs@ =~= seq!['0', '.', digit_char(d1 as int), digit_char(d2 as int), digit_char(d3 as int)]);
            } else if d2 != 0 {
                assert(cs@ =~= seq!['0', '.', digit_char(d1 as int), digit_char(d2 as int)]);
            } else {
                assert(cs@ =~= seq!['0', '.', digit_char(d1 as int)]);
            }
        }
        crate::text::string_of_range(cs.as_slice(), 0, cs.len())
    }
}

/// One entry of the `Accept` header: the MIME text, then `; q=<weight>` if a
/// weight is given.
pub open spec fn accept_entry(m: MediaTypes, q: Option<QWeight>) -> Seq<char> {
    match q {
        None => mime_of(m),
        Some(w) => mime_of(m) + "; q="@ + qvalue_text(w.value()),
    }
}

/// The `Accept` header value: the entries joined by commas, in order.
pub open spec fn accept_header(ts: Seq<(MediaTypes, Option<QWeight>)>) -> Seq<char>
    decreases ts.len(),
{
    if ts.len() == 0 {
        Seq::empty()
    } else if ts.len() == 1 {
        accept_entry(ts[0].0, ts[0].1)
    } else {
        accept_header(ts.drop_last()) + ","@ + accept_entry(ts.last().0, ts.last().1)
    }
}

/// The same accepted types with every weight left out.
pub open spec fn without_weights(ts: Seq<(MediaTypes, Option<QWeight>)>) -> Seq<
    (MediaTypes, Option<QWeight>),
> {
    ts.map_values(|t: (MediaTypes, Option<QWeight>)| (t.0, None::<QWeight>))
}

/// Builds the `Accept` header value for the accepted types.
pub fn build_accept_headers(accepted_types: &[(MediaTypes, Option<QWeight>)]) -> (r: String)
    ensures
        r@ == accept_header(accepted_types@),
{
    let mut out = String::new();
    let mut i: usize = 0;
    while i < accepted_types.len()
        invariant
            i <= accepted_types@.len(),
            out@ == accept_header(accepted_types@.take(i as int)),
        decreases accepted_types.len() - i,
    {
        let (ty, q) = accepted_types[i];
        let ghost before = out@;
        if i > 0 {
            push_str(&mut out, ",");
        }
        let m = ty.to_mime();
        push_str(&mut out, m.as_str());
        match q {
            None => {},
            Some(w) => {
                push_str(&mut out, "; q=");
                let t = w.to_text();
                push_str(&mut out, t.as_str());
            },
        }
        proof {
            let tk = accepted_types@.take(i + 1);
            assert(tk.drop_last() =~= accepted_types@.take(i as int));
            assert(tk.last() == accepted_types@[i as int]);
            if i == 0 {
                assert(before.len() == 0);
            }
            assert(out@ =~= accept_header(tk));
        }
        i += 1;
    }
    assert(accepted_types@.take(accepted_types@.len() as int) =~= accepted_types@);
    out
}

/// The public registry that is used where none is configured.
pub const DEFAULT_REGISTRY: &'static str = "registry-1.docker.io";

/// Whether a registry is the Google Container Registry, which refuses
/// quality weights: `gcr.io` or a host under it.
pub open spec fn is_gcr(index: Seq<char>) -> bool {
    index == "gcr.io"@ || ends_with(index, ".gcr.io"@)
}

/// The accepted types when none are configured.
pub open spec fn default_accepted_types() -> Seq<(MediaTypes, Option<QWeight>)> {
    seq![
        (MediaTypes::ManifestV2S2, Some(QWeight { thousandths: 500 })),
        (MediaTypes::ManifestV2S1Signed, Some(QWeight { thousandths: 400 })),
        (MediaTypes::ManifestList, Some(QWeight { thousandths: 500 })),
    ]
}

/// The accepted types a client works with: those configured, or the
/// default ones, without weights for a gcr.io registry.
pub open spec fn effective_accepted_types(
    index: Seq<char>,
    given: Option<Seq<(MediaTypes, Option<QWeight>)>>,
) -> Seq<(MediaTypes, Option<QWeight>)> {
    let ts = match given {
        Some(ts) => ts,
        None => default_accepted_types(),
    };
    if is_gcr(index) {
        without_weights(ts)
    } else {
        ts
    }
}

/// For a gcr.io registry the `Accept` header lists every accepted type by
/// its MIME text alone, with no weight; for any other registry each
/// configured weight follows its type as `; q=<value>`.
pub proof fn lemma_accept_weight_omission(
    index: Seq<char>,
    given: Option<Seq<(MediaTypes, Option<QWeight>)>>,
)
    ensures
        is_gcr(index) ==> forall|i: int|
            0 <= i < effective_accepted_types(index, given).len() ==> #[trigger] accept_entry(
                effective_accepted_types(index, given)[i].0,
                effective_accepted_types(index, given)[i].1,
            ) == mime_of(effective_accepted_types(index, given)[i].0),
        !is_gcr(index) ==> effective_accepted_types(index, given) == match given {
            Some(ts) => ts,
            None => default_accepted_types(),
        },
        !is_gcr(index) ==> forall|i: int|
            0 <= i < effective_accepted_types(index, given).len() ==> (
            #[trigger] effective_accepted_types(index, given)[i].1 matches Some(w) ==> accept_entry(
                effective_accepted_types(index, given)[i].0,
                Some(w),
            ) == mime_of(effective_accepted_types(index, given)[i].0) + "; q="@ + qvalue_text(
                w.value(),
            )),
{
}

/// Whether `s` holds no `=` from position `i` on.
pub open spec fn lacks_equals_from(s: Seq<char>, i: int) -> bool
    decreases s.len() - i,
{
    i >= s.len() || (s[i] != '=' && lacks_equals_from(s, i + 1))
}

proof fn lemma_lacks_equals(s: Seq<char>, i: int)
    requires
        0 <= i,
        lacks_equals_from(s, i),
    ensures
        forall|j: int| i <= j < s.len() ==> s[j] != '=',
    decreases s.len() - i,
{
    if i < s.len() {
        lemma_lacks_equals(s, i + 1);
    }
}

proof fn lemma_mime_has_no_equals(m: MediaTypes)
    ensures
        forall|i: int| 0 <= i < mime_of(m).len() ==> mime_of(m)[i] != '=',
{
    let s = mime_of(m);
    match m {
        MediaTypes::OciV1ManifestList => {
            reveal_strlit("application/vnd.oci.image.index.v1+json");
        },
        MediaTypes::OciV1Manifest => {
            reveal_strlit("application/vnd.oci.image.manifest.v1+json");
        },
        MediaTypes::OciV1ManifestConfig => {
            reveal_strlit("application/vnd.oci.image.config.v1+json");
        },
        MediaTypes::ManifestV2S1 => {
            reveal_strlit("application/vnd.docker.distribution.manifest.v1+json");
        },
        MediaTypes::ManifestV2S1Signed => {
            reveal_strlit("application/vnd.docker.distribution.manifest.v1+prettyjws");
        },
        MediaTypes::ManifestV2S2 => {
            reveal_strlit("application/vnd.docker.distribution.manifest.v2+json");
        },
        MediaTypes::ManifestList => {
            reveal_strlit("application/vnd.docker.distribution.manifest.list.v2+json");
        },
        MediaTypes::ImageLayerTgz => {
            reveal_strlit("application/vnd.docker.image.rootfs.diff.tar.gzip");
        },
        MediaTypes::ContainerConfigV1 => {
            reveal_strlit("application/vnd.docker.container.image.v1+json");
        },
        MediaTypes::ApplicationJson => {
            reveal_strlit("application/json");
        },
    }
    assert(lacks_equals_from(s, 0)) by {
        reveal_with_fuel(lacks_equals_from, 60);
    }
    lemma_lacks_equals(s, 0);
}

proof fn lemma_unweighted_header_has_no_equals(ts: Seq<(MediaTypes, Option<QWeight>)>)
    requires
        forall|i: int| 0 <= i < ts.len() ==> (#[trigger] ts[i]).1 is None,
    ensures
        forall|i: int| 0 <= i < accept_header(ts).len() ==> accept_header(ts)[i] != '=',
    decreases ts.len(),
{
    if ts.len() == 1 {
        lemma_mime_has_no_equals(ts[0].0);
    } else if ts.len() > 1 {
        let init = ts.drop_last();
        assert forall|i: int| 0 <= i < init.len() implies (#[trigger] init[i]).1 is None by {
            assert(init[i] == ts[i]);
        }
        lemma_unweighted_header_has_no_equals(init);
        lemma_mime_has_no_equals(ts.last().0);
        assert(ts.last().1 is None);
        reveal_strlit(",");
        let h = accept_header(ts);
        let a = accept_header(init);
        let e = mime_of(ts.last().0);
        assert(h == a + ","@ + e);
        assert forall|i: int| 0 <= i < h.len() implies h[i] != '=' by {
            if i < a.len() {
                assert(h[i] == a[i]);
            } else if i == a.len() {
                assert(h[i] == ',');
            } else {
                assert(h[i] == e[i - a.len() - 1]);
            }
        }
    }
}

/// For a gcr.io registry the `Accept` header holds no `=` at all, and so no
/// `q=` parameter.
pub proof fn lemma_gcr_accept_has_no_weight(
    index: Seq<char>,
    given: Option<Seq<(MediaTypes, Option<QWeight>)>>,
)
    requires
        is_gcr(index),
    ensures
        forall|i: int|
            0 <= i < accept_header(effective_accepted_types(index, given)).len() ==> accept_header(
                effective_accepted_types(index, given),
            )[i] != '=',
{
    let ts = effective_accepted_types(index, given);
    assert forall|i: int| 0 <= i < ts.len() implies (#[trigger] ts[i]).1 is None by {}
    lemma_unweighted_header_has_no_equals(ts);
}

/// Every entry of the accepted types stands in the `Accept` header, as it
/// is written: the MIME text, then `; q=<weight>` where a weight is given.
pub proof fn lemma_accept_header_holds_entries(ts: Seq<(MediaTypes, Option<QWeight>)>, i: int)
    requires
        0 <= i < ts.len(),
    ensures
        exists|k: int|
            0 <= k && k + accept_entry(ts[i].0, ts[i].1).len() <= accept_header(ts).len()
                && #[trigger] accept_header(ts).subrange(
                k,
                k + accept_entry(ts[i].0, ts[i].1).len(),
            ) == accept_entry(ts[i].0, ts[i].1),
    decreases ts.len(),
{
    let h = accept_header(ts);
    let e = accept_entry(ts[i].0, ts[i].1);
    if ts.len() == 1 {
        assert(h == e);
        assert(h.subrange(0, e.len() as int) =~= e);
        assert(0 <= 0int && 0int + e.len() <= h.len() && h.subrange(0int, 0int + e.len()) == e);
    } else {
        let init = ts.drop_last();
        let a = accept_header(init);
        reveal_strlit(",");
        assert(h == a + ","@ + accept_entry(ts.last().0, ts.last().1));
        if i == ts.len() - 1 {
            let k = a.len() + 1int;
            assert(h.subrange(k, k + e.len()) =~= e);
            assert(0 <= k && k + e.len() <= h.len() && h.subrange(k, k + e.len()) == e);
        } else {
            assert(init[i] == ts[i]);
            lemma_accept_header_holds_entries(init, i);
            let k = choose|k: int|
                0 <= k && k + e.len() <= a.len() && #[trigger] a.subrange(k, k + e.len()) == e;
            assert(h.subrange(k, k + e.len()) =~= a.subrange(k, k + e.len()));
            assert(0 <= k && k + e.len() <= h.len() && h.subrange(k, k + e.len()) == e);
        }
    }
}

/// The settings from which a client is built.
#[derive(Debug, Clone)]
pub struct Config {
    pub index: String,
    pub insecure_registry: bool,
    pub username: Option<String>,
    pub password: Option<String>,
    pub accepted_types: Option<Vec<(MediaTypes, Option<QWeight>)>>,
}

/// A registry client: where to send requests, with which credentials and
/// authentication, and which manifest types to accept.
#[derive(Debug, Clone)]
pub struct Client {
    pub base_url: String,
    pub index: String,
    pub credentials: Option<(String, String)>,
    pub auth: Option<Auth>,
    pub accepted_types: Vec<(MediaTypes, Option<QWeight>)>,
}

impl Config {
    pub open spec fn accepted_types_view(&self) -> Option<Seq<(MediaTypes, Option<QWeight>)>> {
        match self.accepted_types {
            Some(v) => Some(v@),
            None => None,
        }
    }

    /// Sets the registry host, with an optional port.
    pub fn registry(self, reg: &str) -> (r: Config)
        ensures
            r.index@ == reg@,
            r.insecure_registry == self.insecure_registry,
            r.username == self.username,
            r.password == self.password,
            r.accepted_types == self.accepted_types,
    {
        Config { index: reg.to_owned(), ..self }
    }

    /// Chooses `http` over `https`.
    pub fn insecure_registry(self, insecure: bool) -> (r: Config)
        ensures
            r.index == self.index,
            r.insecure_registry == insecure,
            r.username == self.username,
            r.password == self.password,
            r.accepted_types == self.accepted_types,
    {
        Config { insecure_registry: insecure, ..self }
    }

    /// Sets the user name of the credentials.
    pub fn username(self, user: Option<String>) -> (r: Config)
        ensures
            r.index == self.index,
            r.insecure_registry == self.insecure_registry,
            r.username == user,
            r.password == self.password,
            r.accepted_types == self.accepted_types,
    {
        Config { username: user, ..self }
    }

    /// Sets the password of the credentials.
    pub fn password(self, password: Option<String>) -> (r: Config)
        ensures
            r.index == self.index,
            r.insecure_registry == self.insecure_registry,
            r.username == self.username,
            r.password == password,
            r.accepted_types == self.accepted_types,
    {
        Config { password, ..self }
    }

    /// Sets the accepted manifest types, in order of preference.
    pub fn accepted_types(self, accepted_types: Option<Vec<(MediaTypes, Option<QWeight>)>>) -> (r:
        Config)
        ensures
            r.index == self.index,
            r.insecure_registry == self.insecure_registry,
            r.username == self.username,
            r.password == self.password,
            r.accepted_types == accepted_types,
    {
        Config { accepted_types, ..self }
    }

    /// Builds the client: its base URL is `https://<registry>` (`http` when
    /// insecure), its credentials are set where a user name or a password is
    /// (the other one empty), it has no authentication yet, and it accepts
    /// the configured types or the default ones, without weights for gcr.io.
    pub fn build(self) -> (r: Result<Client, Error>)
        ensures
            r matches Ok(c) && c.base_url@ == (if self.insecure_registry {
                "http://"@
            } else {
                "https://"@
            }) + self.index@ && c.index@ == self.index@ && c.auth is None
                && c.accepted_types@ == effective_accepted_types(
                self.index@,
                self.accepted_types_view(),
            ) && match (self.username, self.password) {
                (None, None) => c.credentials is None,
                (Some(u), Some(p)) => c.credentials matches Some((cu, cp)) && cu@ == u@ && cp@ == p@,
                (Some(u), None) => c.credentials matches Some((cu, cp)) && cu@ == u@ && cp@.len() == 0,
                (None, Some(p)) => c.credentials matches Some((cu, cp)) && cu@.len() == 0 && cp@ == p@,
            },
    {
        let mut base_url = if self.insecure_registry {
            "http://".to_owned()
        } else {
            "https://".to_owned()
        };
        push_str(&mut base_url, self.index.as_str());
        let credentials = match (self.username, self.password) {
            (None, None) => None,
            (Some(u), Some(p)) => Some((u, p)),
            (Some(u), None) => Some((u, String::new())),
            (None, Some(p)) => Some((String::new(), p)),
        };
        let ghost given_types = self.accepted_types_view();
        let given = match self.accepted_types {
            Some(ts) => ts,
            None => vec![
                (MediaTypes::ManifestV2S2, Some(QWeight { thousandths: 500 })),
                (MediaTypes::ManifestV2S1Signed, Some(QWeight { thousandths: 400 })),
                (MediaTypes::ManifestList, Some(QWeight { thousandths: 500 })),
            ],
        };
        let gcr = str_eq(self.index.as_str(), "gcr.io") || str_ends_with(
            self.index.as_str(),
            ".gcr.io",
        );
        let accepted_types = if gcr {
            let mut stripped: Vec<(MediaTypes, Option<QWeight>)> = Vec::new();
            let mut i: usize = 0;
            while i < given.len()
                invariant
                    i <= given@.len(),
                    stripped@ == without_weights(given@.take(i as int)),
                decreases given.len() - i,
            {
                stripped.push((given[i].0, None));
                assert(without_weights(given@.take(i + 1)) =~= without_weights(given@.take(i as int)).push(
                    (given@[i as int].0, None::<QWeight>),
                ));
                i += 1;
            }
            assert(given@.take(given@.len() as int) =~= given@);
            stripped
        } else {
            given
        };
        proof {
            if given_types is None {
                assert(given@ =~= default_accepted_types());
            }
        }
        Ok(Client { base_url, index: self.index, credentials, auth: None, accepted_types })
    }
}

impl Client {
    /// The default settings: the public registry, over `https`, without
    /// credentials, with the default accepted types.
    pub fn configure() -> (r: Config)
        ensures
            r.index@ == DEFAULT_REGISTRY@,
            !r.insecure_registry,
            r.username is None,
            r.password is None,
            r.accepted_types is None,
    {
        Config {
            index: DEFAULT_REGISTRY.to_owned(),
            insecure_registry: false,
            username: None,
            password: None,
            accepted_types: None,
        }
    }
}

} // verus!
