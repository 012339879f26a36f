//! The `WWW-Authenticate` header value: a scheme word followed by
//! comma-separated parameters `key="value"`.
//!
//! The scheme and the keys are read without regard to ASCII case; values are
//! kept as they are. White space may stand around every token.

use vstd::prelude::*;
use crate::errors::{Error, WwwHeaderParseError};
use crate::text::{chars_of, is_ascii_alpha, lower, lower_char, lower_char_exec, str_eq};

verus! {

pub open spec fn is_ws(c: char) -> bool {
    c == ' ' || c == '\t' || c == '\n' || c == '\r'
}

/// The number of white-space characters from position `i` on.
pub open spec fn ws_run(s: Seq<char>, i: int) -> nat
    decreases s.len() - i,
{
    if 0 <= i < s.len() && is_ws(s[i]) {
        1 + ws_run(s, i + 1)
    } else {
        0
    }
}

/// The number of ASCII letters from position `i` on.
pub open spec fn alpha_run(s: Seq<char>, i: int) -> nat
    decreases s.len() - i,
{
    if 0 <= i < s.len() && is_ascii_alpha(s[i]) {
        1 + alpha_run(s, i + 1)
    } else {
        0
    }
}

/// The number of characters other than `"` from position `i` on.
pub open spec fn unquoted_run(s: Seq<char>, i: int) -> nat
    decreases s.len() - i,
{
    if 0 <= i < s.len() && s[i] != '"' {
        1 + unquoted_run(s, i + 1)
    } else {
        0
    }
}

/// One parameter `key = "value"` at position `i`: the key in lower case, the
/// value (at least one character, no `"`), and the number of characters
/// taken up to the closing quote included.
pub open spec fn parse_param(s: Seq<char>, i: int) -> Option<(Seq<char>, Seq<char>, nat)> {
    let k = alpha_run(s, i);
    let e = i + k;
    let eq = e + ws_run(s, e);
    if k == 0 || eq >= s.len() || s[eq] != '=' {
        None
    } else {
        let f = eq + 1 + ws_run(s, eq + 1);
        if f >= s.len() || s[f] != '"' {
            None
        } else {
            let v = unquoted_run(s, f + 1);
            if v == 0 || f + 1 + v >= s.len() {
                None
            } else {
                Some((lower(s.subrange(i, e)), s.subrange(f + 1, f + 1 + v), (f + 2 + v - i) as nat))
            }
        }
    }
}

/// The parameters from position `i` to the end of the text: one or more,
/// separated by commas.
pub open spec fn parse_params(s: Seq<char>, i: int) -> Option<Seq<(Seq<char>, Seq<char>)>>
    decreases s.len() - i,
{
    let p = i + ws_run(s, i);
    match parse_param(s, p) {
        None => None,
        Some((k, v, n)) => {
            let r = p + n + ws_run(s, p + n);
            if r >= s.len() {
                Some(seq![(k, v)])
            } else if s[r] == ',' && i < r + 1 {
                match parse_params(s, r + 1) {
                    Some(ps) => Some(seq![(k, v)] + ps),
                    None => None,
                }
            } else {
                None
            }
        }
    }
}

/// Whether the text opens with a scheme word: letters followed by white space.
pub open spec fn has_scheme(s: Seq<char>) -> bool {
    let t = ws_run(s, 0) as int;
    let n = alpha_run(s, t);
    n > 0 && t + n < s.len() && is_ws(s[t + n])
}

/// Whether the text opens with a parameter `key="value"`, with no scheme
/// word before it.
pub open spec fn opens_with_param(s: Seq<char>) -> bool {
    parse_param(s, ws_run(s, 0) as int) is Some
}

/// The scheme word, in lower case.
pub open spec fn scheme_of(s: Seq<char>) -> Seq<char> {
    let t = ws_run(s, 0) as int;
    lower(s.subrange(t, t + alpha_run(s, t)))
}

/// The parameters after the scheme word.
pub open spec fn params_of(s: Seq<char>) -> Option<Seq<(Seq<char>, Seq<char>)>> {
    let t = ws_run(s, 0) as int;
    parse_params(s, t + alpha_run(s, t))
}

/// How often a key occurs among the parameters.
pub open spec fn key_count(ps: Seq<(Seq<char>, Seq<char>)>, k: Seq<char>) -> nat
    decreases ps.len(),
{
    if ps.len() == 0 {
        0
    } else {
        (if ps.last().0 == k { 1nat } else { 0nat }) + key_count(ps.drop_last(), k)
    }
}

/// The value of the last parameter with key `k`, if any.
pub open spec fn value_of(ps: Seq<(Seq<char>, Seq<char>)>, k: Seq<char>) -> Option<Seq<char>>
    decreases ps.len(),
{
    if ps.len() == 0 {
        None
    } else if ps.last().0 == k {
        Some(ps.last().1)
    } else {
        value_of(ps.drop_last(), k)
    }
}

proof fn lemma_counted_key_has_value(ps: Seq<(Seq<char>, Seq<char>)>, k: Seq<char>)
    requires
        key_count(ps, k) > 0,
    ensures
        value_of(ps, k) is Some,
    decreases ps.len(),
{
    if ps.len() > 0 && ps.last().0 != k {
        lemma_counted_key_has_value(ps.drop_last(), k);
    }
}

/// What a challenge says, over plain values.
pub ghost enum ChallengeModel {
    Bearer { realm: Seq<char>, service: Option<Seq<char>>, scope: Option<Seq<char>> },
    Basic { realm: Seq<char> },
}

/// Whether a key occurs at most once.
pub open spec fn at_most_once(ps: Seq<(Seq<char>, Seq<char>)>, k: Seq<char>) -> bool {
    key_count(ps, k) <= 1
}

/// The challenge that a scheme and its parameters make: `bearer` needs one
/// `realm` and takes at most one `service` and one `scope`; `basic` needs one
/// `realm`. Other keys are ignored.
pub open spec fn challenge_model(scheme: Seq<char>, ps: Seq<(Seq<char>, Seq<char>)>) -> Option<
    ChallengeModel,
> {
    if scheme == "bearer"@ {
        if key_count(ps, "realm"@) == 1 && at_most_once(ps, "service"@) && at_most_once(
            ps,
            "scope"@,
        ) {
            Some(
                ChallengeModel::Bearer {
                    realm: value_of(ps, "realm"@)->0,
                    service: value_of(ps, "service"@),
                    scope: value_of(ps, "scope"@),
                },
            )
        } else {
            None
        }
    } else if scheme == "basic"@ {
        if key_count(ps, "realm"@) == 1 {
            Some(ChallengeModel::Basic { realm: value_of(ps, "realm"@)->0 })
        } else {
            None
        }
    } else {
        None
    }
}

/// The challenge that a header value parses to, if it parses to one.
pub open spec fn parsed_challenge(s: Seq<char>) -> Option<ChallengeModel> {
    if has_scheme(s) && params_of(s) is Some {
        challenge_model(scheme_of(s), params_of(s)->0)
    } else {
        None
    }
}

/// A parameter written out: `key="value"`.
pub open spec fn param_text(p: (Seq<char>, Seq<char>)) -> Seq<char> {
    p.0 + seq!['=', '"'] + p.1 + seq!['"']
}

/// Parameters written out, separated by commas.
pub open spec fn params_text(ps: Seq<(Seq<char>, Seq<char>)>) -> Seq<char>
    decreases ps.len(),
{
    if ps.len() == 0 {
        Seq::empty()
    } else if ps.len() == 1 {
        param_text(ps[0])
    } else {
        param_text(ps[0]) + seq![','] + params_text(ps.drop_first())
    }
}

/// A challenge written out: the scheme word, a space, the parameters.
pub open spec fn challenge_text(scheme: Seq<char>, ps: Seq<(Seq<char>, Seq<char>)>) -> Seq<char> {
    scheme + seq![' '] + params_text(ps)
}

pub open spec fn all_alpha(s: Seq<char>) -> bool {
    forall|i: int| 0 <= i < s.len() ==> is_ascii_alpha(#[trigger] s[i])
}

pub open spec fn no_quote(s: Seq<char>) -> bool {
    forall|i: int| 0 <= i < s.len() ==> #[trigger] s[i] != '"'
}

/// Parameters that can be written out and read back: at least one, each key
/// made of letters, each value of at least one character and no `"`.
pub open spec fn writable_params(ps: Seq<(Seq<char>, Seq<char>)>) -> bool {
    ps.len() > 0 && forall|i: int|
        0 <= i < ps.len() ==> (#[trigger] ps[i]).0.len() > 0 && all_alpha(ps[i].0) && ps[i].1.len()
            > 0 && no_quote(ps[i].1)
}

/// The parameters with their keys in lower case.
pub open spec fn lower_keys(ps: Seq<(Seq<char>, Seq<char>)>) -> Seq<(Seq<char>, Seq<char>)> {
    ps.map_values(|p: (Seq<char>, Seq<char>)| (lower(p.0), p.1))
}

proof fn lemma_alpha_run(s: Seq<char>, i: int, n: int)
    requires
        0 <= i,
        0 <= n,
        i + n <= s.len(),
        forall|j: int| i <= j < i + n ==> is_ascii_alpha(#[trigger] s[j]),
        i + n == s.len() || !is_ascii_alpha(s[i + n]),
    ensures
        alpha_run(s, i) == n,
    decreases n,
{
    if n > 0 {
        lemma_alpha_run(s, i + 1, n - 1);
    }
}

proof fn lemma_unquoted_run(s: Seq<char>, i: int, n: int)
    requires
        0 <= i,
        0 <= n,
        i + n < s.len(),
        forall|j: int| i <= j < i + n ==> #[trigger] s[j] != '"',
        s[i + n] == '"',
    ensures
        unquoted_run(s, i) == n,
    decreases n,
{
    if n > 0 {
        lemma_unquoted_run(s, i + 1, n - 1);
    }
}

proof fn lemma_parse_param_text(s: Seq<char>, i: int, k: Seq<char>, v: Seq<char>)
    requires
        0 <= i,
        i + param_text((k, v)).len() <= s.len(),
        s.subrange(i, i + param_text((k, v)).len()) == param_text((k, v)),
        k.len() > 0,
        all_alpha(k),
        v.len() > 0,
        no_quote(v),
    ensures
        parse_param(s, i) == Some((lower(k), v, (k.len() + v.len() + 3) as nat)),
{
    let t = param_text((k, v));
    let e = i + k.len();
    assert forall|j: int| 0 <= j < t.len() implies s[i + j] == #[trigger] t[j] by {
        assert(s.subrange(i, i + t.len())[j] == t[j]);
    }
    assert forall|j: int| i <= j < e implies is_ascii_alpha(#[trigger] s[j]) by {
        assert(t[j - i] == k[j - i]);
        assert(s[i + (j - i)] == t[j - i]);
    }
    assert(t[k.len() as int] == '=');
    assert(s[e] == '=');
    lemma_alpha_run(s, i, k.len() as int);
    assert(ws_run(s, e) == 0);
    assert(t[k.len() + 1int] == '"');
    assert(s[e + 1] == '"');
    assert(ws_run(s, e + 1) == 0);
    let f = e + 1;
    assert forall|j: int| f + 1 <= j < f + 1 + v.len() implies #[trigger] s[j] != '"' by {
        assert(t[j - i] == v[j - f - 1]);
        assert(s[i + (j - i)] == t[j - i]);
    }
    assert(t[k.len() + 2 + v.len() as int] == '"');
    assert(s[i + (k.len() + 2 + v.len())] == '"');
    lemma_unquoted_run(s, f + 1, v.len() as int);
    assert(s.subrange(i, e) =~= k) by {
        assert forall|j: int| 0 <= j < k.len() implies s.subrange(i, e)[j] == k[j] by {
            assert(t[j] == k[j]);
            assert(s[i + j] == t[j]);
        }
    }
    assert(s.subrange(f + 1, f + 1 + v.len()) =~= v) by {
        assert forall|j: int| 0 <= j < v.len() implies s.subrange(f + 1, f + 1 + v.len())[j]
            == v[j] by {
            assert(t[k.len() + 2 + j] == v[j]);
            assert(s[i + (k.len() + 2 + j)] == t[k.len() + 2 + j]);
        }
    }
}

proof fn lemma_parse_params_text(s: Seq<char>, i: int, ps: Seq<(Seq<char>, Seq<char>)>)
    requires
        0 <= i <= s.len(),
        s.subrange(i, s.len() as int) == params_text(ps),
        writable_params(ps),
    ensures
        parse_params(s, i) == Some(lower_keys(ps)),
    decreases ps.len(),
{
    let (k, v) = ps[0];
    assert(ps[0].0.len() > 0 && all_alpha(ps[0].0) && ps[0].1.len() > 0 && no_quote(ps[0].1));
    let pt = param_text((k, v));
    let rest = s.subrange(i, s.len() as int);
    assert(params_text(ps).len() >= pt.len() && params_text(ps).subrange(0, pt.len() as int) =~= pt)
        by {
        if ps.len() > 1 {
            assert(params_text(ps) == pt + seq![','] + params_text(ps.drop_first()));
        }
    }
    assert(rest.subrange(0, pt.len() as int) =~= pt);
    assert(s.subrange(i, i + pt.len()) =~= pt) by {
        assert forall|j: int| 0 <= j < pt.len() implies s.subrange(i, i + pt.len())[j] == pt[j] by {
            assert(rest[j] == s[i + j]);
            assert(rest.subrange(0, pt.len() as int)[j] == rest[j]);
        }
    }
    assert(s[i] == k[0]) by {
        assert(pt[0] == k[0]);
        assert(s.subrange(i, i + pt.len())[0] == pt[0]);
    }
    assert(ws_run(s, i) == 0);
    lemma_parse_param_text(s, i, k, v);
    let n = pt.len();
    if ps.len() == 1 {
        assert(i + n == s.len());
        assert(ws_run(s, i + n) == 0);
        assert(lower_keys(ps) =~= seq![(lower(k), v)]);
    } else {
        let tail = ps.drop_first();
        assert(rest[n as int] == ',');
        assert(s[i + n] == ',');
        assert(ws_run(s, i + n) == 0);
        assert(s.subrange(i + n + 1, s.len() as int) =~= params_text(tail)) by {
            assert forall|j: int| 0 <= j < params_text(tail).len() implies s.subrange(
                i + n + 1,
                s.len() as int,
            )[j] == params_text(tail)[j] by {
                assert(rest[n + 1 + j] == s[i + n + 1 + j]);
            }
        }
        assert forall|j: int| 0 <= j < tail.len() implies (#[trigger] tail[j]).0.len() > 0
            && all_alpha(tail[j].0) && tail[j].1.len() > 0 && no_quote(tail[j].1) by {
            assert(tail[j] == ps[j + 1]);
        }
        lemma_parse_params_text(s, i + n + 1, tail);
        assert(lower_keys(ps) =~= seq![(lower(k), v)] + lower_keys(tail));
    }
}

/// A challenge written out as `scheme key="value",...` parses back to its
/// scheme in lower case and its parameters with their keys in lower case.
pub proof fn lemma_challenge_text_parses(scheme: Seq<char>, ps: Seq<(Seq<char>, Seq<char>)>)
    requires
        scheme.len() > 0,
        all_alpha(scheme),
        writable_params(ps),
    ensures
        has_scheme(challenge_text(scheme, ps)),
        scheme_of(challenge_text(scheme, ps)) == lower(scheme),
        params_of(challenge_text(scheme, ps)) == Some(lower_keys(ps)),
{
    let t = challenge_text(scheme, ps);
    let m = scheme.len() as int;
    assert(t[0] == scheme[0]);
    assert(ws_run(t, 0) == 0);
    assert forall|j: int| 0 <= j < m implies is_ascii_alpha(#[trigger] t[j]) by {
        assert(t[j] == scheme[j]);
    }
    assert(t[m] == ' ');
    lemma_alpha_run(t, 0, m);
    assert(t.subrange(0, m) =~= scheme);
    assert(t.subrange(m + 1, t.len() as int) =~= params_text(ps));
    assert(ps[0].0.len() > 0 && all_alpha(ps[0].0));
    assert(params_text(ps)[0] == ps[0].0[0]) by {
        if ps.len() == 1 {
            assert(params_text(ps)[0] == param_text(ps[0])[0]);
        } else {
            assert(params_text(ps)[0] == param_text(ps[0])[0]);
        }
    }
    assert(t[m + 1] == params_text(ps)[0]);
    assert(ws_run(t, m + 1) == 0);
    assert(ws_run(t, m) == 1);
    lemma_parse_params_text(t, m + 1, ps);
}

/// The scheme word and the parameter keys of a challenge are read without
/// regard to case: two challenges written with the same scheme and keys up
/// to ASCII case, and the same values, parse to the same challenge.
pub proof fn lemma_challenge_case_insensitive(
    scheme1: Seq<char>,
    ps1: Seq<(Seq<char>, Seq<char>)>,
    scheme2: Seq<char>,
    ps2: Seq<(Seq<char>, Seq<char>)>,
)
    requires
        scheme1.len() > 0,
        all_alpha(scheme1),
        writable_params(ps1),
        scheme2.len() > 0,
        all_alpha(scheme2),
        writable_params(ps2),
        lower(scheme1) == lower(scheme2),
        ps1.len() == ps2.len(),
        forall|i: int|
            0 <= i < ps1.len() ==> lower((#[trigger] ps1[i]).0) == lower(ps2[i].0) && ps1[i].1
                == ps2[i].1,
    ensures
        parsed_challenge(challenge_text(scheme1, ps1)) == parsed_challenge(
            challenge_text(scheme2, ps2),
        ),
{
    lemma_challenge_text_parses(scheme1, ps1);
    lemma_challenge_text_parses(scheme2, ps2);
    assert(lower_keys(ps1) =~= lower_keys(ps2));
}

/// The view of an optional string.
pub open spec fn opt_view(o: Option<String>) -> Option<Seq<char>> {
    match o {
        Some(x) => Some(x@),
        None => None,
    }
}

/// The view of a list of key-value pairs.
pub open spec fn pairs_view(v: Seq<(String, String)>) -> Seq<(Seq<char>, Seq<char>)> {
    v.map_values(|p: (String, String)| (p.0@, p.1@))
}

/// Structured content of a Bearer challenge.
#[derive(Debug, Clone, PartialEq, Eq, Default)]
pub struct WwwAuthenticateHeaderContentBearer {
    pub realm: String,
    pub service: Option<String>,
    pub scope: Option<String>,
}

/// Structured content of a Basic challenge.
#[derive(Debug, Clone, PartialEq, Eq, Default)]
pub struct WwwAuthenticateHeaderContentBasic {
    pub realm: String,
}

/// A parsed `WWW-Authenticate` header value.
#[derive(Debug, Clone, PartialEq, Eq)]
pub enum WwwAuthenticateHeaderContent {
    Bearer(WwwAuthenticateHeaderContentBearer),
    Basic(WwwAuthenticateHeaderContentBasic),
}

impl WwwAuthenticateHeaderContent {
    pub open spec fn model(&self) -> ChallengeModel {
        match self {
            WwwAuthenticateHeaderContent::Bearer(b) => ChallengeModel::Bearer {
                realm: b.realm@,
                service: opt_view(b.service),
                scope: opt_view(b.scope),
            },
            WwwAuthenticateHeaderContent::Basic(b) => ChallengeModel::Basic { realm: b.realm@ },
        }
    }
}

fn ws_run_exec(cs: &Vec<char>, i: usize) -> (j: usize)
    requires
        i <= cs@.len(),
    ensures
        j == i + ws_run(cs@, i as int),
        j <= cs@.len(),
{
    let mut j = i;
    while j < cs.len() && (cs[j] == ' ' || cs[j] == '\t' || cs[j] == '\n' || cs[j] == '\r')
        invariant
            i <= j <= cs@.len(),
            ws_run(cs@, i as int) == (j - i) + ws_run(cs@, j as int),
        decreases cs.len() - j,
    {
        j += 1;
    }
    j
}

fn alpha_run_exec(cs: &Vec<char>, i: usize) -> (j: usize)
    requires
        i <= cs@.len(),
    ensures
        j == i + alpha_run(cs@, i as int),
        j <= cs@.len(),
{
    let mut j = i;
    while j < cs.len() && (('A' <= cs[j] && cs[j] <= 'Z') || ('a' <= cs[j] && cs[j] <= 'z'))
        invariant
            i <= j <= cs@.len(),
            alpha_run(cs@, i as int) == (j - i) + alpha_run(cs@, j as int),
        decreases cs.len() - j,
    {
        j += 1;
    }
    j
}

fn unquoted_run_exec(cs: &Vec<char>, i: usize) -> (j: usize)
    requires
        i <= cs@.len(),
    ensures
        j == i + unquoted_run(cs@, i as int),
        j <= cs@.len(),
{
    let mut j = i;
    while j < cs.len() && cs[j] != '"'
        invariant
            i <= j <= cs@.len(),
            unquoted_run(cs@, i as int) == (j - i) + unquoted_run(cs@, j as int),
        decreases cs.len() - j,
    {
        j += 1;
    }
    j
}

/// The characters `cs[lo..hi]` in ASCII lower case.
fn lower_range(cs: &Vec<char>, lo: usize, hi: usize) -> (r: String)
    requires
        lo <= hi <= cs@.len(),
    ensures
        r@ == lower(cs@.subrange(lo as int, hi as int)),
{
    let mut lc: Vec<char> = Vec::new();
    let mut i = lo;
    while i < hi
        invariant
            lo <= i <= hi <= cs@.len(),
            lc@ == lower(cs@.subrange(lo as int, i as int)),
        decreases hi - i,
    {
        lc.push(lower_char_exec(cs[i]));
        assert(cs@.subrange(lo as int, i + 1) == cs@.subrange(lo as int, i as int).push(cs@[i as int]));
        assert(lower(cs@.subrange(lo as int, i + 1)) =~= lower(cs@.subrange(lo as int, i as int)).push(
            lower_char(cs@[i as int]),
        ));
        i += 1;
    }
    crate::text::string_of_range(lc.as_slice(), 0, lc.len())
}

fn parse_param_exec(cs: &Vec<char>, i: usize) -> (r: Option<(String, String, usize)>)
    requires
        i <= cs@.len(),
    ensures
        match parse_param(cs@, i as int) {
            None => r is None,
            Some((k, v, n)) => r matches Some((rk, rv, rn)) && rk@ == k && rv@ == v && rn == i + n
                && rn <= cs@.len(),
        },
{
    let e = alpha_run_exec(cs, i);
    let eq = ws_run_exec(cs, e);
    if e == i || eq >= cs.len() || cs[eq] != '=' {
        return None;
    }
    let f = ws_run_exec(cs, eq + 1);
    if f >= cs.len() || cs[f] != '"' {
        return None;
    }
    let g = unquoted_run_exec(cs, f + 1);
    if g == f + 1 || g >= cs.len() {
        return None;
    }
    let k = lower_range(cs, i, e);
    let v = crate::text::string_of_range(cs.as_slice(), f + 1, g);
    Some((k, v, g + 1))
}

fn parse_params_exec(cs: &Vec<char>, i: usize) -> (r: Option<Vec<(String, String)>>)
    requires
        i <= cs@.len(),
    ensures
        match parse_params(cs@, i as int) {
            None => r is None,
            Some(ps) => r matches Some(v) && pairs_view(v@) == ps,
        },
    decreases cs@.len() - i,
{
    let p = ws_run_exec(cs, i);
    match parse_param_exec(cs, p) {
        None => None,
        Some((k, v, q)) => {
            let r = ws_run_exec(cs, q);
            let mut out: Vec<(String, String)> = Vec::new();
            out.push((k, v));
            assert(pairs_view(out@) =~= seq![(k@, v@)]);
            if r >= cs.len() {
                Some(out)
            } else if cs[r] == ',' {
                match parse_params_exec(cs, r + 1) {
                    Some(mut rest) => {
                        let ghost o = out@;
                        let ghost rs = rest@;
                        out.append(&mut rest);
                        assert(pairs_view(out@) =~= pairs_view(o) + pairs_view(rs));
                        Some(out)
                    },
                    None => None,
                }
            } else {
                None
            }
        },
    }
}

/// How often key `k` occurs in `ps`.
fn count_key(ps: &Vec<(String, String)>, k: &str) -> (r: usize)
    ensures
        r == key_count(pairs_view(ps@), k@),
{
    let mut n: usize = 0;
    let mut i: usize = 0;
    while i < ps.len()
        invariant
            i <= ps@.len(),
            n == key_count(pairs_view(ps@).take(i as int), k@),
            n <= i,
        decreases ps.len() - i,
    {
        assert(pairs_view(ps@).take(i + 1).drop_last() =~= pairs_view(ps@).take(i as int));
        if str_eq(ps[i].0.as_str(), k) {
            n += 1;
        }
        i += 1;
    }
    assert(pairs_view(ps@).take(ps@.len() as int) =~= pairs_view(ps@));
    n
}

/// The value of the last occurrence of key `k` in `ps`.
fn find_value(ps: &Vec<(String, String)>, k: &str) -> (r: Option<String>)
    ensures
        opt_view(r) == value_of(pairs_view(ps@), k@),
{
    let mut found: Option<String> = None;
    let mut i: usize = 0;
    while i < ps.len()
        invariant
            i <= ps@.len(),
            opt_view(found) == value_of(pairs_view(ps@).take(i as int), k@),
        decreases ps.len() - i,
    {
        assert(pairs_view(ps@).take(i + 1).drop_last() =~= pairs_view(ps@).take(i as int));
        if str_eq(ps[i].0.as_str(), k) {
            found = Some(ps[i].1.clone());
        }
        i += 1;
    }
    assert(pairs_view(ps@).take(ps@.len() as int) =~= pairs_view(ps@));
    found
}

impl WwwAuthenticateHeaderContent {
    /// Parses a `WWW-Authenticate` header value.
    ///
    /// A parameter with no scheme word before it fails with
    /// `FieldMethodMissing`; a text with neither a scheme word followed by
    /// parameters nor a parameter (a bare scheme word, an empty text) fails
    /// with `InvalidValue`, as do malformed parameters. A well-formed value whose
    /// scheme is neither `bearer` nor `basic`, or whose keys do not fit it,
    /// fails with `UnsupportedChallenge`.
    pub fn from_www_authentication_header(header: &str) -> (r: Result<Self, Error>)
        ensures
            !has_scheme(header@) && opens_with_param(header@) ==> r == Err::<Self, Error>(
                Error::InvalidChallenge(WwwHeaderParseError::FieldMethodMissing),
            ),
            !has_scheme(header@) && !opens_with_param(header@) ==> r == Err::<Self, Error>(
                Error::InvalidChallenge(WwwHeaderParseError::InvalidValue),
            ),
            has_scheme(header@) && params_of(header@) is None ==> r == Err::<Self, Error>(
                Error::InvalidChallenge(WwwHeaderParseError::InvalidValue),
            ),
            has_scheme(header@) && params_of(header@) is Some ==> match challenge_model(
                scheme_of(header@),
                params_of(header@)->0,
            ) {
                Some(m) => r matches Ok(c) && c.model() == m,
                None => r matches Err(Error::UnsupportedChallenge(sc)) && sc@ == scheme_of(header@),
            },
    {
        let cs = chars_of(header);
        let t = ws_run_exec(&cs, 0);
        let n = alpha_run_exec(&cs, t);
        if n == t || n >= cs.len() || !(cs[n] == ' ' || cs[n] == '\t' || cs[n] == '\n' || cs[n] == '\r') {
            if parse_param_exec(&cs, t).is_some() {
                return Err(Error::InvalidChallenge(WwwHeaderParseError::FieldMethodMissing));
            } else {
                return Err(Error::InvalidChallenge(WwwHeaderParseError::InvalidValue));
            }
        }
        let scheme = lower_range(&cs, t, n);
        let ps = match parse_params_exec(&cs, n) {
            Some(ps) => ps,
            None => {
                return Err(Error::InvalidChallenge(WwwHeaderParseError::InvalidValue));
            },
        };
        proof {
            reveal_strlit("bearer");
            reveal_strlit("basic");
            if key_count(pairs_view(ps@), "realm"@) > 0 {
                lemma_counted_key_has_value(pairs_view(ps@), "realm"@);
            }
        }
        if str_eq(scheme.as_str(), "bearer") {
            if count_key(&ps, "realm") == 1 && count_key(&ps, "service") <= 1 && count_key(
                &ps,
                "scope",
            ) <= 1 {
                let realm = find_value(&ps, "realm");
                match realm {
                    Some(realm) => Ok(
                        WwwAuthenticateHeaderContent::Bearer(
                            WwwAuthenticateHeaderContentBearer {
                                realm,
                                service: find_value(&ps, "service"),
                                scope: find_value(&ps, "scope"),
                            },
                        ),
                    ),
                    None => Err(Error::UnsupportedChallenge(scheme)),
                }
            } else {
                Err(Error::UnsupportedChallenge(scheme))
            }
        } else if str_eq(scheme.as_str(), "basic") {
            if count_key(&ps, "realm") == 1 {
                match find_value(&ps, "realm") {
                    Some(realm) => Ok(
                        WwwAuthenticateHeaderContent::Basic(
                            WwwAuthenticateHeaderContentBasic { realm },
                        ),
                    ),
                    None => Err(Error::UnsupportedChallenge(scheme)),
                }
            } else {
                Err(Error::UnsupportedChallenge(scheme))
            }
        } else {
            Err(Error::UnsupportedChallenge(scheme))
        }
    }
}

} // verus!
