//! Image references: `[registry/]repository[:tag|@digest]`.

use vstd::prelude::*;
use crate::client::DEFAULT_REGISTRY;
use crate::digest::parse_digest;
use crate::errors::Error;
use crate::text::{chars_of, push_str, string_of_range};

verus! {

/// Where the first `c` of `s` stands, if there is one.
#[verifier::opaque]
pub open spec fn first_at(s: Seq<char>, c: char) -> Option<int> {
    if exists|i: int| 0 <= i < s.len() && s[i] == c {
        Some(choose|i: int| 0 <= i < s.len() && s[i] == c && forall|j: int| 0 <= j < i ==> s[j] != c)
    } else {
        None
    }
}

proof fn lemma_first_exists(s: Seq<char>, c: char, k: int)
    requires
        0 <= k < s.len(),
        s[k] == c,
    ensures
        exists|i: int| 0 <= i < s.len() && s[i] == c && forall|j: int| 0 <= j < i ==> s[j] != c,
    decreases k,
{
    if exists|j: int| 0 <= j < k && s[j] == c {
        let j = choose|j: int| 0 <= j < k && s[j] == c;
        lemma_first_exists(s, c, j);
    } else {
        assert(0 <= k < s.len() && s[k] == c && forall|j: int| 0 <= j < k ==> s[j] != c);
    }
}

/// What the first `c` of `s` is: a `c`, with none before it.
pub proof fn lemma_first_at(s: Seq<char>, c: char)
    ensures
        first_at(s, c) matches Some(i) ==> 0 <= i < s.len() && s[i] == c && forall|j: int|
            0 <= j < i ==> s[j] != c,
        first_at(s, c) is None ==> forall|j: int| 0 <= j < s.len() ==> s[j] != c,
{
    reveal(first_at);
    if exists|i: int| 0 <= i < s.len() && s[i] == c {
        let k = choose|i: int| 0 <= i < s.len() && s[i] == c;
        lemma_first_exists(s, c, k);
    }
}

/// Where the last `c` of `s` stands, or -1.
pub open spec fn last_at(s: Seq<char>, c: char) -> int
    decreases s.len(),
{
    if s.len() == 0 {
        -1
    } else if s.last() == c {
        s.len() - 1
    } else {
        last_at(s.drop_last(), c)
    }
}

/// Whether a first path component names a registry host rather than a
/// repository: it holds a `.` or a `:`, or is `localhost`.
#[verifier::opaque]
pub open spec fn names_host(c: Seq<char>) -> bool {
    first_at(c, '.') is Some || first_at(c, ':') is Some || c == "localhost"@
}

pub open spec fn is_host_char(c: char) -> bool {
    ('a' <= c && c <= 'z') || ('A' <= c && c <= 'Z') || ('0' <= c && c <= '9') || c == '.' || c
        == '-' || c == ':'
}

/// A host, with an optional port: at least one letter, digit, `.`, `-` or `:`.
pub open spec fn valid_host(s: Seq<char>) -> bool {
    s.len() > 0 && forall|i: int| 0 <= i < s.len() ==> is_host_char(#[trigger] s[i])
}

pub open spec fn is_repository_char(c: char) -> bool {
    ('a' <= c && c <= 'z') || ('0' <= c && c <= '9') || c == '.' || c == '_' || c == '-' || c == '/'
}

pub open spec fn is_tag_char(c: char) -> bool {
    ('a' <= c && c <= 'z') || ('A' <= c && c <= 'Z') || ('0' <= c && c <= '9') || c == '.' || c
        == '_' || c == '-'
}

/// A repository path: one or more non-empty segments separated by `/`, of
/// lower-case letters, digits, `.`, `_` and `-`.
pub open spec fn valid_repository(s: Seq<char>) -> bool {
    &&& s.len() > 0 && s[0] != '/' && s.last() != '/'
    &&& forall|i: int| 0 <= i < s.len() ==> is_repository_char(#[trigger] s[i])
    &&& forall|i: int| 0 <= i < s.len() - 1 ==> !(#[trigger] s[i] == '/' && s[i + 1] == '/')
}

/// A tag: at least one letter, digit, `.`, `_` or `-`.
pub open spec fn valid_tag(s: Seq<char>) -> bool {
    s.len() > 0 && forall|i: int| 0 <= i < s.len() ==> is_tag_char(#[trigger] s[i])
}

/// The version part of a reference.
#[derive(Debug, Clone, PartialEq, Eq)]
pub enum Version {
    Tag(String),
    Digest(String),
}

pub ghost enum VersionModel {
    Tag(Seq<char>),
    Digest(Seq<char>),
}

pub ghost struct ReferenceModel {
    pub registry: Seq<char>,
    pub repository: Seq<char>,
    pub version: VersionModel,
}

/// The name part of a reference split into registry and repository: the
/// first component is the registry where it names a host and more follows;
/// otherwise the default registry holds the whole name.
pub open spec fn split_name(name: Seq<char>) -> (Seq<char>, Seq<char>) {
    match first_at(name, '/') {
        Some(i) if names_host(name.subrange(0, i)) => (
            name.subrange(0, i),
            name.subrange(i + 1, name.len() as int),
        ),
        _ => (DEFAULT_REGISTRY@, name),
    }
}

/// The name part and the version of a reference text: after the first `@`
/// stands a digest; otherwise a `:` after the last `/` starts a tag, and
/// the tag is `latest` where there is none.
pub open spec fn split_version(s: Seq<char>) -> (Seq<char>, VersionModel) {
    match first_at(s, '@') {
        Some(a) => (s.subrange(0, a), VersionModel::Digest(s.subrange(a + 1, s.len() as int))),
        None => {
            let c = last_at(s, ':');
            if c > last_at(s, '/') {
                (s.subrange(0, c), VersionModel::Tag(s.subrange(c + 1, s.len() as int)))
            } else {
                (s, VersionModel::Tag("latest"@))
            }
        },
    }
}

/// The reference that a text stands for, if it is well formed: a valid
/// host, a valid repository, a valid tag or a digest of a known
/// algorithm with as many hex digits as it gives.
pub open spec fn parse_reference(s: Seq<char>) -> Option<ReferenceModel> {
    let (name, version) = split_version(s);
    let (registry, repository) = split_name(name);
    let version_ok = match version {
        VersionModel::Tag(t) => valid_tag(t),
        VersionModel::Digest(d) => parse_digest(d) is Some,
    };
    if valid_host(registry) && valid_repository(repository) && version_ok {
        Some(ReferenceModel { registry, repository, version })
    } else {
        None
    }
}

/// A reference written out in full: `registry/repository:tag` or
/// `registry/repository@digest`.
pub open spec fn render_reference(r: ReferenceModel) -> Seq<char> {
    r.registry + seq!['/'] + r.repository + version_text(r.version)
}

/// A version written out: `:tag` or `@digest`.
pub open spec fn version_text(v: VersionModel) -> Seq<char> {
    match v {
        VersionModel::Tag(t) => seq![':'] + t,
        VersionModel::Digest(d) => seq!['@'] + d,
    }
}

/// Whether a text names its registry and its version: the canonical form.
pub open spec fn is_canonical(s: Seq<char>) -> bool {
    let (name, _) = split_version(s);
    &&& (first_at(s, '@') is Some || last_at(s, ':') > last_at(s, '/'))
    &&& first_at(name, '/') matches Some(i) && names_host(name.subrange(0, i))
}

/// An image reference.
#[derive(Debug, Clone, PartialEq, Eq)]
pub struct Reference {
    registry: String,
    repository: String,
    version: Version,
}

impl Reference {
    pub closed spec fn model(&self) -> ReferenceModel {
        ReferenceModel {
            registry: self.registry@,
            repository: self.repository@,
            version: match self.version {
                Version::Tag(t) => VersionModel::Tag(t@),
                Version::Digest(d) => VersionModel::Digest(d@),
            },
        }
    }
}

proof fn lemma_name_splits(name: Seq<char>)
    requires
        first_at(name, '/') matches Some(i) && names_host(name.subrange(0, i)),
    ensures
        split_name(name).0 + seq!['/'] + split_name(name).1 == name,
{
    lemma_first_at(name, '/');
    let i = first_at(name, '/')->0;
    assert(name =~= name.subrange(0, i) + seq!['/'] + name.subrange(i + 1, name.len() as int));
}

proof fn lemma_version_splits(s: Seq<char>)
    requires
        first_at(s, '@') is Some || last_at(s, ':') > last_at(s, '/'),
    ensures
        split_version(s).0 + version_text(split_version(s).1) == s,
{
    lemma_first_at(s, '@');
    lemma_last_at_bounds(s, ':');
    lemma_last_at_bounds(s, '/');
    if first_at(s, '@') is Some {
        let a = first_at(s, '@')->0;
        assert(s =~= s.subrange(0, a) + seq!['@'] + s.subrange(a + 1, s.len() as int));
    } else {
        let c = last_at(s, ':');
        assert(s =~= s.subrange(0, c) + seq![':'] + s.subrange(c + 1, s.len() as int));
    }
}

/// A canonical reference text, parsed and written out again, gives the same text.
pub proof fn lemma_reference_round_trip(s: Seq<char>)
    requires
        is_canonical(s),
        parse_reference(s) is Some,
    ensures
        render_reference(parse_reference(s)->0) == s,
{
    let sv = split_version(s);
    let sn = split_name(sv.0);
    lemma_version_splits(s);
    lemma_name_splits(sv.0);
    let r = parse_reference(s)->0;
    assert(r.registry == sn.0 && r.repository == sn.1 && r.version == sv.1);
    assert(render_reference(r) =~= (sn.0 + seq!['/'] + sn.1) + version_text(sv.1));
}

proof fn lemma_last_at_bounds(s: Seq<char>, c: char)
    ensures
        -1 <= last_at(s, c) < s.len(),
        last_at(s, c) >= 0 ==> s[last_at(s, c)] == c,
        forall|j: int| last_at(s, c) < j < s.len() ==> s[j] != c,
    decreases s.len(),
{
    if s.len() > 0 && s.last() != c {
        lemma_last_at_bounds(s.drop_last(), c);
        assert forall|j: int| last_at(s, c) < j < s.len() implies s[j] != c by {
            if j < s.len() - 1 {
                assert(s[j] == s.drop_last()[j]);
            }
        }
    }
}

fn find_first(cs: &Vec<char>, c: char) -> (r: Option<usize>)
    ensures
        r matches Some(k) ==> first_at(cs@, c) == Some(k as int) && k < cs@.len(),
        r is None ==> first_at(cs@, c) is None,
{
    let mut i: usize = 0;
    while i < cs.len()
        invariant
            i <= cs@.len(),
            forall|j: int| 0 <= j < i ==> cs@[j] != c,
        decreases cs.len() - i,
    {
        if cs[i] == c {
            proof {
                lemma_first_at(cs@, c);
                let f = first_at(cs@, c)->0;
                if f < i {
                    assert(cs@[f] != c);
                }
                if f > i {
                    assert(cs@[i as int] != c);
                }
            }
            return Some(i);
        }
        i += 1;
    }
    proof {
        lemma_first_at(cs@, c);
    }
    None
}

fn find_last(cs: &Vec<char>, c: char) -> (r: Option<usize>)
    ensures
        match r {
            Some(i) => i == last_at(cs@, c) && i < cs@.len(),
            None => last_at(cs@, c) == -1,
        },
{
    let mut found: Option<usize> = None;
    let mut i: usize = 0;
    while i < cs.len()
        invariant
            i <= cs@.len(),
            match found {
                Some(k) => k == last_at(cs@.take(i as int), c) && k < i,
                None => last_at(cs@.take(i as int), c) == -1,
            },
        decreases cs.len() - i,
    {
        assert(cs@.take(i + 1).drop_last() =~= cs@.take(i as int));
        if cs[i] == c {
            found = Some(i);
        }
        i += 1;
    }
    assert(cs@.take(cs@.len() as int) =~= cs@);
    found
}

fn sub_chars(cs: &Vec<char>, lo: usize, hi: usize) -> (r: Vec<char>)
    requires
        lo <= hi <= cs@.len(),
    ensures
        r@ == cs@.subrange(lo as int, hi as int),
{
    let mut r: Vec<char> = Vec::new();
    let mut i = lo;
    while i < hi
        invariant
            lo <= i <= hi <= cs@.len(),
            r@ == cs@.subrange(lo as int, i as int),
        decreases hi - i,
    {
        r.push(cs[i]);
        assert(r@ =~= cs@.subrange(lo as int, i + 1));
        i += 1;
    }
    r
}

fn check_names_host(c: &Vec<char>) -> (r: bool)
    ensures
        r == names_host(c@),
{
    let s = crate::text::string_of_range(c.as_slice(), 0, c.len());
    assert(c@.subrange(0, c@.len() as int) =~= c@);
    let r = find_first(c, '.').is_some() || find_first(c, ':').is_some() || crate::text::str_eq(
        s.as_str(),
        "localhost",
    );
    assert(r == names_host(c@)) by {
        reveal(names_host);
    }
    r
}

fn check_host(c: &Vec<char>) -> (r: bool)
    ensures
        r == valid_host(c@),
{
    if c.len() == 0 {
        return false;
    }
    let mut i: usize = 0;
    while i < c.len()
        invariant
            i <= c@.len(),
            forall|j: int| 0 <= j < i ==> is_host_char(#[trigger] c@[j]),
        decreases c.len() - i,
    {
        let x = c[i];
        if !(('a' <= x && x <= 'z') || ('A' <= x && x <= 'Z') || ('0' <= x && x <= '9') || x == '.'
            || x == '-' || x == ':') {
            assert(!is_host_char(c@[i as int]));
            return false;
        }
        i += 1;
    }
    true
}

fn check_tag(t: &String) -> (r: bool)
    ensures
        r == valid_tag(t@),
{
    let c = chars_of(t.as_str());
    if c.len() == 0 {
        return false;
    }
    let mut i: usize = 0;
    while i < c.len()
        invariant
            i <= c@.len(),
            c@ == t@,
            forall|j: int| 0 <= j < i ==> is_tag_char(#[trigger] c@[j]),
        decreases c.len() - i,
    {
        let x = c[i];
        if !(('a' <= x && x <= 'z') || ('A' <= x && x <= 'Z') || ('0' <= x && x <= '9') || x == '.'
            || x == '_' || x == '-') {
            assert(!is_tag_char(c@[i as int]));
            return false;
        }
        i += 1;
    }
    true
}

fn check_repository(c: &Vec<char>) -> (r: bool)
    ensures
        r == valid_repository(c@),
{
    if c.len() == 0 || c[0] == '/' || c[c.len() - 1] == '/' {
        return false;
    }
    let mut k: usize = 0;
    while k < c.len()
        invariant
            k <= c@.len(),
            forall|j: int| 0 <= j < k ==> is_repository_char(#[trigger] c@[j]),
        decreases c.len() - k,
    {
        let x = c[k];
        if !(('a' <= x && x <= 'z') || ('0' <= x && x <= '9') || x == '.' || x == '_' || x == '-'
            || x == '/') {
            assert(!is_repository_char(c@[k as int]));
            return false;
        }
        k += 1;
    }
    let mut i: usize = 0;
    while i + 1 < c.len()
        invariant
            i + 1 <= c@.len(),
            forall|j: int| 0 <= j < c@.len() ==> is_repository_char(#[trigger] c@[j]),
            forall|j: int| 0 <= j < i ==> !(#[trigger] c@[j] == '/' && c@[j + 1] == '/'),
        decreases c.len() - i,
    {
        if c[i] == '/' && c[i + 1] == '/' {
            assert(c@[i as int] == '/' && c@[i + 1] == '/');
            return false;
        }
        i += 1;
    }
    true
}

pub open spec fn version_model(v: Version) -> VersionModel {
    match v {
        Version::Tag(t) => VersionModel::Tag(t@),
        Version::Digest(d) => VersionModel::Digest(d@),
    }
}

fn split_version_exec(cs: &Vec<char>) -> (r: (Vec<char>, Version))
    ensures
        (r.0@, version_model(r.1)) == split_version(cs@),
{
    match find_first(cs, '@') {
        Some(a) => {
            assert(a + 1 <= cs.len());
            let name = sub_chars(cs, 0, a);
            let d = string_of_range(cs.as_slice(), a + 1, cs.len());
            (name, Version::Digest(d))
        },
        None => {
            let c = find_last(cs, ':');
            let sl = find_last(cs, '/');
            match c {
                Some(c) if sl.is_none() || c > sl.unwrap() => {
                    assert(c + 1 <= cs.len());
                    let name = sub_chars(cs, 0, c);
                    let t = string_of_range(cs.as_slice(), c + 1, cs.len());
                    (name, Version::Tag(t))
                },
                _ => {
                    assert(cs@.subrange(0, cs@.len() as int) =~= cs@);
                    (sub_chars(cs, 0, cs.len()), Version::Tag("latest".to_owned()))
                },
            }
        },
    }
}

fn split_name_exec(name: &Vec<char>) -> (r: (Vec<char>, Vec<char>))
    ensures
        (r.0@, r.1@) == split_name(name@),
{
    match find_first(name, '/') {
        Some(i) => {
            let first = sub_chars(name, 0, i);
            assert(name@.subrange(0, name@.len() as int) =~= name@);
            assert(i + 1 <= name.len());
            if check_names_host(&first) {
                (first, sub_chars(name, i + 1, name.len()))
            } else {
                (chars_of(DEFAULT_REGISTRY), sub_chars(name, 0, name.len()))
            }
        },
        None => {
            assert(name@.subrange(0, name@.len() as int) =~= name@);
            (chars_of(DEFAULT_REGISTRY), sub_chars(name, 0, name.len()))
        },
    }
}

impl Reference {
    /// Parses a reference text (see `parse_reference`).
    pub fn from_str(s: &str) -> (r: Result<Reference, Error>)
        ensures
            parse_reference(s@) is None ==> (r matches Err(Error::InvalidReference(t)) && t@
                == s@),
            parse_reference(s@) matches Some(m) ==> (r matches Ok(x) && x.model() == m),
    {
        let cs = chars_of(s);
        let (name, version) = split_version_exec(&cs);
        let (registry, repository) = split_name_exec(&name);
        let version_ok = match &version {
            Version::Tag(t) => check_tag(t),
            Version::Digest(d) => crate::digest::ContentDigest::try_new(d.as_str()).is_ok(),
        };
        assert(registry@.subrange(0, registry@.len() as int) =~= registry@);
        assert(repository@.subrange(0, repository@.len() as int) =~= repository@);
        if check_host(&registry) && check_repository(&repository) && version_ok {
            Ok(Reference {
                registry: string_of_range(registry.as_slice(), 0, registry.len()),
                repository: string_of_range(repository.as_slice(), 0, repository.len()),
                version,
            })
        } else {
            Err(Error::InvalidReference(s.to_owned()))
        }
    }

    /// The reference written out in full (see `render_reference`).
    pub fn to_raw_string(&self) -> (r: String)
        ensures
            r@ == render_reference(self.model()),
    {
        let mut out = self.registry.clone();
        push_str(&mut out, "/");
        push_str(&mut out, self.repository.as_str());
        match &self.version {
            Version::Tag(t) => {
                push_str(&mut out, ":");
                push_str(&mut out, t.as_str());
            },
            Version::Digest(d) => {
                push_str(&mut out, "@");
                push_str(&mut out, d.as_str());
            },
        }
        proof {
            reveal_strlit("/");
            reveal_strlit(":");
            reveal_strlit("@");
        }
        assert(out@ =~= render_reference(self.model()));
        out
    }

    /// The registry host.
    pub fn registry(&self) -> (r: String)
        ensures
            r@ == self.model().registry,
    {
        self.registry.clone()
    }

    /// The repository path.
    pub fn repository(&self) -> (r: String)
        ensures
            r@ == self.model().repository,
    {
        self.repository.clone()
    }

    /// The version as a manifest reference: the tag, or `@` and the digest.
    pub fn version(&self) -> (r: String)
        ensures
            r@ == match self.model().version {
                VersionModel::Tag(t) => t,
                VersionModel::Digest(d) => seq!['@'] + d,
            },
    {
        match &self.version {
            Version::Tag(t) => t.clone(),
            Version::Digest(d) => {
                let mut out = "@".to_owned();
                push_str(&mut out, d.as_str());
                proof {
                    reveal_strlit("@");
                }
                assert(out@ =~= seq!['@'] + d@);
                out
            },
        }
    }
}

} // verus!
