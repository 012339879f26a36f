//! Content digests `<algorithm>:<hex>`: bytes are fed through a running hash,
//! and the result is checked against the declared value.

use vstd::prelude::*;
use sha2::Digest;
use crate::errors::Error;
use crate::text::{chars_of, lower, lower_char_exec, push_chars, str_eq};

verus! {

/// A running SHA-256 hash.
#[verifier::external_body]
pub struct Sha256State {
    inner: sha2::Sha256,
}

/// A running SHA-512 hash.
#[verifier::external_body]
pub struct Sha512State {
    inner: sha2::Sha512,
}

/// The bytes fed so far into a running SHA-256 hash.
pub uninterp spec fn sha256_fed(h: Sha256State) -> Seq<u8>;

/// The bytes fed so far into a running SHA-512 hash.
pub uninterp spec fn sha512_fed(h: Sha512State) -> Seq<u8>;

/// The SHA-256 digest of a byte sequence.
pub uninterp spec fn sha256_of(b: Seq<u8>) -> Seq<u8>;

/// The SHA-512 digest of a byte sequence.
pub uninterp spec fn sha512_of(b: Seq<u8>) -> Seq<u8>;

/// Relies on `sha2::Sha256::new` (`Digest::new`): a hash that has been fed nothing.
#[verifier::external_body]
fn sha256_new() -> (r: Sha256State)
    ensures
        sha256_fed(r) == Seq::<u8>::empty(),
{
    Sha256State { inner: sha2::Sha256::new() }
}

/// Relies on `Digest::update` of `sha2::Sha256`: feeds `b` after what was fed.
#[verifier::external_body]
fn sha256_update(h: &mut Sha256State, b: &[u8])
    ensures
        sha256_fed(*final(h)) == sha256_fed(*old(h)) + b@,
{
    h.inner.update(b)
}

/// Relies on `Digest::finalize` of `sha2::Sha256`: the 32-byte digest of what was fed.
#[verifier::external_body]
fn sha256_finalize(h: Sha256State) -> (r: Vec<u8>)
    ensures
        r@ == sha256_of(sha256_fed(h)),
        r@.len() == 32,
{
    h.inner.finalize().to_vec()
}

/// Relies on `sha2::Sha512::new` (`Digest::new`): a hash that has been fed nothing.
#[verifier::external_body]
fn sha512_new() -> (r: Sha512State)
    ensures
        sha512_fed(r) == Seq::<u8>::empty(),
{
    Sha512State { inner: sha2::Sha512::new() }
}

/// Relies on `Digest::update` of `sha2::Sha512`: feeds `b` after what was fed.
#[verifier::external_body]
fn sha512_update(h: &mut Sha512State, b: &[u8])
    ensures
        sha512_fed(*final(h)) == sha512_fed(*old(h)) + b@,
{
    h.inner.update(b)
}

/// Relies on `Digest::finalize` of `sha2::Sha512`: the 64-byte digest of what was fed.
#[verifier::external_body]
fn sha512_finalize(h: Sha512State) -> (r: Vec<u8>)
    ensures
        r@ == sha512_of(sha512_fed(h)),
        r@.len() == 64,
{
    h.inner.finalize().to_vec()
}

/// A digest algorithm.
#[derive(Debug, Clone, Copy, PartialEq, Eq, Structural)]
pub enum DigestAlgorithm {
    Sha256,
    Sha512,
}

/// The number of hex digits of a digest of each algorithm.
pub open spec fn hex_len(a: DigestAlgorithm) -> nat {
    match a {
        DigestAlgorithm::Sha256 => 64,
        DigestAlgorithm::Sha512 => 128,
    }
}

/// The name of each algorithm, as it stands before `:`.
pub open spec fn algorithm_name(a: DigestAlgorithm) -> Seq<char> {
    match a {
        DigestAlgorithm::Sha256 => "sha256"@,
        DigestAlgorithm::Sha512 => "sha512"@,
    }
}

/// The digest of `b` under algorithm `a`.
pub open spec fn digest_of(a: DigestAlgorithm, b: Seq<u8>) -> Seq<u8> {
    match a {
        DigestAlgorithm::Sha256 => sha256_of(b),
        DigestAlgorithm::Sha512 => sha512_of(b),
    }
}

/// The lower-case hex digit of a number below 16.
pub open spec fn hex_digit(d: int) -> char {
    if d < 10 {
        ((d + 48) as u8) as char
    } else {
        ((d + 87) as u8) as char
    }
}

/// Bytes as lower-case hex, two digits for each byte.
pub open spec fn hex_text(b: Seq<u8>) -> Seq<char>
    decreases b.len(),
{
    if b.len() == 0 {
        Seq::empty()
    } else {
        hex_text(b.drop_last()) + seq![hex_digit(b.last() as int / 16), hex_digit(b.last() as int % 16)]
    }
}

/// Hex text has two digits for each byte.
pub proof fn lemma_hex_text_len(b: Seq<u8>)
    ensures
        hex_text(b).len() == 2 * b.len(),
    decreases b.len(),
{
    if b.len() > 0 {
        lemma_hex_text_len(b.drop_last());
    }
}

/// Hex text is already in lower case.
pub proof fn lemma_hex_text_lower(b: Seq<u8>)
    ensures
        lower(hex_text(b)) == hex_text(b),
    decreases b.len(),
{
    if b.len() > 0 {
        lemma_hex_text_lower(b.drop_last());
        let d = seq![hex_digit(b.last() as int / 16), hex_digit(b.last() as int % 16)];
        assert(lower(d) =~= d);
        assert(lower(hex_text(b)) =~= lower(hex_text(b.drop_last())) + lower(d));
    }
}

/// The first `:` of a text that has one at `n` and none before.
pub proof fn lemma_first_colon(s: Seq<char>, n: int)
    requires
        0 <= n < s.len(),
        s[n] == ':',
        forall|j: int| 0 <= j < n ==> s[j] != ':',
    ensures
        colon_at(s) == Some(n),
{
    assert(exists|i: int| 0 <= i < s.len() && s[i] == ':');
    let c = choose|i: int| 0 <= i < s.len() && s[i] == ':' && forall|j: int| 0 <= j < i ==> s[j] != ':';
    assert(0 <= n < s.len() && s[n] == ':' && forall|j: int| 0 <= j < n ==> s[j] != ':');
    if c < n {
        assert(s[c] != ':');
    }
    if c > n {
        assert(s[n] != ':');
    }
}

/// Where the first `:` of `s` stands, if there is one.
pub open spec fn colon_at(s: Seq<char>) -> Option<int> {
    if exists|i: int| 0 <= i < s.len() && s[i] == ':' {
        Some(choose|i: int| 0 <= i < s.len() && s[i] == ':' && forall|j: int| 0 <= j < i ==> s[j] != ':')
    } else {
        None
    }
}

/// The algorithm and the hex part of a digest text `<algorithm>:<hex>`, where
/// the algorithm is `sha256` or `sha512` and the hex part has as many
/// characters as a digest of it has hex digits.
pub open spec fn parse_digest(s: Seq<char>) -> Option<(DigestAlgorithm, Seq<char>)> {
    match colon_at(s) {
        None => None,
        Some(i) => {
            let name = s.subrange(0, i);
            let hex = s.subrange(i + 1, s.len() as int);
            if name == "sha256"@ && hex.len() == 64 {
                Some((DigestAlgorithm::Sha256, hex))
            } else if name == "sha512"@ && hex.len() == 128 {
                Some((DigestAlgorithm::Sha512, hex))
            } else {
                None
            }
        },
    }
}

/// Chunks joined in order.
pub open spec fn concat_chunks(cs: Seq<Seq<u8>>) -> Seq<u8>
    decreases cs.len(),
{
    if cs.len() == 0 {
        Seq::empty()
    } else {
        concat_chunks(cs.drop_last()) + cs.last()
    }
}

/// However content is split into chunks, feeding them one after another
/// through `update`, from a fresh digest, feeds the whole content: `verify`
/// then passes exactly when the declared hex is that of the digest of the
/// concatenation. `states[k]` is the digest before chunk `k` is fed.
pub proof fn lemma_digest_of_chunks(states: Seq<ContentDigest>, chunks: Seq<Seq<u8>>)
    requires
        states.len() == chunks.len() + 1,
        states[0].fed() == Seq::<u8>::empty(),
        forall|k: int|
            0 <= k < chunks.len() ==> (#[trigger] states[k + 1]).fed() == states[k].fed()
                + chunks[k] && states[k + 1].algorithm_view() == states[k].algorithm_view()
                && states[k + 1].expected_view() == states[k].expected_view(),
    ensures
        states.last().fed() == concat_chunks(chunks),
        states.last().algorithm_view() == states[0].algorithm_view(),
        states.last().expected_view() == states[0].expected_view(),
        (lower(states.last().expected_view()) == hex_text(
            digest_of(states.last().algorithm_view(), states.last().fed()),
        )) == (lower(states[0].expected_view()) == hex_text(
            digest_of(states[0].algorithm_view(), concat_chunks(chunks)),
        )),
    decreases chunks.len(),
{
    if chunks.len() > 0 {
        let n = chunks.len() - 1;
        let first = states.drop_last();
        assert forall|k: int| 0 <= k < chunks.drop_last().len() implies (#[trigger] first[k + 1]).fed()
            == first[k].fed() + chunks.drop_last()[k] && first[k + 1].algorithm_view()
            == first[k].algorithm_view() && first[k + 1].expected_view()
            == first[k].expected_view() by {
            assert(first[k + 1] == states[k + 1]);
            assert(first[k] == states[k]);
        }
        lemma_digest_of_chunks(first, chunks.drop_last());
        assert(states[n + 1].fed() == states[n].fed() + chunks[n]);
        assert(first.last() == states[n]);
    }
}

enum HashState {
    Sha256(Sha256State),
    Sha512(Sha512State),
}

/// A declared digest and the running hash of the content that is checked
/// against it.
pub struct ContentDigest {
    algorithm: DigestAlgorithm,
    declared: String,
    expected: String,
    state: HashState,
}

impl ContentDigest {
    /// The algorithm of the declared digest.
    pub closed spec fn algorithm_view(&self) -> DigestAlgorithm {
        self.algorithm
    }

    /// The declared digest text, `<algorithm>:<hex>`.
    pub closed spec fn declared_view(&self) -> Seq<char> {
        self.declared@
    }

    /// The hex part of the declared digest.
    pub closed spec fn expected_view(&self) -> Seq<char> {
        self.expected@
    }

    /// The bytes fed so far.
    pub closed spec fn fed(&self) -> Seq<u8> {
        match self.state {
            HashState::Sha256(h) => sha256_fed(h),
            HashState::Sha512(h) => sha512_fed(h),
        }
    }

    pub closed spec fn wf(&self) -> bool {
        &&& match self.state {
            HashState::Sha256(_) => self.algorithm == DigestAlgorithm::Sha256,
            HashState::Sha512(_) => self.algorithm == DigestAlgorithm::Sha512,
        }
        &&& parse_digest(self.declared@) == Some((self.algorithm, self.expected@))
    }

    /// Starts a check against the declared digest `digest`, with nothing fed.
    pub fn try_new(digest: &str) -> (r: Result<ContentDigest, Error>)
        ensures
            parse_digest(digest@) is None ==> (r matches Err(Error::InvalidDigest(t)) && t@
                == digest@),
            parse_digest(digest@) matches Some((a, hex)) ==> (r matches Ok(d) && d.wf()
                && d.algorithm_view() == a && d.expected_view() == hex && d.declared_view()
                == digest@ && d.fed() == Seq::<u8>::empty()),
    {
        let cs = chars_of(digest);
        let mut i: usize = 0;
        while i < cs.len() && cs[i] != ':'
            invariant
                i <= cs@.len(),
                cs@ == digest@,
                forall|j: int| 0 <= j < i ==> cs@[j] != ':',
            decreases cs.len() - i,
        {
            i += 1;
        }
        if i >= cs.len() {
            assert(!(exists|k: int| 0 <= k < digest@.len() && digest@[k] == ':'));
            return Err(Error::InvalidDigest(digest.to_owned()));
        }
        proof {
            assert(exists|k: int| 0 <= k < digest@.len() && digest@[k] == ':') by {
                assert(digest@[i as int] == ':');
            }
            let c = choose|k: int| 0 <= k < digest@.len() && digest@[k] == ':' && forall|j: int|
                0 <= j < k ==> digest@[j] != ':';
            assert(0 <= i && i < digest@.len() && digest@[i as int] == ':' && forall|j: int|
                0 <= j < i ==> digest@[j] != ':');
            if c < i {
                assert(digest@[c] != ':');
            }
            if c > i {
                assert(digest@[i as int] != ':');
            }
            assert(c == i);
        }
        let name = crate::text::string_of_range(cs.as_slice(), 0, i);
        let hex = crate::text::string_of_range(cs.as_slice(), i + 1, cs.len());
        let n = cs.len() - (i + 1);
        if str_eq(name.as_str(), "sha256") && n == 64 {
            Ok(ContentDigest {
                algorithm: DigestAlgorithm::Sha256,
                declared: digest.to_owned(),
                expected: hex,
                state: HashState::Sha256(sha256_new()),
            })
        } else if str_eq(name.as_str(), "sha512") && n == 128 {
            Ok(ContentDigest {
                algorithm: DigestAlgorithm::Sha512,
                declared: digest.to_owned(),
                expected: hex,
                state: HashState::Sha512(sha512_new()),
            })
        } else {
            Err(Error::InvalidDigest(digest.to_owned()))
        }
    }

    /// Feeds `chunk` after what was fed.
    pub fn update(&mut self, chunk: &[u8])
        requires
            old(self).wf(),
        ensures
            final(self).wf(),
            final(self).fed() == old(self).fed() + chunk@,
            final(self).algorithm_view() == old(self).algorithm_view(),
            final(self).declared_view() == old(self).declared_view(),
            final(self).expected_view() == old(self).expected_view(),
    {
        match &mut self.state {
            HashState::Sha256(h) => sha256_update(h, chunk),
            HashState::Sha512(h) => sha512_update(h, chunk),
        }
    }

    /// Checks the content fed against the declared digest: it passes when the
    /// declared hex, read without regard to case, is the hex of the content's
    /// digest. Otherwise fails with `DigestMismatch`, which holds the declared
    /// digest and the computed one.
    pub fn verify(self) -> (r: Result<(), Error>)
        requires
            self.wf(),
        ensures
            lower(self.expected_view()) == hex_text(digest_of(self.algorithm_view(), self.fed()))
                ==> r is Ok,
            lower(self.expected_view()) != hex_text(digest_of(self.algorithm_view(), self.fed()))
                ==> (r matches Err(Error::DigestMismatch { declared, computed }) && declared@
                == self.declared_view() && computed@ == algorithm_name(self.algorithm_view())
                + ":"@ + hex_text(digest_of(self.algorithm_view(), self.fed()))),
    {
        let ghost fed = self.fed();
        let (bytes, name) = match self.state {
            HashState::Sha256(h) => (sha256_finalize(h), "sha256"),
            HashState::Sha512(h) => (sha512_finalize(h), "sha512"),
        };
        let hex = hex_of(&bytes);
        let expected = chars_of(self.expected.as_str());
        let mut same = expected.len() == hex.len();
        let mut i: usize = 0;
        while same && i < expected.len()
            invariant
                i <= expected@.len(),
                same ==> expected@.len() == hex@.len(),
                same ==> forall|j: int| 0 <= j < i ==> lower(expected@)[j] == hex@[j],
                !same ==> lower(expected@) != hex@,
            decreases expected.len() - i,
        {
            if lower_char_exec(expected[i]) != hex[i] {
                assert(lower(expected@)[i as int] != hex@[i as int]);
                same = false;
            }
            i += 1;
        }
        if same {
            assert(lower(expected@) =~= hex@);
            Ok(())
        } else {
            let mut computed = name.to_owned();
            crate::text::push_str(&mut computed, ":");
            push_chars(&mut computed, hex.as_slice());
            Err(Error::DigestMismatch { declared: self.declared, computed })
        }
    }
}

fn hex_digit_exec(d: u8) -> (c: char)
    requires
        d < 16,
    ensures
        c == hex_digit(d as int),
{
    if d < 10 {
        (d + 48) as char
    } else {
        (d + 87) as char
    }
}

/// Bytes as lower-case hex.
fn hex_of(b: &Vec<u8>) -> (r: Vec<char>)
    ensures
        r@ == hex_text(b@),
{
    let mut r: Vec<char> = Vec::new();
    let mut i: usize = 0;
    while i < b.len()
        invariant
            i <= b@.len(),
            r@ == hex_text(b@.take(i as int)),
        decreases b.len() - i,
    {
        let x = b[i];
        r.push(hex_digit_exec(x / 16));
        r.push(hex_digit_exec(x % 16));
        assert(b@.take(i + 1).drop_last() =~= b@.take(i as int));
        assert(r@ =~= hex_text(b@.take(i + 1)));
        i += 1;
    }
    assert(b@.take(b@.len() as int) =~= b@);
    r
}

} // verus!
