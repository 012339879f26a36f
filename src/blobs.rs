//! Blobs: where they are fetched from, which answers are accepted, and the
//! check of their content against the requested digest, whole or chunk by
//! chunk as a stream is read.

use vstd::prelude::*;
use crate::client::Client;
use crate::digest::{
    algorithm_name, digest_of, hex_len, hex_text, lemma_first_colon, lemma_hex_text_len,
    lemma_hex_text_lower, parse_digest, ContentDigest, DigestAlgorithm,
};
use crate::errors::Error;
use crate::text::{lower, push_str};

verus! {

/// `{base}/v2/{name}/{kind}/{reference}`, then `?ns={ns}` if a namespace is given.
pub open spec fn object_url(
    base: Seq<char>,
    name: Seq<char>,
    kind: Seq<char>,
    reference: Seq<char>,
    ns: Option<Seq<char>>,
) -> Seq<char> {
    let path = base + "/v2/"@ + name + "/"@ + kind + "/"@ + reference;
    match ns {
        Some(v) => path + "?ns="@ + v,
        None => path,
    }
}

pub open spec fn opt_str_view(o: Option<&str>) -> Option<Seq<char>> {
    match o {
        Some(x) => Some(x@),
        None => None,
    }
}

/// Builds `{base}/v2/{name}/{kind}/{reference}[?ns={ns}]`.
pub fn build_object_url(base: &str, name: &str, kind: &str, reference: &str, ns: Option<&str>) -> (r:
    String)
    ensures
        r@ == object_url(base@, name@, kind@, reference@, opt_str_view(ns)),
{
    let mut out = base.to_owned();
    push_str(&mut out, "/v2/");
    push_str(&mut out, name);
    push_str(&mut out, "/");
    push_str(&mut out, kind);
    push_str(&mut out, "/");
    push_str(&mut out, reference);
    match ns {
        Some(v) => {
            push_str(&mut out, "?ns=");
            push_str(&mut out, v);
        },
        None => {},
    }
    out
}

impl Client {
    /// The URL of a blob.
    pub fn blob_url(&self, name: &str, digest: &str, ns: Option<&str>) -> (r: String)
        ensures
            r@ == object_url(self.base_url@, name@, "blobs"@, digest@, opt_str_view(ns)),
    {
        build_object_url(self.base_url.as_str(), name, "blobs", digest, ns)
    }
}

/// A blob exists when its `HEAD` answers 200; any other status says it does not.
pub fn has_blob_status(status: u16) -> (r: bool)
    ensures
        r == (status == 200),
{
    status == 200
}

/// The answer to a blob `GET`: a 2xx status is accepted; 4xx and 5xx fail as
/// client and server errors; any other status is unexpected.
pub fn blob_status(status: u16) -> (r: Result<(), Error>)
    ensures
        200 <= status < 300 ==> r is Ok,
        400 <= status < 500 ==> r == Err::<(), Error>(Error::Client { status }),
        500 <= status < 600 ==> r == Err::<(), Error>(Error::Server { status }),
        !(200 <= status < 300 || 400 <= status < 600) ==> r == Err::<(), Error>(
            Error::UnexpectedHttpStatus(status),
        ),
{
    if 200 <= status && status < 300 {
        Ok(())
    } else if 400 <= status && status < 500 {
        Err(Error::Client { status })
    } else if 500 <= status && status < 600 {
        Err(Error::Server { status })
    } else {
        Err(Error::UnexpectedHttpStatus(status))
    }
}

/// Whether `blob` matches the declared digest `digest` (`<algorithm>:<hex>`):
/// the hex, read without regard to case, is the hex of the blob's digest.
pub open spec fn blob_matches(digest: Seq<char>, blob: Seq<u8>) -> bool {
    parse_digest(digest) matches Some((a, hex)) && lower(hex) == hex_text(digest_of(a, blob))
}

/// The digest of `blob` under algorithm `a`, written as `<algorithm>:<hex>`.
pub open spec fn computed_text(a: DigestAlgorithm, blob: Seq<u8>) -> Seq<char> {
    algorithm_name(a) + ":"@ + hex_text(digest_of(a, blob))
}

/// The digest of `blob` under the algorithm that a declared digest names.
pub open spec fn computed_for(declared: Seq<char>, blob: Seq<u8>) -> Seq<char> {
    match parse_digest(declared) {
        Some((a, _)) => computed_text(a, blob),
        None => Seq::empty(),
    }
}

/// A blob is accepted by the digest written from its own content: the
/// declared text `<algorithm>:<hex of its digest>` matches it, provided the
/// digest has the algorithm's length.
pub proof fn lemma_true_digest_matches(a: DigestAlgorithm, blob: Seq<u8>)
    requires
        digest_of(a, blob).len() * 2 == hex_len(a),
    ensures
        blob_matches(computed_text(a, blob), blob),
{
    let d = computed_text(a, blob);
    let hex = hex_text(digest_of(a, blob));
    lemma_hex_text_len(digest_of(a, blob));
    lemma_hex_text_lower(digest_of(a, blob));
    reveal_strlit("sha256");
    reveal_strlit("sha512");
    reveal_strlit(":");
    let n = algorithm_name(a).len() as int;
    assert(d[n] == ':');
    assert forall|j: int| 0 <= j < n implies d[j] != ':' by {
        assert(d[j] == algorithm_name(a)[j]);
    }
    lemma_first_colon(d, n);
    assert(d.subrange(0, n) =~= algorithm_name(a));
    assert(d.subrange(n + 1, d.len() as int) =~= hex);
}

/// Checks a whole blob against the digest it was requested by, and hands it
/// back only if it matches.
pub fn check_blob(digest: &str, blob: Vec<u8>) -> (r: Result<Vec<u8>, Error>)
    ensures
        parse_digest(digest@) is None ==> r is Err && (r matches Err(Error::InvalidDigest(t))
            && t@ == digest@),
        blob_matches(digest@, blob@) ==> r == Ok::<Vec<u8>, Error>(blob),
        parse_digest(digest@) is Some && !blob_matches(digest@, blob@) ==> (r matches Err(
            Error::DigestMismatch { declared, computed },
        ) && declared@ == digest@ && computed@ == computed_for(digest@, blob@)),
{
    let mut d = ContentDigest::try_new(digest)?;
    d.update(blob.as_slice());
    assert(Seq::<u8>::empty() + blob@ =~= blob@);
    d.verify()?;
    Ok(blob)
}

/// Chunks joined in order.
pub open spec fn joined(cs: Seq<Seq<u8>>) -> Seq<u8>
    decreases cs.len(),
{
    if cs.len() == 0 {
        Seq::empty()
    } else {
        joined(cs.drop_last()) + cs.last()
    }
}

/// However a blob is split into chunks, a stream that hands on each chunk
/// through `on_chunk` has passed the whole blob when it ends: `on_end` then
/// passes exactly when the blob matches the declared digest. `states[k]` is
/// the stream before chunk `k` arrives.
pub proof fn lemma_stream_of_chunks(states: Seq<BlobStream>, chunks: Seq<Seq<u8>>)
    requires
        states.len() == chunks.len() + 1,
        states[0].passed() == Seq::<u8>::empty(),
        forall|k: int|
            0 <= k < chunks.len() ==> (#[trigger] states[k + 1]).passed() == states[k].passed()
                + chunks[k] && states[k + 1].declared() == states[k].declared(),
    ensures
        states.last().passed() == joined(chunks),
        states.last().declared() == states[0].declared(),
        blob_matches(states.last().declared(), states.last().passed()) == blob_matches(
            states[0].declared(),
            joined(chunks),
        ),
    decreases chunks.len(),
{
    if chunks.len() > 0 {
        let n = chunks.len() - 1;
        let first = states.drop_last();
        assert forall|k: int| 0 <= k < chunks.drop_last().len() implies (#[trigger] first[k + 1]).passed()
            == first[k].passed() + chunks.drop_last()[k] && first[k + 1].declared()
            == first[k].declared() by {
            assert(first[k + 1] == states[k + 1]);
            assert(first[k] == states[k]);
        }
        lemma_stream_of_chunks(first, chunks.drop_last());
        assert(first.last() == states[n]);
    }
}

/// The checking side of a blob stream: each chunk passes through the
/// running digest on its way to the reader, and the end of the stream
/// checks what passed.
pub struct BlobStream {
    digest: Option<ContentDigest>,
}

impl BlobStream {
    /// Whether the end of the stream has not been checked yet.
    pub closed spec fn is_open(&self) -> bool {
        self.digest is Some
    }

    /// The bytes that have passed so far.
    pub closed spec fn passed(&self) -> Seq<u8> {
        match self.digest {
            Some(d) => d.fed(),
            None => Seq::empty(),
        }
    }

    /// The declared digest text.
    pub closed spec fn declared(&self) -> Seq<char> {
        match self.digest {
            Some(d) => d.declared_view(),
            None => Seq::empty(),
        }
    }

    pub closed spec fn wf(&self) -> bool {
        match self.digest {
            Some(d) => d.wf() && parse_digest(d.declared_view()) == Some(
                (d.algorithm_view(), d.expected_view()),
            ),
            None => true,
        }
    }

    /// Starts checking a stream against the declared digest `digest`.
    pub fn new(digest: &str) -> (r: Result<BlobStream, Error>)
        ensures
            parse_digest(digest@) is None ==> (r matches Err(Error::InvalidDigest(t)) && t@
                == digest@),
            parse_digest(digest@) is Some ==> (r matches Ok(s) && s.wf() && s.is_open()
                && s.passed() == Seq::<u8>::empty() && s.declared() == digest@),
    {
        let d = ContentDigest::try_new(digest)?;
        Ok(BlobStream { digest: Some(d) })
    }

    /// A chunk arrives: while the stream is open it passes through the digest
    /// and is handed on (`true`); after the end it is not (`false`).
    pub fn on_chunk(&mut self, chunk: &[u8]) -> (r: bool)
        requires
            old(self).wf(),
        ensures
            final(self).wf(),
            r == old(self).is_open(),
            final(self).is_open() == old(self).is_open(),
            final(self).declared() == old(self).declared(),
            r ==> final(self).passed() == old(self).passed() + chunk@,
            !r ==> final(self).passed() == old(self).passed(),
    {
        match &mut self.digest {
            Some(d) => {
                d.update(chunk);
                true
            },
            None => false,
        }
    }

    /// The stream has ended: the first time, what passed is checked against
    /// the declared digest, and a mismatch is the stream's last item; after
    /// that the stream is closed and ends cleanly.
    pub fn on_end(&mut self) -> (r: Result<(), Error>)
        requires
            old(self).wf(),
        ensures
            final(self).wf(),
            !final(self).is_open(),
            old(self).is_open() && blob_matches(old(self).declared(), old(self).passed()) ==> r is Ok,
            old(self).is_open() && !blob_matches(old(self).declared(), old(self).passed()) ==> (
            r matches Err(Error::DigestMismatch { declared, computed }) && declared@ == old(
                self,
            ).declared() && computed@ == computed_for(old(self).declared(), old(self).passed())),
            !old(self).is_open() ==> r is Ok,
    {
        match self.digest.take() {
            Some(d) => d.verify(),
            None => Ok(()),
        }
    }
}

} // verus!
