//! Manifests of the three schema variants, the queries they share, and the
//! decisions around fetching them: the media type of an answer, the
//! accepted types of a `HEAD`, the statuses accepted.

use vstd::prelude::*;
use crate::blobs::{build_object_url, object_url, opt_str_view};
use crate::client::Client;
use crate::errors::{Error, ManifestError};
use crate::mediatypes::{mime_of, parse_mime, MediaTypes};
use crate::text::{starts_with, str_eq, str_starts_with};

verus! {

/// The view of a list of strings.
pub open spec fn strings_view(v: Seq<String>) -> Seq<Seq<char>> {
    v.map_values(|s: String| s@)
}

proof fn lemma_strings_view_push(v: Seq<String>, x: String)
    ensures
        strings_view(v.push(x)) == strings_view(v).push(x@),
{
    assert(strings_view(v.push(x)) =~= strings_view(v).push(x@));
}

proof fn lemma_take_push(s: Seq<Seq<char>>, i: int)
    requires
        0 <= i < s.len(),
    ensures
        s.take(i + 1) == s.take(i).push(s[i]),
{
    assert(s.take(i + 1) =~= s.take(i).push(s[i]));
}

/// A layer of a schema 1 manifest.
#[derive(Debug, Clone, Default)]
pub struct S1Layer {
    pub blob_sum: String,
}

/// Signed manifest, version 2 schema 1. Its layers are listed top layer first.
#[derive(Debug, Clone, Default)]
pub struct ManifestSchema1Signed {
    pub schema_version: u16,
    pub name: String,
    pub tag: String,
    pub architecture: String,
    pub fs_layers: Vec<S1Layer>,
}

/// The descriptor of a manifest's config blob.
#[derive(Debug, Clone, Default)]
pub struct Config {
    pub media_type: String,
    pub size: u64,
    pub digest: String,
}

/// A layer of a schema 2 manifest.
#[derive(Debug, Clone, Default)]
pub struct S2Layer {
    pub media_type: String,
    pub size: u64,
    pub digest: String,
    pub urls: Option<Vec<String>>,
}

/// Manifest version 2 schema 2, as the registry sends it.
#[derive(Debug, Clone)]
pub struct ManifestSchema2Spec {
    pub schema_version: u16,
    pub media_type: MediaTypes,
    pub config: Config,
    pub layers: Vec<S2Layer>,
}

/// Partial representation of a container image configuration.
#[derive(Debug, Clone, Default)]
pub struct ConfigBlob {
    pub architecture: String,
}

/// A schema 2 manifest together with its config blob.
#[derive(Debug, Clone)]
pub struct ManifestSchema2 {
    pub manifest_spec: ManifestSchema2Spec,
    pub config_blob: ConfigBlob,
}

/// Platform-related manifest entries.
#[derive(Debug, Clone, Default)]
pub struct Platform {
    pub architecture: String,
    pub os: String,
    pub os_version: Option<String>,
    pub os_features: Option<Vec<String>>,
    pub variant: Option<String>,
    pub features: Option<Vec<String>>,
}

/// An entry of a manifest list: one per platform.
#[derive(Debug, Clone, Default)]
pub struct ManifestObj {
    pub media_type: String,
    pub size: u64,
    pub digest: String,
    pub platform: Platform,
}

/// Manifest list, or OCI index.
#[derive(Debug, Clone, Default)]
pub struct ManifestList {
    pub schema_version: u16,
    pub media_type: String,
    pub manifests: Vec<ManifestObj>,
}

/// A manifest of any of the supported schemas.
#[derive(Debug, Clone)]
pub enum Manifest {
    S1Signed(ManifestSchema1Signed),
    S2(ManifestSchema2),
    ML(ManifestList),
}

/// The layer digests of a schema 1 manifest, base image first.
pub open spec fn s1_layers(m: ManifestSchema1Signed) -> Seq<Seq<char>> {
    m.fs_layers@.map_values(|l: S1Layer| l.blob_sum@).reverse()
}

/// The layer digests of a schema 2 manifest, base image first as listed.
pub open spec fn s2_layers(m: ManifestSchema2) -> Seq<Seq<char>> {
    m.manifest_spec.layers@.map_values(|l: S2Layer| l.digest@)
}

/// The digests of the entries of a manifest list.
pub open spec fn list_digests(m: ManifestList) -> Seq<Seq<char>> {
    m.manifests@.map_values(|o: ManifestObj| o.digest@)
}

/// The architectures of the entries of a manifest list.
pub open spec fn list_architectures(m: ManifestList) -> Seq<Seq<char>> {
    m.manifests@.map_values(|o: ManifestObj| o.platform.architecture@)
}

/// The architectures a manifest reports: one for schema 1 and 2, one per
/// entry for a list.
pub open spec fn manifest_architectures(m: Manifest) -> Seq<Seq<char>> {
    match m {
        Manifest::S1Signed(s) => seq![s.architecture@],
        Manifest::S2(s) => seq![s.config_blob.architecture@],
        Manifest::ML(l) => list_architectures(l),
    }
}

/// The digests a manifest lists: its layers base first, or for a list the
/// digests of its per-platform manifests.
pub open spec fn manifest_layers(m: Manifest) -> Seq<Seq<char>> {
    match m {
        Manifest::S1Signed(s) => s1_layers(s),
        Manifest::S2(s) => s2_layers(s),
        Manifest::ML(l) => list_digests(l),
    }
}

/// The media type of each manifest variant.
pub open spec fn manifest_media_type(m: Manifest) -> MediaTypes {
    match m {
        Manifest::S1Signed(_) => MediaTypes::ManifestV2S1Signed,
        Manifest::S2(_) => MediaTypes::ManifestV2S2,
        Manifest::ML(_) => MediaTypes::ManifestList,
    }
}

impl ManifestSchema1Signed {
    /// The layer digests, base image first: the reverse of the order on the wire.
    pub fn get_layers(&self) -> (r: Vec<String>)
        ensures
            strings_view(r@) == s1_layers(*self),
    {
        let mut r: Vec<String> = Vec::new();
        let n = self.fs_layers.len();
        let mut i: usize = 0;
        while i < n
            invariant
                n == self.fs_layers@.len(),
                i <= n,
                strings_view(r@) == s1_layers(*self).take(i as int),
            decreases n - i,
        {
            let x = self.fs_layers[n - 1 - i].blob_sum.clone();
            proof {
                lemma_strings_view_push(r@, x);
                lemma_take_push(s1_layers(*self), i as int);
            }
            r.push(x);
            i += 1;
        }
        assert(s1_layers(*self).take(n as int) =~= s1_layers(*self));
        r
    }
}

impl ManifestSchema2Spec {
    /// The descriptor of the config blob.
    pub fn config(&self) -> (r: &Config)
        ensures
            *r == self.config,
    {
        &self.config
    }

    /// The manifest together with its config blob, once that is fetched.
    pub fn with_config_blob(self, config_blob: ConfigBlob) -> (r: ManifestSchema2)
        ensures
            r.manifest_spec == self,
            r.config_blob == config_blob,
    {
        ManifestSchema2 { manifest_spec: self, config_blob }
    }
}

impl ManifestSchema2 {
    /// The layer digests, base image first.
    pub fn get_layers(&self) -> (r: Vec<String>)
        ensures
            strings_view(r@) == s2_layers(*self),
    {
        let mut r: Vec<String> = Vec::new();
        let mut i: usize = 0;
        while i < self.manifest_spec.layers.len()
            invariant
                i <= self.manifest_spec.layers@.len(),
                strings_view(r@) == s2_layers(*self).take(i as int),
            decreases self.manifest_spec.layers.len() - i,
        {
            let x = self.manifest_spec.layers[i].digest.clone();
            proof {
                lemma_strings_view_push(r@, x);
                lemma_take_push(s2_layers(*self), i as int);
            }
            r.push(x);
            i += 1;
        }
        assert(s2_layers(*self).take(self.manifest_spec.layers@.len() as int) =~= s2_layers(*self));
        r
    }

    /// The architecture of the container, from the config blob.
    pub fn architecture(&self) -> (r: &str)
        ensures
            r@ == self.config_blob.architecture@,
    {
        self.config_blob.architecture.as_str()
    }
}

impl ManifestObj {
    /// The architecture of the entry's platform.
    pub fn architecture(&self) -> (r: &str)
        ensures
            r@ == self.platform.architecture@,
    {
        self.platform.architecture.as_str()
    }

    /// The digest of the entry's manifest.
    pub fn digest(&self) -> (r: &str)
        ensures
            r@ == self.digest@,
    {
        self.digest.as_str()
    }
}

impl ManifestList {
    /// The architecture of every entry, in order.
    pub fn architectures(&self) -> (r: Vec<String>)
        ensures
            strings_view(r@) == list_architectures(*self),
    {
        let mut r: Vec<String> = Vec::new();
        let mut i: usize = 0;
        while i < self.manifests.len()
            invariant
                i <= self.manifests@.len(),
                strings_view(r@) == list_architectures(*self).take(i as int),
            decreases self.manifests.len() - i,
        {
            let x = self.manifests[i].platform.architecture.clone();
            proof {
                lemma_strings_view_push(r@, x);
                lemma_take_push(list_architectures(*self), i as int);
            }
            r.push(x);
            i += 1;
        }
        assert(list_architectures(*self).take(self.manifests@.len() as int) =~= list_architectures(
            *self,
        ));
        r
    }

    /// The digest of every entry, in order.
    pub fn get_digests(&self) -> (r: Vec<String>)
        ensures
            strings_view(r@) == list_digests(*self),
    {
        let mut r: Vec<String> = Vec::new();
        let mut i: usize = 0;
        while i < self.manifests.len()
            invariant
                i <= self.manifests@.len(),
                strings_view(r@) == list_digests(*self).take(i as int),
            decreases self.manifests.len() - i,
        {
            let x = self.manifests[i].digest.clone();
            proof {
                lemma_strings_view_push(r@, x);
                lemma_take_push(list_digests(*self), i as int);
            }
            r.push(x);
            i += 1;
        }
        assert(list_digests(*self).take(self.manifests@.len() as int) =~= list_digests(*self));
        r
    }
}

impl Manifest {
    /// The digests the manifest lists, base image first. For a manifest list
    /// these are the digests of its per-platform manifests, whatever
    /// `architecture` says. For schema 1 and 2, a given `architecture` must be
    /// the manifest's own, or the query fails with `ArchitectureMismatch`.
    pub fn layers_digests(&self, architecture: Option<&str>) -> (r: Result<Vec<String>, Error>)
        ensures
            (self is ML || architecture is None || manifest_architectures(*self)[0]
                == architecture->0@) ==> (r matches Ok(v) && strings_view(v@) == manifest_layers(
                *self,
            )),
            !(self is ML || architecture is None || manifest_architectures(*self)[0]
                == architecture->0@) ==> r == Err::<Vec<String>, Error>(
                Error::Manifest(ManifestError::ArchitectureMismatch),
            ),
    {
        match self {
            Manifest::S1Signed(m) => {
                match architecture {
                    Some(a) => {
                        if !str_eq(m.architecture.as_str(), a) {
                            return Err(Error::Manifest(ManifestError::ArchitectureMismatch));
                        }
                    },
                    None => {},
                }
                Ok(m.get_layers())
            },
            Manifest::S2(m) => {
                match architecture {
                    Some(a) => {
                        if !str_eq(m.architecture(), a) {
                            return Err(Error::Manifest(ManifestError::ArchitectureMismatch));
                        }
                    },
                    None => {},
                }
                Ok(m.get_layers())
            },
            Manifest::ML(m) => Ok(m.get_digests()),
        }
    }

    /// The architectures of the image the manifest points to: one for
    /// schema 1 and 2, one per entry for a list.
    pub fn architectures(&self) -> (r: Result<Vec<String>, Error>)
        ensures
            r matches Ok(v) && strings_view(v@) == manifest_architectures(*self),
    {
        match self {
            Manifest::S1Signed(m) => {
                let v = vec![m.architecture.clone()];
                assert(strings_view(v@) =~= manifest_architectures(*self));
                Ok(v)
            },
            Manifest::S2(m) => {
                let v = vec![m.config_blob.architecture.clone()];
                assert(strings_view(v@) =~= manifest_architectures(*self));
                Ok(v)
            },
            Manifest::ML(m) => Ok(m.architectures()),
        }
    }

    /// The media type of the manifest's schema.
    pub fn media_type(&self) -> (r: MediaTypes)
        ensures
            r == manifest_media_type(*self),
    {
        match self {
            Manifest::S1Signed(_) => MediaTypes::ManifestV2S1Signed,
            Manifest::S2(_) => MediaTypes::ManifestV2S2,
            Manifest::ML(_) => MediaTypes::ManifestList,
        }
    }
}

impl Client {
    /// The URL of a manifest.
    pub fn manifest_url(&self, name: &str, reference: &str, ns: Option<&str>) -> (r: String)
        ensures
            r@ == object_url(self.base_url@, name@, "manifests"@, reference@, opt_str_view(ns)),
    {
        build_object_url(self.base_url.as_str(), name, "manifests", reference, ns)
    }
}

/// Accepts an answer only with status 200; any other is unexpected.
pub fn require_ok(status: u16) -> (r: Result<(), Error>)
    ensures
        status == 200 ==> r is Ok,
        status != 200 ==> r == Err::<(), Error>(Error::UnexpectedHttpStatus(status)),
{
    if status == 200 {
        Ok(())
    } else {
        Err(Error::UnexpectedHttpStatus(status))
    }
}

/// Accepts an answer with a 2xx status; any other is unexpected.
pub fn require_success(status: u16) -> (r: Result<(), Error>)
    ensures
        200 <= status < 300 ==> r is Ok,
        !(200 <= status < 300) ==> r == Err::<(), Error>(Error::UnexpectedHttpStatus(status)),
{
    if 200 <= status && status < 300 {
        Ok(())
    } else {
        Err(Error::UnexpectedHttpStatus(status))
    }
}

/// The manifests that can be decoded: signed schema 1, schema 2 and lists.
/// Any other media type fails with `UnsupportedMediaType`.
pub fn check_manifest_media_type(media_type: MediaTypes) -> (r: Result<MediaTypes, Error>)
    ensures
        (media_type == MediaTypes::ManifestV2S1Signed || media_type == MediaTypes::ManifestV2S2
            || media_type == MediaTypes::ManifestList) ==> r == Ok::<MediaTypes, Error>(media_type),
        !(media_type == MediaTypes::ManifestV2S1Signed || media_type == MediaTypes::ManifestV2S2
            || media_type == MediaTypes::ManifestList) ==> r == Err::<MediaTypes, Error>(
            Error::UnsupportedMediaType(media_type),
        ),
{
    match media_type {
        MediaTypes::ManifestV2S1Signed | MediaTypes::ManifestV2S2 | MediaTypes::ManifestList => Ok(
            media_type,
        ),
        _ => Err(Error::UnsupportedMediaType(media_type)),
    }
}

/// The path prefix of Pulp-based registries, which may send no usable
/// content type for a schema 1 manifest.
pub open spec fn is_pulp_path(path: Seq<char>) -> bool {
    starts_with(path, "/pulp/docker/v2"@)
}

/// The media type of a manifest answer, from its `Content-Type` header and
/// the path of the URL it came from.
///
/// The header's text must be the canonical text of a known media type. A
/// missing header fails with `MediaTypeSniff`, except on a Pulp path, where
/// it stands for a signed schema 1 manifest, as `application/x-troff-man`
/// does there.
pub fn evaluate_media_type(content_type: Option<&str>, url_path: &str) -> (r: Result<MediaTypes, Error>)
    ensures
        content_type is None && !is_pulp_path(url_path@) ==> r == Err::<MediaTypes, Error>(
            Error::MediaTypeSniff,
        ),
        content_type is None && is_pulp_path(url_path@) ==> r == Ok::<MediaTypes, Error>(
            MediaTypes::ManifestV2S1Signed,
        ),
        content_type matches Some(h) ==> if is_pulp_path(url_path@) && h@
            == "application/x-troff-man"@ {
            r == Ok::<MediaTypes, Error>(MediaTypes::ManifestV2S1Signed)
        } else {
            match parse_mime(h@) {
                Some(m) => r == Ok::<MediaTypes, Error>(m),
                None => r matches Err(Error::UnknownMimeType(t)) && t@ == h@,
            }
        },
{
    let is_pulp_based = str_starts_with(url_path, "/pulp/docker/v2");
    match content_type {
        None => if is_pulp_based {
            Ok(MediaTypes::ManifestV2S1Signed)
        } else {
            Err(Error::MediaTypeSniff)
        },
        Some(h) => if is_pulp_based && str_eq(h, "application/x-troff-man") {
            Ok(MediaTypes::ManifestV2S1Signed)
        } else {
            MediaTypes::from_str(h)
        },
    }
}

/// The texts among `ss` that are canonical texts of known media types, in order.
pub open spec fn known_mimes(ss: Seq<Seq<char>>) -> Seq<Seq<char>>
    decreases ss.len(),
{
    if ss.len() == 0 {
        Seq::empty()
    } else if parse_mime(ss.last()) is Some {
        known_mimes(ss.drop_last()).push(ss.last())
    } else {
        known_mimes(ss.drop_last())
    }
}

/// The known media types among `v`, each as its canonical MIME text; the
/// others are left out.
pub fn to_mimes(v: &[&str]) -> (r: Vec<String>)
    ensures
        strings_view(r@) == known_mimes(v@.map_values(|s: &str| s@)),
{
    let ghost vs = v@.map_values(|s: &str| s@);
    let mut r: Vec<String> = Vec::new();
    let mut i: usize = 0;
    while i < v.len()
        invariant
            i <= v@.len(),
            vs == v@.map_values(|s: &str| s@),
            strings_view(r@) == known_mimes(vs.take(i as int)),
        decreases v.len() - i,
    {
        assert(vs.take(i + 1).drop_last() =~= vs.take(i as int));
        match MediaTypes::from_str(v[i]) {
            Ok(m) => {
                r.push(m.to_mime());
                assert(strings_view(r@) =~= known_mimes(vs.take(i as int)).push(vs[i as int]));
            },
            Err(_) => {},
        }
        i += 1;
    }
    assert(vs.take(v@.len() as int) =~= vs);
    r
}

/// The `Accept` values of a manifest `HEAD`: the given media-type texts that
/// are known, or the schema 2 manifest type alone.
pub fn has_manifest_accept_types(mediatypes: Option<&[&str]>) -> (r: Vec<String>)
    ensures
        mediatypes is None ==> strings_view(r@) == seq![mime_of(MediaTypes::ManifestV2S2)],
        mediatypes matches Some(v) ==> strings_view(r@) == known_mimes(
            v@.map_values(|s: &str| s@),
        ),
{
    match mediatypes {
        None => {
            let v = vec![MediaTypes::ManifestV2S2.to_mime()];
            assert(strings_view(v@) =~= seq![mime_of(MediaTypes::ManifestV2S2)]);
            v
        },
        Some(v) => to_mimes(v),
    }
}

/// The answer to a manifest `HEAD`: 200 and the redirects 301, 302 and 307
/// give the manifest's media type, 404 says there is none, and any other
/// status is unexpected.
pub fn has_manifest_status(status: u16, content_type: Option<&str>, url_path: &str) -> (r: Result<
    Option<MediaTypes>,
    Error,
>)
    ensures
        status == 404 ==> r == Ok::<Option<MediaTypes>, Error>(None),
        !(status == 200 || status == 301 || status == 302 || status == 307 || status == 404)
            ==> r == Err::<Option<MediaTypes>, Error>(Error::UnexpectedHttpStatus(status)),
        status == 200 || status == 301 || status == 302 || status == 307 ==> match evaluate_media_type_spec(
            content_type,
            url_path,
        ) {
            Some(m) => r == Ok::<Option<MediaTypes>, Error>(Some(m)),
            None => r is Err,
        },
{
    if status == 200 || status == 301 || status == 302 || status == 307 {
        let m = evaluate_media_type(content_type, url_path)?;
        Ok(Some(m))
    } else if status == 404 {
        Ok(None)
    } else {
        Err(Error::UnexpectedHttpStatus(status))
    }
}

/// The media type that `evaluate_media_type` gives, if it gives one.
pub open spec fn evaluate_media_type_spec(content_type: Option<&str>, url_path: &str) -> Option<
    MediaTypes,
> {
    match content_type {
        None => if is_pulp_path(url_path@) {
            Some(MediaTypes::ManifestV2S1Signed)
        } else {
            None
        },
        Some(h) => if is_pulp_path(url_path@) && h@ == "application/x-troff-man"@ {
            Some(MediaTypes::ManifestV2S1Signed)
        } else {
            parse_mime(h@)
        },
    }
}

} // verus!
