//! The closed set of media types that the registry API uses.

use vstd::prelude::*;
use crate::errors::Error;
use crate::text::{push_str, str_eq};

verus! {

/// A media type of a registry object.
#[derive(Debug, Clone, Copy, PartialEq, Eq, Hash, Structural)]
pub enum MediaTypes {
    /// OCI image index, version 1
    OciV1ManifestList,
    /// OCI manifest, version 1
    OciV1Manifest,
    /// OCI manifest config, version 1
    OciV1ManifestConfig,
    /// Manifest, version 2 schema 1.
    ManifestV2S1,
    /// Signed manifest, version 2 schema 1.
    ManifestV2S1Signed,
    /// Manifest, version 2 schema 2.
    ManifestV2S2,
    /// Manifest List (aka "fat manifest").
    ManifestList,
    /// Image layer, as a gzip-compressed tar.
    ImageLayerTgz,
    /// Configuration object for a container.
    ContainerConfigV1,
    /// Generic JSON
    ApplicationJson,
}

/// The canonical MIME text of a media type.
pub open spec fn mime_of(m: MediaTypes) -> Seq<char> {
    match m {
        MediaTypes::OciV1ManifestList => "application/vnd.oci.image.index.v1+json"@,
        MediaTypes::OciV1Manifest => "application/vnd.oci.image.manifest.v1+json"@,
        MediaTypes::OciV1ManifestConfig => "application/vnd.oci.image.config.v1+json"@,
        MediaTypes::ManifestV2S1 => "application/vnd.docker.distribution.manifest.v1+json"@,
        MediaTypes::ManifestV2S1Signed =>
            "application/vnd.docker.distribution.manifest.v1+prettyjws"@,
        MediaTypes::ManifestV2S2 => "application/vnd.docker.distribution.manifest.v2+json"@,
        MediaTypes::ManifestList => "application/vnd.docker.distribution.manifest.list.v2+json"@,
        MediaTypes::ImageLayerTgz => "application/vnd.docker.image.rootfs.diff.tar.gzip"@,
        MediaTypes::ContainerConfigV1 => "application/vnd.docker.container.image.v1+json"@,
        MediaTypes::ApplicationJson => "application/json"@,
    }
}

/// The media type whose canonical text is `s`, if there is one.
pub open spec fn parse_mime(s: Seq<char>) -> Option<MediaTypes> {
    if exists|m: MediaTypes| mime_of(m) == s {
        Some(choose|m: MediaTypes| mime_of(m) == s)
    } else {
        None
    }
}

/// A MIME type taken apart: `type/subtype+suffix`, with parameters left out.
#[derive(Debug, Clone, PartialEq, Eq)]
pub struct MimeParts {
    pub type_: String,
    pub subtype: String,
    pub suffix: Option<String>,
}

impl MimeParts {
    pub open spec fn suffix_view(&self) -> Option<Seq<char>> {
        match self.suffix {
            Some(x) => Some(x@),
            None => None,
        }
    }

    /// The MIME type written out (see `mime_text`).
    pub fn to_text(&self) -> (r: String)
        ensures
            r@ == mime_text(self.type_@, self.subtype@, self.suffix_view()),
    {
        let mut out = self.type_.clone();
        push_str(&mut out, "/");
        push_str(&mut out, self.subtype.as_str());
        match &self.suffix {
            Some(x) => {
                push_str(&mut out, "+");
                push_str(&mut out, x.as_str());
            },
            None => {},
        }
        out
    }
}

/// The media type that a MIME type taken apart stands for: `application/json`
/// whatever its suffix, the rootfs layer type whatever its suffix or none,
/// and every other type of the set by its subtype and suffix.
pub open spec fn media_type_of_parts(
    t: Seq<char>,
    st: Seq<char>,
    suffix: Option<Seq<char>>,
) -> Option<MediaTypes> {
    if t != "application"@ {
        None
    } else if st == "json"@ {
        Some(MediaTypes::ApplicationJson)
    } else if st == "vnd.docker.image.rootfs.diff.tar.gzip"@ {
        Some(MediaTypes::ImageLayerTgz)
    } else {
        match suffix {
            None => None,
            Some(x) => if st == "vnd.oci.image.index.v1"@ && x == "json"@ {
                Some(MediaTypes::OciV1ManifestList)
            } else if st == "vnd.oci.image.manifest.v1"@ && x == "json"@ {
                Some(MediaTypes::OciV1Manifest)
            } else if st == "vnd.oci.image.config.v1"@ && x == "json"@ {
                Some(MediaTypes::OciV1ManifestConfig)
            } else if st == "vnd.docker.distribution.manifest.v1"@ && x == "json"@ {
                Some(MediaTypes::ManifestV2S1)
            } else if st == "vnd.docker.distribution.manifest.v1"@ && x == "prettyjws"@ {
                Some(MediaTypes::ManifestV2S1Signed)
            } else if st == "vnd.docker.distribution.manifest.v2"@ && x == "json"@ {
                Some(MediaTypes::ManifestV2S2)
            } else if st == "vnd.docker.distribution.manifest.list.v2"@ && x == "json"@ {
                Some(MediaTypes::ManifestList)
            } else if st == "vnd.docker.container.image.v1"@ && x == "json"@ {
                Some(MediaTypes::ContainerConfigV1)
            } else {
                None
            },
        }
    }
}

/// The subtype and suffix of each media type; the type is `application`.
pub open spec fn subtype_of(m: MediaTypes) -> (Seq<char>, Option<Seq<char>>) {
    match m {
        MediaTypes::OciV1ManifestList => ("vnd.oci.image.index.v1"@, Some("json"@)),
        MediaTypes::OciV1Manifest => ("vnd.oci.image.manifest.v1"@, Some("json"@)),
        MediaTypes::OciV1ManifestConfig => ("vnd.oci.image.config.v1"@, Some("json"@)),
        MediaTypes::ManifestV2S1 => ("vnd.docker.distribution.manifest.v1"@, Some("json"@)),
        MediaTypes::ManifestV2S1Signed => ("vnd.docker.distribution.manifest.v1"@, Some("prettyjws"@)),
        MediaTypes::ManifestV2S2 => ("vnd.docker.distribution.manifest.v2"@, Some("json"@)),
        MediaTypes::ManifestList => ("vnd.docker.distribution.manifest.list.v2"@, Some("json"@)),
        MediaTypes::ImageLayerTgz => ("vnd.docker.image.rootfs.diff.tar.gzip"@, None),
        MediaTypes::ContainerConfigV1 => ("vnd.docker.container.image.v1"@, Some("json"@)),
        MediaTypes::ApplicationJson => ("json"@, None),
    }
}

/// A MIME type written out: `type/subtype`, then `+suffix` if there is one.
pub open spec fn mime_text(t: Seq<char>, st: Seq<char>, suffix: Option<Seq<char>>) -> Seq<char> {
    match suffix {
        Some(x) => t + "/"@ + st + "+"@ + x,
        None => t + "/"@ + st,
    }
}

/// Each media type, taken apart into `application`, its subtype and its
/// suffix, is mapped back to itself, and written out it is its canonical text.
pub proof fn lemma_mime_parts_round_trip(v: MediaTypes)
    ensures
        media_type_of_parts("application"@, subtype_of(v).0, subtype_of(v).1) == Some(v),
        mime_text("application"@, subtype_of(v).0, subtype_of(v).1) == mime_of(v),
{
    reveal_strlit("application");
    reveal_strlit("json");
    reveal_strlit("prettyjws");
    reveal_strlit("/");
    reveal_strlit("+");
    reveal_strlit("vnd.oci.image.index.v1");
    reveal_strlit("vnd.oci.image.manifest.v1");
    reveal_strlit("vnd.oci.image.config.v1");
    reveal_strlit("vnd.docker.distribution.manifest.v1");
    reveal_strlit("vnd.docker.distribution.manifest.v2");
    reveal_strlit("vnd.docker.distribution.manifest.list.v2");
    reveal_strlit("vnd.docker.image.rootfs.diff.tar.gzip");
    reveal_strlit("vnd.docker.container.image.v1");
    reveal_strlit("application/vnd.oci.image.index.v1+json");
    reveal_strlit("application/vnd.oci.image.manifest.v1+json");
    reveal_strlit("application/vnd.oci.image.config.v1+json");
    reveal_strlit("application/vnd.docker.distribution.manifest.v1+json");
    reveal_strlit("application/vnd.docker.distribution.manifest.v1+prettyjws");
    reveal_strlit("application/vnd.docker.distribution.manifest.v2+json");
    reveal_strlit("application/vnd.docker.distribution.manifest.list.v2+json");
    reveal_strlit("application/vnd.docker.image.rootfs.diff.tar.gzip");
    reveal_strlit("application/vnd.docker.container.image.v1+json");
    reveal_strlit("application/json");
    let (st, sx) = subtype_of(v);
    assert(mime_text("application"@, st, sx) =~= mime_of(v));
    assert("vnd.docker.distribution.manifest.v2"@[34] != "vnd.docker.distribution.manifest.v1"@[34]);
    assert("vnd.docker.distribution.manifest.v2"@ != "vnd.docker.distribution.manifest.v1"@);
    assert("json"@ != "prettyjws"@);
    assert("json"@.len() == 4);
}

proof fn lemma_mime_injective(a: MediaTypes, b: MediaTypes)
    requires
        mime_of(a) == mime_of(b),
    ensures
        a == b,
{
    reveal_strlit("application/vnd.oci.image.index.v1+json");
    reveal_strlit("application/vnd.oci.image.manifest.v1+json");
    reveal_strlit("application/vnd.oci.image.config.v1+json");
    reveal_strlit("application/vnd.docker.distribution.manifest.v1+json");
    reveal_strlit("application/vnd.docker.distribution.manifest.v1+prettyjws");
    reveal_strlit("application/vnd.docker.distribution.manifest.v2+json");
    reveal_strlit("application/vnd.docker.distribution.manifest.list.v2+json");
    reveal_strlit("application/vnd.docker.image.rootfs.diff.tar.gzip");
    reveal_strlit("application/vnd.docker.container.image.v1+json");
    reveal_strlit("application/json");
    if a != b {
        let sa = mime_of(a);
        let sb = mime_of(b);
        if sa.len() == sb.len() {
            assert(sa[45] != sb[45] || sa[46] != sb[46]);
        }
    }
}

/// Rendering a media type and parsing the text back gives the same media type.
pub proof fn lemma_media_type_round_trip(v: MediaTypes)
    ensures
        parse_mime(mime_of(v)) == Some(v),
{
    let c = choose|x: MediaTypes| mime_of(x) == mime_of(v);
    lemma_mime_injective(c, v);
}

impl MediaTypes {
    /// The media type that a MIME type stands for, by its type, subtype and
    /// suffix (see `media_type_of_parts`).
    pub fn from_mime(mtype: &MimeParts) -> (r: Result<MediaTypes, Error>)
        ensures
            r is Ok <==> media_type_of_parts(mtype.type_@, mtype.subtype@, mtype.suffix_view()) is Some,
            r matches Ok(m) ==> Some(m) == media_type_of_parts(
                mtype.type_@,
                mtype.subtype@,
                mtype.suffix_view(),
            ),
            r is Err ==> (r matches Err(Error::UnknownMimeType(t)) && t@ == mime_text(
                mtype.type_@,
                mtype.subtype@,
                mtype.suffix_view(),
            )),
    {
        let t = mtype.type_.as_str();
        let st = mtype.subtype.as_str();
        if !str_eq(t, "application") {
            return Err(Error::UnknownMimeType(mtype.to_text()));
        }
        if str_eq(st, "json") {
            return Ok(MediaTypes::ApplicationJson);
        }
        if str_eq(st, "vnd.docker.image.rootfs.diff.tar.gzip") {
            return Ok(MediaTypes::ImageLayerTgz);
        }
        match &mtype.suffix {
            None => Err(Error::UnknownMimeType(mtype.to_text())),
            Some(x) => {
                let x = x.as_str();
                if str_eq(st, "vnd.oci.image.index.v1") && str_eq(x, "json") {
                    Ok(MediaTypes::OciV1ManifestList)
                } else if str_eq(st, "vnd.oci.image.manifest.v1") && str_eq(x, "json") {
                    Ok(MediaTypes::OciV1Manifest)
                } else if str_eq(st, "vnd.oci.image.config.v1") && str_eq(x, "json") {
                    Ok(MediaTypes::OciV1ManifestConfig)
                } else if str_eq(st, "vnd.docker.distribution.manifest.v1") && str_eq(x, "json") {
                    Ok(MediaTypes::ManifestV2S1)
                } else if str_eq(st, "vnd.docker.distribution.manifest.v1") && str_eq(x, "prettyjws") {
                    Ok(MediaTypes::ManifestV2S1Signed)
                } else if str_eq(st, "vnd.docker.distribution.manifest.v2") && str_eq(x, "json") {
                    Ok(MediaTypes::ManifestV2S2)
                } else if str_eq(st, "vnd.docker.distribution.manifest.list.v2") && str_eq(x, "json") {
                    Ok(MediaTypes::ManifestList)
                } else if str_eq(st, "vnd.docker.container.image.v1") && str_eq(x, "json") {
                    Ok(MediaTypes::ContainerConfigV1)
                } else {
                    Err(Error::UnknownMimeType(mtype.to_text()))
                }
            },
        }
    }

    /// This media type taken apart: `application`, its subtype and its suffix.
    pub fn mime_parts(&self) -> (r: MimeParts)
        ensures
            r.type_@ == "application"@,
            r.subtype@ == subtype_of(*self).0,
            r.suffix_view() == subtype_of(*self).1,
    {
        let (st, sx) = match self {
            MediaTypes::OciV1ManifestList => ("vnd.oci.image.index.v1", Some("json")),
            MediaTypes::OciV1Manifest => ("vnd.oci.image.manifest.v1", Some("json")),
            MediaTypes::OciV1ManifestConfig => ("vnd.oci.image.config.v1", Some("json")),
            MediaTypes::ManifestV2S1 => ("vnd.docker.distribution.manifest.v1", Some("json")),
            MediaTypes::ManifestV2S1Signed => ("vnd.docker.distribution.manifest.v1", Some("prettyjws")),
            MediaTypes::ManifestV2S2 => ("vnd.docker.distribution.manifest.v2", Some("json")),
            MediaTypes::ManifestList => ("vnd.docker.distribution.manifest.list.v2", Some("json")),
            MediaTypes::ImageLayerTgz => ("vnd.docker.image.rootfs.diff.tar.gzip", None),
            MediaTypes::ContainerConfigV1 => ("vnd.docker.container.image.v1", Some("json")),
            MediaTypes::ApplicationJson => ("json", None),
        };
        let suffix = match sx {
            Some(x) => Some(x.to_owned()),
            None => None,
        };
        MimeParts { type_: "application".to_owned(), subtype: st.to_owned(), suffix }
    }

    /// The canonical MIME text of this media type.
    pub fn to_mime(&self) -> (r: String)
        ensures
            r@ == mime_of(*self),
    {
        match self {
            MediaTypes::OciV1ManifestList => "application/vnd.oci.image.index.v1+json".to_owned(),
            MediaTypes::OciV1Manifest => "application/vnd.oci.image.manifest.v1+json".to_owned(),
            MediaTypes::OciV1ManifestConfig => "application/vnd.oci.image.config.v1+json".to_owned(),
            MediaTypes::ManifestV2S1 => "application/vnd.docker.distribution.manifest.v1+json".to_owned(),
            MediaTypes::ManifestV2S1Signed =>
                "application/vnd.docker.distribution.manifest.v1+prettyjws".to_owned(),
            MediaTypes::ManifestV2S2 => "application/vnd.docker.distribution.manifest.v2+json".to_owned(),
            MediaTypes::ManifestList =>
                "application/vnd.docker.distribution.manifest.list.v2+json".to_owned(),
            MediaTypes::ImageLayerTgz => "application/vnd.docker.image.rootfs.diff.tar.gzip".to_owned(),
            MediaTypes::ContainerConfigV1 => "application/vnd.docker.container.image.v1+json".to_owned(),
            MediaTypes::ApplicationJson => "application/json".to_owned(),
        }
    }

    /// The media type whose canonical MIME text is exactly `s`.
    pub fn from_str(s: &str) -> (r: Result<MediaTypes, Error>)
        ensures
            r matches Ok(m) ==> mime_of(m) == s@,
            r is Ok <==> parse_mime(s@) is Some,
            r matches Ok(m) ==> parse_mime(s@) == Some(m),
            r is Err ==> (r matches Err(Error::UnknownMimeType(t)) && t@ == s@),
    {
        let all = [
            MediaTypes::OciV1ManifestList,
            MediaTypes::OciV1Manifest,
            MediaTypes::OciV1ManifestConfig,
            MediaTypes::ManifestV2S1,
            MediaTypes::ManifestV2S1Signed,
            MediaTypes::ManifestV2S2,
            MediaTypes::ManifestList,
            MediaTypes::ImageLayerTgz,
            MediaTypes::ContainerConfigV1,
            MediaTypes::ApplicationJson,
        ];
        let mut i: usize = 0;
        while i < 10
            invariant
                i <= 10,
                all@.len() == 10,
                forall|j: int| 0 <= j < i ==> mime_of(#[trigger] all@[j]) != s@,
            decreases 10 - i,
        {
            let t = all[i].to_mime();
            if str_eq(t.as_str(), s) {
                proof {
                    let m = all@[i as int];
                    assert(mime_of(m) == s@);
                    assert(exists|x: MediaTypes| mime_of(x) == s@);
                    let c = choose|x: MediaTypes| mime_of(x) == s@;
                    lemma_mime_injective(c, m);
                }
                return Ok(all[i]);
            }
            i += 1;
        }
        assert forall|m: MediaTypes| mime_of(m) != s@ by {
            assert(mime_of(all@[0]) != s@);
            assert(mime_of(all@[1]) != s@);
            assert(mime_of(all@[2]) != s@);
            assert(mime_of(all@[3]) != s@);
            assert(mime_of(all@[4]) != s@);
            assert(mime_of(all@[5]) != s@);
            assert(mime_of(all@[6]) != s@);
            assert(mime_of(all@[7]) != s@);
            assert(mime_of(all@[8]) != s@);
            assert(mime_of(all@[9]) != s@);
        }
        Err(Error::UnknownMimeType(s.to_owned()))
    }
}

} // verus!
