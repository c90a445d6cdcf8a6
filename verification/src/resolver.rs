//! Resolving the latest published version and download URL of a plugin from
//! a registry's JSON metadata response.
//!
//! A registry is described by a URL template with an optional two-character
//! `$$` placeholder, and by two dot-separated path descriptors into the JSON
//! response: one for the version string, one for the download URL.

use vstd::prelude::*;
use vstd::string::*;

use crate::errors::{kind_of, ErrorKind, UpdateError};
use crate::json::{
    json_as_text, json_doc_of, parse_json_bytes, path_views, spec_as_text, spec_resolve,
    JsonValue,
};
use crate::strutil::{split_on, split_str, str_eq};
use crate::version::{spec_parse_version, Version};

verus! {

/// Whether the template holds its placeholder at position `j`.
pub open spec fn marker_at(s: Seq<char>, j: int) -> bool {
    s[j] == '$' && s[j + 1] == '$'
}

/// Splitting a URL template on the first `$$` placeholder: the part before
/// it and the part after it. A template without a placeholder is all prefix.
pub open spec fn spec_split_template(s: Seq<char>) -> (Seq<char>, Seq<char>)
    decreases s.len(),
{
    if s.len() < 2 {
        (s, Seq::<char>::empty())
    } else if s[0] == '$' && s[1] == '$' {
        (Seq::<char>::empty(), s.skip(2))
    } else {
        let r = spec_split_template(s.skip(1));
        (seq![s[0]] + r.0, r.1)
    }
}

proof fn lemma_split_template_at(s: Seq<char>, i: int)
    requires
        0 <= i,
        i + 2 <= s.len(),
        marker_at(s, i),
        forall|j: int| 0 <= j < i ==> !marker_at(s, j),
    ensures
        spec_split_template(s).0 == s.take(i),
        spec_split_template(s).1 == s.skip(i + 2),
    decreases i,
{
    if i == 0 {
        assert(s.take(0) =~= Seq::<char>::empty());
    } else {
        assert(!marker_at(s, 0));
        assert forall|j: int| 0 <= j < i - 1 implies !marker_at(s.skip(1), j) by {
            assert(!marker_at(s, j + 1));
        }
        assert(marker_at(s.skip(1), i - 1));
        lemma_split_template_at(s.skip(1), i - 1);
        assert(seq![s[0]] + s.skip(1).take(i - 1) =~= s.take(i));
        assert(s.skip(1).skip(i + 1) =~= s.skip(i + 2));
    }
}

proof fn lemma_split_template_none(s: Seq<char>)
    requires
        forall|j: int| 0 <= j && j + 2 <= s.len() ==> !marker_at(s, j),
    ensures
        spec_split_template(s).0 == s,
        spec_split_template(s).1 == Seq::<char>::empty(),
    decreases s.len(),
{
    if s.len() >= 2 {
        assert(!marker_at(s, 0));
        assert forall|j: int| 0 <= j && j + 2 <= s.skip(1).len() implies !marker_at(
            s.skip(1),
            j,
        ) by {
            assert(!marker_at(s, j + 1));
        }
        lemma_split_template_none(s.skip(1));
        assert(seq![s[0]] + s.skip(1) =~= s);
    }
}

/// Splits a URL template on its first `$$` placeholder.
fn split_template(s: &str) -> (r: (String, String))
    ensures
        r.0@ == spec_split_template(s@).0,
        r.1@ == spec_split_template(s@).1,
{
    let len = s.unicode_len();
    let mut i: usize = 0;
    while len >= 2 && i <= len - 2
        invariant
            len == s@.len(),
            0 <= i <= len,
            forall|j: int| 0 <= j < i ==> !marker_at(s@, j),
        decreases len - i,
    {
        if s.get_char(i) == '$' && s.get_char(i + 1) == '$' {
            proof {
                lemma_split_template_at(s@, i as int);
            }
            let prefix = s.substring_char(0, i).to_owned();
            let suffix = s.substring_char(i + 2, len).to_owned();
            proof {
                assert(s@.subrange(0, i as int) =~= s@.take(i as int));
                assert(s@.subrange(i + 2, len as int) =~= s@.skip(i + 2));
            }
            return (prefix, suffix);
        }
        i = i + 1;
    }
    proof {
        lemma_split_template_none(s@);
    }
    (s.to_owned(), String::new())
}

/// A 2xx response status.
pub open spec fn ok_status(status: u16) -> bool {
    200 <= status < 300
}

/// A content type that declares JSON, alone or with parameters after `;`.
pub open spec fn spec_is_json_content_type(s: Seq<char>) -> bool {
    s == "application/json"@ || (s.len() > 16 && s.take(16) == "application/json"@ && s[16]
        == ';')
}

fn is_json_content_type(ct: &str) -> (r: bool)
    ensures
        r == spec_is_json_content_type(ct@),
{
    proof {
        reveal_strlit("application/json");
    }
    let len = ct.unicode_len();
    if len < 16 {
        return false;
    }
    let head = ct.substring_char(0, 16);
    proof {
        assert(head@ =~= ct@.take(16));
    }
    if !str_eq(head, "application/json") {
        proof {
            if ct@ == "application/json"@ {
                assert(ct@.take(16) =~= "application/json"@);
            }
        }
        return false;
    }
    if len == 16 {
        proof {
            assert(ct@ =~= "application/json"@);
        }
        return true;
    }
    ct.get_char(16) == ';'
}

/// What resolving metadata yields: walks the version path, reads and parses
/// the version string, then walks the download path and reads the URL.
pub open spec fn spec_resolve_meta(
    doc: Option<JsonValue>,
    vpath: Seq<Seq<char>>,
    dpath: Seq<Seq<char>>,
) -> Result<(Version, Seq<char>), ErrorKind> {
    match doc {
        None => Err(ErrorKind::Parse),
        Some(d) => match spec_resolve(d, vpath) {
            None => Err(ErrorKind::PathNotFound),
            Some(vn) => match spec_as_text(vn) {
                None => Err(ErrorKind::WrongType),
                Some(vs) => match spec_parse_version(vs) {
                    None => Err(ErrorKind::VersionFormat),
                    Some(ver) => match spec_resolve(d, dpath) {
                        None => Err(ErrorKind::PathNotFound),
                        Some(dn) => match spec_as_text(dn) {
                            None => Err(ErrorKind::WrongType),
                            Some(url) => Ok((ver, url)),
                        },
                    },
                },
            },
        },
    }
}

/// One configured registry: URL template halves and the two path
/// descriptors into its metadata responses.
#[derive(Debug, Clone)]
pub struct TheiaPluginAPI {
    pub prefix: String,
    pub suffix: String,
    pub version: Vec<String>,
    pub download: Vec<String>,
}

impl TheiaPluginAPI {
    /// Builds a registry description from a URL template and dot-separated
    /// path descriptors for the version and the download URL.
    pub fn new(regular: &str, version: &str, download: &str) -> (r: TheiaPluginAPI)
        ensures
            r.prefix@ == spec_split_template(regular@).0,
            r.suffix@ == spec_split_template(regular@).1,
            path_views(r.version@) == split_on(version@, '.'),
            path_views(r.download@) == split_on(download@, '.'),
    {
        let r = TheiaPluginAPI {
            prefix: String::new(),
            suffix: String::new(),
            version: split_str(version, '.'),
            download: split_str(download, '.'),
        };
        let (prefix, suffix) = split_template(regular);
        let r = TheiaPluginAPI { prefix, suffix, ..r };
        proof {
            assert(path_views(r.version@) =~~= split_on(version@, '.'));
            assert(path_views(r.download@) =~~= split_on(download@, '.'));
        }
        r
    }

    /// The metadata request URL for one plugin: its remote path between the
    /// template's prefix and suffix.
    pub fn build_url(&self, path: &str) -> (r: String)
        ensures
            r@ == self.prefix@ + path@ + self.suffix@,
    {
        let mut url = self.prefix.clone();
        url.append(path);
        url.append(self.suffix.as_str());
        proof {
            assert(url@ =~= self.prefix@ + path@ + self.suffix@);
        }
        url
    }

    /// The JSON node the version path selects.
    pub fn search_version<'t>(&self, json: &'t JsonValue) -> (r: Option<&'t JsonValue>)
        ensures
            match r {
                Some(j) => spec_resolve(*json, path_views(self.version@)) == Some(*j),
                None => spec_resolve(*json, path_views(self.version@)) is None,
            },
    {
        crate::json::resolve_path(json, &self.version)
    }

    /// The JSON node the download path selects.
    pub fn search_download<'t>(&self, json: &'t JsonValue) -> (r: Option<&'t JsonValue>)
        ensures
            match r {
                Some(j) => spec_resolve(*json, path_views(self.download@)) == Some(*j),
                None => spec_resolve(*json, path_views(self.download@)) is None,
            },
    {
        crate::json::resolve_path(json, &self.download)
    }

    /// Extracts the latest version and the download URL from a metadata
    /// response body.
    pub fn parse_json(&self, body: &Vec<u8>) -> (r: Result<(Version, String), UpdateError>)
        ensures
            r matches Ok(p) ==> spec_resolve_meta(
                json_doc_of(body@),
                path_views(self.version@),
                path_views(self.download@),
            ) == Ok::<(Version, Seq<char>), ErrorKind>((p.0, p.1@)),
            r matches Err(e) ==> spec_resolve_meta(
                json_doc_of(body@),
                path_views(self.version@),
                path_views(self.download@),
            ) == Err::<(Version, Seq<char>), ErrorKind>(kind_of(e)),
    {
        let doc = match parse_json_bytes(body) {
            Some(d) => d,
            None => {
                return Err(UpdateError::Parse("metadata body".to_owned()));
            },
        };
        let vnode = match self.search_version(&doc) {
            Some(n) => n,
            None => {
                return Err(UpdateError::PathNotFound("version".to_owned()));
            },
        };
        let vtext = match json_as_text(vnode) {
            Some(t) => t,
            None => {
                return Err(UpdateError::WrongType("version".to_owned()));
            },
        };
        let ver = match Version::from_str(vtext.as_str()) {
            Ok(v) => v,
            Err(_) => {
                return Err(UpdateError::VersionFormat(vtext.clone()));
            },
        };
        let dnode = match self.search_download(&doc) {
            Some(n) => n,
            None => {
                return Err(UpdateError::PathNotFound("download".to_owned()));
            },
        };
        let dtext = match json_as_text(dnode) {
            Some(t) => t,
            None => {
                return Err(UpdateError::WrongType("download".to_owned()));
            },
        };
        Ok((ver, dtext.clone()))
    }

    /// Judges one HTTP metadata response handed in as plain values: a
    /// non-2xx status is a network failure, a non-JSON content type is a
    /// content-type failure; otherwise the body decides.
    pub fn evaluate_response(&self, status: u16, content_type: &str, body: &Vec<u8>) -> (r:
        Result<(Version, String), UpdateError>)
        ensures
            r matches Ok(p) ==> ok_status(status) && spec_is_json_content_type(content_type@)
                && spec_resolve_meta(
                json_doc_of(body@),
                path_views(self.version@),
                path_views(self.download@),
            ) == Ok::<(Version, Seq<char>), ErrorKind>((p.0, p.1@)),
            r matches Err(e) ==> match kind_of(e) {
                ErrorKind::Network => !ok_status(status),
                ErrorKind::ContentType => ok_status(status) && !spec_is_json_content_type(
                    content_type@,
                ),
                _ => ok_status(status) && spec_is_json_content_type(content_type@)
                    && spec_resolve_meta(
                    json_doc_of(body@),
                    path_views(self.version@),
                    path_views(self.download@),
                ) == Err::<(Version, Seq<char>), ErrorKind>(kind_of(e)),
            },
    {
        if status < 200 || status >= 300 {
            return Err(UpdateError::Network("response status".to_owned()));
        }
        if !is_json_content_type(content_type) {
            return Err(UpdateError::ContentType(content_type.to_owned()));
        }
        self.parse_json(body)
    }
}

} // verus!
