//! Reading the locally installed version of a plugin from its
//! `extension.vsixmanifest` file.
//!
//! The manifest is scanned as a stream of XML events; the version is the
//! `Version` attribute of the first self-closing `Identity` element. A
//! missing file is the normal "not installed" state, not an error.

use vstd::prelude::*;
use vstd::string::*;

use crate::errors::{kind_of, ErrorKind, UpdateError};
use crate::strutil::str_eq;
use crate::version::{spec_parse_version, Version};

verus! {

/// One attribute of an XML element.
#[derive(Debug)]
pub struct XmlAttr {
    pub key: String,
    pub value: String,
}

/// One event of the manifest scan. Only self-closing elements are ever
/// inspected, so all other events are kept opaque.
#[derive(Debug)]
pub enum XmlEvent {
    /// A self-closing element and its attributes, in document order.
    SelfClosing { name: String, attrs: Vec<XmlAttr> },
    /// Any other event.
    Other,
}

/// The events of an XML document, in document order, truncated at the first
/// scanning error.
pub uninterp spec fn xml_events_of(s: Seq<char>) -> Seq<XmlEvent>;

/// Relies on quick_xml::Reader (from_str, read_event): the events of a
/// document are a function of its text alone. Self-closing elements are kept
/// with their names and raw attributes; reading stops at the end of the
/// document or at the first malformed construct.
#[verifier::external_body]
fn scan_xml_events(content: &str) -> (r: Vec<XmlEvent>)
    ensures
        r@ == xml_events_of(content@),
{
    let mut reader = quick_xml::Reader::from_str(content);
    let mut out = Vec::new();
    loop {
        match reader.read_event() {
            Ok(quick_xml::events::Event::Empty(e)) => out.push(XmlEvent::SelfClosing {
                name: e.name().as_ref().to_owned(),
                attrs: e.attributes().filter_map(Result::ok).map(|a| XmlAttr {
                    key: a.key.as_ref().to_owned(),
                    value: a.value.into_owned(),
                }).collect(),
            }),
            Ok(quick_xml::events::Event::Eof) | Err(_) => return out,
            Ok(_) => out.push(XmlEvent::Other),
        }
    }
}

/// The value under `key` among an element's attributes, first occurrence.
pub open spec fn attr_lookup(attrs: Seq<XmlAttr>, key: Seq<char>) -> Option<Seq<char>>
    decreases attrs.len(),
{
    if attrs.len() == 0 {
        None
    } else if attrs[0].key@ == key {
        Some(attrs[0].value@)
    } else {
        attr_lookup(attrs.skip(1), key)
    }
}

/// The version string the scan yields: the `Version` attribute of the first
/// self-closing `Identity` element. That element decides alone; a document
/// without one, or whose first one lacks the attribute, yields nothing.
pub open spec fn spec_scan_manifest(events: Seq<XmlEvent>) -> Option<Seq<char>>
    decreases events.len(),
{
    if events.len() == 0 {
        None
    } else {
        match events[0] {
            XmlEvent::SelfClosing { name, attrs } => if name@ == "Identity"@ {
                attr_lookup(attrs@, "Version"@)
            } else {
                spec_scan_manifest(events.skip(1))
            },
            XmlEvent::Other => spec_scan_manifest(events.skip(1)),
        }
    }
}

/// How one attempted read of the manifest file went; the caller performs the
/// read and reports it here.
#[derive(Debug)]
pub enum ManifestRead {
    /// The file was read; its text.
    Found(String),
    /// The file (or its directory) does not exist: the plugin is not
    /// installed.
    Absent,
    /// The file exists but could not be read; the fault's description.
    Unreadable(String),
}

/// What a manifest's text means: the scanned version string, parsed.
pub open spec fn spec_manifest_version(s: Seq<char>) -> Result<Version, ErrorKind> {
    match spec_scan_manifest(xml_events_of(s)) {
        None => Err(ErrorKind::ManifestFormat),
        Some(vs) => match spec_parse_version(vs) {
            None => Err(ErrorKind::VersionFormat),
            Some(v) => Ok(v),
        },
    }
}

/// The local plugin store: the directory the plugins are installed under.
#[derive(Debug, Clone)]
pub struct TheiaPluginLCL {
    pub directory: String,
}

impl TheiaPluginLCL {
    /// A store rooted at `directory`.
    pub fn new(directory: &str) -> (r: TheiaPluginLCL)
        ensures
            r.directory@ == directory@,
    {
        TheiaPluginLCL { directory: directory.to_owned() }
    }

    /// The manifest file path for plugin `name`:
    /// `directory/name/extension.vsixmanifest`.
    pub fn manifest_path(&self, name: &str) -> (r: String)
        ensures
            r@ == self.directory@ + "/"@ + name@ + "/extension.vsixmanifest"@,
    {
        let mut path = self.directory.clone();
        path.append("/");
        path.append(name);
        path.append("/extension.vsixmanifest");
        proof {
            assert(path@ =~= self.directory@ + "/"@ + name@ + "/extension.vsixmanifest"@);
        }
        path
    }

    /// The version string of the first self-closing `Identity` element among
    /// the scanned events.
    pub fn search_version(&self, events: &Vec<XmlEvent>) -> (r: Option<String>)
        ensures
            match r {
                Some(s) => spec_scan_manifest(events@) == Some(s@),
                None => spec_scan_manifest(events@) is None,
            },
    {
        let mut i: usize = 0;
        proof {
            assert(events@.skip(0) =~= events@);
        }
        while i < events.len()
            invariant
                0 <= i <= events@.len(),
                spec_scan_manifest(events@) == spec_scan_manifest(events@.skip(i as int)),
            decreases events@.len() - i,
        {
            proof {
                assert(events@.skip(i as int)[0] == events@[i as int]);
                assert(events@.skip(i as int).skip(1) =~= events@.skip(i + 1));
            }
            match &events[i] {
                XmlEvent::SelfClosing { name, attrs } => {
                    if str_eq(name.as_str(), "Identity") {
                        return self.search_attr(attrs);
                    }
                },
                XmlEvent::Other => {},
            }
            i = i + 1;
        }
        proof {
            assert(events@.skip(i as int) =~= Seq::<XmlEvent>::empty());
        }
        None
    }

    /// The `Version` attribute among one element's attributes.
    fn search_attr(&self, attrs: &Vec<XmlAttr>) -> (r: Option<String>)
        ensures
            match r {
                Some(s) => attr_lookup(attrs@, "Version"@) == Some(s@),
                None => attr_lookup(attrs@, "Version"@) is None,
            },
    {
        let mut i: usize = 0;
        proof {
            assert(attrs@.skip(0) =~= attrs@);
        }
        while i < attrs.len()
            invariant
                0 <= i <= attrs@.len(),
                attr_lookup(attrs@, "Version"@) == attr_lookup(attrs@.skip(i as int), "Version"@),
            decreases attrs@.len() - i,
        {
            proof {
                assert(attrs@.skip(i as int)[0] == attrs@[i as int]);
                assert(attrs@.skip(i as int).skip(1) =~= attrs@.skip(i + 1));
            }
            let attr = &attrs[i];
            if str_eq(attr.key.as_str(), "Version") {
                return Some(attr.value.clone());
            }
            i = i + 1;
        }
        proof {
            assert(attrs@.skip(i as int) =~= Seq::<XmlAttr>::empty());
        }
        None
    }

    /// Interprets one attempted read of plugin `name`'s manifest: an absent
    /// file is the normal "not installed" state; an unreadable file is an
    /// I/O failure; text is scanned and its version string parsed.
    pub fn get_version(&self, read: &ManifestRead) -> (r: Result<Option<Version>, UpdateError>)
        ensures
            read matches ManifestRead::Absent ==> r matches Ok(v) && v is None,
            read matches ManifestRead::Unreadable(m) ==> r matches Err(e) && kind_of(e)
                == ErrorKind::Io,
            read matches ManifestRead::Found(content) ==> match spec_manifest_version(
                content@,
            ) {
                Ok(v) => r matches Ok(o) && o == Some(v),
                Err(k) => r matches Err(e) && kind_of(e) == k,
            },
    {
        match read {
            ManifestRead::Absent => Ok(None),
            ManifestRead::Unreadable(m) => Err(UpdateError::Io(m.clone())),
            ManifestRead::Found(content) => {
                let events = scan_xml_events(content.as_str());
                let vs = match self.search_version(&events) {
                    Some(s) => s,
                    None => {
                        return Err(
                            UpdateError::ManifestFormat("extension.vsixmanifest".to_owned()),
                        );
                    },
                };
                match Version::from_str(vs.as_str()) {
                    Ok(v) => Ok(Some(v)),
                    Err(_) => Err(UpdateError::VersionFormat(vs)),
                }
            },
        }
    }
}

} // verus!
