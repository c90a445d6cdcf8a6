//! Keeps locally installed plugin packages in step with the versions that
//! remote registries publish.
//!
//! The verified core covers: tolerant `major.minor.patch` version parsing and
//! ordering, JSON path resolution with implicit array descent, scanning an
//! XML manifest for the installed version, planning the extraction of a zip
//! archive, and the per-plugin upgrade decision. Network and filesystem
//! traffic stay outside; callers hand the results in as plain values.

use vstd::prelude::*;

pub mod archive;
pub mod errors;
pub mod json;
pub mod manifest;
pub mod resolver;
pub mod strutil;
pub mod upgrade;
pub mod version;

use crate::archive::{spec_plan, write_view, zip_entries_of, FileWrite};
use crate::errors::{kind_of, ErrorKind, UpdateError};
use crate::json::{json_doc_of, path_views};
use crate::manifest::{spec_manifest_version, ManifestRead, TheiaPluginLCL};
use crate::resolver::{
    ok_status, spec_is_json_content_type, spec_resolve_meta, spec_split_template,
    TheiaPluginAPI,
};
use crate::strutil::split_on;
use crate::version::Version;

verus! {

/// One configured registry together with the local plugin store it feeds.
#[derive(Debug, Clone)]
pub struct TheiaPlugin {
    pub remote: TheiaPluginAPI,
    pub native: TheiaPluginLCL,
}

impl TheiaPlugin {
    /// Builds the pair from a URL template, the two dot-separated path
    /// descriptors into the registry's JSON responses, and the local store
    /// directory.
    pub fn new(regular: &str, version: &str, download: &str, theia_dir: &str) -> (r:
        TheiaPlugin)
        ensures
            r.remote.prefix@ == spec_split_template(regular@).0,
            r.remote.suffix@ == spec_split_template(regular@).1,
            path_views(r.remote.version@) == split_on(version@, '.'),
            path_views(r.remote.download@) == split_on(download@, '.'),
            r.native.directory@ == theia_dir@,
    {
        TheiaPlugin {
            remote: TheiaPluginAPI::new(regular, version, download),
            native: TheiaPluginLCL::new(theia_dir),
        }
    }

    /// The installed version, from one attempted read of the plugin's
    /// manifest: an absent manifest is "not installed", not an error.
    pub fn get_install_info(&self, read: &ManifestRead) -> (r: Result<
        Option<Version>,
        UpdateError,
    >)
        ensures
            read matches ManifestRead::Absent ==> r matches Ok(v) && v is None,
            read matches ManifestRead::Unreadable(m) ==> r matches Err(e) && kind_of(e)
                == ErrorKind::Io,
            read matches ManifestRead::Found(content) ==> match spec_manifest_version(
                content@,
            ) {
                Ok(v) => r matches Ok(o) && o == Some(v),
                Err(k) => r matches Err(e) && kind_of(e) == k,
            },
    {
        self.native.get_version(read)
    }

    /// The latest published version and its download URL, from one metadata
    /// response handed in as plain values.
    pub fn get_last_version(&self, status: u16, content_type: &str, body: &Vec<u8>) -> (r:
        Result<(Version, String), UpdateError>)
        ensures
            r matches Ok(p) ==> ok_status(status) && spec_is_json_content_type(content_type@)
                && spec_resolve_meta(
                json_doc_of(body@),
                path_views(self.remote.version@),
                path_views(self.remote.download@),
            ) == Ok::<(Version, Seq<char>), ErrorKind>((p.0, p.1@)),
            r matches Err(e) ==> match kind_of(e) {
                ErrorKind::Network => !ok_status(status),
                ErrorKind::ContentType => ok_status(status) && !spec_is_json_content_type(
                    content_type@,
                ),
                _ => ok_status(status) && spec_is_json_content_type(content_type@)
                    && spec_resolve_meta(
                    json_doc_of(body@),
                    path_views(self.remote.version@),
                    path_views(self.remote.download@),
                ) == Err::<(Version, Seq<char>), ErrorKind>(kind_of(e)),
            },
    {
        self.remote.evaluate_response(status, content_type, body)
    }

    /// Plans the writes that install downloaded archive bytes for plugin
    /// `name` under its own subdirectory of the store.
    pub fn upgrade(&self, name: &str, data: &Vec<u8>) -> (r: Result<Vec<FileWrite>, UpdateError>)
        ensures
            r matches Ok(ws) ==> zip_entries_of(data@) matches Some(es) && ws@.map_values(
                |w: FileWrite| write_view(w),
            ) == spec_plan(es, self.native.directory@ + seq!['/'] + name@),
            r matches Err(e) ==> kind_of(e) == ErrorKind::ArchiveFormat && zip_entries_of(
                data@,
            ) is None,
    {
        self.native.installing(name, data)
    }
}

} // verus!
