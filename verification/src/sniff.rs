//! The trusted boundary to libmagic, the content-type sniffer.

use vstd::prelude::*;
use crate::text::nul_free;

verus! {

/// A loaded libmagic cookie, configured to report MIME types and to follow
/// symbolic links. What it reports for a path depends on the file on disk,
/// so nothing is stated of its answers.
#[verifier::external_body]
pub struct MimeSniffer {
    cookie: magic::cookie::Cookie<magic::cookie::Load>,
}

impl MimeSniffer {
    /// Relies on `magic::cookie::Cookie::open` and
    /// `magic::cookie::Cookie::load`: a cookie with the `MIME_TYPE` and
    /// `SYMLINK` flags and the default signature database, or `None` when
    /// the sniffer cannot be set up at all.
    #[verifier::external_body]
    pub(crate) fn new() -> Option<MimeSniffer> {
        let flags = magic::cookie::Flags::MIME_TYPE | magic::cookie::Flags::SYMLINK;
        let opened = magic::Cookie::open(flags).ok()?;
        let loaded = opened.load(&magic::cookie::DatabasePaths::default()).ok()?;
        Some(MimeSniffer { cookie: loaded })
    }

    /// Relies on `magic::cookie::Cookie::file`: the MIME string for the file
    /// at `path`, or the empty string where sniffing fails. The answer
    /// depends on the file on disk, so nothing is stated of it. `file` turns
    /// the path into a C string and panics on an interior NUL, so such paths
    /// are excluded.
    #[verifier::external_body]
    pub(crate) fn mime_of(&self, path: &str) -> String
        requires
            nul_free(path@),
    {
        self.cookie.file(path).unwrap_or_default()
    }
}

} // verus!
