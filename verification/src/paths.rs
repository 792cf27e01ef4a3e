//! The XDG base directories the library keeps its files under, and the
//! locations derived from them. Discovering the directories from the
//! environment and creating them happen at the application edge.
use vstd::prelude::*;
use crate::text::{chars_of, push_str, string_of};

verus! {

/// Resolved XDG base directories.
#[derive(Debug, Clone)]
pub struct ArcadiaPaths {
    /// `$XDG_CONFIG_HOME/arcadia`
    pub config_dir: String,
    /// `$XDG_DATA_HOME/arcadia`: database, metadata cache, save backups.
    pub data_dir: String,
    /// `$XDG_CACHE_HOME/arcadia`: artwork and thumbnails (safe to delete).
    pub cache_dir: String,
    /// `$XDG_STATE_HOME/arcadia`: logs.
    pub state_dir: String,
}

/// `PathBuf::join` with a relative name: a separator is added unless the base
/// is empty or already ends in one.
pub open spec fn join_rel(base: Seq<char>, name: Seq<char>) -> Seq<char> {
    if base.len() == 0 || base.last() == '/' {
        base + name
    } else {
        base + "/"@ + name
    }
}

/// Join a relative name onto a directory.
pub fn join_path(base: &str, name: &str) -> (r: String)
    ensures
        r@ == join_rel(base@, name@),
{
    let mut out = chars_of(base);
    if out.len() > 0 && out[out.len() - 1] != '/' {
        push_str(&mut out, "/");
    }
    push_str(&mut out, name);
    string_of(&out)
}

impl ArcadiaPaths {
    pub fn database_path(&self) -> (r: String)
        ensures
            r@ == join_rel(self.data_dir@, "arcadia.db"@),
    {
        join_path(self.data_dir.as_str(), "arcadia.db")
    }

    /// Where cached cover art lives.
    pub fn artwork_dir(&self) -> (r: String)
        ensures
            r@ == join_rel(self.cache_dir@, "artwork"@),
    {
        join_path(self.cache_dir.as_str(), "artwork")
    }

    /// Where imported screenshots are copied for the UI to load.
    pub fn screenshots_dir(&self) -> (r: String)
        ensures
            r@ == join_rel(self.cache_dir@, "screenshots"@),
    {
        join_path(self.cache_dir.as_str(), "screenshots")
    }

    /// Where generated multi-disc `.m3u` playlists live: cache-grade, rebuilt
    /// on demand, kept out of the user's ROM folders.
    pub fn playlists_dir(&self) -> (r: String)
        ensures
            r@ == join_rel(self.cache_dir@, "playlists"@),
    {
        join_path(self.cache_dir.as_str(), "playlists")
    }
}

} // verus!
