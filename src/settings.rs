//! Replication settings and the remote endpoint derived from them.
use vstd::prelude::*;
use crate::text::{has_prefix, is_white_space, is_white_space_char, text_eq};

verus! {

/// Where and how to replicate. `sync_mode` is `"local"` (no replication),
/// `"selfhosted"` or `"cloud"`.
#[derive(Clone, Debug, Default)]
pub struct SyncSettings {
    pub sync_mode: String,
    pub sync_url: String,
    pub sync_username: String,
    pub sync_password: String,
    pub sync_db_name: String,
}

/// The remote collection to replicate with, and the credentials for it.
#[derive(Clone, Debug)]
pub struct RemoteTarget {
    pub db_url: String,
    pub auth: Option<(String, String)>,
}

pub open spec fn is_local_mode(mode: Seq<char>) -> bool {
    mode == "local"@
}

/// A URL with an `http://` or `https://` scheme is kept; any other gets
/// `http://` in front.
pub open spec fn normalized_url(url: Seq<char>) -> Seq<char> {
    if (7 <= url.len() && url.take(7) == "http://"@) || (8 <= url.len() && url.take(8)
        == "https://"@) {
        url
    } else {
        "http://"@ + url
    }
}

/// Length of the `http://` or `https://` scheme that `url` begins with, or 0.
pub open spec fn scheme_len(url: Seq<char>) -> int {
    if 7 <= url.len() && url.take(7) == "http://"@ {
        7
    } else if 8 <= url.len() && url.take(8) == "https://"@ {
        8
    } else {
        0
    }
}

/// A usable sync URL: no white space anywhere, and a host (neither `/` nor
/// `:` first) right after the scheme, if there is one.
pub open spec fn is_valid_sync_url(url: Seq<char>) -> bool {
    &&& scheme_len(url) < url.len()
    &&& url[scheme_len(url)] != '/'
    &&& url[scheme_len(url)] != ':'
    &&& forall|k: int| 0 <= k < url.len() ==> !is_white_space(#[trigger] url[k])
}

/// Whether `url` is a usable sync URL.
pub fn valid_sync_url(url: &str) -> (r: bool)
    ensures
        r == is_valid_sync_url(url@),
{
    proof {
        reveal_strlit("http://");
        reveal_strlit("https://");
    }
    let start: usize = if has_prefix(url, "http://") {
        7
    } else if has_prefix(url, "https://") {
        8
    } else {
        0
    };
    let n = url.unicode_len();
    if start >= n {
        return false;
    }
    let first = url.get_char(start);
    if first == '/' || first == ':' {
        return false;
    }
    let mut i: usize = 0;
    while i < n
        invariant
            n == url@.len(),
            i <= n,
            forall|k: int| 0 <= k < i ==> !is_white_space(#[trigger] url@[k]),
        decreases n - i,
    {
        if is_white_space_char(url.get_char(i)) {
            return false;
        }
        i = i + 1;
    }
    true
}

impl SyncSettings {
    /// Local-only mode, with a local server filled in for when replication is
    /// switched on.
    pub fn default_settings() -> (r: SyncSettings)
        ensures
            r.sync_mode@ == "local"@,
            r.sync_url@ == "localhost:5984"@,
            r.sync_username@ == "admin"@,
            r.sync_password@ == "admin"@,
            r.sync_db_name@ == "tasks_db"@,
    {
        SyncSettings {
            sync_mode: String::from_str("local"),
            sync_url: String::from_str("localhost:5984"),
            sync_username: String::from_str("admin"),
            sync_password: String::from_str("admin"),
            sync_db_name: String::from_str("tasks_db"),
        }
    }

    /// Replication is on in every mode but `"local"`.
    pub fn is_sync_enabled(&self) -> (r: bool)
        ensures
            r == !is_local_mode(self.sync_mode@),
    {
        !text_eq(self.sync_mode.as_str(), "local")
    }

    /// The collection URL `<normalized url>/<db name>`, with credentials only
    /// when both user name and password are given.
    pub fn remote_target(&self) -> (r: RemoteTarget)
        ensures
            r.db_url@ == normalized_url(self.sync_url@) + "/"@ + self.sync_db_name@,
            self.sync_username@.len() > 0 && self.sync_password@.len() > 0 ==> (r.auth matches Some(
                a,
            ) && a.0@ == self.sync_username@ && a.1@ == self.sync_password@),
            !(self.sync_username@.len() > 0 && self.sync_password@.len() > 0) ==> r.auth.is_none(),
    {
        let mut db_url = normalize_url(self.sync_url.as_str());
        proof { reveal_strlit("/"); }
        db_url.append("/");
        db_url.append(self.sync_db_name.as_str());
        let auth = if self.sync_username.as_str().unicode_len() > 0
            && self.sync_password.as_str().unicode_len() > 0 {
            Some((self.sync_username.clone(), self.sync_password.clone()))
        } else {
            None
        };
        RemoteTarget { db_url, auth }
    }
}

/// Adds `http://` to a URL that has neither `http://` nor `https://`.
pub fn normalize_url(url: &str) -> (r: String)
    ensures
        r@ == normalized_url(url@),
{
    proof {
        reveal_strlit("http://");
        reveal_strlit("https://");
    }
    if has_prefix(url, "http://") || has_prefix(url, "https://") {
        String::from_str(url)
    } else {
        let mut r = String::from_str("http://");
        r.append(url);
        r
    }
}

} // verus!
