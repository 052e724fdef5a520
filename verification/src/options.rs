//! Connection options: how a logical database URL plus the host-provided
//! storage directory becomes the concrete connection string the engine is
//! given.
//!
//! The directory itself is created by the embedding layer (an idempotent side
//! effect); this core performs the pure resolution.

use vstd::prelude::*;
use crate::error::Error;

verus! {

use vstd::string::StrSliceExecFns;
use vstd::string::StringExecFns;

/// Startup configuration: the database identifiers to pre-load before any
/// call is accepted.
#[derive(Debug, Clone)]
pub struct PluginConfig {
    /// The identifiers to load at startup, in order.
    pub preload: Vec<String>,
}

impl Default for PluginConfig {
    /// A configuration that pre-loads nothing.
    fn default() -> (r: PluginConfig)
        ensures
            r.preload@.len() == 0,
    {
        PluginConfig { preload: Vec::new() }
    }
}

/// The options a caller supplies to load one database: its logical URL and
/// the engine extensions to load at connect time.
#[derive(Debug, Clone)]
pub struct ConnectOptions {
    /// The logical connection URL; also the identifier of the loaded pool.
    pub db_url: String,
    extensions: Option<Vec<String>>,
}

impl ConnectOptions {
    /// The logical URL, as a sequence of characters.
    pub closed spec fn spec_db_url(&self) -> Seq<char> {
        self.db_url@
    }

    /// The names of the engine extensions to load, if any were requested.
    pub closed spec fn spec_extensions(&self) -> Option<Seq<Seq<char>>> {
        match &self.extensions {
            Some(v) => Some(v.deep_view()),
            None => None,
        }
    }

    /// Options for a URL alone, with no engine extensions.
    pub fn from_url(db_url: String) -> (r: ConnectOptions)
        ensures
            r.spec_db_url() == db_url@,
            r.spec_extensions() is None,
    {
        ConnectOptions { db_url, extensions: None }
    }

    /// Options for a URL together with engine extensions to load.
    pub fn new(db_url: String, extensions: Option<Vec<String>>) -> (r: ConnectOptions)
        ensures
            r.spec_db_url() == db_url@,
            r.spec_extensions() == extensions.deep_view(),
    {
        ConnectOptions { db_url, extensions }
    }

    /// The requested engine extensions, for the layer that opens the
    /// connection.
    pub fn extensions(&self) -> (r: &Option<Vec<String>>)
        ensures
            r.deep_view() == self.spec_extensions(),
    {
        &self.extensions
    }
}

/// There is a colon at position `i` of `s` and none before it.
pub open spec fn first_colon_at(s: Seq<char>, i: int) -> bool {
    &&& 0 <= i < s.len()
    &&& s[i] == ':'
    &&& forall|j: int| 0 <= j < i ==> s[j] != ':'
}

/// The URL has a scheme separator at all.
pub open spec fn has_colon(s: Seq<char>) -> bool {
    exists|i: int| 0 <= i < s.len() && s[i] == ':'
}

/// A path fragment joined onto a directory with exactly one separator between
/// them.
pub open spec fn spec_joined(dir: Seq<char>, rel: Seq<char>) -> Seq<char> {
    if dir.len() > 0 && dir.last() == '/' {
        dir + rel
    } else {
        dir + "/"@ + rel
    }
}

/// The concrete connection string for a storage directory and the fragment
/// after the first colon of the logical URL.
pub open spec fn spec_mapped(dir: Seq<char>, conn: Seq<char>, i: int) -> Seq<char> {
    "sqlite:"@ + spec_joined(dir, conn.subrange(i + 1, conn.len() as int))
}

/// The position of the first colon of a string, if it has one.
fn find_colon(s: &str) -> (r: Option<usize>)
    ensures
        match r {
            Some(i) => first_colon_at(s@, i as int),
            None => !has_colon(s@),
        },
{
    let n = s.unicode_len();
    let mut i: usize = 0;
    while i < n
        invariant
            n == s@.len(),
            0 <= i <= n,
            forall|j: int| 0 <= j < i ==> s@[j] != ':',
        decreases n - i,
    {
        if s.get_char(i) == ':' {
            return Some(i);
        }
        i = i + 1;
    }
    None
}

/// Splits the logical connection string at its first colon and joins the path
/// fragment after it onto the storage directory, giving the concrete,
/// directory-scoped connection string. A connection string without a colon is
/// rejected as `InvalidDbUrl`.
pub fn path_mapper(app_path: &str, connection_string: &str) -> (r: Result<String, Error>)
    ensures
        forall|i: int|
            first_colon_at(connection_string@, i) ==> (r matches Ok(s) && s@ == spec_mapped(
                app_path@,
                connection_string@,
                i,
            )),
        !has_colon(connection_string@) ==> (r matches Err(e) && e matches Error::InvalidDbUrl(s)
            && s@ == connection_string@),
{
    match find_colon(connection_string) {
        Some(i) => {
            let n = connection_string.unicode_len();
            let fragment = connection_string.substring_char(i + 1, n);
            let mut out = String::from_str("sqlite:");
            out.append(app_path);
            let dlen = app_path.unicode_len();
            if !(dlen > 0 && app_path.get_char(dlen - 1) == '/') {
                out.append("/");
            }
            out.append(fragment);
            proof {
                assert forall|j: int| first_colon_at(connection_string@, j) implies j == i by {
                    if j < i {
                        assert(connection_string@[j] != ':');
                    } else if i < j {
                        assert(connection_string@[i as int] != ':');
                    }
                }
                assert(out@ =~= spec_mapped(app_path@, connection_string@, i as int));
            }
            Ok(out)
        },
        None => Err(Error::InvalidDbUrl(connection_string.to_owned())),
    }
}

} // verus!
