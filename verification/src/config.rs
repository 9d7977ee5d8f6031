//! The process-wide configuration: one optional base directory for the
//! file-transfer routes, fixed at startup and shared read-only by every
//! connection.

use vstd::prelude::*;

verus! {

/// A directory path as the configuration stores it: ending in a path
/// separator.
pub open spec fn spec_normalize_dir(d: Seq<char>) -> Seq<char> {
    if d.len() > 0 && d[d.len() - 1] == '/' {
        d
    } else {
        d + "/"@
    }
}

/// A normalized directory always ends with a path separator.
pub proof fn lemma_normalize_dir_ends_with_separator(d: Seq<char>)
    ensures
        spec_normalize_dir(d).len() > 0,
        spec_normalize_dir(d)[spec_normalize_dir(d).len() - 1] == '/',
{
    reveal_strlit("/");
    if !(d.len() > 0 && d[d.len() - 1] == '/') {
        assert((d + "/"@)[d.len() as int] == "/"@[0]);
    }
}

/// Normalizes a directory path to end with a path separator.
pub fn normalize_dir(dir: String) -> (r: String)
    ensures
        r@ == spec_normalize_dir(dir@),
{
    let n = dir.as_str().unicode_len();
    if n > 0 && dir.as_str().get_char(n - 1) == '/' {
        dir
    } else {
        let mut d = dir;
        d.append("/");
        d
    }
}

/// The configuration every connection shares: an optional base directory,
/// stored normalized and never changed after construction.
pub struct ServerConfig {
    directory: Option<String>,
}

impl ServerConfig {
    /// The configured directory, if one was given.
    pub closed spec fn spec_directory(&self) -> Option<Seq<char>> {
        match self.directory {
            Some(d) => Some(d@),
            None => None,
        }
    }

    /// Well-formedness: whatever directory is stored ends with a path
    /// separator.
    pub open spec fn wf(&self) -> bool {
        match self.spec_directory() {
            Some(d) => d.len() > 0 && d[d.len() - 1] == '/',
            None => true,
        }
    }

    /// Builds the configuration, normalizing the directory if one is
    /// given.
    pub fn new(directory: Option<String>) -> (r: ServerConfig)
        ensures
            r.wf(),
            (match directory {
                Some(d) => r.spec_directory() == Some(spec_normalize_dir(d@)),
                None => r.spec_directory() is None,
            }),
    {
        match directory {
            Some(d) => {
                let ghost given = d@;
                let normalized = normalize_dir(d);
                proof {
                    lemma_normalize_dir_ends_with_separator(given);
                }
                ServerConfig { directory: Some(normalized) }
            },
            None => ServerConfig { directory: None },
        }
    }

    /// Whether a base directory is configured, and with it the file
    /// routes enabled.
    pub fn has_directory(&self) -> (r: bool)
        ensures
            r == (self.spec_directory() is Some),
    {
        self.directory.is_some()
    }

    /// The configured directory itself.
    pub fn directory(&self) -> (r: Option<&String>)
        ensures
            (match r {
                Some(d) => self.spec_directory() == Some(d@),
                None => self.spec_directory() is None,
            }),
    {
        self.directory.as_ref()
    }
}

} // verus!
