//! The content-source capability: locate a resource by URL with a preference
//! for a pre-compressed sibling, and the selection rule itself.
use vstd::prelude::*;
use crate::time::MAX_FORMAT_TS;

verus! {

/// What the serving rules read of a located resource: its byte length, its
/// last modification as a UTC timestamp, and whether its payload is gzipped.
#[derive(Debug, Clone, Copy, PartialEq, Eq, Structural)]
pub struct HandleInfo {
    pub content_length: u64,
    pub mod_timestamp: i64,
    pub gzipped: bool,
}

impl HandleInfo {
    /// The timestamp lies in the range an RFC 2822 date can carry.
    pub open spec fn wf(self) -> bool {
        0 <= self.mod_timestamp <= MAX_FORMAT_TS
    }

    /// Whether the resource is at least as old as the instant `other_ts`.
    pub fn is_older_or_equal(&self, other_ts: i64) -> (r: bool)
        ensures
            r == (other_ts >= self.mod_timestamp),
    {
        other_ts >= self.mod_timestamp
    }
}

/// A located resource: the metadata the serving rules read, and a single-use
/// stream of its bytes, which stays with the implementor.
pub trait ContentHandle {
    /// The resource's byte length.
    fn content_length(&self) -> u64;

    /// The resource's last modification, as a UTC timestamp.
    fn mod_time(&self) -> i64;

    /// Whether the payload is gzip-encoded.
    fn is_gzipped(&self) -> bool;

    /// Whether the resource is at least as old as the instant `other_ts`.
    fn is_mod_since(&self, other_ts: i64) -> bool;
}

/// A source of content: resolves a URL, preferring a gzipped variant when
/// the client accepts one.
pub trait ContentManager<H: ContentHandle> {
    /// The resource `url` names, or `None` where there is none.
    fn find_content(&self, url: &String, accepts_gzip: bool) -> Option<H>;
}

/// A content source rooted at a directory: URLs resolve beneath the root,
/// and a sibling file with a `.gz` suffix is the pre-compressed variant.
pub struct FileSystemAdapter {
    root: String,
}

impl FileSystemAdapter {
    /// A source serving files beneath `root`.
    pub fn new(root: &str) -> (r: FileSystemAdapter)
        ensures
            r.root_path() == root@,
    {
        FileSystemAdapter { root: root.to_owned() }
    }

    /// The configured root directory.
    pub closed spec fn root_path(self) -> Seq<char> {
        self.root@
    }

    /// The path a URL resolves to: one leading slash stripped, then joined
    /// beneath the root.
    pub fn resolve_path(&self, url: &String) -> (r: String)
        ensures
            r@ == self.root_path() + "/"@ + (if url@.len() > 0 && url@[0] == '/' {
                url@.subrange(1, url@.len() as int)
            } else {
                url@
            }),
    {
        let s = url.as_str();
        let len = s.unicode_len();
        let relative: String = if len > 0 && s.get_char(0) == '/' {
            s.substring_char(1, len).to_owned()
        } else {
            s.to_owned()
        };
        let mut out = self.root.clone();
        out.append("/");
        out.append(relative.as_str());
        out
    }

    /// The sibling path where the pre-compressed variant of `path` lives.
    pub fn gz_path(&self, path: &String) -> (r: String)
        ensures
            r@ == path@ + ".gz"@,
    {
        let mut out = path.clone();
        out.append(".gz");
        out
    }
}

/// The variant-selection rule. `plain` carries the plain file's modification
/// timestamp and byte length, if it exists; `gz_len` the gzipped sibling's
/// byte length, if it exists. The gzipped variant is served only to a client
/// that accepts it, and always reports the plain file's timestamp with the
/// gzipped file's length; without the plain file there is no content at all.
pub fn select_variant(accepts_gzip: bool, plain: Option<(i64, u64)>, gz_len: Option<u64>) -> (r:
    Option<HandleInfo>)
    ensures
        match (plain, gz_len) {
            (None, _) => r is None,
            (Some(p), Some(gl)) => if accepts_gzip {
                r == Some(HandleInfo { content_length: gl, mod_timestamp: p.0, gzipped: true })
            } else {
                r == Some(HandleInfo { content_length: p.1, mod_timestamp: p.0, gzipped: false })
            },
            (Some(p), None) => r == Some(
                HandleInfo { content_length: p.1, mod_timestamp: p.0, gzipped: false },
            ),
        },
{
    match plain {
        None => None,
        Some((mod_ts, raw_len)) => {
            if accepts_gzip {
                match gz_len {
                    Some(gzipped_len) => {
                        return Some(
                            HandleInfo {
                                content_length: gzipped_len,
                                mod_timestamp: mod_ts,
                                gzipped: true,
                            },
                        );
                    },
                    None => {},
                }
            }
            Some(HandleInfo { content_length: raw_len, mod_timestamp: mod_ts, gzipped: false })
        },
    }
}

} // verus!
