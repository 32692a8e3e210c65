use vstd::prelude::*;

use crate::paths::{join_chars, parent_of, path_join, path_parent};
use crate::text::{append_chars, append_str, chars_of, copy_string, string_from_chars};

verus! {

/// Name of the per-directory sidecar file (`.mm.json`).
pub open spec fn sidecar_filename() -> Seq<char> {
    seq!['.', 'm', 'm', '.', 'j', 's', 'o', 'n']
}

pub fn sidecar_filename_chars() -> (r: Vec<char>)
    ensures
        r@ == sidecar_filename(),
{
    let mut r: Vec<char> = Vec::new();
    r.push('.');
    r.push('m');
    r.push('m');
    r.push('.');
    r.push('j');
    r.push('s');
    r.push('o');
    r.push('n');
    assert(r@ =~= sidecar_filename());
    r
}

#[derive(Debug)]
pub enum SidecarStoreError {
    InvalidPath(String),
    ReadFailed(String),
    DecodeFailed(String),
    EncodeFailed(String),
    WriteFailed(String),
}

impl SidecarStoreError {
    /// The error's message text.
    pub fn message(&self) -> (r: String)
        ensures
            r@ == store_error_message(*self),
    {
        let mut v: Vec<char> = Vec::new();
        match self {
            SidecarStoreError::InvalidPath(d) => {
                append_str(&mut v, "invalid media path: ");
                append_str(&mut v, d.as_str());
            },
            SidecarStoreError::ReadFailed(d) => {
                append_str(&mut v, "failed to read sidecar: ");
                append_str(&mut v, d.as_str());
            },
            SidecarStoreError::DecodeFailed(d) => {
                append_str(&mut v, "failed to deserialize sidecar: ");
                append_str(&mut v, d.as_str());
            },
            SidecarStoreError::EncodeFailed(d) => {
                append_str(&mut v, "failed to serialize sidecar: ");
                append_str(&mut v, d.as_str());
            },
            SidecarStoreError::WriteFailed(d) => {
                append_str(&mut v, "failed to write sidecar: ");
                append_str(&mut v, d.as_str());
            },
        }
        string_from_chars(&v)
    }
}

pub open spec fn store_error_message(e: SidecarStoreError) -> Seq<char> {
    match e {
        SidecarStoreError::InvalidPath(d) => "invalid media path: "@ + d@,
        SidecarStoreError::ReadFailed(d) => "failed to read sidecar: "@ + d@,
        SidecarStoreError::DecodeFailed(d) => "failed to deserialize sidecar: "@ + d@,
        SidecarStoreError::EncodeFailed(d) => "failed to serialize sidecar: "@ + d@,
        SidecarStoreError::WriteFailed(d) => "failed to write sidecar: "@ + d@,
    }
}

/// Where the sidecar for a media path lives: inside the directory when the
/// path is a directory, otherwise beside the file in its parent directory.
pub open spec fn spec_sidecar_path(media_path: Seq<char>, is_dir: bool) -> Option<Seq<char>> {
    if media_path.len() == 0 {
        None
    } else if is_dir {
        Some(path_join(media_path, sidecar_filename()))
    } else {
        match path_parent(media_path) {
            Some(parent) => Some(path_join(parent, sidecar_filename())),
            None => None,
        }
    }
}

/// The sidecar path for `media_path`; `is_dir` tells whether the path names
/// a directory on disk.  An empty path, or one without a parent, is refused.
pub fn sidecar_path_for_media(media_path: &str, is_dir: bool) -> (r: Result<
    String,
    SidecarStoreError,
>)
    ensures
        match r {
            Ok(p) => spec_sidecar_path(media_path@, is_dir) == Some(p@),
            Err(e) => spec_sidecar_path(media_path@, is_dir) is None && e is InvalidPath,
        },
        media_path@.len() == 0 ==> (r matches Err(SidecarStoreError::InvalidPath(m)) && m@
            == "empty path"@),
{
    let p = chars_of(media_path);
    if p.len() == 0 {
        return Err(SidecarStoreError::InvalidPath(crate::text::owned("empty path")));
    }
    let name = sidecar_filename_chars();
    if is_dir {
        let joined = join_chars(&p, &name);
        return Ok(string_from_chars(&joined));
    }
    match parent_of(&p) {
        Some(parent) => {
            let joined = join_chars(&parent, &name);
            Ok(string_from_chars(&joined))
        },
        None => {
            let mut m: Vec<char> = Vec::new();
            append_str(&mut m, "cannot resolve parent for ");
            append_chars(&mut m, &p);
            Err(SidecarStoreError::InvalidPath(string_from_chars(&m)))
        },
    }
}

} // verus!
