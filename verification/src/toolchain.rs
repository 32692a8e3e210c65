use vstd::prelude::*;

use crate::text::{copy_string, owned};

verus! {

/// Whether a probed binary ran and reported success.
#[derive(Debug, Clone, Copy, PartialEq, Eq, Structural)]
pub enum ProbeStatus {
    Available,
    Unavailable,
}

/// A binary located for a command, with what probing it showed.
#[derive(Debug)]
pub struct ResolvedBinary {
    pub command_name: String,
    pub path: String,
    pub version_output: Option<String>,
    pub status: ProbeStatus,
}

/// The media tools the service runs.
#[derive(Debug)]
pub struct ToolchainSnapshot {
    pub ffmpeg: ResolvedBinary,
    pub ffprobe: ResolvedBinary,
    pub mediainfo: Option<ResolvedBinary>,
}

/// A required tool could not be found.
#[derive(Debug)]
pub enum ToolchainError {
    RequiredBinaryMissing(String),
}

impl ToolchainError {
    /// "required binary not found: <name>".
    pub fn message(&self) -> (r: String)
        ensures
            match self {
                ToolchainError::RequiredBinaryMissing(n) => r@ == "required binary not found: "@
                    + n@,
            },
    {
        match self {
            ToolchainError::RequiredBinaryMissing(n) => {
                let mut v = crate::text::chars_of("required binary not found: ");
                crate::text::append_str(&mut v, n.as_str());
                crate::text::string_from_chars(&v)
            },
        }
    }
}

/// The first located candidate, in the order the candidates were tried.
pub open spec fn first_located(located: Seq<Option<String>>) -> Option<String>
    decreases located.len(),
{
    if located.len() == 0 {
        None
    } else {
        match located[0] {
            Some(p) => Some(p),
            None => first_located(located.drop_first()),
        }
    }
}

/// Which path a command resolves to: the configured path when there is one,
/// else the first candidate found on the search path (`located` holds what
/// the search gave for each candidate, in order).
pub fn choose_binary_path(explicit_path: &Option<String>, located: &Vec<Option<String>>) -> (r:
    Option<String>)
    ensures
        match explicit_path {
            Some(p) => r matches Some(q) && q@ == p@,
            None => match first_located(located@) {
                Some(p) => r matches Some(q) && q@ == p@,
                None => r is None,
            },
        },
{
    if let Some(p) = explicit_path {
        return Some(copy_string(p));
    }
    let mut i: usize = 0;
    assert(located@.skip(0) =~= located@);
    while i < located.len()
        invariant
            i <= located.len(),
            explicit_path is None,
            first_located(located@) == first_located(located@.skip(i as int)),
        decreases located.len() - i,
    {
        assert(located@.skip(i as int).drop_first() =~= located@.skip(i + 1));
        assert(located@.skip(i as int)[0] == located@[i as int]);
        if let Some(p) = &located[i] {
            return Some(copy_string(p));
        }
        i += 1;
    }
    assert(located@.skip(i as int).len() == 0);
    None
}

/// What running "<binary> -version" gave: `None` when it could not be
/// started, else whether it exited successfully and its first output line.
pub struct VersionProbe {
    pub exited_ok: bool,
    pub first_line: Option<String>,
}

pub open spec fn opt_text(o: Option<String>) -> Option<Seq<char>> {
    match o {
        Some(s) => Some(s@),
        None => None,
    }
}

/// `probe_path`: the binary is available when it ran and exited successfully.
pub fn resolved_binary(command_name: &str, path: &str, probe: Option<VersionProbe>) -> (r:
    ResolvedBinary)
    ensures
        r.command_name@ == command_name@,
        r.path@ == path@,
        match probe {
            None => r.version_output is None && r.status == ProbeStatus::Unavailable,
            Some(p) => opt_text(r.version_output) == opt_text(p.first_line) && (r.status
                == ProbeStatus::Available <==> p.exited_ok),
        },
{
    match probe {
        None => ResolvedBinary {
            command_name: owned(command_name),
            path: owned(path),
            version_output: None,
            status: ProbeStatus::Unavailable,
        },
        Some(p) => ResolvedBinary {
            command_name: owned(command_name),
            path: owned(path),
            version_output: p.first_line,
            status: if p.exited_ok {
                ProbeStatus::Available
            } else {
                ProbeStatus::Unavailable
            },
        },
    }
}

/// `probe_toolchain`: ffmpeg and ffprobe are required (ffmpeg reported
/// first when both are missing); mediainfo is optional.
pub fn probe_toolchain(
    ffmpeg: Option<ResolvedBinary>,
    ffprobe: Option<ResolvedBinary>,
    mediainfo: Option<ResolvedBinary>,
) -> (r: Result<ToolchainSnapshot, ToolchainError>)
    ensures
        ffmpeg is None ==> (r matches Err(ToolchainError::RequiredBinaryMissing(n)) && n@
            == "ffmpeg"@),
        ffmpeg is Some && ffprobe is None ==> (r matches Err(
            ToolchainError::RequiredBinaryMissing(n),
        ) && n@ == "ffprobe"@),
        ffmpeg is Some && ffprobe is Some ==> (r matches Ok(t) && Some(t.ffmpeg) == ffmpeg && Some(
            t.ffprobe,
        ) == ffprobe && t.mediainfo == mediainfo),
{
    let f = match ffmpeg {
        Some(b) => b,
        None => {
            return Err(ToolchainError::RequiredBinaryMissing(owned("ffmpeg")));
        },
    };
    let p = match ffprobe {
        Some(b) => b,
        None => {
            return Err(ToolchainError::RequiredBinaryMissing(owned("ffprobe")));
        },
    };
    Ok(ToolchainSnapshot { ffmpeg: f, ffprobe: p, mediainfo })
}

} // verus!
