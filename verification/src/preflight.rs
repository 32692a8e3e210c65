use vstd::prelude::*;

use crate::api_error::{api_error, refused, ApiError, FAILED_DEPENDENCY};
use crate::naming::join_tokens;
use crate::text::{
    append_chars, append_str, chars_of, decimal, decimal_chars, join_with, owned, string_from_chars,
    views,
};
use crate::toolchain::{ProbeStatus, ToolchainSnapshot};

verus! {

/// Why a configured library root cannot be used.
#[derive(Debug)]
pub enum RootProblem {
    Missing,
    NotADirectory,
    /// Listing the directory failed, with the error's text.
    Unreadable(String),
}

/// A configured library root and what checking it found.
#[derive(Debug)]
pub struct LibraryRootStatus {
    pub display: String,
    pub problem: Option<RootProblem>,
}

/// One line of the readiness report.
#[derive(Debug)]
pub struct PreflightCheck {
    pub name: String,
    pub ok: bool,
    pub detail: String,
}

/// Whether mutating operations may run, and why.
#[derive(Debug)]
pub struct PreflightReport {
    pub ready: bool,
    pub checks: Vec<PreflightCheck>,
}

pub open spec fn check_view(c: PreflightCheck) -> (Seq<char>, bool, Seq<char>) {
    (c.name@, c.ok, c.detail@)
}

pub open spec fn reason_text(p: RootProblem) -> Seq<char> {
    match p {
        RootProblem::Missing => "missing"@,
        RootProblem::NotADirectory => "not a directory"@,
        RootProblem::Unreadable(e) => "unreadable: "@ + e@,
    }
}

/// "<root> (<reason>)" for each root that failed its check, in order.
pub open spec fn invalid_roots(roots: Seq<LibraryRootStatus>) -> Seq<Seq<char>>
    decreases roots.len(),
{
    if roots.len() == 0 {
        seq![]
    } else {
        let r = invalid_roots(roots.drop_last());
        match roots.last().problem {
            Some(p) => r.push(roots.last().display@ + " ("@ + reason_text(p) + ")"@),
            None => r,
        }
    }
}

pub open spec fn roots_check(roots: Seq<LibraryRootStatus>) -> (Seq<char>, bool, Seq<char>) {
    if roots.len() == 0 {
        ("library_roots"@, false, "MM_LIBRARY_ROOTS is empty"@)
    } else if invalid_roots(roots).len() == 0 {
        ("library_roots"@, true, decimal(roots.len()) + " root(s) configured"@)
    } else {
        ("library_roots"@, false, "invalid root(s): "@ + join_with(invalid_roots(roots), ", "@))
    }
}

pub open spec fn state_dir_check(display: Seq<char>, created: Result<(), String>) -> (
    Seq<char>,
    bool,
    Seq<char>,
) {
    match created {
        Ok(_) => ("state_dir"@, true, "writable: "@ + display),
        Err(e) => ("state_dir"@, false, "cannot create state dir "@ + display + " ("@ + e@ + ")"@),
    }
}

pub open spec fn tool_check(name: Seq<char>, status: ProbeStatus) -> (Seq<char>, bool, Seq<char>) {
    if status == ProbeStatus::Available {
        (name, true, "available"@)
    } else {
        (name, false, "unavailable"@)
    }
}

/// The checks in report order: roots, state directory, ffmpeg, ffprobe and,
/// when it was found, mediainfo.
pub open spec fn spec_preflight_checks(
    roots: Seq<LibraryRootStatus>,
    state_dir: Seq<char>,
    created: Result<(), String>,
    toolchain: ToolchainSnapshot,
) -> Seq<(Seq<char>, bool, Seq<char>)> {
    let base = seq![
        roots_check(roots),
        state_dir_check(state_dir, created),
        tool_check("ffmpeg"@, toolchain.ffmpeg.status),
        tool_check("ffprobe"@, toolchain.ffprobe.status),
    ];
    match toolchain.mediainfo {
        Some(m) => base.push(tool_check("mediainfo"@, m.status)),
        None => base,
    }
}

fn make_check(name: &str, ok: bool, detail: Vec<char>) -> (r: PreflightCheck)
    ensures
        check_view(r) == (name@, ok, detail@),
{
    PreflightCheck { name: owned(name), ok, detail: string_from_chars(&detail) }
}

fn reason_chars(p: &RootProblem) -> (r: Vec<char>)
    ensures
        r@ == reason_text(*p),
{
    match p {
        RootProblem::Missing => chars_of("missing"),
        RootProblem::NotADirectory => chars_of("not a directory"),
        RootProblem::Unreadable(e) => {
            let mut v = chars_of("unreadable: ");
            append_str(&mut v, e.as_str());
            v
        },
    }
}

fn check_library_roots(roots: &Vec<LibraryRootStatus>) -> (r: PreflightCheck)
    ensures
        check_view(r) == roots_check(roots@),
{
    if roots.len() == 0 {
        return make_check("library_roots", false, chars_of("MM_LIBRARY_ROOTS is empty"));
    }
    let mut invalid: Vec<Vec<char>> = Vec::new();
    let mut i: usize = 0;
    while i < roots.len()
        invariant
            i <= roots.len(),
            views(invalid@) == invalid_roots(roots@.take(i as int)),
        decreases roots.len() - i,
    {
        assert(roots@.take(i + 1).drop_last() =~= roots@.take(i as int));
        assert(roots@.take(i + 1).last() == roots@[i as int]);
        if let Some(p) = &roots[i].problem {
            let mut item = chars_of(roots[i].display.as_str());
            append_str(&mut item, " (");
            let reason = reason_chars(p);
            append_chars(&mut item, &reason);
            append_str(&mut item, ")");
            invalid.push(item);
            assert(views(invalid@) =~= invalid_roots(roots@.take(i + 1)));
        }
        i += 1;
    }
    assert(roots@.take(roots.len() as int) =~= roots@);
    if invalid.len() == 0 {
        let mut d = decimal_chars(roots.len() as u64);
        append_str(&mut d, " root(s) configured");
        return make_check("library_roots", true, d);
    }
    let sep = chars_of(", ");
    let joined = join_tokens(&invalid, &sep);
    let mut d = chars_of("invalid root(s): ");
    append_chars(&mut d, &joined);
    make_check("library_roots", false, d)
}

fn check_state_dir(display: &str, created: &Result<(), String>) -> (r: PreflightCheck)
    ensures
        check_view(r) == state_dir_check(display@, *created),
{
    match created {
        Ok(_) => {
            let mut d = chars_of("writable: ");
            append_str(&mut d, display);
            make_check("state_dir", true, d)
        },
        Err(e) => {
            let mut d = chars_of("cannot create state dir ");
            append_str(&mut d, display);
            append_str(&mut d, " (");
            append_str(&mut d, e.as_str());
            append_str(&mut d, ")");
            make_check("state_dir", false, d)
        },
    }
}

fn check_tool(name: &str, status: ProbeStatus) -> (r: PreflightCheck)
    ensures
        check_view(r) == tool_check(name@, status),
{
    if status == ProbeStatus::Available {
        make_check(name, true, chars_of("available"))
    } else {
        make_check(name, false, chars_of("unavailable"))
    }
}

/// `run_preflight` over what was found on disk: each library root checked,
/// whether the state directory could be created, and the probed tools.
/// The report is ready exactly when every check passed.
pub fn run_preflight(
    library_roots: &Vec<LibraryRootStatus>,
    state_dir: &str,
    state_dir_created: &Result<(), String>,
    toolchain: &ToolchainSnapshot,
) -> (r: PreflightReport)
    ensures
        r.checks@.map_values(|c: PreflightCheck| check_view(c)) == spec_preflight_checks(
            library_roots@,
            state_dir@,
            *state_dir_created,
            *toolchain,
        ),
        r.ready <==> forall|i: int| 0 <= i < r.checks@.len() ==> (#[trigger] r.checks@[i]).ok,
{
    let mut checks: Vec<PreflightCheck> = Vec::new();
    checks.push(check_library_roots(library_roots));
    checks.push(check_state_dir(state_dir, state_dir_created));
    checks.push(check_tool("ffmpeg", toolchain.ffmpeg.status));
    checks.push(check_tool("ffprobe", toolchain.ffprobe.status));
    if let Some(m) = &toolchain.mediainfo {
        checks.push(check_tool("mediainfo", m.status));
    }
    assert(checks@.map_values(|c: PreflightCheck| check_view(c)) =~= spec_preflight_checks(
        library_roots@,
        state_dir@,
        *state_dir_created,
        *toolchain,
    ));
    let mut ready = true;
    let mut i: usize = 0;
    while i < checks.len()
        invariant
            i <= checks.len(),
            ready <==> forall|j: int| 0 <= j < i ==> (#[trigger] checks@[j]).ok,
        decreases checks.len() - i,
    {
        ready = ready && checks[i].ok;
        i += 1;
    }
    PreflightReport { ready, checks }
}

/// `ensure_preflight_ready`: a mutating operation goes ahead only when the
/// report is ready, and is refused with 424 otherwise.
pub fn require_ready(report: &PreflightReport) -> (r: Result<(), ApiError>)
    ensures
        r is Ok <==> report.ready,
        !report.ready ==> refused(
            r,
            FAILED_DEPENDENCY,
            "preflight is not ready; fix diagnostics before mutating operations"@,
        ),
{
    if report.ready {
        Ok(())
    } else {
        Err(api_error(FAILED_DEPENDENCY, "preflight is not ready; fix diagnostics before mutating operations"))
    }
}


/// `validate_library_root`: a root must exist, be a directory and be
/// listable; `listing` is how listing it went (asked only of an existing
/// directory).
pub fn root_problem(exists: bool, is_dir: bool, listing: Result<(), String>) -> (r: Option<RootProblem>)
    ensures
        !exists ==> r matches Some(RootProblem::Missing),
        exists && !is_dir ==> r matches Some(RootProblem::NotADirectory),
        exists && is_dir ==> match listing {
            Ok(_) => r is None,
            Err(e) => r matches Some(RootProblem::Unreadable(m)) && m@ == e@,
        },
{
    if !exists {
        Some(RootProblem::Missing)
    } else if !is_dir {
        Some(RootProblem::NotADirectory)
    } else {
        match listing {
            Ok(_) => None,
            Err(e) => Some(RootProblem::Unreadable(e)),
        }
    }
}

} // verus!
