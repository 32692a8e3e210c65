use vstd::prelude::*;

use crate::text::{copy_string, str_eq};

verus! {

#[derive(Debug, Clone, Copy, PartialEq, Eq, Structural)]
pub enum OperationKind {
    ScanSummary,
    LibraryBrowse,
    JobControl,
    SidecarRead,
    SidecarUpsert,
}

/// The code under which a kind of operation is stored.
pub open spec fn kind_code(k: OperationKind) -> Seq<char> {
    match k {
        OperationKind::ScanSummary => "scan_summary"@,
        OperationKind::LibraryBrowse => "library_browse"@,
        OperationKind::JobControl => "job_control"@,
        OperationKind::SidecarRead => "sidecar_read"@,
        OperationKind::SidecarUpsert => "sidecar_upsert"@,
    }
}

/// The kind a stored code stands for; unknown codes read as `SidecarRead`.
pub open spec fn kind_from_code(code: Seq<char>) -> OperationKind {
    if code == "scan_summary"@ {
        OperationKind::ScanSummary
    } else if code == "library_browse"@ {
        OperationKind::LibraryBrowse
    } else if code == "job_control"@ {
        OperationKind::JobControl
    } else if code == "sidecar_read"@ {
        OperationKind::SidecarRead
    } else if code == "sidecar_upsert"@ {
        OperationKind::SidecarUpsert
    } else {
        OperationKind::SidecarRead
    }
}

impl OperationKind {
    pub fn as_str(&self) -> (r: &'static str)
        ensures
            r@ == kind_code(*self),
    {
        match self {
            OperationKind::ScanSummary => "scan_summary",
            OperationKind::LibraryBrowse => "library_browse",
            OperationKind::JobControl => "job_control",
            OperationKind::SidecarRead => "sidecar_read",
            OperationKind::SidecarUpsert => "sidecar_upsert",
        }
    }

    pub fn from_db_str(value: &str) -> (r: Self)
        ensures
            r == kind_from_code(value@),
    {
        if str_eq(value, "scan_summary") {
            OperationKind::ScanSummary
        } else if str_eq(value, "library_browse") {
            OperationKind::LibraryBrowse
        } else if str_eq(value, "job_control") {
            OperationKind::JobControl
        } else if str_eq(value, "sidecar_read") {
            OperationKind::SidecarRead
        } else if str_eq(value, "sidecar_upsert") {
            OperationKind::SidecarUpsert
        } else {
            OperationKind::SidecarRead
        }
    }
}

/// Every kind of operation reads back as itself from its stored code.
pub proof fn lemma_kind_code_roundtrip(k: OperationKind)
    ensures
        kind_from_code(kind_code(k)) == k,
{
    reveal_strlit("scan_summary");
    reveal_strlit("library_browse");
    reveal_strlit("job_control");
    reveal_strlit("sidecar_read");
    reveal_strlit("sidecar_upsert");
    let a = "scan_summary"@;
    let b = "library_browse"@;
    let c = "job_control"@;
    let d = "sidecar_read"@;
    assert(a.len() == 12 && b.len() == 14 && c.len() == 11 && d.len() == 12);
    assert(a[1] == 'c' && d[1] == 'i');
    assert(a != b && a != c && a != d && b != c && b != d && c != d);
    assert(b != "sidecar_upsert"@) by {
        assert(b[0] != "sidecar_upsert"@[0]);
    }
    assert(d != "sidecar_upsert"@);
    assert(c != "sidecar_upsert"@);
    assert(a != "sidecar_upsert"@);
}

#[derive(Debug)]
pub struct OperationEvent {
    pub timestamp_ms: u128,
    pub kind: OperationKind,
    pub detail: String,
    pub success: bool,
}

pub ghost struct OperationEventView {
    pub timestamp_ms: u128,
    pub kind: OperationKind,
    pub detail: Seq<char>,
    pub success: bool,
}

impl View for OperationEvent {
    type V = OperationEventView;

    open spec fn view(&self) -> OperationEventView {
        OperationEventView {
            timestamp_ms: self.timestamp_ms,
            kind: self.kind,
            detail: self.detail@,
            success: self.success,
        }
    }
}

impl OperationEvent {
    pub fn copy(&self) -> (r: Self)
        ensures
            r@ == self@,
    {
        OperationEvent {
            timestamp_ms: self.timestamp_ms,
            kind: self.kind,
            detail: copy_string(&self.detail),
            success: self.success,
        }
    }
}

/// How many events the in-memory log keeps.
pub const MAX_EVENTS: usize = 500;

#[verifier::external_type_specification]
#[verifier::external_body]
pub struct ExSystemTime(std::time::SystemTime);

#[verifier::external_type_specification]
#[verifier::external_body]
pub struct ExSystemTimeError(std::time::SystemTimeError);

/// `SystemTime::now`: the clock's current reading.  The clock is outside
/// the program: nothing is claimed of it.
#[verifier::external_body]
fn system_now() -> (r: std::time::SystemTime) {
    std::time::SystemTime::now()
}

/// `SystemTime::duration_since(UNIX_EPOCH)`: how long after the Unix epoch
/// the reading lies, or an error for a reading before it.  Nothing is
/// claimed of the value.
#[verifier::external_body]
fn since_epoch(t: std::time::SystemTime) -> (r: Result<core::time::Duration, std::time::SystemTimeError>) {
    t.duration_since(std::time::UNIX_EPOCH)
}

/// `Duration::as_millis`: the whole milliseconds of a duration.  Durations
/// are opaque here: nothing is claimed of the value.
#[verifier::external_body]
fn duration_millis(d: core::time::Duration) -> (r: u128) {
    d.as_millis()
}

/// Milliseconds since the Unix epoch by the clock, 0 for a clock set before it.
fn now_ms() -> (r: u128) {
    match since_epoch(system_now()) {
        Ok(d) => duration_millis(d),
        Err(_) => 0,
    }
}

/// The in-memory log of recent operations, oldest first, holding at most
/// `MAX_EVENTS` events.
pub struct OperationLog {
    events: Vec<OperationEvent>,
}

impl View for OperationLog {
    type V = Seq<OperationEventView>;

    closed spec fn view(&self) -> Seq<OperationEventView> {
        self.events@.map_values(|e: OperationEvent| e@)
    }
}

impl OperationLog {
    #[verifier::type_invariant]
    spec fn bounded(self) -> bool {
        self.events.len() <= MAX_EVENTS
    }

    pub fn new() -> (r: Self)
        ensures
            r@ == Seq::<OperationEventView>::empty(),
    {
        let r = OperationLog { events: Vec::new() };
        assert(r@ =~= Seq::<OperationEventView>::empty());
        r
    }

    /// Number of events held.
    pub fn len(&self) -> (n: usize)
        ensures
            n == self@.len(),
            n <= MAX_EVENTS,
    {
        proof {
            use_type_invariant(self);
        }
        self.events.len()
    }

    /// Records an event stamped with the current time, dropping the oldest
    /// event when the log is full.
    pub fn push(&mut self, kind: OperationKind, detail: String, success: bool)
        ensures
            ({
                let kept = if old(self)@.len() >= MAX_EVENTS {
                    old(self)@.drop_first()
                } else {
                    old(self)@
                };
                &&& final(self)@.len() == kept.len() + 1
                &&& final(self)@.drop_last() == kept
                &&& final(self)@.last().kind == kind
                &&& final(self)@.last().detail == detail@
                &&& final(self)@.last().success == success
            }),
            final(self)@.len() <= MAX_EVENTS,
    {
        proof {
            use_type_invariant(&*self);
        }
        let ghost before = self@;
        let event = OperationEvent { timestamp_ms: now_ms(), kind, detail, success };
        let mut events = Vec::new();
        std::mem::swap(&mut events, &mut self.events);
        if events.len() >= MAX_EVENTS {
            events.remove(0);
            assert(events@.map_values(|e: OperationEvent| e@) =~= before.drop_first());
        }
        let ghost kept = events@.map_values(|e: OperationEvent| e@);
        events.push(event);
        assert(events@.map_values(|e: OperationEvent| e@).drop_last() =~= kept);
        self.events = events;
    }

    /// The newest `limit` events (all of them when fewer), newest first.
    pub fn recent(&self, limit: usize) -> (r: Vec<OperationEvent>)
        ensures
            r@.len() == if limit < self@.len() {
                limit as int
            } else {
                self@.len() as int
            },
            forall|i: int| 0 <= i < r@.len() ==> #[trigger] r@[i]@ == self@[self@.len() - 1 - i],
    {
        proof {
            use_type_invariant(self);
        }
        let n = self.events.len();
        let take = if limit < n {
            limit
        } else {
            n
        };
        let mut r: Vec<OperationEvent> = Vec::new();
        let mut i: usize = 0;
        while i < take
            invariant
                take <= n == self.events.len(),
                n == self@.len(),
                i <= take,
                r.len() == i,
                forall|k: int| 0 <= k < i ==> #[trigger] r@[k]@ == self@[n - 1 - k],
            decreases take - i,
        {
            r.push(self.events[n - 1 - i].copy());
            i += 1;
        }
        r
    }
}

} // verus!
