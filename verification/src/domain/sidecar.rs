use vstd::prelude::*;

use crate::text::copy_string;

verus! {

/// Schema version written into new sidecar files.
pub const CURRENT_SCHEMA_VERSION: u32 = 1;

#[derive(Debug, Clone, Copy, PartialEq, Eq, Structural)]
pub enum ContainerFormat {
    Mkv,
    Mp4,
}

#[derive(Debug, Clone, Copy, PartialEq, Eq, Structural)]
pub enum VideoCodecPreference {
    Av1,
    Hevc,
    H264,
}

#[derive(Debug, Clone, Copy, PartialEq, Eq, Structural)]
pub enum AudioLayout {
    Stereo,
    Surround51,
    Surround71,
}

#[derive(Debug, Clone, Copy, PartialEq, Eq, Structural)]
pub struct DesiredVideoPolicy {
    pub preferred_codec: VideoCodecPreference,
    pub minimum_allowed_codec: VideoCodecPreference,
    pub allow_manual_codec_upgrade: bool,
}

impl Default for DesiredVideoPolicy {
    fn default() -> (r: Self)
        ensures
            r.preferred_codec == VideoCodecPreference::Av1,
            r.minimum_allowed_codec == VideoCodecPreference::H264,
            !r.allow_manual_codec_upgrade,
    {
        DesiredVideoPolicy {
            preferred_codec: VideoCodecPreference::Av1,
            minimum_allowed_codec: VideoCodecPreference::H264,
            allow_manual_codec_upgrade: false,
        }
    }
}

#[derive(Debug, Clone, Copy, PartialEq, Eq, Structural)]
pub struct DesiredSubtitlePolicy {
    pub keep_existing_subtitles: bool,
    pub require_text_subtitle: bool,
}

impl Default for DesiredSubtitlePolicy {
    fn default() -> (r: Self)
        ensures
            r.keep_existing_subtitles,
            !r.require_text_subtitle,
    {
        DesiredSubtitlePolicy { keep_existing_subtitles: true, require_text_subtitle: false }
    }
}

#[derive(Debug, Clone, Copy, PartialEq, Eq, Structural)]
pub struct DesiredTranscodePolicy {
    pub require_manual_approval: bool,
    pub allow_automatic_transcode: bool,
}

impl Default for DesiredTranscodePolicy {
    fn default() -> (r: Self)
        ensures
            r.require_manual_approval,
            !r.allow_automatic_transcode,
    {
        DesiredTranscodePolicy { require_manual_approval: true, allow_automatic_transcode: false }
    }
}

#[derive(Debug, Clone)]
pub struct Fingerprint {
    pub kind: String,
    pub value: String,
}

pub ghost struct FingerprintView {
    pub kind: Seq<char>,
    pub value: Seq<char>,
}

impl View for Fingerprint {
    type V = FingerprintView;

    open spec fn view(&self) -> FingerprintView {
        FingerprintView { kind: self.kind@, value: self.value@ }
    }
}

impl Fingerprint {
    pub fn copy(&self) -> (r: Self)
        ensures
            r@ == self@,
    {
        Fingerprint { kind: copy_string(&self.kind), value: copy_string(&self.value) }
    }
}

pub open spec fn opt_view(o: Option<String>) -> Option<Seq<char>> {
    match o {
        Some(s) => Some(s@),
        None => None,
    }
}

pub fn copy_opt_string(o: &Option<String>) -> (r: Option<String>)
    ensures
        opt_view(r) == opt_view(*o),
{
    match o {
        Some(s) => Some(copy_string(s)),
        None => None,
    }
}

#[derive(Debug, Clone)]
pub struct ProviderIds {
    pub tmdb: Option<String>,
    pub imdb: Option<String>,
    pub tvdb: Option<String>,
}

pub ghost struct ProviderIdsView {
    pub tmdb: Option<Seq<char>>,
    pub imdb: Option<Seq<char>>,
    pub tvdb: Option<Seq<char>>,
}

impl View for ProviderIds {
    type V = ProviderIdsView;

    open spec fn view(&self) -> ProviderIdsView {
        ProviderIdsView {
            tmdb: opt_view(self.tmdb),
            imdb: opt_view(self.imdb),
            tvdb: opt_view(self.tvdb),
        }
    }
}

impl ProviderIds {
    pub fn copy(&self) -> (r: Self)
        ensures
            r@ == self@,
    {
        ProviderIds {
            tmdb: copy_opt_string(&self.tmdb),
            imdb: copy_opt_string(&self.imdb),
            tvdb: copy_opt_string(&self.tvdb),
        }
    }
}

impl Default for ProviderIds {
    fn default() -> (r: Self)
        ensures
            r@.tmdb is None,
            r@.imdb is None,
            r@.tvdb is None,
    {
        ProviderIds { tmdb: None, imdb: None, tvdb: None }
    }
}

#[derive(Debug, Clone, Copy, PartialEq, Eq, Structural)]
pub enum NfoState {
    Unknown,
    Missing,
    Valid,
    Invalid,
}

#[derive(Debug, Clone)]
pub struct DerivedArtifact {
    pub id: String,
    pub artifact_type: String,
    pub path: String,
    pub profile_version: Option<String>,
}

pub ghost struct DerivedArtifactView {
    pub id: Seq<char>,
    pub artifact_type: Seq<char>,
    pub path: Seq<char>,
    pub profile_version: Option<Seq<char>>,
}

impl View for DerivedArtifact {
    type V = DerivedArtifactView;

    open spec fn view(&self) -> DerivedArtifactView {
        DerivedArtifactView {
            id: self.id@,
            artifact_type: self.artifact_type@,
            path: self.path@,
            profile_version: opt_view(self.profile_version),
        }
    }
}

impl DerivedArtifact {
    pub fn copy(&self) -> (r: Self)
        ensures
            r@ == self@,
    {
        DerivedArtifact {
            id: copy_string(&self.id),
            artifact_type: copy_string(&self.artifact_type),
            path: copy_string(&self.path),
            profile_version: copy_opt_string(&self.profile_version),
        }
    }
}

#[derive(Debug, Clone, Copy, PartialEq, Eq, Structural)]
pub enum ReconcileResult {
    Unknown,
    Clean,
    DriftDetected,
    NeedsManualReview,
}

#[derive(Debug, Clone, Copy, PartialEq, Eq, Structural)]
pub struct ProtectedFlags {
    pub path_protected: bool,
    pub item_protected: bool,
    pub tag_protected: bool,
}

impl Default for ProtectedFlags {
    fn default() -> (r: Self)
        ensures
            !r.path_protected,
            !r.item_protected,
            !r.tag_protected,
    {
        ProtectedFlags { path_protected: false, item_protected: false, tag_protected: false }
    }
}

/// The machine-managed per-item state stored in a `.mm.json` sidecar.
/// `preferred_policy_state` and `applied_state` hold JSON documents as text
/// (`null` when unset).
#[derive(Debug, Clone)]
pub struct SidecarState {
    pub schema_version: u32,
    pub item_uid: String,
    pub source_fingerprints: Vec<Fingerprint>,
    pub provider_ids: ProviderIds,
    pub nfo_state: NfoState,
    pub preferred_policy_state: String,
    pub applied_state: String,
    pub derived_artifacts: Vec<DerivedArtifact>,
    pub last_reconcile_result: ReconcileResult,
    pub last_operation_id: Option<String>,
    pub protected_flags: ProtectedFlags,
}

pub ghost struct SidecarStateView {
    pub schema_version: u32,
    pub item_uid: Seq<char>,
    pub source_fingerprints: Seq<FingerprintView>,
    pub provider_ids: ProviderIdsView,
    pub nfo_state: NfoState,
    pub preferred_policy_state: Seq<char>,
    pub applied_state: Seq<char>,
    pub derived_artifacts: Seq<DerivedArtifactView>,
    pub last_reconcile_result: ReconcileResult,
    pub last_operation_id: Option<Seq<char>>,
    pub protected_flags: ProtectedFlags,
}

impl View for SidecarState {
    type V = SidecarStateView;

    open spec fn view(&self) -> SidecarStateView {
        SidecarStateView {
            schema_version: self.schema_version,
            item_uid: self.item_uid@,
            source_fingerprints: self.source_fingerprints@.map_values(|f: Fingerprint| f@),
            provider_ids: self.provider_ids@,
            nfo_state: self.nfo_state,
            preferred_policy_state: self.preferred_policy_state@,
            applied_state: self.applied_state@,
            derived_artifacts: self.derived_artifacts@.map_values(|a: DerivedArtifact| a@),
            last_reconcile_result: self.last_reconcile_result,
            last_operation_id: opt_view(self.last_operation_id),
            protected_flags: self.protected_flags,
        }
    }
}

/// The state a fresh sidecar for `item_uid` holds.
pub open spec fn fresh_sidecar_view(item_uid: Seq<char>) -> SidecarStateView {
    SidecarStateView {
        schema_version: CURRENT_SCHEMA_VERSION,
        item_uid,
        source_fingerprints: seq![],
        provider_ids: ProviderIdsView { tmdb: None, imdb: None, tvdb: None },
        nfo_state: NfoState::Unknown,
        preferred_policy_state: "null"@,
        applied_state: "null"@,
        derived_artifacts: seq![],
        last_reconcile_result: ReconcileResult::Unknown,
        last_operation_id: None,
        protected_flags: ProtectedFlags {
            path_protected: false,
            item_protected: false,
            tag_protected: false,
        },
    }
}

pub open spec fn opt_state_view(o: Option<SidecarState>) -> Option<SidecarStateView> {
    match o {
        Some(s) => Some(s@),
        None => None,
    }
}

impl SidecarState {
    /// A fresh sidecar state for an item: current schema version, no
    /// fingerprints, provider ids or artifacts, unknown NFO and reconcile
    /// state, null policy documents.
    pub fn new(item_uid: String) -> (r: Self)
        ensures
            r@ == fresh_sidecar_view(item_uid@),
    {
        let null_text = crate::text::owned("null");
        let null_text2 = crate::text::owned("null");
        let fps: Vec<Fingerprint> = Vec::new();
        let arts: Vec<DerivedArtifact> = Vec::new();
        assert(fps@.map_values(|f: Fingerprint| f@) =~= Seq::<FingerprintView>::empty());
        assert(arts@.map_values(|a: DerivedArtifact| a@) =~= Seq::<DerivedArtifactView>::empty());
        SidecarState {
            schema_version: CURRENT_SCHEMA_VERSION,
            item_uid,
            source_fingerprints: fps,
            provider_ids: ProviderIds::default(),
            nfo_state: NfoState::Unknown,
            preferred_policy_state: null_text,
            applied_state: null_text2,
            derived_artifacts: arts,
            last_reconcile_result: ReconcileResult::Unknown,
            last_operation_id: None,
            protected_flags: ProtectedFlags::default(),
        }
    }

    /// A copy holding the same state.
    pub fn copy(&self) -> (r: Self)
        ensures
            r@ == self@,
    {
        let mut fps: Vec<Fingerprint> = Vec::new();
        let mut i: usize = 0;
        while i < self.source_fingerprints.len()
            invariant
                i <= self.source_fingerprints.len(),
                fps.len() == i,
                forall|k: int| 0 <= k < i ==> fps@[k]@ == self.source_fingerprints@[k]@,
            decreases self.source_fingerprints.len() - i,
        {
            fps.push(self.source_fingerprints[i].copy());
            i += 1;
        }
        assert(fps@.map_values(|f: Fingerprint| f@) =~= self.source_fingerprints@.map_values(
            |f: Fingerprint| f@,
        ));
        let mut arts: Vec<DerivedArtifact> = Vec::new();
        let mut j: usize = 0;
        while j < self.derived_artifacts.len()
            invariant
                j <= self.derived_artifacts.len(),
                arts.len() == j,
                forall|k: int| 0 <= k < j ==> arts@[k]@ == self.derived_artifacts@[k]@,
            decreases self.derived_artifacts.len() - j,
        {
            arts.push(self.derived_artifacts[j].copy());
            j += 1;
        }
        assert(arts@.map_values(|a: DerivedArtifact| a@) =~= self.derived_artifacts@.map_values(
            |a: DerivedArtifact| a@,
        ));
        SidecarState {
            schema_version: self.schema_version,
            item_uid: copy_string(&self.item_uid),
            source_fingerprints: fps,
            provider_ids: self.provider_ids.copy(),
            nfo_state: self.nfo_state,
            preferred_policy_state: copy_string(&self.preferred_policy_state),
            applied_state: copy_string(&self.applied_state),
            derived_artifacts: arts,
            last_reconcile_result: self.last_reconcile_result,
            last_operation_id: copy_opt_string(&self.last_operation_id),
            protected_flags: self.protected_flags,
        }
    }
}

pub fn copy_opt_state(o: &Option<SidecarState>) -> (r: Option<SidecarState>)
    ensures
        opt_state_view(r) == opt_state_view(*o),
{
    match o {
        Some(s) => Some(s.copy()),
        None => None,
    }
}

} // verus!
