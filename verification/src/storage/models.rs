//! Canonical record vocabulary: the lifecycle states and kinds that the
//! canonical tables store as text.

use vstd::prelude::*;

verus! {

/// Capture lifecycle.
#[derive(Clone, Copy, Debug, PartialEq, Eq, Structural)]
pub enum IntegrityState {
    PendingAudio,
    AudioValid,
    AudioMissing,
    AudioCorrupt,
    RecoveredOrphan,
}

impl IntegrityState {
    /// The stored name of the state.
    pub open spec fn name(self) -> Seq<char> {
        match self {
            IntegrityState::PendingAudio => "pending_audio"@,
            IntegrityState::AudioValid => "audio_valid"@,
            IntegrityState::AudioMissing => "audio_missing"@,
            IntegrityState::AudioCorrupt => "audio_corrupt"@,
            IntegrityState::RecoveredOrphan => "recovered_orphan"@,
        }
    }

    pub fn as_str(&self) -> (r: &'static str)
        ensures
            r@ == self.name(),
    {
        match self {
            IntegrityState::PendingAudio => "pending_audio",
            IntegrityState::AudioValid => "audio_valid",
            IntegrityState::AudioMissing => "audio_missing",
            IntegrityState::AudioCorrupt => "audio_corrupt",
            IntegrityState::RecoveredOrphan => "recovered_orphan",
        }
    }
}

/// Attempt lifecycle: pending → running → success | failed.
/// Terminal payload is immutable; only canonical selection may change later.
#[derive(Clone, Copy, Debug, PartialEq, Eq, Structural)]
pub enum AttemptStatus {
    Pending,
    Running,
    Success,
    Failed,
}

impl AttemptStatus {
    /// The stored name of the status.
    pub open spec fn name(self) -> Seq<char> {
        match self {
            AttemptStatus::Pending => "pending"@,
            AttemptStatus::Running => "running"@,
            AttemptStatus::Success => "success"@,
            AttemptStatus::Failed => "failed"@,
        }
    }

    pub fn as_str(&self) -> (r: &'static str)
        ensures
            r@ == self.name(),
    {
        match self {
            AttemptStatus::Pending => "pending",
            AttemptStatus::Running => "running",
            AttemptStatus::Success => "success",
            AttemptStatus::Failed => "failed",
        }
    }
}

/// Where an attempt's text came from. `LegacyMigration` marks rows that
/// predate durable provenance.
#[derive(Clone, Copy, Debug, PartialEq, Eq, Structural)]
pub enum AttemptProvenance {
    Live,
    LegacyMigration,
}

impl AttemptProvenance {
    /// The stored name of the provenance.
    pub open spec fn name(self) -> Seq<char> {
        match self {
            AttemptProvenance::Live => "live"@,
            AttemptProvenance::LegacyMigration => "legacy_migration"@,
        }
    }

    pub fn as_str(&self) -> (r: &'static str)
        ensures
            r@ == self.name(),
    {
        match self {
            AttemptProvenance::Live => "live",
            AttemptProvenance::LegacyMigration => "legacy_migration",
        }
    }
}

/// Representation lifecycle: success | failed.
#[derive(Clone, Copy, Debug, PartialEq, Eq, Structural)]
pub enum RepresentationStatus {
    Success,
    Failed,
}

impl RepresentationStatus {
    /// The stored name of the status.
    pub open spec fn name(self) -> Seq<char> {
        match self {
            RepresentationStatus::Success => "success"@,
            RepresentationStatus::Failed => "failed"@,
        }
    }

    pub fn as_str(&self) -> (r: &'static str)
        ensures
            r@ == self.name(),
    {
        match self {
            RepresentationStatus::Success => "success",
            RepresentationStatus::Failed => "failed",
        }
    }
}

/// Which immutable text source a delivery event refers to.
#[derive(Clone, Copy, Debug, PartialEq, Eq, Structural)]
pub enum DeliverySourceKind {
    NormalizedStt,
    Representation,
}

impl DeliverySourceKind {
    /// The stored name of the kind.
    pub open spec fn name(self) -> Seq<char> {
        match self {
            DeliverySourceKind::NormalizedStt => "normalized_stt"@,
            DeliverySourceKind::Representation => "representation"@,
        }
    }

    pub fn as_str(&self) -> (r: &'static str)
        ensures
            r@ == self.name(),
    {
        match self {
            DeliverySourceKind::NormalizedStt => "normalized_stt",
            DeliverySourceKind::Representation => "representation",
        }
    }
}

/// Where delivered text went.
#[derive(Clone, Copy, Debug, PartialEq, Eq, Structural)]
pub enum DeliveryDestination {
    FocusedApp,
    Scratchpad,
    Clipboard,
}

impl DeliveryDestination {
    /// The stored name of the destination.
    pub open spec fn name(self) -> Seq<char> {
        match self {
            DeliveryDestination::FocusedApp => "focused_app"@,
            DeliveryDestination::Scratchpad => "scratchpad"@,
            DeliveryDestination::Clipboard => "clipboard"@,
        }
    }

    pub fn as_str(&self) -> (r: &'static str)
        ensures
            r@ == self.name(),
    {
        match self {
            DeliveryDestination::FocusedApp => "focused_app",
            DeliveryDestination::Scratchpad => "scratchpad",
            DeliveryDestination::Clipboard => "clipboard",
        }
    }
}

} // verus!
