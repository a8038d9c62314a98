//! The startup elevation self-check of the core service. Before any other
//! subsystem starts, the service checks its own token integrity level and
//! refuses to start capture/input unless elevated, since UI-affecting calls
//! fail silently when it is not.

use vstd::prelude::*;

verus! {

/// The process token integrity levels relevant to elevation.
#[derive(Debug, Clone, Copy, PartialEq, Eq, Structural)]
pub enum IntegrityLevel {
    Low,
    Medium,
    High,
    System,
}

impl IntegrityLevel {
    /// Whether this level counts as elevated: High or above.
    pub open spec fn spec_is_elevated(self) -> bool {
        self == IntegrityLevel::High || self == IntegrityLevel::System
    }

    /// The service is considered elevated enough only at High or above.
    pub fn is_elevated(self) -> (r: bool)
        ensures
            r == self.spec_is_elevated(),
    {
        match self {
            IntegrityLevel::High | IntegrityLevel::System => true,
            _ => false,
        }
    }
}

/// The integrity level a token's mandatory-label relative identifier denotes
/// (`SECURITY_MANDATORY_{LOW,MEDIUM,HIGH,SYSTEM}_RID` are `0x1000`..`0x4000`):
/// each level from its RID up to the next.
pub open spec fn spec_level_for_rid(rid: u32) -> IntegrityLevel {
    if rid >= 0x4000 {
        IntegrityLevel::System
    } else if rid >= 0x3000 {
        IntegrityLevel::High
    } else if rid >= 0x2000 {
        IntegrityLevel::Medium
    } else {
        IntegrityLevel::Low
    }
}

/// Classifies a token's mandatory-label RID as an integrity level.
pub fn integrity_level_for_rid(rid: u32) -> (level: IntegrityLevel)
    ensures
        level == spec_level_for_rid(rid),
{
    if rid >= 0x4000 {
        IntegrityLevel::System
    } else if rid >= 0x3000 {
        IntegrityLevel::High
    } else if rid >= 0x2000 {
        IntegrityLevel::Medium
    } else {
        IntegrityLevel::Low
    }
}

/// The index of a SID's last sub-authority, which holds the label's RID:
/// one less than the count, or the first when the count is zero.
pub fn last_sub_authority_index(count: u8) -> (index: u32)
    ensures
        index == (if count == 0 { 0 } else { count - 1 }),
{
    (count as u32).saturating_sub(1)
}

/// "What is this process's token integrity level": the OS query sits behind
/// this trait.
pub trait TokenIntegrityCheck {
    /// Whether the check may report `level`. A check that says no more
    /// allows every level.
    closed spec fn may_report(&self, level: IntegrityLevel) -> bool {
        true
    }

    /// Whether this check keeps the record [`TokenIntegrityCheck::reports`].
    /// One that does not keeps none.
    closed spec fn keeps_record(&self) -> bool {
        false
    }

    /// Every level reported so far, in order, where the record is kept.
    closed spec fn reports(&self) -> Seq<IntegrityLevel> {
        Seq::empty()
    }

    fn current_integrity_level(&mut self) -> (level: IntegrityLevel)
        ensures
            old(self).may_report(level),
            final(self).keeps_record() == old(self).keeps_record(),
            old(self).keeps_record() ==> final(self).reports() == old(self).reports().push(level),
    ;
}

/// The result of the startup self-check.
#[derive(Debug, Clone, Copy, PartialEq, Eq, Structural)]
pub enum BootstrapStatus {
    /// Elevated at High integrity or above; the rest of the service may start.
    Ready,
    /// Not elevated; capture/input must not start.
    NotElevated,
}

/// The self-check's status for an observed integrity level.
pub open spec fn spec_status_for_level(level: IntegrityLevel) -> BootstrapStatus {
    if level.spec_is_elevated() {
        BootstrapStatus::Ready
    } else {
        BootstrapStatus::NotElevated
    }
}

/// The self-check's decision for an observed integrity level.
pub fn status_for_level(level: IntegrityLevel) -> (r: BootstrapStatus)
    ensures
        r == spec_status_for_level(level),
{
    if level.is_elevated() {
        BootstrapStatus::Ready
    } else {
        BootstrapStatus::NotElevated
    }
}

/// Runs the startup elevation self-check using `checker`, asking it once:
/// `Ready` exactly when the level it reports is elevated.
pub fn bootstrap<K: TokenIntegrityCheck>(checker: &mut K) -> (r: BootstrapStatus)
    ensures
        final(checker).keeps_record() == old(checker).keeps_record(),
        exists|level: IntegrityLevel|
            {
                &&& old(checker).may_report(level)
                &&& old(checker).keeps_record() ==> final(checker).reports() == old(checker).reports().push(level)
                &&& r == spec_status_for_level(level)
            },
{
    let level = checker.current_integrity_level();
    let r = status_for_level(level);
    assert(r == spec_status_for_level(level));
    r
}

} // verus!
