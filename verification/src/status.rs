//! The resource lifecycle state machine.
//!
//! A resource advances along `Pending -> Processing -> TypeResolved ->
//! Processed`; any state may fall to `Failed` on a stage error, and `Failed`
//! is absorbing.  Re-entry into a prior state is forbidden.

use vstd::prelude::*;

verus! {

/// Lifecycle state of a resource record.
#[derive(Clone, Copy, Debug, PartialEq, Eq, Structural)]
pub enum ResourceStatus {
    Pending,
    Processing,
    TypeResolved,
    Processed,
    Failed,
}

/// Kind of media a resource was resolved to.
#[derive(Clone, Copy, Debug, PartialEq, Eq, Structural)]
pub enum ResourceType {
    Unknown,
    Video,
    Audio,
    Image,
    Other,
}

/// Position of a non-failed status on the forward path.
pub open spec fn status_rank(s: ResourceStatus) -> int {
    match s {
        ResourceStatus::Pending => 0,
        ResourceStatus::Processing => 1,
        ResourceStatus::TypeResolved => 2,
        ResourceStatus::Processed => 3,
        ResourceStatus::Failed => 4,
    }
}

/// A single transition the projector may apply: strictly forward along the
/// path, or from any non-failed state to `Failed`.  `Failed` is absorbing.
pub open spec fn can_advance(from: ResourceStatus, to: ResourceStatus) -> bool {
    &&& from !== ResourceStatus::Failed
    &&& (to === ResourceStatus::Failed || status_rank(from) < status_rank(to))
}

/// `b` is observable after `a`: equal, or reachable by legal transitions.
pub open spec fn status_le(a: ResourceStatus, b: ResourceStatus) -> bool {
    a === b || can_advance(a, b)
}

impl ResourceStatus {
    /// Whether the projector may move a resource from `self` to `to`.
    pub fn allows_transition_to(&self, to: &ResourceStatus) -> (r: bool)
        ensures
            r == can_advance(*self, *to),
    {
        match (self, to) {
            (ResourceStatus::Failed, _) => false,
            (_, ResourceStatus::Failed) => true,
            (ResourceStatus::Pending, ResourceStatus::Processing) => true,
            (ResourceStatus::Pending, ResourceStatus::TypeResolved) => true,
            (ResourceStatus::Pending, ResourceStatus::Processed) => true,
            (ResourceStatus::Processing, ResourceStatus::TypeResolved) => true,
            (ResourceStatus::Processing, ResourceStatus::Processed) => true,
            (ResourceStatus::TypeResolved, ResourceStatus::Processed) => true,
            _ => false,
        }
    }

    /// The wire and datastore name of this status.
    pub fn as_str(&self) -> (r: &'static str)
        ensures
            r@ == status_name(*self),
    {
        match self {
            ResourceStatus::Pending => "pending",
            ResourceStatus::Processing => "processing",
            ResourceStatus::TypeResolved => "type_resolved",
            ResourceStatus::Processed => "processed",
            ResourceStatus::Failed => "failed",
        }
    }
}

/// The wire and datastore name of each status.
pub open spec fn status_name(s: ResourceStatus) -> Seq<char> {
    match s {
        ResourceStatus::Pending => "pending"@,
        ResourceStatus::Processing => "processing"@,
        ResourceStatus::TypeResolved => "type_resolved"@,
        ResourceStatus::Processed => "processed"@,
        ResourceStatus::Failed => "failed"@,
    }
}

/// The wire and datastore name of each resource type.
pub open spec fn kind_name(t: ResourceType) -> Seq<char> {
    match t {
        ResourceType::Unknown => "unknown"@,
        ResourceType::Video => "video"@,
        ResourceType::Audio => "audio"@,
        ResourceType::Image => "image"@,
        ResourceType::Other => "other"@,
    }
}

impl ResourceType {
    /// The wire and datastore name of this resource type.
    pub fn as_str(&self) -> (r: &'static str)
        ensures
            r@ == kind_name(*self),
    {
        match self {
            ResourceType::Unknown => "unknown",
            ResourceType::Video => "video",
            ResourceType::Audio => "audio",
            ResourceType::Image => "image",
            ResourceType::Other => "other",
        }
    }
}

/// The resource type a wire name denotes; anything unrecognized stays
/// `Unknown`.
pub open spec fn type_of_name(s: Seq<char>) -> ResourceType {
    if s == "video"@ {
        ResourceType::Video
    } else if s == "audio"@ {
        ResourceType::Audio
    } else if s == "image"@ {
        ResourceType::Image
    } else if s == "other"@ {
        ResourceType::Other
    } else {
        ResourceType::Unknown
    }
}

/// Parse a resource type from its wire name.
pub fn resource_type_from_str(s: &str) -> (r: ResourceType)
    ensures
        r == type_of_name(s@),
{
    if crate::text::str_eq(s, "video") {
        ResourceType::Video
    } else if crate::text::str_eq(s, "audio") {
        ResourceType::Audio
    } else if crate::text::str_eq(s, "image") {
        ResourceType::Image
    } else if crate::text::str_eq(s, "other") {
        ResourceType::Other
    } else {
        ResourceType::Unknown
    }
}

/// Legal transitions never step backwards and never leave `Failed`.
pub proof fn lemma_transitions_monotone(a: ResourceStatus, b: ResourceStatus, c: ResourceStatus)
    requires
        status_le(a, b),
        status_le(b, c),
    ensures
        status_le(a, c),
{
}

/// `Failed` is absorbing: no transition leaves it.
pub proof fn lemma_failed_absorbing(to: ResourceStatus)
    ensures
        !can_advance(ResourceStatus::Failed, to),
{
}

} // verus!
