//! Common fields of the policy custom resources.
use vstd::prelude::*;

verus! {

/// How a policy's verdicts are enforced.
#[derive(Debug, Clone, PartialEq, Eq)]
pub enum PolicyMode {
    /// Verdicts are enforced.
    Protect,
    /// Verdicts are only reported.
    Monitor,
}

impl Default for PolicyMode {
    fn default() -> (r: PolicyMode)
        ensures
            r == PolicyMode::Protect,
    {
        PolicyMode::Protect
    }
}

/// What happens to a request when calling the webhook fails.
#[derive(Debug, Clone, PartialEq, Eq)]
pub enum FailurePolicy {
    /// An error calling the webhook rejects the API request.
    Fail,
    /// An error calling the webhook is ignored and the API request continues.
    Ignore,
}

impl Default for FailurePolicy {
    fn default() -> (r: FailurePolicy)
        ensures
            r == FailurePolicy::Fail,
    {
        FailurePolicy::Fail
    }
}

/// How requests are matched against the registered rules.
#[derive(Debug, Clone, PartialEq, Eq)]
pub enum MatchPolicy {
    /// Match a request that modifies a listed resource through any API group
    /// or version; the request is converted before it is sent to the webhook.
    Equivalent,
    /// Match a request only when it exactly matches a listed rule.
    Exact,
}

impl Default for MatchPolicy {
    fn default() -> (r: MatchPolicy)
        ensures
            r == MatchPolicy::Equivalent,
    {
        MatchPolicy::Equivalent
    }
}

/// Whether calling the webhook may have side effects.
#[derive(Debug, Clone, PartialEq, Eq)]
pub enum SideEffects {
    /// Calling the webhook never has side effects.
    Never,
    /// Dry-run calls have no side effects.
    NoneOnDryRun,
}

impl Default for SideEffects {
    fn default() -> (r: SideEffects)
        ensures
            r == SideEffects::Never,
    {
        SideEffects::Never
    }
}

/// One Kubernetes resource a context-aware policy is allowed to read.
#[derive(Debug, Clone, PartialEq, Eq)]
pub struct ContextAwareResource {
    /// apiVersion of the resource (`v1` for the core group).
    pub api_version: String,
    /// Singular PascalCase name of the resource.
    pub kind: String,
}

/// Whether the policy also runs in background audit scans.
#[derive(Debug, Clone, PartialEq, Eq)]
pub struct BackgroundAudit(pub bool);

impl Default for BackgroundAudit {
    fn default() -> (r: BackgroundAudit)
        ensures
            r == BackgroundAudit(true),
    {
        BackgroundAudit(true)
    }
}

/// The webhook timeout, in seconds.
#[derive(Debug, Clone, PartialEq, Eq)]
pub struct TimeoutSeconds(pub i32);

impl Default for TimeoutSeconds {
    fn default() -> (r: TimeoutSeconds)
        ensures
            r == TimeoutSeconds(10),
    {
        TimeoutSeconds(10)
    }
}

impl From<i32> for TimeoutSeconds {
    fn from(timeout: i32) -> (r: TimeoutSeconds) {
        TimeoutSeconds(timeout)
    }
}

impl vstd::std_specs::convert::FromSpecImpl<i32> for TimeoutSeconds {
    open spec fn obeys_from_spec() -> bool {
        true
    }

    open spec fn from_spec(timeout: i32) -> TimeoutSeconds {
        TimeoutSeconds(timeout)
    }
}

impl From<TimeoutSeconds> for i32 {
    fn from(timeout: TimeoutSeconds) -> (r: i32) {
        timeout.0
    }
}

impl vstd::std_specs::convert::FromSpecImpl<TimeoutSeconds> for i32 {
    open spec fn obeys_from_spec() -> bool {
        true
    }

    open spec fn from_spec(timeout: TimeoutSeconds) -> i32 {
        timeout.0
    }
}

} // verus!
