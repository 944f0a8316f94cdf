use kubewarden_policy_sdk::cluster_context::{namespace_filter_matches, NamespaceFilter};
use kubewarden_policy_sdk::crd::{
    BackgroundAudit, FailurePolicy, MatchPolicy, PolicyMode, SideEffects, TimeoutSeconds,
};
use kubewarden_policy_sdk::request::{GroupVersionKind, GroupVersionResource};

#[test]
fn crd_defaults() {
    assert_eq!(PolicyMode::default(), PolicyMode::Protect);
    assert_eq!(FailurePolicy::default(), FailurePolicy::Fail);
    assert_eq!(MatchPolicy::default(), MatchPolicy::Equivalent);
    assert_eq!(SideEffects::default(), SideEffects::Never);
    assert_eq!(BackgroundAudit::default(), BackgroundAudit(true));
    assert_eq!(TimeoutSeconds::default(), TimeoutSeconds(10));
    assert_eq!(TimeoutSeconds::from(30), TimeoutSeconds(30));
    assert_eq!(i32::from(TimeoutSeconds(30)), 30);
}

#[test]
fn request_identities_default_empty() {
    let gvk = GroupVersionKind::default();
    assert_eq!(gvk.group, "");
    assert_eq!(gvk.version, "");
    assert_eq!(gvk.kind, "");
    let gvr = GroupVersionResource::default();
    assert_eq!(gvr.kind, "");
}

#[test]
fn namespace_filters() {
    let all = NamespaceFilter::AllNamespaces;
    let one = NamespaceFilter::Namespace("default".to_string());
    assert!(namespace_filter_matches(&all, &None));
    assert!(namespace_filter_matches(&all, &Some("kube-system".to_string())));
    assert!(namespace_filter_matches(&one, &Some("default".to_string())));
    assert!(!namespace_filter_matches(&one, &Some("kube-system".to_string())));
    assert!(!namespace_filter_matches(&one, &None));
}
