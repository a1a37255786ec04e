use infolang::workspace::{WorkspaceResolver, WorkspaceStep};
use infolang::Error;

fn ids(list: &[&str]) -> Vec<String> {
    list.iter().map(|s| s.to_string()).collect()
}

#[test]
fn explicit_workspace_wins_without_whoami() {
    let mut resolver = WorkspaceResolver::new(Some("ws-9".into()));
    assert_eq!(resolver.next_step(), WorkspaceStep::Ready("ws-9".into()));
    // Even after an answer, the explicit workspace stays the answer.
    let _ = resolver.on_whoami(&ids(&["ws-other"]));
    assert_eq!(resolver.next_step(), WorkspaceStep::Ready("ws-9".into()));
}

#[test]
fn single_grant_resolves_via_whoami_once_and_caches() {
    let mut resolver = WorkspaceResolver::new(None);
    assert_eq!(resolver.next_step(), WorkspaceStep::AskWhoami);
    assert_eq!(resolver.on_whoami(&ids(&["ws-auto"])).expect("resolved"), "ws-auto");
    assert_eq!(resolver.next_step(), WorkspaceStep::Ready("ws-auto".into()));
    assert_eq!(resolver.next_step(), WorkspaceStep::Ready("ws-auto".into()));
}

#[test]
fn multi_grant_error_names_candidate_ids() {
    let mut resolver = WorkspaceResolver::new(None);
    let err = resolver.on_whoami(&ids(&["ws-a", "ws-b"])).unwrap_err();
    match err {
        Error::Config(c) => {
            assert_eq!(
                c.message,
                "this credential can reach 2 workspaces (ws-a, ws-b); pass `workspace` (or set INFOLANG_WORKSPACE) to pick one"
            );
            assert!(c.message.contains("INFOLANG_WORKSPACE"));
        }
        other => panic!("expected config error, got {other:?}"),
    }
}

#[test]
fn zero_grants_error() {
    let mut resolver = WorkspaceResolver::new(None);
    let err = resolver.on_whoami(&ids(&[])).unwrap_err();
    match err {
        Error::Config(c) => assert!(c.message.contains("no visible workspace grants")),
        other => panic!("expected config error, got {other:?}"),
    }
    // Empty ids are not grants.
    assert!(resolver.on_whoami(&ids(&["", ""])).is_err());
    assert_eq!(resolver.on_whoami(&ids(&["", "ws-x"])).expect("one visible"), "ws-x");
}

#[test]
fn failed_resolution_is_not_cached() {
    let mut resolver = WorkspaceResolver::new(None);
    assert!(resolver.on_whoami(&ids(&["ws-a", "ws-b"])).is_err());
    assert_eq!(resolver.next_step(), WorkspaceStep::AskWhoami);
    assert_eq!(resolver.on_whoami(&ids(&["ws-auto"])).expect("re-resolved"), "ws-auto");
    assert_eq!(resolver.next_step(), WorkspaceStep::Ready("ws-auto".into()));
}

#[test]
fn explicit_workspace_skips_whoami() {
    // With a workspace configured the resolver never asks whoami.
    let resolver = WorkspaceResolver::new(Some("ws-123".into()));
    assert_eq!(resolver.next_step(), WorkspaceStep::Ready("ws-123".into()));
    let prefix = infolang::request::workspace_prefix("ws-123");
    assert_eq!(infolang::request::endpoint(&prefix, "/recall"), "/v2/workspaces/ws-123/recall");
}
