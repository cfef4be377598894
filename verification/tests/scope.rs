use readiness_bridge::scope::{ScopeTree, ROOT};

#[test]
fn fresh_tree_has_one_live_root() {
    let tree = ScopeTree::new();
    assert_eq!(tree.len(), 1);
    assert_eq!(ROOT, 0);
    assert!(!tree.is_cancelled(ROOT));
}

#[test]
fn derived_scopes_are_numbered_in_order() {
    let mut tree = ScopeTree::new();
    assert_eq!(tree.derive(ROOT), 1);
    assert_eq!(tree.derive(ROOT), 2);
    assert_eq!(tree.derive(1), 3);
    assert_eq!(tree.len(), 4);
}

#[test]
fn cancelling_a_parent_cancels_every_descendant() {
    let mut tree = ScopeTree::new();
    let a = tree.derive(ROOT);
    let b = tree.derive(ROOT);
    let a1 = tree.derive(a);
    let a2 = tree.derive(a);
    let a1x = tree.derive(a1);
    tree.cancel(a);
    assert!(tree.is_cancelled(a));
    assert!(tree.is_cancelled(a1));
    assert!(tree.is_cancelled(a2));
    assert!(tree.is_cancelled(a1x));
    assert!(!tree.is_cancelled(b));
    assert!(!tree.is_cancelled(ROOT));
}

#[test]
fn cancelling_a_child_leaves_parent_and_siblings_alone() {
    let mut tree = ScopeTree::new();
    let guest = tree.derive(ROOT);
    let client = tree.derive(ROOT);
    let below_client = tree.derive(client);
    tree.cancel(guest);
    assert!(tree.is_cancelled(guest));
    assert!(!tree.is_cancelled(ROOT));
    assert!(!tree.is_cancelled(client));
    assert!(!tree.is_cancelled(below_client));
}

#[test]
fn cancelling_twice_changes_nothing() {
    let mut tree = ScopeTree::new();
    let a = tree.derive(ROOT);
    let b = tree.derive(ROOT);
    tree.cancel(a);
    tree.cancel(a);
    assert!(tree.is_cancelled(a));
    assert!(!tree.is_cancelled(b));
    assert!(!tree.is_cancelled(ROOT));
    assert_eq!(tree.len(), 3);
}

#[test]
fn child_of_a_cancelled_scope_is_born_cancelled() {
    let mut tree = ScopeTree::new();
    let a = tree.derive(ROOT);
    tree.cancel(a);
    let late = tree.derive(a);
    assert!(tree.is_cancelled(late));
    let other = tree.derive(ROOT);
    assert!(!tree.is_cancelled(other));
}

#[test]
fn token_handle_reports_what_the_tree_reports() {
    let mut tree = ScopeTree::new();
    let a = tree.derive(ROOT);
    let b = tree.derive(a);
    let root_token = tree.token(ROOT);
    let a_token = tree.token(a);
    let b_token = tree.token(b);
    assert!(!root_token.is_cancelled() && !a_token.is_cancelled() && !b_token.is_cancelled());
    tree.cancel(a);
    assert!(!root_token.is_cancelled());
    assert!(a_token.is_cancelled());
    assert!(b_token.is_cancelled());
    tree.cancel(ROOT);
    assert!(root_token.is_cancelled());
    assert!(tree.is_cancelled(ROOT));
}

#[test]
fn waiting_task_is_released_by_cancelling_an_ancestor() {
    let mut tree = ScopeTree::new();
    let a = tree.derive(ROOT);
    let token = tree.token(a);
    tree.cancel(ROOT);
    let runtime = tokio::runtime::Builder::new_current_thread().build().unwrap();
    runtime.block_on(token.cancelled());
    assert!(tree.is_cancelled(a));
}

#[test]
fn cancelling_a_handle_leaves_the_tree_alone() {
    let mut tree = ScopeTree::new();
    let a = tree.derive(ROOT);
    let b = tree.derive(a);
    let first = tree.token(a);
    let second = tree.token(a);
    let below = tree.token(b);
    first.cancel();
    assert!(first.is_cancelled());
    // No scope is reached, nor any other handle, not even one of the same scope.
    assert!(!tree.is_cancelled(a));
    assert!(!tree.is_cancelled(b));
    assert!(!tree.is_cancelled(ROOT));
    assert!(!second.is_cancelled());
    assert!(!below.is_cancelled());
    assert!(!tree.token(a).is_cancelled());
    // The scope still reaches the handles that are left.
    tree.cancel(a);
    assert!(second.is_cancelled());
    assert!(below.is_cancelled());
    assert!(first.is_cancelled());
}

#[test]
fn dropping_a_handle_leaves_the_tree_alone() {
    let mut tree = ScopeTree::new();
    let a = tree.derive(ROOT);
    let kept = tree.token(a);
    drop(tree.token(a));
    drop(tree.token(ROOT));
    assert_eq!(tree.len(), 2);
    assert!(!tree.is_cancelled(a));
    tree.cancel(ROOT);
    assert!(tree.is_cancelled(a));
    assert!(kept.is_cancelled());
}

#[test]
fn handles_are_tokens_of_their_own() {
    let mut tree = ScopeTree::new();
    let a = tree.derive(ROOT);
    let first = tree.token(a);
    let second = tree.token(a);
    assert!(first != second);
    assert!(first != tree.token(ROOT));
    assert!(first == first.clone());
}

#[test]
fn handle_starts_cancelled_exactly_when_its_scope_is() {
    let mut tree = ScopeTree::new();
    let a = tree.derive(ROOT);
    let b = tree.derive(ROOT);
    assert!(!tree.token(a).is_cancelled());
    tree.cancel(a);
    assert!(tree.token(a).is_cancelled());
    assert!(!tree.token(b).is_cancelled());
    assert!(!tree.token(ROOT).is_cancelled());
    let late = tree.derive(a);
    assert!(tree.token(late).is_cancelled());
}
