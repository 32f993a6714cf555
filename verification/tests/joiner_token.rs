use graceful_shutdown::{
    ErrorAction, ErrorActions, FailureHandler, JoinerTree, Propagation, StopAction, StopReason,
    SubsystemError, TokenState,
};

#[test]
fn joiner_token_counters() {
    let mut tree = JoinerTree::new();
    let root = tree.new_root_token(ErrorActions::catch_all());
    assert_eq!(0, tree.count(root));

    let child1 = tree.create_child_token(root, ErrorActions::catch_all());
    assert_eq!(1, tree.count(root));
    assert_eq!(0, tree.count(child1));

    let child2 = tree.create_child_token(child1, ErrorActions::catch_all());
    assert_eq!(2, tree.count(root));
    assert_eq!(1, tree.count(child1));
    assert_eq!(0, tree.count(child2));

    let child3 = tree.create_child_token(child1, ErrorActions::catch_all());
    assert_eq!(3, tree.count(root));
    assert_eq!(2, tree.count(child1));
    assert_eq!(0, tree.count(child2));
    assert_eq!(0, tree.count(child3));

    tree.drop_token(child1);
    assert_eq!(2, tree.count(root));
    assert_eq!(0, tree.count(child2));
    assert_eq!(0, tree.count(child3));

    tree.drop_token(child2);
    assert_eq!(1, tree.count(root));
    assert_eq!(0, tree.count(child3));

    tree.drop_token(child3);
    assert_eq!(0, tree.count(root));
}

#[test]
fn joiner_token_debug_print() {
    let mut tree = JoinerTree::new();
    let root = tree.new_root_token(ErrorActions::catch_all());
    assert_eq!(format!("{}", tree.debug_text(root)), "JoinerToken(children = 0)");

    let child1 = tree.create_child_token(root, ErrorActions::catch_all());
    assert_eq!(format!("{}", tree.debug_text(root)), "JoinerToken(children = 1)");

    let _child2 = tree.create_child_token(child1, ErrorActions::catch_all());
    assert_eq!(format!("{}", tree.debug_text(root)), "JoinerToken(children = 2)");
}

#[test]
fn debug_text_of_multi_digit_count() {
    let mut tree = JoinerTree::new();
    let root = tree.new_root_token(ErrorActions::forward_all());
    for _ in 0..1203 {
        tree.create_child_token(root, ErrorActions::forward_all());
    }
    assert_eq!(tree.debug_text(root), "JoinerToken(children = 1203)");
    assert_eq!(tree.debug_text(1), "JoinerToken(children = 0)");
}

#[test]
fn create_then_drop_restores_counts() {
    let mut tree = JoinerTree::new();
    let root = tree.new_root_token(ErrorActions::forward_all());
    let a = tree.create_child_token(root, ErrorActions::forward_all());
    let b = tree.create_child_token(a, ErrorActions::forward_all());
    let before = (tree.count(root), tree.count(a), tree.count(b));
    let c = tree.create_child_token(b, ErrorActions::forward_all());
    assert_eq!((tree.count(root), tree.count(a), tree.count(b), tree.count(c)), (3, 2, 1, 0));
    tree.drop_token(c);
    assert_eq!((tree.count(root), tree.count(a), tree.count(b)), before);
    assert!(!tree.is_live(c));
    assert!(tree.is_live(b));
    assert_eq!(tree.len(), 4);
}

#[test]
fn sibling_counts_are_independent() {
    let mut tree = JoinerTree::new();
    let root = tree.new_root_token(ErrorActions::forward_all());
    let left = tree.create_child_token(root, ErrorActions::forward_all());
    let right = tree.create_child_token(root, ErrorActions::forward_all());
    let _leaf = tree.create_child_token(left, ErrorActions::forward_all());
    assert_eq!(tree.count(left), 1);
    assert_eq!(tree.count(right), 0);
    assert_eq!(tree.count(root), 3);
    assert_eq!(tree.parent(left), Some(root));
    assert_eq!(tree.parent(root), None);
}

#[test]
fn second_root_is_separate() {
    let mut tree = JoinerTree::new();
    let first = tree.new_root_token(ErrorActions::forward_all());
    let second = tree.new_root_token(ErrorActions::forward_all());
    tree.create_child_token(second, ErrorActions::forward_all());
    assert_eq!(tree.count(first), 0);
    assert_eq!(tree.count(second), 1);
}

#[test]
fn can_create_child_needs_a_live_parent() {
    let mut tree = JoinerTree::new();
    assert!(!tree.can_create_child(0));
    let root = tree.new_root_token(ErrorActions::forward_all());
    let child = tree.create_child_token(root, ErrorActions::forward_all());
    assert!(tree.can_create_child(root));
    assert!(tree.can_create_child(child));
    tree.drop_token(child);
    assert!(!tree.can_create_child(child));
    assert!(!tree.can_create_child(7));
}

#[test]
fn subscriber_sees_count_reach_zero() {
    let mut tree = JoinerTree::new();
    let root = tree.new_root_token(ErrorActions::forward_all());
    let child = tree.create_child_token(root, ErrorActions::forward_all());
    let receiver = tree.subscribe(root);
    assert_eq!(*receiver.borrow(), 1);
    tree.drop_token(child);
    assert_eq!(*receiver.borrow(), 0);
}

#[test]
fn failure_caught_by_nearest_catching_ancestor() {
    let mut tree = JoinerTree::new();
    let root = tree.new_root_token(ErrorActions::catch_all());
    let middle = tree.create_child_token(
        root,
        ErrorActions { on_failure: ErrorAction::CatchAndLocalShutdown, on_panic: ErrorAction::Forward },
    );
    let forwarder = tree.create_child_token(middle, ErrorActions::forward_all());
    let leaf = tree.create_child_token(forwarder, ErrorActions::forward_all());

    match tree.raise_failure(leaf, StopReason::Error(String::from("boom"))) {
        Propagation::Caught(by) => assert_eq!(by, middle),
        Propagation::Unhandled(_) => panic!("the error must be caught"),
    }
    match tree.raise_failure(leaf, StopReason::<String>::Panic) {
        Propagation::Caught(by) => assert_eq!(by, root),
        Propagation::Unhandled(_) => panic!("the panic must be caught"),
    }
}

#[test]
fn failure_forwarded_everywhere_comes_back() {
    let mut tree = JoinerTree::new();
    let root = tree.new_root_token(ErrorActions::forward_all());
    let child = tree.create_child_token(root, ErrorActions::forward_all());
    let leaf = tree.create_child_token(child, ErrorActions::catch_all());
    match tree.raise_failure(leaf, StopReason::Error(7u8)) {
        Propagation::Unhandled(StopReason::Error(e)) => assert_eq!(e, 7),
        other => panic!("unexpected {:?}", other),
    }
    // A root has nothing above it.
    assert!(matches!(
        tree.raise_failure(root, StopReason::<u8>::Panic),
        Propagation::Unhandled(StopReason::Panic)
    ));
}

#[test]
fn dropped_ancestor_still_decides() {
    let mut tree = JoinerTree::new();
    let root = tree.new_root_token(ErrorActions::forward_all());
    let catcher = tree.create_child_token(root, ErrorActions::catch_all());
    let leaf = tree.create_child_token(catcher, ErrorActions::forward_all());
    tree.drop_token(catcher);
    assert!(matches!(
        tree.raise_failure(leaf, StopReason::<u8>::Cancelled),
        Propagation::Caught(c) if c == catcher
    ));
}

#[test]
fn token_state_records_actions() {
    let state = TokenState { parent: None, live: true, handler: ErrorActions::forward_all() };
    assert_eq!(state.handler.on_panic, ErrorAction::Forward);
}

/// A handler that keeps panics and passes errors on with their number raised by one.
struct Bump;

impl FailureHandler<u32> for Bump {
    fn spec_on_error(&self, reason: StopReason<u32>) -> Option<StopReason<u32>> {
        self.on_error(reason)
    }

    fn on_error(&self, reason: StopReason<u32>) -> Option<StopReason<u32>> {
        match reason {
            StopReason::Error(n) => Some(StopReason::Error(n + 1)),
            StopReason::Panic => None,
            other => Some(other),
        }
    }
}

#[test]
fn handlers_see_what_the_one_below_passed_on() {
    let mut tree = JoinerTree::new();
    let root = tree.new_root_token(Bump);
    let middle = tree.create_child_token(root, Bump);
    let leaf = tree.create_child_token(middle, Bump);
    // The leaf's own handler is not consulted: two handlers add one each.
    assert!(matches!(
        tree.raise_failure(leaf, StopReason::Error(10)),
        Propagation::Unhandled(StopReason::Error(12))
    ));
    // The parent keeps a panic.
    assert!(matches!(tree.raise_failure(leaf, StopReason::Panic), Propagation::Caught(c) if c == middle));
    assert_eq!(tree.count(root), 2);
}

#[test]
fn route_stop_reports_unhandled_failures() {
    let mut tree = JoinerTree::new();
    let root = tree.new_root_token(ErrorActions::forward_all());
    let child = tree.create_child_token(root, ErrorActions::forward_all());
    assert!(matches!(
        tree.route_stop(child, String::from("worker"), StopReason::Error(5u8)),
        StopAction::Report(SubsystemError::Failed(ref name, 5)) if name == "worker"
    ));
    assert!(matches!(
        tree.route_stop(child, String::from("worker"), StopReason::<u8>::Finish),
        StopAction::Nothing
    ));
    let catcher = tree.create_child_token(root, ErrorActions::catch_all());
    let below = tree.create_child_token(catcher, ErrorActions::forward_all());
    assert!(matches!(
        tree.route_stop(below, String::from("w"), StopReason::<u8>::Panic),
        StopAction::Caught(c) if c == catcher
    ));
}
