use sabiwm::{Stack, Workspace};

#[test]
fn new_with_stack_counts_its_windows() {
    let stack = Stack::from(42u32);
    let workspace = Workspace::new(0, "Desktop 0", Some(stack));
    assert_eq!(1, workspace.len());
    assert_eq!(0, workspace.id);
    assert_eq!("Desktop 0", workspace.tag);
}

#[test]
fn new_without_stack_is_empty() {
    let workspace: Workspace<u32> = Workspace::new(0, "Desktop 0", None);
    assert_eq!(0, workspace.len());
    assert!(workspace.is_empty());
    assert_eq!(Vec::<u32>::new(), workspace.windows());
    assert_eq!(None, workspace.peek());
    assert!(!workspace.contains(1));
}

#[test]
fn add_then_remove_last_window_empties() {
    let workspace: Workspace<u32> = Workspace::new(0, "d", None);
    let added = workspace.add(42);
    assert_eq!(1, added.len());
    assert_eq!(Some(42), added.peek());
    assert_eq!(vec![42], added.windows());
    let removed = added.remove(42);
    assert_eq!(0, removed.len());
    assert_eq!(None, removed.peek());
    assert!(removed.stack.is_none());
    assert!(removed.is_empty());
}

#[test]
fn add_delegates_to_stack() {
    let workspace = Workspace::new(3, "w", Some(Stack::new(1u32, vec![2], vec![3])));
    let added = workspace.add(4);
    assert_eq!(Some(Stack::new(4, vec![2], vec![3, 1])), added.stack);
    assert_eq!(vec![2, 4, 3, 1], added.windows());
    assert_eq!(3, added.id);
    assert_eq!("w", added.tag);
}

#[test]
fn remove_focused_window_follows_filter_rule() {
    let workspace = Workspace::new(0, "w", Some(Stack::new(1u32, vec![2], vec![3, 4])));
    let removed = workspace.remove(1);
    assert_eq!(Some(Stack::new(3, vec![2], vec![4])), removed.stack);
    assert_eq!(Some(3), removed.peek());
    assert_eq!(3, removed.len());
}

#[test]
fn remove_absent_window_changes_nothing() {
    let stack = Stack::new(1u32, vec![2], vec![3]);
    let workspace = Workspace::new(0, "w", Some(stack.clone()));
    assert_eq!(Some(stack), workspace.remove(9).stack);
    let empty: Workspace<u32> = Workspace::new(0, "w", None);
    assert!(empty.remove(9).stack.is_none());
}

#[test]
fn contains_and_windows_follow_stack() {
    let workspace = Workspace::new(0, "w", Some(Stack::new(1u32, vec![2, 3], vec![4])));
    assert!(workspace.contains(3));
    assert!(!workspace.contains(5));
    assert_eq!(vec![3, 2, 1, 4], workspace.windows());
    assert_eq!(Some(1), workspace.peek());
}

#[test]
fn map_applies_to_stack() {
    let workspace = Workspace::new(1, "w", Some(Stack::new(1u32, vec![2], vec![3])));
    let mapped = workspace.map(|s| s.focus_up());
    assert_eq!(Some(Stack::new(2, Vec::new(), vec![1, 3])), mapped.stack);
    assert_eq!(1, mapped.id);
    let empty: Workspace<u32> = Workspace::new(1, "w", None);
    assert!(empty.map(|s| s.focus_up()).stack.is_none());
}

#[test]
fn map_option_may_drop_stack() {
    let workspace = Workspace::new(1, "w", Some(Stack::new(1u32, vec![2], vec![3])));
    let kept = workspace.map_option(|s| s.filter(|x| *x != 2));
    assert_eq!(Some(Stack::new(1, Vec::new(), vec![3])), kept.stack);
    let dropped = workspace.map_option(|_| None);
    assert!(dropped.stack.is_none());
    let empty: Workspace<u32> = Workspace::new(1, "w", None);
    assert!(empty.map_option(|s| Some(s)).stack.is_none());
}

#[test]
fn map_or_uses_default_without_stack() {
    let empty: Workspace<u32> = Workspace::new(1, "w", None);
    let filled = empty.map_or(Stack::from(7), |s| s.reverse());
    assert_eq!(Some(Stack::from(7)), filled.stack);
    let workspace = Workspace::new(1, "w", Some(Stack::new(1u32, vec![2], vec![3])));
    let mapped = workspace.map_or(Stack::from(7), |s| s.reverse());
    assert_eq!(Some(Stack::new(1, vec![3], vec![2])), mapped.stack);
}

#[test]
fn clone_keeps_everything() {
    let workspace = Workspace::new(5, "x", Some(Stack::new(1u32, vec![2], vec![3])));
    let copy = workspace.clone();
    assert_eq!(workspace.id, copy.id);
    assert_eq!(workspace.tag, copy.tag);
    assert_eq!(workspace.stack, copy.stack);
}
