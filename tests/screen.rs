use sabiwm::{Screen, Stack, Workspace};

fn shown() -> Screen<u32> {
    Screen::new(Workspace::new(4, "main", Some(Stack::new(1u32, vec![2], vec![3]))), 2)
}

#[test]
fn new_binds_workspace_to_output() {
    let workspace: Workspace<u32> = Workspace::new(0, "foo", None);
    let screen = Screen::new(workspace, 2);
    assert_eq!(2, screen.screen_id);
    assert_eq!(0, screen.workspace.id);
    assert_eq!(0, screen.len());
}

#[test]
fn forwards_queries_to_workspace() {
    let screen = shown();
    assert_eq!(3, screen.len());
    assert!(screen.contains(2));
    assert!(!screen.contains(9));
    assert_eq!(vec![2, 1, 3], screen.windows());
}

#[test]
fn map_workspace_keeps_output() {
    let screen = shown().map_workspace(|w| w.add(7));
    assert_eq!(2, screen.screen_id);
    assert_eq!(vec![2, 7, 3, 1], screen.windows());
}

#[test]
fn map_keeps_output() {
    let screen = shown().map(|s| s.swap_up());
    assert_eq!(2, screen.screen_id);
    assert_eq!(4, screen.workspace.id);
    assert_eq!(Some(Stack::new(1, Vec::new(), vec![2, 3])), screen.workspace.stack);
}

#[test]
fn map_option_keeps_output() {
    let screen = shown().map_option(|s| s.filter(|x| *x == 3));
    assert_eq!(2, screen.screen_id);
    assert_eq!(vec![3], screen.windows());
    let gone = shown().map_option(|_| None);
    assert_eq!(0, gone.len());
}

#[test]
fn map_or_keeps_output() {
    let empty = Screen::new(Workspace::<u32>::new(0, "e", None), 1);
    let filled = empty.map_or(Stack::from(5), |s| s.focus_down());
    assert_eq!(1, filled.screen_id);
    assert_eq!(vec![5], filled.windows());
    let mapped = shown().map_or(Stack::from(5), |s| s.focus_down());
    assert_eq!(vec![2, 1, 3], mapped.windows());
    assert_eq!(Some(3), mapped.workspace.peek());
}

#[test]
fn clone_keeps_output_and_workspace() {
    let screen = shown();
    let copy = screen.clone();
    assert_eq!(screen.screen_id, copy.screen_id);
    assert_eq!(screen.windows(), copy.windows());
}
