use sabiwm::reconcile::{handle_classified, handle_event, Command, NEW_WINDOW_HEIGHT, NEW_WINDOW_WIDTH};
use sabiwm::{Event, Rectangle, Workspace};

fn create(workspace: &Workspace<u32>, window: u32, manageable: bool) -> (Workspace<u32>, Command<u32>) {
    let (next, command) = handle_event(workspace, &Event::WindowCreated(window));
    assert_eq!(Command::Classify(window), command);
    assert_eq!(workspace.windows(), next.windows());
    handle_classified(&next, window, manageable)
}

#[test]
fn created_closed_scenario() {
    let workspace: Workspace<u32> = Workspace::new(0, "Main", None);
    let (workspace, command) = create(&workspace, 7, true);
    assert_eq!(Command::Resize(7, 50, 50), command);
    assert_eq!(vec![7], workspace.windows());
    assert_eq!(Some(7), workspace.peek());

    let (workspace, command) = create(&workspace, 9, true);
    assert_eq!(Command::Resize(9, NEW_WINDOW_WIDTH, NEW_WINDOW_HEIGHT), command);
    assert_eq!(vec![9, 7], workspace.windows());
    assert_eq!(Some(9), workspace.peek());

    let (workspace, command) = handle_event(&workspace, &Event::WindowClosed(9));
    assert_eq!(Command::Idle, command);
    assert_eq!(vec![7], workspace.windows());
    assert_eq!(Some(7), workspace.peek());
}

#[test]
fn unmanageable_window_is_ignored() {
    let workspace: Workspace<u32> = Workspace::new(0, "Main", None);
    let (workspace, command) = create(&workspace, 7, false);
    assert_eq!(Command::Idle, command);
    assert!(workspace.is_empty());
}

#[test]
fn closing_last_window_empties() {
    let workspace: Workspace<u32> = Workspace::new(0, "Main", None);
    let (workspace, _) = create(&workspace, 3, true);
    let (workspace, command) = handle_event(&workspace, &Event::WindowClosed(3));
    assert_eq!(Command::Idle, command);
    assert!(workspace.stack.is_none());
    assert_eq!(None, workspace.peek());
}

#[test]
fn other_events_change_nothing() {
    let workspace: Workspace<u32> = Workspace::new(1, "Main", None);
    let (workspace, _) = create(&workspace, 3, true);
    let events = vec![
        Event::BackendChanged,
        Event::WindowHid(3),
        Event::WindowRevealed(3),
        Event::WindowChangeRequest(3, Rectangle::new(0, 0, 10, 10)),
        Event::MouseEnter(Some(3)),
        Event::MouseLeave(None),
        Event::ButtonPressed(3, None),
        Event::ButtonReleased,
        Event::KeyPressed(3),
        Event::Unknown,
    ];
    for event in events {
        let (next, command) = handle_event(&workspace, &event);
        assert_eq!(Command::Idle, command);
        assert_eq!(workspace.windows(), next.windows());
        assert_eq!(workspace.id, next.id);
        assert_eq!(workspace.tag, next.tag);
    }
}

#[test]
fn closing_unknown_window_changes_nothing() {
    let workspace: Workspace<u32> = Workspace::new(0, "Main", None);
    let (workspace, _) = create(&workspace, 3, true);
    let (next, command) = handle_event(&workspace, &Event::WindowClosed(4));
    assert_eq!(Command::Idle, command);
    assert_eq!(vec![3], next.windows());
}
