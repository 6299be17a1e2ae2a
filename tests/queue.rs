use texlab::action::{Action, ActionManager};

#[test]
fn drains_hand_out_every_action_once_in_order() {
    let mut queue = ActionManager::new();
    queue.push(Action::LoadResolver);
    queue.push(Action::DetectRoot("a.tex".to_string()));
    let first = queue.take();
    queue.push(Action::PublishDiagnostics);
    let second = queue.take();
    let third = queue.take();
    assert_eq!(first, vec![Action::LoadResolver, Action::DetectRoot("a.tex".to_string())]);
    assert_eq!(second, vec![Action::PublishDiagnostics]);
    assert!(third.is_empty());
    assert_eq!(queue.len(), 0);
}

#[test]
fn pushes_between_drains_wait_for_the_next_one() {
    let mut queue = ActionManager::new();
    queue.push(Action::ScanComponents);
    queue.push(Action::Build("a.tex".to_string()));
    assert_eq!(queue.len(), 2);
    let taken = queue.take();
    assert_eq!(taken.len(), 2);
    queue.push(Action::ParseLog { tex_uri: "a.tex".to_string(), log_path: "a.log".to_string() });
    assert_eq!(queue.len(), 1);
    assert_eq!(
        queue.take(),
        vec![Action::ParseLog { tex_uri: "a.tex".to_string(), log_path: "a.log".to_string() }]
    );
}
