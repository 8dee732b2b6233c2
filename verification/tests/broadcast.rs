use task_streamer::app::AppState;
use task_streamer::schema::Topic;
use task_streamer::session::{
    Connect, Disconnect, Request, SessionManager, TasksUpdated, TopicUpdated,
};

fn drain(m: &mut SessionManager, id: u128) -> Vec<String> {
    m.take_messages(id).into_iter().map(|msg| msg.0).collect()
}

#[test]
fn register_assigns_distinct_ids() {
    let mut m = SessionManager::new();
    assert_eq!(m.count(), 0);
    let a = m.register();
    let b = m.register();
    let c = m.register();
    assert_eq!(m.count(), 3);
    assert!(a != b && b != c && a != c);
    assert!(m.contains(a) && m.contains(b) && m.contains(c));
}

#[test]
fn live_session_count_follows_register_and_deregister() {
    let mut m = SessionManager::new();
    let a = m.register();
    let b = m.register();
    assert_eq!(m.count(), 2);
    m.deregister(a);
    assert_eq!(m.count(), 1);
    // a deregistration of an unknown id is a no-op, never an error
    m.deregister(a);
    assert_eq!(m.count(), 1);
    m.deregister(0xdead_beef);
    assert_eq!(m.count(), 1);
    m.deregister(b);
    assert_eq!(m.count(), 0);
}

#[test]
fn deregister_twice_equals_deregister_once() {
    let mut m = SessionManager::new();
    let a = m.register();
    let b = m.register();
    m.deregister(a);
    m.deregister(a);
    // the repeat changed nothing observable: b is still live and reachable
    assert_eq!(m.count(), 1);
    assert!(!m.contains(a));
    assert!(m.contains(b));
    m.notify_update("tasks-updated");
    assert_eq!(drain(&mut m, b), vec!["tasks-updated".to_string()]);
}

#[test]
fn connect_notify_disconnect_scenario() {
    let mut m = SessionManager::new();
    let a = m.handle(Request::Connect(Connect)).unwrap();
    let b = m.handle(Request::Connect(Connect)).unwrap();

    m.handle(Request::TasksUpdated(TasksUpdated));
    assert_eq!(drain(&mut m, a), vec!["tasks-updated".to_string()]);
    assert_eq!(drain(&mut m, b), vec!["tasks-updated".to_string()]);

    m.handle(Request::Disconnect(Disconnect { id: a }));
    m.handle(Request::TopicUpdated(TopicUpdated));
    assert!(!m.contains(a));
    assert_eq!(drain(&mut m, a), Vec::<String>::new());
    assert_eq!(drain(&mut m, b), vec!["topic-updated".to_string()]);
}

#[test]
fn late_joiner_misses_earlier_events() {
    let mut m = SessionManager::new();
    let a = m.register();
    m.notify_update("tasks-updated");
    let b = m.register();
    m.notify_update("tasks-updated");
    assert_eq!(
        drain(&mut m, a),
        vec!["tasks-updated".to_string(), "tasks-updated".to_string()]
    );
    assert_eq!(drain(&mut m, b), vec!["tasks-updated".to_string()]);
}

#[test]
fn broken_capability_is_isolated() {
    let mut m = SessionManager::new();
    let a = m.register();
    let b = m.register();
    let c = m.register();
    m.fail_capability(b);
    m.notify_update("tasks-updated");
    assert_eq!(drain(&mut m, a), vec!["tasks-updated".to_string()]);
    assert_eq!(drain(&mut m, b), Vec::<String>::new());
    assert_eq!(drain(&mut m, c), vec!["tasks-updated".to_string()]);
    // the broken session is still registered: removal is the lifecycle's job
    assert!(m.contains(b));
    assert_eq!(m.count(), 3);
}

#[test]
fn take_messages_drains_the_inbox() {
    let mut m = SessionManager::new();
    let a = m.register();
    m.notify_update("tasks-updated");
    assert_eq!(drain(&mut m, a), vec!["tasks-updated".to_string()]);
    // drained: a second take finds nothing until the next broadcast
    assert_eq!(drain(&mut m, a), Vec::<String>::new());
    m.notify_update("topic-updated");
    assert_eq!(drain(&mut m, a), vec!["topic-updated".to_string()]);
}

#[test]
fn deliveries_keep_their_order_per_session() {
    let mut m = SessionManager::new();
    let a = m.register();
    m.notify_update("tasks-updated");
    m.notify_update("topic-updated");
    m.notify_update("tasks-updated");
    assert_eq!(
        drain(&mut m, a),
        vec![
            "tasks-updated".to_string(),
            "topic-updated".to_string(),
            "tasks-updated".to_string(),
        ]
    );
}

#[test]
fn set_topic_requires_the_key_and_notifies_on_success() {
    let mut state = AppState::new("Foo bar baz".to_string());
    let viewer = state.manager.register();

    let wrong = "Bar".to_string();
    let ok = state.set_topic(&wrong, Topic::new("herp".to_string(), "derp".to_string()));
    assert!(!ok);
    assert_eq!(state.topic.title, "");
    assert_eq!(state.topic.description, "");
    // a rejected replacement broadcasts nothing
    assert!(state.manager.take_messages(viewer).is_empty());

    let right = "Foo bar baz".to_string();
    let ok = state.set_topic(&right, Topic::new("herp".to_string(), "derp".to_string()));
    assert!(ok);
    assert_eq!(state.topic.title, "herp");
    assert_eq!(state.topic.description, "derp");
    let got: Vec<String> = state
        .manager
        .take_messages(viewer)
        .into_iter()
        .map(|m| m.0)
        .collect();
    assert_eq!(got, vec!["topic-updated".to_string()]);
}

#[test]
fn tasks_replaced_broadcasts_to_everyone() {
    let mut state = AppState::new("key".to_string());
    let a = state.manager.register();
    let b = state.manager.register();
    assert!(state.authorize(&"key".to_string()));
    assert!(!state.authorize(&"KEY".to_string()));
    state.tasks_replaced();
    let got_a: Vec<String> = state.manager.take_messages(a).into_iter().map(|m| m.0).collect();
    let got_b: Vec<String> = state.manager.take_messages(b).into_iter().map(|m| m.0).collect();
    assert_eq!(got_a, vec!["tasks-updated".to_string()]);
    assert_eq!(got_b, vec!["tasks-updated".to_string()]);
}
