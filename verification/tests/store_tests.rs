use job_scheduler::job_store::{Command, JobStore};
use job_scheduler::models::jobs::Job;

#[test]
fn init() {
    assert!(true);
}

#[test]
fn load_jobs() {
    let jobs = JobStore::load_jobs("myfile");
    assert_eq!(jobs.len(), 0);
}

#[test]
fn insert_then_find() {
    let mut store = JobStore::new();
    assert_eq!(store.len(), 0);

    let job = Job::new("my job 100 name", "no-op");
    let model = Job::create_model(&job);
    let key = model.key.clone();

    let event = store.insert(model);
    assert_eq!(event.message, format!("inserted job, id: {}", key));
    let snapshot = event.model.expect("insert event should carry the envelope");
    assert_eq!(snapshot.value, job);
    assert_eq!(store.len(), 1);

    let found = store.find(&key);
    assert_eq!(found.message, format!("found job id: {}", key));
    let model = found.model.expect("the inserted key should be found");
    assert_eq!(model.key, key);
    assert_eq!(model.value, job);
}

#[test]
fn find_missing_key() {
    let store = JobStore::new();
    let key = String::from("no-such-key");
    let event = store.find(&key);
    assert_eq!(event.message, format!("job not found for id: {}", key));
    assert!(event.model.is_none());
}

#[test]
fn remove_present_key() {
    let mut store = JobStore::new();
    let job = Job::new("short lived", "no-op");
    let model = Job::create_model(&job);
    let key = model.key.clone();
    store.insert(model);

    let event = store.remove(&key);
    assert_eq!(event.message, "job removed");
    let removed = event.model.expect("the removed envelope should come back");
    assert_eq!(removed.value, job);
    assert_eq!(store.len(), 0);
    assert!(store.callback(&key).is_none());
}

#[test]
fn remove_missing_key_changes_nothing() {
    let mut store = JobStore::new();
    let job = Job::new("keeper", "no-op");
    let model = Job::create_model(&job);
    store.insert(model);
    assert_eq!(store.len(), 1);

    let key = String::from("never-inserted");
    let event = store.remove(&key);
    assert_eq!(event.message, "job not found");
    assert!(event.model.is_none());
    assert_eq!(store.len(), 1);
}

#[test]
fn insert_same_key_twice_keeps_one_entry() {
    let mut store = JobStore::new();

    let first = Job::new("first", "no-op");
    let model = Job::create_model(&first);
    let key = model.key.clone();
    store.insert(model);

    let second = Job::new("second", "no-op");
    let mut replacement = Job::create_model(&second);
    replacement.key = key.clone();
    store.insert(replacement);

    assert_eq!(store.len(), 1);
    let found = store.callback(&key).expect("the key should still be present");
    assert_eq!(found.value, second);
}

#[test]
fn list_keys_pages_and_limits() {
    let mut store = JobStore::new();
    let mut keys: Vec<String> = Vec::new();
    for topic in ["one", "two", "three"] {
        let model = Job::create_model(&Job::new(topic, "no-op"));
        keys.push(model.key.clone());
        store.insert(model);
    }

    let event = store.list_keys(0, 2);
    assert_eq!(event.message, "list keys");
    let model = event.model.expect("list keys should carry a synthetic job");
    assert_eq!(model.value.topic, "keys");
    let joined = model.value.results.expect("the page should be present");
    assert_eq!(joined, format!("{},{}", keys[0], keys[1]));

    let event = store.list_keys(1, 10);
    let joined = event.model.unwrap().value.results.unwrap();
    assert_eq!(joined, format!("{},{}", keys[1], keys[2]));

    let event = store.list_keys(0, 0);
    let joined = event.model.unwrap().value.results.unwrap();
    assert_eq!(joined, "");

    let event = store.list_keys(10, 5);
    let joined = event.model.unwrap().value.results.unwrap();
    assert_eq!(joined, "");
}

#[test]
fn with_list_loads_the_map() {
    let jobs = vec![
        Job::create_model(&Job::new("a", "no-op")),
        Job::create_model(&Job::new("b", "no-op")),
    ];
    let keys: Vec<String> = jobs.iter().map(|m| m.key.clone()).collect();
    let store = JobStore::with_list(jobs);
    assert_eq!(store.len(), 2);
    for key in &keys {
        assert!(store.callback(key).is_some());
    }
}

#[test]
fn subscriber_sees_only_later_events() {
    let mut store = JobStore::new();
    let mut early = store.subscribe();

    let model = Job::create_model(&Job::new("observed", "no-op"));
    let key = model.key.clone();
    store.handle_command(Command::Insert(model));

    let mut late = store.subscribe();

    let event = early.try_recv().expect("the early subscriber should see the insert");
    assert_eq!(event.message, format!("inserted job, id: {}", key));
    assert!(late.try_recv().is_err());
}

#[test]
fn publish_with_zero_subscribers_is_harmless() {
    let mut store = JobStore::new();
    let model = Job::create_model(&Job::new("unobserved", "no-op"));
    let key = model.key.clone();

    // nobody subscribed: the broadcast is skipped, the state still changes
    store.handle_command(Command::Insert(model));
    assert_eq!(store.len(), 1);
    assert!(store.callback(&key).is_some());
}

#[test]
fn commands_drive_the_store() {
    let mut store = JobStore::new();
    let mut events = store.subscribe();

    let model = Job::create_model(&Job::new("driven", "no-op"));
    let key = model.key.clone();

    store.handle_command(Command::Insert(model));
    store.handle_command(Command::Find(key.clone()));
    store.handle_command(Command::ListKeys(0, 10));
    store.handle_command(Command::Remove(key.clone()));

    assert_eq!(events.try_recv().unwrap().message, format!("inserted job, id: {}", key));
    assert_eq!(events.try_recv().unwrap().message, format!("found job id: {}", key));
    let listing = events.try_recv().unwrap();
    assert_eq!(listing.message, "list keys");
    assert_eq!(listing.model.unwrap().value.results.unwrap(), key);
    assert_eq!(events.try_recv().unwrap().message, "job removed");
    assert_eq!(store.len(), 0);
}

#[test]
fn callback_resolves_the_reply_slot() {
    let mut store = JobStore::new();
    let job = Job::new("answered", "no-op");
    let model = Job::create_model(&job);
    let key = model.key.clone();
    store.handle_command(Command::Insert(model));

    let (tx, mut rx) = tokio::sync::oneshot::channel();
    store.handle_command(Command::Callback(key.clone(), tx));
    let reply = rx.try_recv().expect("the reply slot should be resolved");
    assert_eq!(reply.expect("the key should be present").value, job);

    let (tx, mut rx) = tokio::sync::oneshot::channel();
    store.handle_command(Command::Callback(String::from("missing"), tx));
    let reply = rx.try_recv().expect("the reply slot should be resolved");
    assert!(reply.is_none());
}

#[test]
fn abandoned_reply_slot_is_ignored() {
    let mut store = JobStore::new();
    let model = Job::create_model(&Job::new("ignored", "no-op"));
    let key = model.key.clone();
    store.handle_command(Command::Insert(model));

    let (tx, rx) = tokio::sync::oneshot::channel();
    drop(rx);
    // the send is a no-op, the store goes on unharmed
    store.handle_command(Command::Callback(key.clone(), tx));
    assert_eq!(store.len(), 1);
}
