use job_scheduler::config::Config;
use job_scheduler::models::jobs::Job;
use job_scheduler::models::run_at::RunAt;
use job_scheduler::models::Status;

#[test]
fn models_new() {
    let job = Job::new("my test job", "backup");
    let model = Job::create_model(&job);

    assert_eq!(model.value, job);
}

#[test]
fn jobs_new() {
    let job = Job::new("my test job", "backup");
    let model = Job::create_model(&job);

    assert_eq!(model.value, job);
}

#[test]
fn new_job_fields() {
    let job = Job::new("my test job", "backup");
    assert_eq!(job.topic, "my test job");
    assert_eq!(job.action, "backup");
    assert_eq!(job.description, "");
    assert!(job.run_at.is_none());
    assert!(job.results.is_none());
    assert!(job.log.is_empty());
    assert!(job.errors.is_empty());
}

#[test]
fn with_run_at_attaches_the_schedule() {
    let at = RunAt::with_minutes(&vec![15u8]);
    let job = Job::with_run_at("scheduled", "backup", at);
    assert_eq!(job.topic, "scheduled");
    assert_eq!(job.action, "backup");
    let at = job.run_at.expect("the schedule should be attached");
    assert_eq!(at.minutes, vec![15u8]);
}

#[test]
fn create_model_wraps_the_job() {
    let job = Job::new("wrapped", "no-op");
    let model = Job::create_model(&job);

    assert_eq!(model.value, job);
    assert_eq!(model.status, Status::New(0));
    assert!(!model.key.is_empty());
    assert!(model.key.chars().all(|c| c.is_ascii_digit()));
}

#[test]
fn version_is_a_function_of_content() {
    let j1 = Job::new("same", "action");
    let j2 = Job::new("same", "action");
    let j3 = Job::new("same", "other");

    let m1 = Job::create_model(&j1);
    let m2 = Job::create_model(&j2);
    let m3 = Job::create_model(&j3);

    assert_eq!(m1.version, m2.version);
    assert_ne!(m1.version, m3.version);
    // equal content still gets distinct identity keys
    assert_ne!(m1.key, m2.key);
}

#[test]
fn version_of_the_empty_job() {
    // every field empty: seven mixing steps fold in only zeros,
    // so the hash is seed * 31^7
    let model = Job::create_model(&Job::new("", ""));
    assert_eq!(model.version.hash, 17u64 * 31u64.pow(7));
}

#[test]
fn event_mid_is_timestamp_derived() {
    let mut store = job_scheduler::job_store::JobStore::new();
    let event = store.insert(Job::create_model(&Job::new("stamped", "no-op")));
    assert!(!event.mid.is_empty());
    assert!(event.mid.chars().all(|c| c.is_ascii_digit()));
}

#[test]
fn config_copy_keeps_every_field() {
    let config = Config {
        name: String::from("job-scheduler"),
        version: String::from("0.5.0"),
        host: String::from("127.0.0.1"),
        port: 28400,
        auth_key_file: String::from("server.key"),
        logging_config: String::from("config/rolling.yaml"),
        data_folder: String::from("data"),
    };

    let copy = config.copy();
    assert_eq!(copy.name, config.name);
    assert_eq!(copy.version, config.version);
    assert_eq!(copy.host, config.host);
    assert_eq!(copy.port, config.port);
    assert_eq!(copy.auth_key_file, config.auth_key_file);
    assert_eq!(copy.logging_config, config.logging_config);
    assert_eq!(copy.data_folder, config.data_folder);
}
