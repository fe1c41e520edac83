//! Job models: the job value stored in the system and the event
//! broadcast after each store operation.

use crate::hashing::{
    hash_bytes, hash_opt_string, hash_string, hash_strings, hash_words, mix, spec_hash_bytes,
    spec_hash_opt_string, spec_hash_string, spec_hash_strings, spec_hash_words, spec_mix,
};
use crate::keys::RouteKey;
use crate::keys::TimeStampKey;
use crate::models::run_at::{RunAt, RunAtV};
use crate::models::{Model, ModelV, Status, Version};
use vstd::prelude::*;
use vstd::string::StringExecFns;

verus! {

/// The notification value broadcast by the store: a timestamp-derived
/// message id, a human-readable description, and a snapshot of the
/// envelope the operation touched, when there is one.
#[derive(Debug, Default)]
pub struct JobEvent {
    pub mid: String,
    pub message: String,
    pub model: Option<Model<Job>>,
}

/// The mathematical content of a job event.
#[verifier::ext_equal]
pub ghost struct JobEventV {
    pub mid: Seq<char>,
    pub message: Seq<char>,
    pub model: Option<ModelV<JobV>>,
}

impl View for JobEvent {
    type V = JobEventV;

    open spec fn view(&self) -> JobEventV {
        JobEventV {
            mid: self.mid@,
            message: self.message@,
            model: self.model.deep_view(),
        }
    }
}

impl JobEvent {
    /// create a new job event
    pub fn new(message: &str, model: Option<Model<Job>>) -> (e: JobEvent)
        ensures
            e.message@ == message@,
            e.model == model,
            e.mid@.len() >= 1,
    {
        JobEvent { mid: TimeStampKey::create(), message: String::from_str(message), model }
    }
}

impl Clone for JobEvent {
    /// A clone keeps the whole content.
    fn clone(&self) -> (res: Self)
        ensures
            res@ == self@,
    {
        let res = JobEvent {
            mid: self.mid.clone(),
            message: self.message.clone(),
            model: match &self.model {
                Some(m) => Some(m.clone()),
                None => None,
            },
        };
        proof {
            assert(res.model.deep_view() == self.model.deep_view());
            assert(res@ =~= self@);
        }
        res
    }
}

/// Job struct is designed to be serializable to enable saving to disk
/// or a database before actions are run.
#[derive(Debug, Default, Hash, PartialEq, Eq, PartialOrd, Ord)]
pub struct Job {
    pub topic: String,
    pub description: String,
    pub run_at: Option<RunAt>,
    /// an OS Exec command with params, never invoked by this core
    pub action: String,
    /// could be a simple string, comma delimited list, or json blob
    pub results: Option<String>,
    pub log: Vec<String>,
    pub errors: Vec<String>,
}

/// The mathematical content of a job: every field down to plain
/// sequences.
#[verifier::ext_equal]
pub ghost struct JobV {
    pub topic: Seq<char>,
    pub description: Seq<char>,
    pub run_at: Option<RunAtV>,
    pub action: Seq<char>,
    pub results: Option<Seq<char>>,
    pub log: Seq<Seq<char>>,
    pub errors: Seq<Seq<char>>,
}

impl View for Job {
    type V = JobV;

    open spec fn view(&self) -> JobV {
        JobV {
            topic: self.topic@,
            description: self.description@,
            run_at: self.run_at.deep_view(),
            action: self.action@,
            results: self.results.deep_view(),
            log: self.log.deep_view(),
            errors: self.errors.deep_view(),
        }
    }
}

impl DeepView for Job {
    type V = JobV;

    open spec fn deep_view(&self) -> JobV {
        self.view()
    }
}

impl Clone for Job {
    /// A clone keeps the whole content.
    fn clone(&self) -> (res: Self)
        ensures
            res@ == self@,
    {
        let res = Job {
            topic: self.topic.clone(),
            description: self.description.clone(),
            run_at: match &self.run_at {
                Some(r) => Some(r.clone()),
                None => None,
            },
            action: self.action.clone(),
            results: match &self.results {
                Some(s) => Some(s.clone()),
                None => None,
            },
            log: self.log.clone(),
            errors: self.errors.clone(),
        };
        proof {
            assert(res.run_at.deep_view() == self.run_at.deep_view());
            assert(res.results.deep_view() == self.results.deep_view());
            assert(res.log.deep_view() =~= self.log.deep_view());
            assert(res.errors.deep_view() =~= self.errors.deep_view());
            assert(res@ =~= self@);
        }
        res
    }
}

impl Clone for Model<Job> {
    /// A clone keeps the whole envelope content.
    fn clone(&self) -> (res: Self)
        ensures
            res@ == self@,
    {
        let res = Model {
            key: self.key.clone(),
            version: self.version,
            status: self.status,
            value: self.value.clone(),
        };
        proof {
            assert(res@ =~= self@);
        }
        res
    }
}

/// The accumulator every content hash starts from.
pub const HASH_SEED: u64 = 17;

/// The content hash of a schedule: its six lists, in field order.
pub open spec fn spec_hash_run_at(h: u64, r: RunAtV) -> u64 {
    let h1 = spec_hash_bytes(h, r.minutes);
    let h2 = spec_hash_bytes(h1, r.hours);
    let h3 = spec_hash_bytes(h2, r.days_of_month);
    let h4 = spec_hash_bytes(h3, r.days_of_week);
    let h5 = spec_hash_bytes(h4, r.months);
    spec_hash_words(h5, r.years)
}

fn hash_run_at(h: u64, r: &RunAt) -> (res: u64)
    ensures
        res == spec_hash_run_at(h, r@),
{
    let h1 = hash_bytes(h, &r.minutes);
    let h2 = hash_bytes(h1, &r.hours);
    let h3 = hash_bytes(h2, &r.days_of_month);
    let h4 = hash_bytes(h3, &r.days_of_week);
    let h5 = hash_bytes(h4, &r.months);
    hash_words(h5, &r.years)
}

/// The content hash of an optional schedule: a tag for absence or
/// presence, then the schedule itself when present.
pub open spec fn spec_hash_opt_run_at(h: u64, r: Option<RunAtV>) -> u64 {
    match r {
        None => spec_mix(h, 0),
        Some(v) => spec_hash_run_at(spec_mix(h, 1), v),
    }
}

fn hash_opt_run_at(h: u64, r: &Option<RunAt>) -> (res: u64)
    ensures
        res == spec_hash_opt_run_at(h, r.deep_view()),
{
    match r {
        None => mix(h, 0),
        Some(v) => {
            let h1 = mix(h, 1);
            hash_run_at(h1, v)
        },
    }
}

/// The content hash of a job: every field folded in, in declaration
/// order, so that the hash is a function of the job's content alone.
pub open spec fn spec_job_hash(j: JobV) -> u64 {
    let h1 = spec_hash_string(HASH_SEED, j.topic);
    let h2 = spec_hash_string(h1, j.description);
    let h3 = spec_hash_opt_run_at(h2, j.run_at);
    let h4 = spec_hash_string(h3, j.action);
    let h5 = spec_hash_opt_string(h4, j.results);
    let h6 = spec_hash_strings(spec_mix(h5, j.log.len() as u64), j.log);
    spec_hash_strings(spec_mix(h6, j.errors.len() as u64), j.errors)
}

impl Model<Job> {
    /// derive the content hash that versions a job's content
    pub fn calc_hash(value: &Job) -> (h: u64)
        ensures
            h == spec_job_hash(value@),
    {
        let h1 = hash_string(HASH_SEED, &value.topic);
        let h2 = hash_string(h1, &value.description);
        let h3 = hash_opt_run_at(h2, &value.run_at);
        let h4 = hash_string(h3, &value.action);
        let h5 = hash_opt_string(h4, &value.results);
        let h6 = hash_strings(h5, &value.log);
        hash_strings(h6, &value.errors)
    }
}

impl Job {
    /// create a new job with topic and action
    pub fn new(topic: &str, action: &str) -> (job: Job)
        ensures
            job@ == (JobV {
                topic: topic@,
                description: Seq::empty(),
                run_at: None,
                action: action@,
                results: None,
                log: Seq::empty(),
                errors: Seq::empty(),
            }),
    {
        let job = Job {
            topic: String::from_str(topic),
            description: String::new(),
            run_at: None,
            action: String::from_str(action),
            results: None,
            log: Vec::new(),
            errors: Vec::new(),
        };
        proof {
            assert(job.log.deep_view() =~= Seq::<Seq<char>>::empty());
            assert(job.errors.deep_view() =~= Seq::<Seq<char>>::empty());
            assert(job@ =~= (JobV {
                topic: topic@,
                description: Seq::empty(),
                run_at: None,
                action: action@,
                results: None,
                log: Seq::empty(),
                errors: Seq::empty(),
            }));
        }
        job
    }

    /// create the job with topic, action and a run at time definition
    pub fn with_run_at(topic: &str, action: &str, run_at: RunAt) -> (job: Job)
        ensures
            job@ == (JobV {
                topic: topic@,
                description: Seq::empty(),
                run_at: Some(run_at@),
                action: action@,
                results: None,
                log: Seq::empty(),
                errors: Seq::empty(),
            }),
    {
        let mut job = Job::new(topic, action);
        job.run_at = Some(run_at);
        proof {
            assert(job@ =~= (JobV {
                topic: topic@,
                description: Seq::empty(),
                run_at: Some(run_at@),
                action: action@,
                results: None,
                log: Seq::empty(),
                errors: Seq::empty(),
            }));
        }
        job
    }

    /// create a new job wrapper model
    pub fn create_model(job: &Job) -> (m: Model<Job>)
        ensures
            m@.value == job@,
            m@.version == (Version { hash: spec_job_hash(job@) }),
            m@.status == Status::New(0),
            m@.key.len() >= 1,
            m@.key == m.key@,
    {
        let hash = Model::calc_hash(job);
        let key = RouteKey::create();
        let version = Version::new(hash);
        let status = Status::New(0);

        let model: Model<Job> = Model::create_model(key, &version, &status, job.clone());

        model
    }
}

} // verus!
