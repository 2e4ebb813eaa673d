//! The jobs of the worker and the statuses it posts: what a finished
//! validation turns into, and how a webhook event is handled.
use vstd::prelude::*;
use vstd::string::StringExecFns;
use vstd::utf8::encode_utf8;
use crate::codec::{encode, status_token, MAX_TEXT_BYTES};
use crate::commit::join_lines;
use crate::driver::ValidationError;
use crate::text::views_of;
use std::collections::VecDeque;

verus! {

/// The state of a commit status.
#[derive(Clone, Copy, Debug, PartialEq, Eq, Structural)]
pub enum State {
    Success,
    Pending,
    Failure,
    Error,
}

impl State {
    /// The provider's name of the state.
    pub fn name(&self) -> (r: String)
        ensures
            r@ == state_name(*self),
    {
        match self {
            State::Success => String::from_str("success"),
            State::Pending => String::from_str("pending"),
            State::Failure => String::from_str("failure"),
            State::Error => String::from_str("error"),
        }
    }
}

pub open spec fn state_name(s: State) -> Seq<char> {
    match s {
        State::Success => "success"@,
        State::Pending => "pending"@,
        State::Failure => "failure"@,
        State::Error => "error"@,
    }
}

/// A commit status as the provider takes it.
#[derive(Debug)]
pub struct Status {
    pub state: State,
    pub description: String,
    pub context: String,
    pub target_url: Option<String>,
}

/// The commit that a status is for.
#[derive(Debug)]
pub struct Commit {
    pub owner: String,
    pub repo: String,
    pub sha: String,
}

/// A status to post.
#[derive(Debug)]
pub struct StatusJob {
    pub status: Status,
    pub commit: Commit,
}

/// A pull request to validate.
#[derive(Debug)]
pub struct PullRequestJob {
    pub owner: String,
    pub repo: String,
    pub number: usize,
    pub head_sha: String,
}

/// A work item of the worker.
#[derive(Debug)]
pub enum Job {
    Status(StatusJob),
    PullRequest(PullRequestJob),
}

/// The status job for `commit`; its context is always `tailor`.
pub fn status_job(state: State, description: String, url: Option<String>, commit: Commit) -> (r: StatusJob)
    ensures
        r.status.state == state,
        r.status.description == description,
        r.status.target_url == url,
        r.status.context@ == "tailor"@,
        r.commit == commit,
{
    StatusJob {
        status: Status { state, description, context: String::from_str("tailor"), target_url: url },
        commit,
    }
}

/// The link to the status page that shows `text`, on the server `address`.
pub open spec fn status_link(address: Seq<char>, text: Seq<char>) -> Seq<char> {
    "http://"@ + address + "/status?snap="@ + status_token(text)
}

/// The link to the status page that shows `text`; `None` only when `text`
/// is too long to compress.
pub fn status_url(address: &str, text: &str) -> (r: Option<String>)
    ensures
        r matches Some(u) ==> u@ == status_link(address@, text@),
        encode_utf8(text@).len() <= MAX_TEXT_BYTES ==> r is Some,
{
    match encode(text) {
        Some(token) => {
            let mut u = String::from_str("http://");
            u.append(address);
            u.append("/status?snap=");
            u.append(token.as_str());
            Some(u)
        },
        None => None,
    }
}

/// The failures, one per line.
pub fn join_failures(failures: &Vec<String>) -> (r: String)
    ensures
        r@ == join_lines(views_of(failures@)),
{
    let ghost ls = views_of(failures@);
    if failures.len() == 0 {
        return String::new();
    }
    let mut out = failures[0].clone();
    let mut k: usize = 1;
    proof {
        assert(ls.take(1) =~= seq![ls[0]]);
    }
    while k < failures.len()
        invariant
            ls == views_of(failures@),
            1 <= k <= failures.len(),
            out@ == join_lines(ls.take(k as int)),
        decreases failures.len() - k,
    {
        out.append("\n");
        out.append(failures[k].as_str());
        proof {
            reveal_strlit("\n");
            let t = ls.take(k + 1);
            assert(t.drop_last() =~= ls.take(k as int));
        }
        k = k + 1;
    }
    proof {
        assert(ls.take(failures.len() as int) =~= ls);
    }
    out
}

/// The text shown for a validation that stopped on `e` while validating the
/// pull request of `owner/repo`.
pub open spec fn error_text(e: ValidationError, owner: Seq<char>, repo: Seq<char>) -> Seq<char> {
    "Failed to run \""@ + e.rule@ + "\" from \""@ + owner + "/"@ + repo + "\""@
}

/// The text shown for a validation that stopped on `e`.
pub fn validation_error_text(e: &ValidationError, job: &PullRequestJob) -> (r: String)
    ensures
        r@ == error_text(*e, job.owner@, job.repo@),
{
    let mut out = String::from_str("Failed to run \"");
    out.append(e.rule.as_str());
    out.append("\" from \"");
    out.append(job.owner.as_str());
    out.append("/");
    out.append(job.repo.as_str());
    out.append("\"");
    out
}

/// The status that a finished validation of `job` turns into: success when
/// nothing failed; failure with a link to the failures; error with a link to
/// the error text. When no link can be made, an error without one.
pub fn validation_status(outcome: &Result<Vec<String>, ValidationError>, job: &PullRequestJob, address: &str) -> (r: (State, String, Option<String>))
    ensures
        match outcome {
            Ok(f) => if f@.len() == 0 {
                r.0 == State::Success && r.1@ == "All checks passed"@ && r.2 is None
            } else {
                let text = join_lines(views_of(f@));
                match r.2 {
                    Some(u) => r.0 == State::Failure && r.1@ == "One or more checks failed"@ && u@ == status_link(address@, text),
                    None => r.0 == State::Error && r.1@ == "Failed to create status page"@ && encode_utf8(text).len() > MAX_TEXT_BYTES,
                }
            },
            Err(e) => {
                let text = error_text(*e, job.owner@, job.repo@);
                match r.2 {
                    Some(u) => r.0 == State::Error && r.1@ == "Failed to evaluate rules"@ && u@ == status_link(address@, text),
                    None => r.0 == State::Error && r.1@ == "Failed to create status page"@ && encode_utf8(text).len() > MAX_TEXT_BYTES,
                }
            },
        },
{
    match outcome {
        Ok(f) => {
            if f.len() == 0 {
                return (State::Success, String::from_str("All checks passed"), None);
            }
            let text = join_failures(f);
            match status_url(address, text.as_str()) {
                Some(u) => (State::Failure, String::from_str("One or more checks failed"), Some(u)),
                None => (State::Error, String::from_str("Failed to create status page"), None),
            }
        },
        Err(e) => {
            let text = validation_error_text(e, job);
            match status_url(address, text.as_str()) {
                Some(u) => (State::Error, String::from_str("Failed to evaluate rules"), Some(u)),
                None => (State::Error, String::from_str("Failed to create status page"), None),
            }
        },
    }
}

/// What to do with a webhook event.
#[derive(Clone, Copy, Debug, PartialEq, Eq, Structural)]
pub enum EventAction {
    /// The event registers the hook: acknowledge it.
    Acknowledge,
    /// The event is not about a pull request: ignore it.
    NotPullRequest,
    /// The pull request was closed: ignore it.
    Closed,
    /// Post a pending status and queue the pull request for validation.
    Validate,
}

/// The handling of a webhook event that carries a hook registration
/// (`has_hook`), a pull request (`has_pull_request`) and an action.
pub fn event_action(has_hook: bool, has_pull_request: bool, action: Option<&str>) -> (r: EventAction)
    ensures
        r == (if has_hook {
            EventAction::Acknowledge
        } else if !has_pull_request {
            EventAction::NotPullRequest
        } else if action matches Some(a) && a@ == "closed"@ {
            EventAction::Closed
        } else {
            EventAction::Validate
        }),
{
    if has_hook {
        return EventAction::Acknowledge;
    }
    if !has_pull_request {
        return EventAction::NotPullRequest;
    }
    match action {
        Some(a) => {
            let closed = String::from_str("closed");
            let given = a.to_owned();
            if given.eq(&closed) {
                EventAction::Closed
            } else {
                EventAction::Validate
            }
        },
        None => EventAction::Validate,
    }
}

/// The worker's queue of jobs: first in, first out.
pub struct JobQueue {
    jobs: VecDeque<Job>,
}

impl View for JobQueue {
    type V = Seq<Job>;

    closed spec fn view(&self) -> Seq<Job> {
        self.jobs@
    }
}

impl JobQueue {
    /// An empty queue.
    pub fn new() -> (r: JobQueue)
        ensures
            r@ == Seq::<Job>::empty(),
    {
        JobQueue { jobs: VecDeque::new() }
    }

    /// The number of jobs waiting.
    pub fn len(&self) -> (r: usize)
        ensures
            r == self@.len(),
    {
        self.jobs.len()
    }

    /// Adds `job` at the back.
    pub fn push(&mut self, job: Job)
        ensures
            final(self)@ == old(self)@.push(job),
    {
        self.jobs.push_back(job);
    }

    /// Takes the job at the front, if there is one.
    pub fn pop(&mut self) -> (r: Option<Job>)
        ensures
            old(self)@.len() == 0 ==> r is None && final(self)@ == old(self)@,
            old(self)@.len() > 0 ==> r == Some(old(self)@[0]) && final(self)@ == old(self)@.drop_first(),
    {
        let r = self.jobs.pop_front();
        proof {
            if r is Some {
                assert(old(self)@.subrange(1, old(self)@.len() as int) =~= old(self)@.drop_first());
            }
        }
        r
    }
}

/// Law: jobs leave the queue in the order they entered it. Whatever the
/// queue held before, after pushing `a` and then `b`, once the earlier jobs
/// have left, `a` leaves first and `b` next.
pub proof fn law_first_in_first_out(before: Seq<Job>, a: Job, b: Job)
    ensures
        ({
            let q = before.push(a).push(b);
            &&& q.skip(before.len() as int)[0] == a
            &&& q.skip(before.len() as int).drop_first()[0] == b
            &&& q.skip(before.len() as int).drop_first().drop_first() == Seq::<Job>::empty()
        }),
{
    let q = before.push(a).push(b);
    assert(q.skip(before.len() as int) =~= seq![a, b]);
    assert(seq![a, b].drop_first().drop_first() =~= Seq::<Job>::empty());
}

} // verus!
