use tailor::codec::{decode, decode_content, encode, DecodeError};
use tailor::commit::{parse_commit_message, CommitError};
use tailor::config::{Policy, Rule};
use tailor::driver::{accepted_exemptions, exemption_in, exemption_requests, validate, Permission};
use tailor::eval::{EvalError, RuleError};
use tailor::provider::{classify_response, ResponseKind};
use tailor::pull_request::{commit_views, Author, Comment, CommitReference, PullRequest, RawCommit, User};
use tailor::value::Value;
use tailor::worker::{
    event_action, status_job, status_url, validation_status, Commit, EventAction, PullRequestJob, State,
};

fn author(name: &str) -> Author {
    Author {
        name: name.to_string(),
        email: format!("{}@example.com", name),
        date: "2017-08-01T12:00:00+00:00".to_string(),
        github_login: Some(name.to_string()),
    }
}

fn raw(message: &str) -> RawCommit {
    RawCommit {
        sha: "abc".to_string(),
        author: author("ann"),
        committer: author("bob"),
        message: message.to_string(),
    }
}

fn rule(name: &str, expression: &str) -> Rule {
    Rule {
        name: name.to_string(),
        description: format!("{} description", name),
        expression: expression.to_string(),
    }
}

fn comment(login: &str, body: &str) -> Comment {
    Comment {
        user: User { login: login.to_string() },
        body: body.to_string(),
        created_at: "2017-08-01T12:00:00+00:00".to_string(),
    }
}

fn job() -> PullRequestJob {
    PullRequestJob {
        owner: "coreos".to_string(),
        repo: "tailor".to_string(),
        number: 7,
        head_sha: "f00".to_string(),
    }
}

#[test]
fn codec_round_trip() {
    for s in ["", "Failed a (b)", "line one\nline two", "ünïcödé ✓", &"x".repeat(100_000)] {
        let token = encode(s).unwrap();
        assert_ne!(token, s);
        assert!(token.chars().all(|c| c.is_ascii_alphanumeric() || c == '-' || c == '_'));
        assert_eq!(decode(&token), Ok(s.to_string()));
    }
}

#[test]
fn codec_refuses_garbage() {
    assert_eq!(decode("not base64!"), Err(DecodeError::InvalidEncoding));
    assert_eq!(decode("%%%"), Err(DecodeError::InvalidEncoding));
    assert_eq!(decode("AAAA"), Err(DecodeError::InvalidEncoding));
    assert_eq!(decode("AQD_A"), Err(DecodeError::InvalidEncoding));
}

#[test]
fn codec_refuses_non_utf8() {
    // Snappy of the single byte 0xff: length 1, a literal of one byte, 0xff.
    let token = "AQD_";
    assert_eq!(decode(token), Err(DecodeError::InvalidUtf8));
}

#[test]
fn policy_content_is_mime_base64() {
    assert_eq!(decode_content("cnVs\nZXM6IFtd\n"), Some(b"rules: []".to_vec()));
    assert_eq!(decode_content("*"), None);
}

#[test]
fn commit_message_parts() {
    let m = parse_commit_message("title\n\nfirst\nsecond\n").unwrap();
    assert_eq!(m.title, "title");
    assert_eq!(m.description, "first\nsecond");
    let m = parse_commit_message("only a title").unwrap();
    assert_eq!(m.title, "only a title");
    assert_eq!(m.description, "");
    let m = parse_commit_message("crlf\r\n\r\nbody\r\n").unwrap();
    assert_eq!(m.title, "crlf");
    assert_eq!(m.description, "body");
    let m = parse_commit_message("").unwrap();
    assert_eq!(m.title, "");
}

#[test]
fn malformed_commit_is_refused() {
    assert!(matches!(
        parse_commit_message("title\nno blank line"),
        Err(CommitError::Malformed)
    ));
    assert!(commit_views(vec![raw("good\n\nbody"), raw("bad\nbody")]).is_err());
    let views = commit_views(vec![raw("good\n\nbody"), raw("fine")]).unwrap();
    assert_eq!(views.len(), 2);
    assert_eq!(views[0].title, "good");
    assert_eq!(views[0].description, "body");
}

fn pull_request() -> PullRequest {
    PullRequest {
        user: User { login: "ann".to_string() },
        title: "Add things".to_string(),
        body: None,
        commits: commit_views(vec![raw("one\n\nfirst"), raw("two")]).unwrap(),
        comments: vec![comment("bob", "looks good")],
        base: CommitReference { sha: "b45e".to_string(), user: User { login: "coreos".to_string() } },
        head: CommitReference { sha: "f00".to_string(), user: User { login: "ann".to_string() } },
        head_sha: "f00".to_string(),
    }
}

#[test]
fn projection_hides_head_sha() {
    let v = pull_request().to_value();
    match &v {
        Value::Dictionary(entries) => {
            let keys: Vec<&str> = entries.iter().map(|(k, _)| k.as_str()).collect();
            assert_eq!(keys, vec!["user", "title", "body", "commits", "comments", "base", "head"]);
            assert!(!keys.contains(&"head_sha"));
        }
        _ => panic!("dictionary expected"),
    }
    assert_eq!(tailor::eval::eval(".commits length = 2", &v), Ok(true));
    assert_eq!(tailor::eval::eval(r#".body = """#, &v), Ok(true));
    assert_eq!(tailor::eval::eval(r#".user.login = "ann""#, &v), Ok(true));
    assert_eq!(
        tailor::eval::eval(".sha length", &v),
        Err(RuleError::Eval(EvalError::KeyNotFound))
    );
    assert_eq!(
        tailor::eval::eval(r#".head.sha = "f00""#, &v),
        Err(RuleError::Eval(EvalError::KeyNotFound))
    );
    assert_eq!(tailor::eval::eval(r#".head.user.login = "ann""#, &v), Ok(true));
    assert_eq!(tailor::eval::eval(r#".base.sha = "b45e""#, &v), Ok(true));
    assert_eq!(
        tailor::eval::eval(r#".commits any (.title = "one")"#, &v),
        Ok(true)
    );
    assert_eq!(
        tailor::eval::eval(r#".commits all (.title = "one")"#, &v),
        Ok(false)
    );
}

#[test]
fn exemption_requests_are_read_from_comments() {
    assert_eq!(exemption_in("tailor disable no-wip"), Some("no-wip".to_string()));
    assert_eq!(exemption_in("tailor disable   spaced  \nmore"), Some("spaced".to_string()));
    assert_eq!(exemption_in("please tailor disable x"), None);
    assert_eq!(exemption_in("tailor disable\u{3000}X\u{a0}"), Some("X".to_string()));
    assert_eq!(exemption_in("tailor disable\u{2003}\tY \r\nZ"), Some("Y".to_string()));
    let comments = vec![
        comment("admin", "tailor disable title-length"),
        comment("dev", "tailor disable body"),
        comment("dev", "nice"),
    ];
    let requests = exemption_requests(&comments);
    assert_eq!(requests.len(), 2);
    assert_eq!(requests[0].login, "admin");
    assert_eq!(requests[1].rule, "body");
}

#[test]
fn exemption_requires_admin() {
    let comments = vec![comment("someone", "tailor disable X")];
    let requests = exemption_requests(&comments);
    let granted = accepted_exemptions(&requests, &vec![Permission::Write]);
    assert!(granted.is_empty());
    let granted = accepted_exemptions(&requests, &vec![Permission::Admin]);
    assert_eq!(granted, vec!["X".to_string()]);
    let policy = Policy { rules: vec![rule("X", "false")] };
    let ctx = Value::Dictionary(Vec::new());
    assert_eq!(validate(&policy, &Vec::new(), &ctx).unwrap(), vec!["Failed X (X description)".to_string()]);
    assert!(validate(&policy, &granted, &ctx).unwrap().is_empty());
}

#[test]
fn validation_lists_failures_in_order() {
    let policy = Policy {
        rules: vec![rule("a", "true"), rule("b", "false"), rule("c", "1 = 2"), rule("d", "false")],
    };
    let ctx = Value::Dictionary(Vec::new());
    let failures = validate(&policy, &vec!["d".to_string()], &ctx).unwrap();
    assert_eq!(failures, vec!["Failed b (b description)".to_string(), "Failed c (c description)".to_string()]);
    assert!(validate(&policy, &vec!["all".to_string()], &ctx).unwrap().is_empty());
    assert!(validate(&Policy::empty(), &Vec::new(), &ctx).unwrap().is_empty());
}

#[test]
fn validation_stops_on_rule_error() {
    let policy = Policy { rules: vec![rule("a", "false"), rule("bad", "true length"), rule("c", "(")] };
    let err = validate(&policy, &Vec::new(), &Value::Dictionary(Vec::new())).unwrap_err();
    assert_eq!(err.rule, "bad");
    assert_eq!(err.error, RuleError::Eval(EvalError::TypeError));
}

#[test]
fn statuses_after_validation() {
    let (state, description, url) = validation_status(&Ok(Vec::new()), &job(), "example.com");
    assert_eq!(state, State::Success);
    assert_eq!(description, "All checks passed");
    assert_eq!(url, None);

    let failures = vec!["Failed a (x)".to_string(), "Failed b (y)".to_string()];
    let (state, description, url) = validation_status(&Ok(failures), &job(), "example.com");
    assert_eq!(state, State::Failure);
    assert_eq!(description, "One or more checks failed");
    let url = url.unwrap();
    let token = url.strip_prefix("http://example.com/status?snap=").unwrap();
    assert_eq!(decode(token).unwrap(), "Failed a (x)\nFailed b (y)");

    let policy = Policy { rules: vec![rule("bad", "(")] };
    let outcome = validate(&policy, &Vec::new(), &Value::Dictionary(Vec::new()));
    let (state, description, url) = validation_status(&outcome, &job(), "example.com");
    assert_eq!(state, State::Error);
    assert_eq!(description, "Failed to evaluate rules");
    let token = url.unwrap().strip_prefix("http://example.com/status?snap=").unwrap().to_string();
    assert_eq!(decode(&token).unwrap(), r#"Failed to run "bad" from "coreos/tailor""#);
}

#[test]
fn status_jobs_carry_the_context() {
    let j = status_job(
        State::Pending,
        "The pull request has been received".to_string(),
        None,
        Commit { owner: "o".to_string(), repo: "r".to_string(), sha: "s".to_string() },
    );
    assert_eq!(j.status.context, "tailor");
    assert_eq!(j.status.state.name(), "pending");
    assert_eq!(status_url("h:1", "x").unwrap(), format!("http://h:1/status?snap={}", encode("x").unwrap()));
}

#[test]
fn webhook_events() {
    assert_eq!(event_action(true, true, None), EventAction::Acknowledge);
    assert_eq!(event_action(false, false, Some("opened")), EventAction::NotPullRequest);
    assert_eq!(event_action(false, true, Some("closed")), EventAction::Closed);
    assert_eq!(event_action(false, true, Some("opened")), EventAction::Validate);
    assert_eq!(event_action(false, true, None), EventAction::Validate);
}

#[test]
fn provider_responses() {
    assert_eq!(classify_response(200, true), ResponseKind::Success);
    assert_eq!(classify_response(201, true), ResponseKind::Success);
    assert_eq!(classify_response(404, true), ResponseKind::BusinessError);
    assert_eq!(classify_response(200, false), ResponseKind::TransportError);
}

#[test]
fn job_queue_is_first_in_first_out() {
    let mut q = tailor::worker::JobQueue::new();
    assert!(q.pop().is_none());
    let commit = |sha: &str| Commit { owner: "o".to_string(), repo: "r".to_string(), sha: sha.to_string() };
    q.push(tailor::worker::Job::Status(status_job(State::Pending, "A".to_string(), None, commit("a"))));
    q.push(tailor::worker::Job::Status(status_job(State::Success, "B".to_string(), None, commit("b"))));
    assert_eq!(q.len(), 2);
    match q.pop() {
        Some(tailor::worker::Job::Status(j)) => assert_eq!(j.status.description, "A"),
        _ => panic!("status A expected"),
    }
    match q.pop() {
        Some(tailor::worker::Job::Status(j)) => assert_eq!(j.status.description, "B"),
        _ => panic!("status B expected"),
    }
    assert!(q.pop().is_none());
}
