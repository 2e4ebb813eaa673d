//! The records of a pull request and their projection into dictionaries,
//! the evaluation context of rules.
use vstd::prelude::*;
use crate::commit::{
    description_of, is_malformed, message_lines, parse_commit_message, title_of, CommitError,
};
use crate::value::{
    entries_model, exprs_model, lemma_exprs_model_push, literal, Expr, ExprModel, Value,
    ValueModel,
};

verus! {

/// A user of the code-hosting provider.
#[derive(Debug)]
pub struct User {
    pub login: String,
}

/// The author or committer of a commit. `date` is RFC 3339 text.
#[derive(Debug)]
pub struct Author {
    pub name: String,
    pub email: String,
    pub date: String,
    pub github_login: Option<String>,
}

/// A comment on a pull request. `created_at` is RFC 3339 text.
#[derive(Debug)]
pub struct Comment {
    pub user: User,
    pub body: String,
    pub created_at: String,
}

/// A branch tip that a pull request starts from or merges into.
#[derive(Debug)]
pub struct CommitReference {
    pub sha: String,
    pub user: User,
}

/// A commit as the provider lists it, with its whole message.
#[derive(Debug)]
pub struct RawCommit {
    pub sha: String,
    pub author: Author,
    pub committer: Author,
    pub message: String,
}

/// A commit as rules see it: its message taken apart.
#[derive(Debug)]
pub struct Commit {
    pub sha: String,
    pub author: Author,
    pub committer: Author,
    pub title: String,
    pub description: String,
}

/// A pull request as rules see it. The head SHA is hidden from rules: the
/// field `head_sha` is not projected, and `head` is projected without its
/// `sha`.
#[derive(Debug)]
pub struct PullRequest {
    pub user: User,
    pub title: String,
    pub body: Option<String>,
    pub commits: Vec<Commit>,
    pub comments: Vec<Comment>,
    pub base: CommitReference,
    pub head: CommitReference,
    pub head_sha: String,
}

pub open spec fn str_model(s: String) -> ValueModel {
    ValueModel::Str(s@)
}

/// An absent text is projected as the empty string.
pub open spec fn opt_str_model(s: Option<String>) -> ValueModel {
    match s {
        Some(t) => ValueModel::Str(t@),
        None => ValueModel::Str(Seq::empty()),
    }
}

pub open spec fn user_model(u: User) -> ValueModel {
    ValueModel::Dictionary(Map::empty().insert("login"@, str_model(u.login)))
}

pub open spec fn author_model(a: Author) -> ValueModel {
    ValueModel::Dictionary(
        Map::empty().insert("name"@, str_model(a.name)).insert("email"@, str_model(a.email)).insert(
            "date"@,
            str_model(a.date),
        ).insert("github_login"@, opt_str_model(a.github_login)),
    )
}

pub open spec fn comment_model(c: Comment) -> ValueModel {
    ValueModel::Dictionary(
        Map::empty().insert("user"@, user_model(c.user)).insert("body"@, str_model(c.body)).insert(
            "created_at"@,
            str_model(c.created_at),
        ),
    )
}

pub open spec fn reference_model(r: CommitReference) -> ValueModel {
    ValueModel::Dictionary(
        Map::empty().insert("sha"@, str_model(r.sha)).insert("user"@, user_model(r.user)),
    )
}

/// The head of a pull request as rules see it: its user, not its SHA.
pub open spec fn head_model(r: CommitReference) -> ValueModel {
    ValueModel::Dictionary(Map::empty().insert("user"@, user_model(r.user)))
}

pub open spec fn commit_model(c: Commit) -> ValueModel {
    ValueModel::Dictionary(
        Map::empty().insert("sha"@, str_model(c.sha)).insert("author"@, author_model(c.author)).insert(
            "committer"@,
            author_model(c.committer),
        ).insert("title"@, str_model(c.title)).insert("description"@, str_model(c.description)),
    )
}

/// The fields of a pull request that rules see, by name.
pub open spec fn pull_request_map(p: PullRequest) -> Map<Seq<char>, ValueModel> {
    Map::empty().insert("user"@, user_model(p.user)).insert("title"@, str_model(p.title)).insert(
        "body"@,
        opt_str_model(p.body),
    ).insert("commits"@, ValueModel::List(p.commits@.map_values(|c: Commit| ExprModel::Literal(commit_model(c))))).insert(
        "comments"@,
        ValueModel::List(p.comments@.map_values(|c: Comment| ExprModel::Literal(comment_model(c)))),
    ).insert("base"@, reference_model(p.base)).insert("head"@, head_model(p.head))
}

pub open spec fn pull_request_model(p: PullRequest) -> ValueModel {
    ValueModel::Dictionary(pull_request_map(p))
}

fn push_entry(entries: &mut Vec<(String, Value)>, key: &str, v: Value)
    ensures
        entries_model(final(entries)@) == entries_model(old(entries)@).insert(key@, v@),
{
    let ghost before = entries@;
    entries.push((key.to_owned(), v));
    assert(entries@.drop_last() =~= before);
}

fn text_value(s: &String) -> (r: Value)
    ensures
        r@ == str_model(*s),
{
    Value::String(s.clone())
}

fn optional_text_value(s: &Option<String>) -> (r: Value)
    ensures
        r@ == opt_str_model(*s),
{
    match s {
        Some(t) => Value::String(t.clone()),
        None => Value::String(String::new()),
    }
}

impl User {
    pub fn to_value(&self) -> (r: Value)
        ensures
            r@ == user_model(*self),
    {
        let mut d: Vec<(String, Value)> = Vec::new();
        push_entry(&mut d, "login", text_value(&self.login));
        Value::Dictionary(d)
    }
}

impl Author {
    pub fn to_value(&self) -> (r: Value)
        ensures
            r@ == author_model(*self),
    {
        let mut d: Vec<(String, Value)> = Vec::new();
        push_entry(&mut d, "name", text_value(&self.name));
        push_entry(&mut d, "email", text_value(&self.email));
        push_entry(&mut d, "date", text_value(&self.date));
        push_entry(&mut d, "github_login", optional_text_value(&self.github_login));
        Value::Dictionary(d)
    }
}

impl Comment {
    pub fn to_value(&self) -> (r: Value)
        ensures
            r@ == comment_model(*self),
    {
        let mut d: Vec<(String, Value)> = Vec::new();
        push_entry(&mut d, "user", self.user.to_value());
        push_entry(&mut d, "body", text_value(&self.body));
        push_entry(&mut d, "created_at", text_value(&self.created_at));
        Value::Dictionary(d)
    }
}

impl CommitReference {
    pub fn to_value(&self) -> (r: Value)
        ensures
            r@ == reference_model(*self),
    {
        let mut d: Vec<(String, Value)> = Vec::new();
        push_entry(&mut d, "sha", text_value(&self.sha));
        push_entry(&mut d, "user", self.user.to_value());
        Value::Dictionary(d)
    }
}

/// The head of a pull request as rules see it, without its SHA.
fn head_value(r: &CommitReference) -> (v: Value)
    ensures
        v@ == head_model(*r),
{
    let mut d: Vec<(String, Value)> = Vec::new();
    push_entry(&mut d, "user", r.user.to_value());
    Value::Dictionary(d)
}

impl Commit {
    pub fn to_value(&self) -> (r: Value)
        ensures
            r@ == commit_model(*self),
    {
        let mut d: Vec<(String, Value)> = Vec::new();
        push_entry(&mut d, "sha", text_value(&self.sha));
        push_entry(&mut d, "author", self.author.to_value());
        push_entry(&mut d, "committer", self.committer.to_value());
        push_entry(&mut d, "title", text_value(&self.title));
        push_entry(&mut d, "description", text_value(&self.description));
        Value::Dictionary(d)
    }
}

fn commits_value(cs: &Vec<Commit>) -> (r: Value)
    ensures
        r@ == ValueModel::List(cs@.map_values(|c: Commit| ExprModel::Literal(commit_model(c)))),
{
    let mut out: Vec<Expr> = Vec::new();
    let mut i: usize = 0;
    while i < cs.len()
        invariant
            i <= cs.len(),
            exprs_model(out@) == cs@.take(i as int).map_values(|c: Commit| ExprModel::Literal(commit_model(c))),
        decreases cs.len() - i,
    {
        let x = literal(cs[i].to_value());
        proof {
            lemma_exprs_model_push(out@, x);
            assert(cs@.take(i + 1).map_values(|c: Commit| ExprModel::Literal(commit_model(c))) =~= cs@.take(
                i as int,
            ).map_values(|c: Commit| ExprModel::Literal(commit_model(c))).push(x@));
        }
        out.push(x);
        i = i + 1;
    }
    assert(cs@.take(cs.len() as int) =~= cs@);
    Value::List(out)
}

fn comments_value(cs: &Vec<Comment>) -> (r: Value)
    ensures
        r@ == ValueModel::List(cs@.map_values(|c: Comment| ExprModel::Literal(comment_model(c)))),
{
    let mut out: Vec<Expr> = Vec::new();
    let mut i: usize = 0;
    while i < cs.len()
        invariant
            i <= cs.len(),
            exprs_model(out@) == cs@.take(i as int).map_values(|c: Comment| ExprModel::Literal(comment_model(c))),
        decreases cs.len() - i,
    {
        let x = literal(cs[i].to_value());
        proof {
            lemma_exprs_model_push(out@, x);
            assert(cs@.take(i + 1).map_values(|c: Comment| ExprModel::Literal(comment_model(c))) =~= cs@.take(
                i as int,
            ).map_values(|c: Comment| ExprModel::Literal(comment_model(c))).push(x@));
        }
        out.push(x);
        i = i + 1;
    }
    assert(cs@.take(cs.len() as int) =~= cs@);
    Value::List(out)
}

impl PullRequest {
    /// The dictionary that rules are evaluated in; the head SHA is left out.
    pub fn to_value(&self) -> (r: Value)
        ensures
            r@ == pull_request_model(*self),
    {
        let mut d: Vec<(String, Value)> = Vec::new();
        push_entry(&mut d, "user", self.user.to_value());
        push_entry(&mut d, "title", text_value(&self.title));
        push_entry(&mut d, "body", optional_text_value(&self.body));
        push_entry(&mut d, "commits", commits_value(&self.commits));
        push_entry(&mut d, "comments", comments_value(&self.comments));
        push_entry(&mut d, "base", self.base.to_value());
        push_entry(&mut d, "head", head_value(&self.head));
        Value::Dictionary(d)
    }
}

/// The commit that rules see for `raw`: its message split into title and
/// description. Fails when the message's second line is not empty.
pub fn commit_view(raw: RawCommit) -> (r: Result<Commit, CommitError>)
    ensures
        r is Err <==> is_malformed(message_lines(raw.message@)),
        r matches Ok(c) ==> c.sha == raw.sha && c.author == raw.author && c.committer == raw.committer
            && c.title@ == title_of(message_lines(raw.message@)) && c.description@ == description_of(
            message_lines(raw.message@),
        ),
{
    match parse_commit_message(raw.message.as_str()) {
        Ok(m) => Ok(Commit {
            sha: raw.sha,
            author: raw.author,
            committer: raw.committer,
            title: m.title,
            description: m.description,
        }),
        Err(e) => Err(e),
    }
}

/// The commits that rules see, in order; fails on the first commit whose
/// message is malformed.
pub fn commit_views(raws: Vec<RawCommit>) -> (r: Result<Vec<Commit>, CommitError>)
    ensures
        r is Err <==> exists|i: int| 0 <= i < raws@.len() && is_malformed(message_lines(#[trigger] raws@[i].message@)),
        r matches Ok(v) ==> v@.len() == raws@.len() && forall|i: int| 0 <= i < v@.len() ==> {
            &&& (#[trigger] v@[i]).sha == raws@[i].sha
            &&& v@[i].author == raws@[i].author
            &&& v@[i].committer == raws@[i].committer
            &&& v@[i].title@ == title_of(message_lines(raws@[i].message@))
            &&& v@[i].description@ == description_of(message_lines(raws@[i].message@))
        },
{
    let ghost orig = raws@;
    let total = raws.len();
    let mut out: Vec<Commit> = Vec::new();
    let mut rest = raws;
    let ghost n = orig.len();
    let mut i: usize = 0;
    assert(orig.skip(0) =~= orig);
    while rest.len() > 0
        invariant
            rest@.len() + i == n,
            n == orig.len(),
            n == total,
            orig == raws@,
            rest@ == orig.skip(i as int),
            out@.len() == i,
            forall|j: int| 0 <= j < i ==> !is_malformed(message_lines(#[trigger] orig[j].message@)),
            forall|j: int| 0 <= j < i ==> {
                &&& (#[trigger] out@[j]).sha == orig[j].sha
                &&& out@[j].author == orig[j].author
                &&& out@[j].committer == orig[j].committer
                &&& out@[j].title@ == title_of(message_lines(orig[j].message@))
                &&& out@[j].description@ == description_of(message_lines(orig[j].message@))
            },
        decreases rest@.len(),
    {
        let raw = rest.remove(0);
        assert(raw == orig[i as int]);
        assert(rest@ =~= orig.skip(i + 1));
        match commit_view(raw) {
            Ok(c) => {
                out.push(c);
            },
            Err(e) => {
                assert(is_malformed(message_lines(orig[i as int].message@)));
                return Err(e);
            },
        }
        i = i + 1;
    }
    Ok(out)
}

/// Law: the head SHA is hidden from rules. Two pull requests that differ only
/// in the head's SHA and in `head_sha` project to the same dictionary.
pub proof fn law_head_sha_hidden(p: PullRequest, q: PullRequest)
    requires
        p.user == q.user,
        p.title == q.title,
        p.body == q.body,
        p.commits == q.commits,
        p.comments == q.comments,
        p.base == q.base,
        p.head.user == q.head.user,
    ensures
        pull_request_model(p) == pull_request_model(q),
{
}

/// Law: the projection of a pull request holds exactly the keys `user`,
/// `title`, `body`, `commits`, `comments`, `base` and `head`, and never the
/// hidden field `head_sha`.
pub proof fn law_hidden_field_not_exposed(p: PullRequest)
    ensures
        pull_request_map(p).dom() == set![
            "user"@,
            "title"@,
            "body"@,
            "commits"@,
            "comments"@,
            "base"@,
            "head"@,
        ],
        !pull_request_map(p).contains_key("head_sha"@),
{
    reveal_strlit("user");
    reveal_strlit("title");
    reveal_strlit("body");
    reveal_strlit("commits");
    reveal_strlit("comments");
    reveal_strlit("base");
    reveal_strlit("head");
    reveal_strlit("head_sha");
    assert(pull_request_map(p).dom() =~= set![
        "user"@,
        "title"@,
        "body"@,
        "commits"@,
        "comments"@,
        "base"@,
        "head"@,
    ]);
    assert("head_sha"@.len() == 8);
    assert("head_sha"@ != "user"@);
    assert("head_sha"@ != "title"@);
    assert("head_sha"@ != "body"@);
    assert("head_sha"@ != "commits"@);
    assert("head_sha"@ != "comments"@) by {
        assert("head_sha"@[0] != "comments"@[0]);
    }
    assert("head_sha"@ != "base"@);
    assert("head_sha"@ != "head"@);
}

} // verus!
