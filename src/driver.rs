//! The validation driver: exemptions granted in comments, and the verdict of
//! each rule of a policy on a pull request.
use vstd::prelude::*;
use vstd::string::StrSliceExecFns;
use vstd::string::StringExecFns;
use crate::config::{Policy, Rule};
use crate::eval::{eval, rule_spec, RuleError};
use crate::pull_request::Comment;
use crate::text::chars_of;
use crate::value::{strings_equal, Value, ValueModel};

verus! {

/// A collaborator's permission on a repository (`admin`, `write`, `read` or
/// `none`).
#[derive(Clone, Copy, Debug, PartialEq, Eq, Structural)]
pub enum Permission {
    Admin,
    Write,
    Read,
    NoAccess,
}

/// Characters that trimming removes: the Unicode `White_Space` characters.
pub open spec fn is_trim_space(c: char) -> bool {
    ('\u{9}' <= c && c <= '\u{d}') || c == ' ' || c == '\u{85}' || c == '\u{a0}' || c == '\u{1680}'
        || ('\u{2000}' <= c && c <= '\u{200a}') || c == '\u{2028}' || c == '\u{2029}' || c == '\u{202f}'
        || c == '\u{205f}' || c == '\u{3000}'
}

fn trim_space(c: char) -> (r: bool)
    ensures
        r == is_trim_space(c),
{
    ('\u{9}' <= c && c <= '\u{d}') || c == ' ' || c == '\u{85}' || c == '\u{a0}' || c == '\u{1680}'
        || ('\u{2000}' <= c && c <= '\u{200a}') || c == '\u{2028}' || c == '\u{2029}' || c == '\u{202f}'
        || c == '\u{205f}' || c == '\u{3000}'
}

pub open spec fn leading_spaces(s: Seq<char>) -> nat
    decreases s.len(),
{
    if s.len() > 0 && is_trim_space(s[0]) {
        1 + leading_spaces(s.drop_first())
    } else {
        0
    }
}

pub open spec fn trailing_spaces(s: Seq<char>) -> nat
    decreases s.len(),
{
    if s.len() > 0 && is_trim_space(s.last()) {
        1 + trailing_spaces(s.drop_last())
    } else {
        0
    }
}

/// `s` without whitespace at either end.
pub open spec fn trimmed(s: Seq<char>) -> Seq<char> {
    if leading_spaces(s) >= s.len() {
        Seq::empty()
    } else {
        s.subrange(leading_spaces(s) as int, s.len() - trailing_spaces(s))
    }
}

/// The characters of `s` before its first newline.
pub open spec fn first_line(s: Seq<char>) -> Seq<char>
    decreases s.len(),
{
    if s.len() == 0 {
        s
    } else if s[0] == '\n' {
        Seq::empty()
    } else {
        seq![s[0]] + first_line(s.drop_first())
    }
}

/// The prefix of a comment that asks for an exemption.
pub open spec fn disable_prefix() -> Seq<char> {
    "tailor disable"@
}

/// The rule that a comment asks to exempt: the rest of its first line after
/// the prefix, trimmed, when the comment begins with the prefix.
pub open spec fn requested_exemption(body: Seq<char>) -> Option<Seq<char>> {
    let p = disable_prefix();
    if body.len() >= p.len() && body.take(p.len() as int) == p {
        Some(trimmed(first_line(body.skip(p.len() as int))))
    } else {
        None
    }
}

/// A comment's request to exempt a rule, with the commenter's login.
#[derive(Debug)]
pub struct ExemptionRequest {
    pub login: String,
    pub rule: String,
}

proof fn lemma_leading_step(s: Seq<char>, i: int)
    requires
        0 <= i < s.len(),
        leading_spaces(s) == i + leading_spaces(s.skip(i)),
        is_trim_space(s[i]),
    ensures
        leading_spaces(s) == (i + 1) + leading_spaces(s.skip(i + 1)),
{
    assert(s.skip(i).drop_first() =~= s.skip(i + 1));
}

proof fn lemma_trailing_step(s: Seq<char>, j: int)
    requires
        0 < j <= s.len(),
        trailing_spaces(s) == (s.len() - j) + trailing_spaces(s.take(j)),
        is_trim_space(s[j - 1]),
    ensures
        trailing_spaces(s) == (s.len() - (j - 1)) + trailing_spaces(s.take(j - 1)),
{
    assert(s.take(j).drop_last() =~= s.take(j - 1));
}

proof fn lemma_first_line_split(s: Seq<char>, k: int)
    requires
        0 <= k <= s.len(),
        forall|m: int| 0 <= m < k ==> s[m] != '\n',
        k == s.len() || s[k] == '\n',
    ensures
        first_line(s) == s.take(k),
    decreases k,
{
    if k > 0 {
        lemma_first_line_split(s.drop_first(), k - 1);
        assert(seq![s[0]] + s.drop_first().take(k - 1) =~= s.take(k));
    } else if s.len() > 0 {
        assert(s.take(0) =~= Seq::<char>::empty());
    }
}

/// The trimmed text of `cs` between positions `a` and `b`.
fn trimmed_range(text: &str, cs: &Vec<char>, a: usize, b: usize) -> (r: String)
    requires
        cs@ == text@,
        a <= b <= cs.len(),
    ensures
        r@ == trimmed(cs@.subrange(a as int, b as int)),
{
    let ghost s = cs@.subrange(a as int, b as int);
    let mut i: usize = a;
    proof {
        assert(s.skip(0) =~= s);
    }
    while i < b && trim_space(cs[i])
        invariant
            cs@ == text@,
            b <= cs.len(),
            s == cs@.subrange(a as int, b as int),
            a <= i <= b,
            leading_spaces(s) == (i - a) + leading_spaces(s.skip(i - a)),
        decreases b - i,
    {
        proof {
            lemma_leading_step(s, i - a);
        }
        i = i + 1;
    }
    if i == b {
        proof {
            assert(leading_spaces(s) >= s.len());
        }
        return String::new();
    }
    proof {
        assert(s.skip(i - a)[0] == s[i - a]);
        assert(leading_spaces(s) == i - a);
    }
    let mut j: usize = b;
    proof {
        assert(s.take(s.len() as int) =~= s);
    }
    while j > i && trim_space(cs[j - 1])
        invariant
            cs@ == text@,
            b <= cs.len(),
            s == cs@.subrange(a as int, b as int),
            a <= i < b,
            i < j <= b,
            leading_spaces(s) == i - a,
            !is_trim_space(cs@[i as int]),
            trailing_spaces(s) == (b - j) + trailing_spaces(s.take(j - a)),
        decreases j,
    {
        proof {
            lemma_trailing_step(s, j - a);
        }
        j = j - 1;
    }
    proof {
        assert(s.take(j - a).last() == cs@[j - 1]);
        assert(trailing_spaces(s) == b - j);
        assert(s.subrange(i - a, s.len() - (b - j)) =~= cs@.subrange(i as int, j as int));
    }
    text.substring_char(i, j).to_owned()
}

/// The rule that the comment body `body` asks to exempt, if it asks.
pub fn exemption_in(body: &str) -> (r: Option<String>)
    ensures
        match r {
            Some(t) => requested_exemption(body@) == Some(t@),
            None => requested_exemption(body@) is None,
        },
{
    let prefix = "tailor disable";
    proof {
        reveal_strlit("tailor disable");
    }
    let p = chars_of(prefix);
    let cs = chars_of(body);
    if cs.len() < p.len() {
        return None;
    }
    let mut m: usize = 0;
    while m < p.len()
        invariant
            p@ == disable_prefix(),
            cs@ == body@,
            p.len() <= cs.len(),
            m <= p.len(),
            forall|q: int| 0 <= q < m ==> cs@[q] == p@[q],
        decreases p.len() - m,
    {
        if cs[m] != p[m] {
            assert(cs@.take(p.len() as int)[m as int] != p@[m as int]);
            return None;
        }
        m = m + 1;
    }
    assert(cs@.take(p.len() as int) =~= p@);
    let start = p.len();
    let mut k: usize = start;
    while k < cs.len() && cs[k] != '\n'
        invariant
            start <= k <= cs.len(),
            forall|q: int| start <= q < k ==> cs@[q] != '\n',
        decreases cs.len() - k,
    {
        k = k + 1;
    }
    proof {
        let rest = cs@.skip(start as int);
        lemma_first_line_split(rest, k - start);
        assert(rest.take(k - start) =~= cs@.subrange(start as int, k as int));
    }
    Some(trimmed_range(body, &cs, start, k))
}

/// The requests that `comments` make, in order: the commenter's login and
/// the rule, for each comment that asks for an exemption.
pub open spec fn requests_in(comments: Seq<Comment>) -> Seq<(Seq<char>, Seq<char>)>
    decreases comments.len(),
{
    if comments.len() == 0 {
        Seq::empty()
    } else {
        let prev = requests_in(comments.drop_last());
        match requested_exemption(comments.last().body@) {
            Some(rule) => prev.push((comments.last().user.login@, rule)),
            None => prev,
        }
    }
}

/// The login and rule of each request.
pub open spec fn requests_view(rs: Seq<ExemptionRequest>) -> Seq<(Seq<char>, Seq<char>)> {
    rs.map_values(|x: ExemptionRequest| (x.login@, x.rule@))
}

/// The exemption requests among `comments`, in order.
pub fn exemption_requests(comments: &Vec<Comment>) -> (r: Vec<ExemptionRequest>)
    ensures
        requests_view(r@) == requests_in(comments@),
{
    let mut out: Vec<ExemptionRequest> = Vec::new();
    let mut i: usize = 0;
    while i < comments.len()
        invariant
            i <= comments.len(),
            requests_view(out@) == requests_in(comments@.take(i as int)),
        decreases comments.len() - i,
    {
        proof {
            assert(comments@.take(i + 1).drop_last() =~= comments@.take(i as int));
        }
        match exemption_in(comments[i].body.as_str()) {
            Some(rule) => {
                let ghost before = out@;
                out.push(ExemptionRequest { login: comments[i].user.login.clone(), rule });
                proof {
                    assert(requests_view(out@) =~= requests_view(before).push(
                        (comments@[i as int].user.login@, out@.last().rule@),
                    ));
                }
            },
            None => {},
        }
        i = i + 1;
    }
    proof {
        assert(comments@.take(comments.len() as int) =~= comments@);
    }
    out
}

/// The rules exempted by the requests whose commenter is an admin.
pub open spec fn granted(requests: Seq<ExemptionRequest>, permissions: Seq<Permission>) -> Seq<Seq<char>>
    decreases requests.len(),
{
    if requests.len() == 0 {
        Seq::empty()
    } else {
        let prev = granted(requests.drop_last(), permissions);
        if permissions[requests.len() - 1] == Permission::Admin {
            prev.push(requests.last().rule@)
        } else {
            prev
        }
    }
}

/// The rules exempted by `requests`, given each commenter's permission:
/// only an admin's request counts.
pub fn accepted_exemptions(requests: &Vec<ExemptionRequest>, permissions: &Vec<Permission>) -> (r: Vec<String>)
    requires
        requests@.len() == permissions@.len(),
    ensures
        r@.map_values(|x: String| x@) == granted(requests@, permissions@),
{
    let mut out: Vec<String> = Vec::new();
    let mut i: usize = 0;
    while i < requests.len()
        invariant
            i <= requests.len(),
            requests@.len() == permissions@.len(),
            out@.map_values(|x: String| x@) == granted(requests@.take(i as int), permissions@),
        decreases requests.len() - i,
    {
        proof {
            assert(requests@.take(i + 1).drop_last() =~= requests@.take(i as int));
        }
        if permissions[i] == Permission::Admin {
            let ghost before = out@;
            out.push(requests[i].rule.clone());
            proof {
                assert(out@.map_values(|x: String| x@) =~= before.map_values(|x: String| x@).push(
                    requests@[i as int].rule@,
                ));
            }
        }
        i = i + 1;
    }
    proof {
        assert(requests@.take(requests.len() as int) =~= requests@);
    }
    out
}

/// Whether the rule named `name` is exempted by `exemptions`; `all` exempts
/// every rule.
pub open spec fn is_exempt(name: Seq<char>, exemptions: Seq<Seq<char>>) -> bool {
    exemptions.contains(name) || exemptions.contains("all"@)
}

/// The message for a rule that failed.
pub open spec fn failure_message(name: Seq<char>, description: Seq<char>) -> Seq<char> {
    "Failed "@ + name + " ("@ + description + ")"@
}

/// Why a validation stopped: a rule could not be decided.
#[derive(Debug)]
pub struct ValidationError {
    pub rule: String,
    pub error: RuleError,
}

/// The failures of the first `n` rules that are not exempted, in order, or
/// the first rule that could not be decided.
pub open spec fn validate_spec(
    rules: Seq<Rule>,
    exemptions: Seq<Seq<char>>,
    ctx: ValueModel,
    n: nat,
) -> Result<Seq<Seq<char>>, (Seq<char>, RuleError)>
    decreases n,
{
    if n == 0 {
        Ok(Seq::empty())
    } else {
        match validate_spec(rules, exemptions, ctx, (n - 1) as nat) {
            Err(x) => Err(x),
            Ok(acc) => {
                let rule = rules[n - 1];
                if is_exempt(rule.name@, exemptions) {
                    Ok(acc)
                } else {
                    match rule_spec(rule.expression@, ctx) {
                        Ok(true) => Ok(acc),
                        Ok(false) => Ok(acc.push(failure_message(rule.name@, rule.description@))),
                        Err(e) => Err((rule.name@, e)),
                    }
                }
            },
        }
    }
}

fn contains_name(names: &Vec<String>, name: &String) -> (r: bool)
    ensures
        r == names@.map_values(|x: String| x@).contains(name@),
{
    let ghost vs = names@.map_values(|x: String| x@);
    let mut i: usize = 0;
    while i < names.len()
        invariant
            i <= names.len(),
            vs == names@.map_values(|x: String| x@),
            forall|q: int| 0 <= q < i ==> vs[q] != name@,
        decreases names.len() - i,
    {
        if strings_equal(&names[i], name) {
            assert(vs[i as int] == name@);
            return true;
        }
        i = i + 1;
    }
    false
}

fn failure_text(rule: &Rule) -> (r: String)
    ensures
        r@ == failure_message(rule.name@, rule.description@),
{
    let mut out = String::from_str("Failed ");
    out.append(rule.name.as_str());
    out.append(" (");
    out.append(rule.description.as_str());
    out.append(")");
    out
}

/// Runs every rule of `policy` that `exemptions` does not exempt on `input`,
/// in order, and lists the failures.
pub fn validate(policy: &Policy, exemptions: &Vec<String>, input: &Value) -> (r: Result<Vec<String>, ValidationError>)
    ensures
        match r {
            Ok(f) => validate_spec(policy.rules@, exemptions@.map_values(|x: String| x@), input@, policy.rules@.len())
                == Ok::<Seq<Seq<char>>, (Seq<char>, RuleError)>(f@.map_values(|x: String| x@)),
            Err(e) => validate_spec(policy.rules@, exemptions@.map_values(|x: String| x@), input@, policy.rules@.len())
                == Err::<Seq<Seq<char>>, (Seq<char>, RuleError)>((e.rule@, e.error)),
        },
{
    let ghost ex = exemptions@.map_values(|x: String| x@);
    let all = String::from_str("all");
    let everything = contains_name(exemptions, &all);
    let rules = &policy.rules;
    let mut failures: Vec<String> = Vec::new();
    let mut i: usize = 0;
    assert(failures@.map_values(|x: String| x@) =~= Seq::<Seq<char>>::empty());
    while i < rules.len()
        invariant
            i <= rules.len(),
            rules@ == policy.rules@,
            ex == exemptions@.map_values(|x: String| x@),
            everything == ex.contains("all"@),
            validate_spec(rules@, ex, input@, i as nat) == Ok::<Seq<Seq<char>>, (Seq<char>, RuleError)>(
                failures@.map_values(|x: String| x@),
            ),
        decreases rules.len() - i,
    {
        let rule = &rules[i];
        if !everything && !contains_name(exemptions, &rule.name) {
            match eval(rule.expression.as_str(), input) {
                Ok(true) => {},
                Ok(false) => {
                    let ghost before = failures@;
                    failures.push(failure_text(rule));
                    proof {
                        assert(failures@.map_values(|x: String| x@) =~= before.map_values(|x: String| x@).push(
                            failure_message(rule.name@, rule.description@),
                        ));
                    }
                },
                Err(e) => {
                    let err = ValidationError { rule: rule.name.clone(), error: e };
                    proof {
                        lemma_validate_stops(rules@, ex, input@, (i + 1) as nat, rules@.len());
                    }
                    return Err(err);
                },
            }
        }
        i = i + 1;
    }
    Ok(failures)
}

/// Lemma: once a rule could not be decided, the later rules change nothing.
pub proof fn lemma_validate_stops(rules: Seq<Rule>, exemptions: Seq<Seq<char>>, ctx: ValueModel, k: nat, n: nat)
    requires
        k <= n,
        validate_spec(rules, exemptions, ctx, k) is Err,
    ensures
        validate_spec(rules, exemptions, ctx, n) == validate_spec(rules, exemptions, ctx, k),
    decreases n,
{
    if n > k {
        lemma_validate_stops(rules, exemptions, ctx, k, (n - 1) as nat);
    }
}

/// Law: a rule is exempted exactly when some request for it came from an
/// admin; a non-admin's request exempts nothing.
pub proof fn law_exemption_requires_admin(
    requests: Seq<ExemptionRequest>,
    permissions: Seq<Permission>,
    rule: Seq<char>,
)
    requires
        requests.len() <= permissions.len(),
    ensures
        granted(requests, permissions).contains(rule) <==> exists|i: int|
            0 <= i < requests.len() && permissions[i] == Permission::Admin && #[trigger] requests[i].rule@ == rule,
    decreases requests.len(),
{
    if requests.len() > 0 {
        let n = requests.len() - 1;
        let prev = requests.drop_last();
        law_exemption_requires_admin(prev, permissions, rule);
        let g = granted(requests, permissions);
        let gp = granted(prev, permissions);
        if permissions[n] == Permission::Admin {
            assert(g == gp.push(requests[n].rule@));
        } else {
            assert(g == gp);
        }
        if g.contains(rule) {
            let k = choose|k: int| 0 <= k < g.len() && g[k] == rule;
            if k < gp.len() {
                assert(gp[k] == rule);
                assert(gp.contains(rule));
                let i = choose|i: int|
                    0 <= i < prev.len() && permissions[i] == Permission::Admin && #[trigger] prev[i].rule@ == rule;
                assert(requests[i] == prev[i]);
            } else {
                assert(requests[n].rule@ == rule);
            }
        }
        if exists|i: int|
            0 <= i < requests.len() && permissions[i] == Permission::Admin && #[trigger] requests[i].rule@ == rule {
            let i = choose|i: int|
                0 <= i < requests.len() && permissions[i] == Permission::Admin && #[trigger] requests[i].rule@ == rule;
            if i < n {
                assert(prev[i] == requests[i]);
                assert(gp.contains(rule));
                let k = choose|k: int| 0 <= k < gp.len() && gp[k] == rule;
                assert(g[k] == rule);
            } else {
                assert(g[g.len() - 1] == rule);
            }
        }
    }
}

} // verus!
