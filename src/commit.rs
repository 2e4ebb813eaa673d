//! Commit messages: a title line, an empty line, and a description.
use vstd::prelude::*;
use vstd::string::StrSliceExecFns;
use vstd::string::StringExecFns;
use crate::text::{split_at_char, split_on, views_of};

verus! {

/// A line without its carriage return, if it ends with one.
pub open spec fn strip_cr(l: Seq<char>) -> Seq<char> {
    if l.len() > 0 && l.last() == '\r' {
        l.drop_last()
    } else {
        l
    }
}

/// The lines of `s`: cut at each newline, without an empty piece after a
/// final newline, and without carriage returns at line ends.
pub open spec fn message_lines(s: Seq<char>) -> Seq<Seq<char>> {
    let parts = split_on(s, '\n');
    let kept = if parts.last().len() == 0 {
        parts.drop_last()
    } else {
        parts
    };
    kept.map_values(|l: Seq<char>| strip_cr(l))
}

/// The pieces joined with a newline between each two.
pub open spec fn join_lines(parts: Seq<Seq<char>>) -> Seq<char>
    decreases parts.len(),
{
    if parts.len() == 0 {
        Seq::empty()
    } else if parts.len() == 1 {
        parts[0]
    } else {
        join_lines(parts.drop_last()) + seq!['\n'] + parts.last()
    }
}

/// A commit message taken apart.
#[derive(Debug)]
pub struct CommitMessage {
    /// The first line.
    pub title: String,
    /// The lines after the empty second line, joined with newlines.
    pub description: String,
}

/// Why a commit message was refused.
#[derive(Clone, Copy, Debug, PartialEq, Eq, Structural)]
pub enum CommitError {
    /// The second line of the message is not empty.
    Malformed,
}

/// Whether the message with lines `lines` has a non-empty second line.
pub open spec fn is_malformed(lines: Seq<Seq<char>>) -> bool {
    lines.len() >= 2 && lines[1].len() != 0
}

/// The title of a message with lines `lines`.
pub open spec fn title_of(lines: Seq<Seq<char>>) -> Seq<char> {
    if lines.len() == 0 {
        Seq::empty()
    } else {
        lines[0]
    }
}

/// The description of a message with lines `lines`.
pub open spec fn description_of(lines: Seq<Seq<char>>) -> Seq<char> {
    if lines.len() <= 2 {
        Seq::empty()
    } else {
        join_lines(lines.skip(2))
    }
}

fn newline() -> (r: String)
    ensures
        r@ == seq!['\n'],
{
    proof {
        reveal_strlit("\n");
    }
    String::from_str("\n")
}

/// `l` without a final carriage return.
fn without_cr(l: &String) -> (r: String)
    ensures
        r@ == strip_cr(l@),
{
    let n = l.as_str().unicode_len();
    if n > 0 && l.as_str().get_char(n - 1) == '\r' {
        let t = l.as_str().substring_char(0, n - 1).to_owned();
        assert(t@ =~= l@.drop_last());
        t
    } else {
        l.clone()
    }
}

/// The lines of `message`.
pub fn lines_of(message: &str) -> (r: Vec<String>)
    ensures
        views_of(r@) == message_lines(message@),
{
    let parts = split_at_char(message, '\n');
    let ghost pv = views_of(parts@);
    proof {
        crate::text::lemma_split_on_nonempty(message@, '\n');
    }
    let last = parts.len() - 1;
    let keep = if parts[last].as_str().is_empty() {
        last
    } else {
        parts.len()
    };
    let ghost kept = if pv.last().len() == 0 {
        pv.drop_last()
    } else {
        pv
    };
    let mut out: Vec<String> = Vec::new();
    let mut i: usize = 0;
    while i < keep
        invariant
            pv == views_of(parts@),
            pv == split_on(message@, '\n'),
            keep <= parts.len(),
            kept.len() == keep,
            kept == (if pv.last().len() == 0 { pv.drop_last() } else { pv }),
            i <= keep,
            views_of(out@) == kept.take(i as int).map_values(|l: Seq<char>| strip_cr(l)),
        decreases keep - i,
    {
        let l = without_cr(&parts[i]);
        let ghost before = out@;
        out.push(l);
        proof {
            assert(views_of(out@) =~= views_of(before).push(l@));
            assert(kept.take(i + 1).map_values(|l: Seq<char>| strip_cr(l)) =~= kept.take(
                i as int,
            ).map_values(|l: Seq<char>| strip_cr(l)).push(strip_cr(kept[i as int])));
        }
        i = i + 1;
    }
    proof {
        assert(kept.take(keep as int) =~= kept);
    }
    out
}

/// Splits a commit message into its title and description.
pub fn parse_commit_message(message: &str) -> (r: Result<CommitMessage, CommitError>)
    ensures
        is_malformed(message_lines(message@)) <==> r is Err,
        r matches Ok(m) ==> m.title@ == title_of(message_lines(message@)) && m.description@
            == description_of(message_lines(message@)),
{
    let lines = lines_of(message);
    let ghost ls = message_lines(message@);
    if lines.len() >= 2 && !lines[1].as_str().is_empty() {
        return Err(CommitError::Malformed);
    }
    let title = if lines.len() == 0 {
        String::new()
    } else {
        lines[0].clone()
    };
    let mut description = String::new();
    if lines.len() > 2 {
        description = lines[2].clone();
        let mut k: usize = 3;
        proof {
            assert(ls.skip(2).take(1) =~= seq![ls[2]]);
        }
        while k < lines.len()
            invariant
                views_of(lines@) == ls,
                3 <= k <= lines.len(),
                description@ == join_lines(ls.skip(2).take(k - 2)),
            decreases lines.len() - k,
        {
            let nl = newline();
            description.append(nl.as_str());
            description.append(lines[k].as_str());
            proof {
                let t = ls.skip(2).take(k - 1);
                assert(t.drop_last() =~= ls.skip(2).take(k - 2));
                assert(t.last() == ls[k as int]);
            }
            k = k + 1;
        }
        proof {
            assert(ls.skip(2).take(lines.len() - 2) =~= ls.skip(2));
        }
    }
    Ok(CommitMessage { title, description })
}

} // verus!
