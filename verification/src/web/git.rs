//! The announcement of pushed commits.

use vstd::prelude::*;
use vstd::string::*;
use crate::text::{chars_of, decimal, push_chars, push_decimal, trim_bounds, trimmed};

verus! {

/// A pushed commit.
pub struct Commit {
    pub author: String,
    pub message: String,
}

/// The line for one of several commits.
pub open spec fn commit_line(author: Seq<char>, message: Seq<char>) -> Seq<char> {
    trimmed(author) + " - "@ + trimmed(message)
}

/// The lines for several commits, in their order.
pub open spec fn commit_lines(commits: Seq<Commit>) -> Seq<Seq<char>> {
    Seq::new(commits.len(), |i: int| commit_line(commits[i].author@, commits[i].message@))
}

/// What is announced for a push to `repo`: for one commit a single line,
/// else a heading with the number of commits and a line for each.
pub open spec fn push_announcement(repo: Seq<char>, commits: Seq<Commit>) -> Seq<Seq<char>> {
    if commits.len() == 1 {
        seq![
            "New commit on "@ + trimmed(repo) + ": "@ + trimmed(commits[0].message@) + " - "@
                + trimmed(commits[0].author@),
        ]
    } else {
        seq![decimal(commits.len()) + " new commits on "@ + trimmed(repo) + ":"@] + commit_lines(
            commits,
        )
    }
}

/// Appends `s` without its leading and trailing whitespace to `out`.
fn push_trimmed(out: &mut String, s: &str)
    ensures
        final(out)@ == old(out)@ + trimmed(s@),
{
    let chars = chars_of(s);
    let (from, to) = trim_bounds(&chars);
    push_chars(out, &chars, from, to);
}

/// What is announced for a push to `repo`.
pub fn announce_push(repo: &str, commits: &Vec<Commit>) -> (lines: Vec<String>)
    ensures
        Seq::new(lines@.len(), |i: int| lines@[i]@) == push_announcement(repo@, commits@),
{
    let mut lines: Vec<String> = Vec::new();
    if commits.len() == 1 {
        let mut line = "New commit on ".to_owned();
        push_trimmed(&mut line, repo);
        line.append(": ");
        push_trimmed(&mut line, commits[0].message.as_str());
        line.append(" - ");
        push_trimmed(&mut line, commits[0].author.as_str());
        lines.push(line);
        assert(Seq::new(lines@.len(), |i: int| lines@[i]@) =~= push_announcement(
            repo@,
            commits@,
        ));
        return lines;
    }
    let mut head = String::new();
    push_decimal(&mut head, commits.len() as u64);
    head.append(" new commits on ");
    push_trimmed(&mut head, repo);
    head.append(":");
    assert(head@ =~= decimal(commits@.len()) + " new commits on "@ + trimmed(repo@) + ":"@);
    lines.push(head);
    let mut i: usize = 0;
    while i < commits.len()
        invariant
            i <= commits.len(),
            Seq::new(lines@.len(), |k: int| lines@[k]@) == seq![
                decimal(commits@.len()) + " new commits on "@ + trimmed(repo@) + ":"@,
            ] + commit_lines(commits@).take(i as int),
        decreases commits.len() - i,
    {
        let ghost had = Seq::new(lines@.len(), |k: int| lines@[k]@);
        let mut line = String::new();
        push_trimmed(&mut line, commits[i].author.as_str());
        line.append(" - ");
        push_trimmed(&mut line, commits[i].message.as_str());
        assert(line@ =~= commit_line(commits@[i as int].author@, commits@[i as int].message@));
        lines.push(line);
        i += 1;
        assert(Seq::new(lines@.len(), |k: int| lines@[k]@) =~= had.push(line@));
        assert(Seq::new(lines@.len(), |k: int| lines@[k]@) =~= seq![
            decimal(commits@.len()) + " new commits on "@ + trimmed(repo@) + ":"@,
        ] + commit_lines(commits@).take(i as int));
    }
    assert(commit_lines(commits@).take(i as int) =~= commit_lines(commits@));
    lines
}

} // verus!
