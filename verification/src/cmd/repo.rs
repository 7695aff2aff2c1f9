//! What the commands on repositories print.

use crate::cmd::table;
use crate::repos;
use crate::repos::{Repository, RepositoryView};
use vstd::prelude::*;

verus! {

/// The line of a repository: its alias and its canonical name.
pub open spec fn repo_line(repo: RepositoryView) -> Seq<char> {
    table::padded(table::or_dash(repo.alias), 16) + " "@ + repos::canonical_name(repo)
}

/// The table of repositories.
pub open spec fn repo_table(all: Seq<RepositoryView>) -> Seq<Seq<char>> {
    seq![table::padded("ALIAS"@, 16) + " REPOSITORY"@] + Seq::new(
        all.len(),
        |i: int| repo_line(all[i]),
    )
}

/// A word about a repository, and its alias.
pub open spec fn about(word: Seq<char>, repo: RepositoryView) -> Seq<char> {
    word + table::or_dash(repo.alias)
}

/// Tells what was done to a repository, by its alias.
pub fn tell(word: &str, repo: &Repository) -> (r: String)
    ensures
        r@ == about(word@, repo@),
{
    table::labelled(word, table::text_or_dash(&repo.alias).as_str())
}

/// The table of repositories.
pub fn list(all: &Vec<Repository>) -> (r: Vec<String>)
    ensures
        r.deep_view() == repo_table(all.deep_view()),
{
    let ghost goal = repo_table(all.deep_view());
    let mut out: Vec<String> = Vec::new();
    let mut head = table::pad("ALIAS", 16);
    head.append(" REPOSITORY");
    out.push(head);
    let mut i: usize = 0;
    proof {
        assert(out.deep_view() =~= goal.take(1));
    }
    while i < all.len()
        invariant
            i <= all.len(),
            goal == repo_table(all.deep_view()),
            out.deep_view() == goal.take(i + 1),
        decreases all.len() - i,
    {
        let ghost before = out.deep_view();
        let mut line = table::pad(table::text_or_dash(&all[i].alias).as_str(), 16);
        line.append(" ");
        line.append(all[i].canonical().as_str());
        proof {
            assert(all.deep_view()[i as int] == all@[i as int]@);
            assert(goal[i + 1] == repo_line(all@[i as int]@));
        }
        out.push(line);
        proof {
            assert(out.deep_view() =~= before.push(goal[i + 1]));
            assert(out.deep_view() =~= goal.take(i + 2));
        }
        i += 1;
    }
    proof {
        assert(goal.take(i + 1) =~= goal);
    }
    out
}

} // verus!
