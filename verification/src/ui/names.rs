//! Names for workspaces that have none yet.

use crate::repos;
use crate::text;
use crate::ui::app;
use crate::ui::data::{WorkspaceEntry, WorkspaceEntryView, WorkspaceGroup, WorkspaceGroupView};
use vstd::prelude::*;

verus! {

/// A name with a number behind it.
pub open spec fn numbered(stem: Seq<char>, n: nat) -> Seq<char> {
    stem + "-"@ + text::decimal(n)
}

/// Whether a number is the first one, counted from one, that makes a name that is
/// not taken.
pub open spec fn is_first_free(stem: Seq<char>, taken: Seq<Seq<char>>, n: nat) -> bool {
    &&& n >= 1
    &&& !taken.contains(numbered(stem, n))
    &&& forall|m: nat| 1 <= m < n ==> taken.contains(#[trigger] numbered(stem, m))
}

/// The names of the workspaces of all groups.
pub open spec fn workspace_names(groups: Seq<WorkspaceGroupView>) -> Seq<Seq<char>> {
    let all = app::shown_workspaces(groups);
    Seq::new(all.len(), |i: int| all[i].name)
}

fn list_names(groups: &Vec<WorkspaceGroup>) -> (r: Vec<String>)
    ensures
        r.deep_view() == workspace_names(groups.deep_view()),
{
    let all = app::all_workspaces(groups);
    let ghost goal = workspace_names(groups.deep_view());
    let mut out: Vec<String> = Vec::new();
    let mut i: usize = 0;
    proof {
        assert(out.deep_view() =~= goal.take(0));
    }
    while i < all.len()
        invariant
            i <= all.len(),
            all.deep_view() == app::shown_workspaces(groups.deep_view()),
            goal == workspace_names(groups.deep_view()),
            out.deep_view() == goal.take(i as int),
        decreases all.len() - i,
    {
        let ghost before = out.deep_view();
        out.push(all[i].name.clone());
        proof {
            assert(all.deep_view()[i as int] == all@[i as int]@);
            assert(out.deep_view() =~= before.push(goal[i as int]));
            assert(out.deep_view() =~= goal.take(i + 1));
        }
        i += 1;
    }
    proof {
        assert(goal.take(i as int) =~= goal);
    }
    out
}

/// The first names with numbers, as a set.
spec fn numbered_set(stem: Seq<char>, n: nat) -> Set<Seq<char>>
    decreases n,
{
    if n == 0 {
        Set::empty()
    } else {
        numbered_set(stem, (n - 1) as nat).insert(numbered(stem, n))
    }
}

proof fn lemma_numbered_set(stem: Seq<char>, n: nat)
    ensures
        numbered_set(stem, n).finite(),
        numbered_set(stem, n).len() == n,
        forall|x: Seq<char>| #[trigger]
            numbered_set(stem, n).contains(x) ==> exists|m: nat|
                1 <= m <= n && x == #[trigger] numbered(stem, m),
    decreases n,
{
    if n > 0 {
        let k = (n - 1) as nat;
        lemma_numbered_set(stem, k);
        if numbered_set(stem, k).contains(numbered(stem, n)) {
            let m = choose|m: nat|
                1 <= m <= k && numbered(stem, n) == #[trigger] numbered(stem, m);
            lemma_numbered_injective(stem, n, m);
        }
        assert forall|x: Seq<char>| #[trigger]
            numbered_set(stem, n).contains(x) implies exists|m: nat|
            1 <= m <= n && x == #[trigger] numbered(stem, m) by {
            if x == numbered(stem, n) {
                assert(1 <= n <= n && x == numbered(stem, n));
            } else {
                assert(numbered_set(stem, k).contains(x));
                let m = choose|m: nat| 1 <= m <= k && x == #[trigger] numbered(stem, m);
                assert(1 <= m <= n && x == numbered(stem, m));
            }
        }
    }
}

proof fn lemma_numbered_injective(stem: Seq<char>, a: nat, b: nat)
    requires
        numbered(stem, a) == numbered(stem, b),
    ensures
        a == b,
{
    let head = stem + "-"@;
    assert(numbered(stem, a).skip(head.len() as int) =~= text::decimal(a));
    assert(numbered(stem, b).skip(head.len() as int) =~= text::decimal(b));
    text::lemma_decimal_injective(a, b);
}

proof fn lemma_taken_bound(stem: Seq<char>, taken: Seq<Seq<char>>, n: nat)
    requires
        forall|m: nat| 1 <= m <= n ==> taken.contains(#[trigger] numbered(stem, m)),
    ensures
        n <= taken.len(),
{
    lemma_numbered_set(stem, n);
    assert forall|x: Seq<char>| numbered_set(stem, n).contains(x) implies taken.to_set().contains(
        x,
    ) by {
        let m = choose|m: nat| 1 <= m <= n && x == #[trigger] numbered(stem, m);
        assert(taken.contains(numbered(stem, m)));
    }
    assert(numbered_set(stem, n).subset_of(taken.to_set()));
    taken.lemma_cardinality_of_set();
    vstd::seq_lib::seq_to_set_is_finite(taken);
    vstd::set_lib::lemma_len_subset(numbered_set(stem, n), taken.to_set());
}

fn first_free(stem: &str, taken: &Vec<String>) -> (r: String)
    requires
        taken@.len() < u64::MAX,
    ensures
        exists|n: nat|
            is_first_free(stem@, taken.deep_view(), n) && r@ == #[trigger] numbered(stem@, n),
{
    let ghost names = taken.deep_view();
    let mut n: u64 = 1;
    loop
        invariant
            n >= 1,
            names == taken.deep_view(),
            names.len() < u64::MAX,
            n <= names.len() + 1,
            forall|m: nat| 1 <= m < n ==> names.contains(#[trigger] numbered(stem@, m)),
        decreases names.len() + 1 - n,
    {
        let mut candidate = stem.to_owned();
        candidate.append("-");
        candidate.append(text::decimal_text(n).as_str());
        if !repos::has_column(taken, candidate.as_str()) {
            proof {
                assert(is_first_free(stem@, names, n as nat) && candidate@ == numbered(
                    stem@,
                    n as nat,
                ));
            }
            return candidate;
        }
        proof {
            assert(forall|m: nat| 1 <= m <= n ==> names.contains(#[trigger] numbered(stem@, m)));
            lemma_taken_bound(stem@, names, n as nat);
        }
        n = n + 1;
    }
}

/// A name for a new workspace: `new-`, and the first number whose name no workspace
/// has.
pub fn next_workspace_placeholder(groups: &Vec<WorkspaceGroup>) -> (r: String)
    requires
        app::shown_workspaces(groups.deep_view()).len() < u64::MAX,
    ensures
        exists|n: nat|
            is_first_free("new"@, workspace_names(groups.deep_view()), n) && r@
                == #[trigger] numbered("new"@, n),
{
    let taken = list_names(groups);
    proof {
        assert(taken@.len() == taken.deep_view().len());
    }
    first_free("new", &taken)
}

/// A name for the clone of a workspace: the name of the workspace, and the first
/// number that makes a name that neither a workspace nor a directory has.
pub fn next_workspace_clone_name(
    groups: &Vec<WorkspaceGroup>,
    workspace: &WorkspaceEntry,
    directories: &Vec<String>,
) -> (r: String)
    requires
        app::shown_workspaces(groups.deep_view()).len() + directories@.len() < u64::MAX,
    ensures
        exists|n: nat|
            is_first_free(
                workspace@.name,
                workspace_names(groups.deep_view()) + directories.deep_view(),
                n,
            ) && r@ == #[trigger] numbered(workspace@.name, n),
{
    let mut taken = list_names(groups);
    let ghost names = taken.deep_view();
    let mut i: usize = 0;
    proof {
        assert(names + directories.deep_view().take(0) =~= names);
    }
    while i < directories.len()
        invariant
            i <= directories.len(),
            taken.deep_view() == names + directories.deep_view().take(i as int),
        decreases directories.len() - i,
    {
        let ghost before = taken.deep_view();
        taken.push(directories[i].clone());
        proof {
            assert(directories.deep_view()[i as int] == directories@[i as int]@);
            assert(taken.deep_view() =~= before.push(directories@[i as int]@));
            assert(taken.deep_view() =~= names + directories.deep_view().take(i + 1));
        }
        i += 1;
    }
    proof {
        assert(directories.deep_view().take(i as int) =~= directories.deep_view());
        assert(taken@.len() == taken.deep_view().len());
        assert(directories@.len() == directories.deep_view().len());
        assert(taken.deep_view() == workspace_names(groups.deep_view()) + directories.deep_view());
    }
    let r = first_free(workspace.name.as_str(), &taken);
    proof {
        let n = choose|n: nat|
            is_first_free(workspace@.name, taken.deep_view(), n) && r@ == #[trigger] numbered(
                workspace@.name,
                n,
            );
        assert(is_first_free(workspace@.name, taken.deep_view(), n));
    }
    r
}

/// There is only one first free number, so that the name is fixed by the names that
/// are taken.
pub proof fn law_first_free_number_is_fixed(
    stem: Seq<char>,
    taken: Seq<Seq<char>>,
    a: nat,
    b: nat,
)
    requires
        is_first_free(stem, taken, a),
        is_first_free(stem, taken, b),
    ensures
        a == b,
{
    if a < b {
        assert(taken.contains(numbered(stem, a)));
    }
    if b < a {
        assert(taken.contains(numbered(stem, b)));
    }
}

/// A numbered name is the stem, a `-` and the number, so that the first name for a new workspace
/// is `new-1` where that is not taken.
pub proof fn law_numbered_names(stem: Seq<char>, n: nat, taken: Seq<Seq<char>>)
    ensures
        numbered(stem, n) == stem + seq!['-'] + text::decimal(n),
        !taken.contains(stem + seq!['-', '1']) ==> is_first_free(stem, taken, 1),
        is_first_free(stem, taken, n) ==> !taken.contains(numbered(stem, n)) && n >= 1
            && forall|m: nat|
            1 <= m < n ==> taken.contains(stem + seq!['-'] + #[trigger] text::decimal(m)),
{
    reveal_strlit("-");
    assert("-"@ =~= seq!['-']);
    text::law_decimal_digits(1, 1);
    assert(text::decimal(1) =~= seq!['1']);
    assert(numbered(stem, 1) =~= stem + seq!['-', '1']);
    if is_first_free(stem, taken, n) {
        assert forall|m: nat| 1 <= m < n implies taken.contains(
            stem + seq!['-'] + #[trigger] text::decimal(m),
        ) by {
            assert(taken.contains(numbered(stem, m)));
        }
    }
}

/// The names that are taken are those of the workspaces of all groups, in order.
pub proof fn law_names_of_all_workspaces(
    groups: Seq<WorkspaceGroupView>,
    group: WorkspaceGroupView,
)
    ensures
        workspace_names(seq![]) == Seq::<Seq<char>>::empty(),
        workspace_names(groups.push(group)) == workspace_names(groups) + Seq::new(
            group.workspaces.len(),
            |i: int| group.workspaces[i].name,
        ),
{
    let all = groups.push(group);
    assert(all.drop_last() =~= groups);
    assert(all.last() == group);
    assert(workspace_names(seq![]) =~= Seq::<Seq<char>>::empty());
    assert(workspace_names(all) =~= workspace_names(groups) + Seq::new(
        group.workspaces.len(),
        |i: int| group.workspaces[i].name,
    ));
}

} // verus!
