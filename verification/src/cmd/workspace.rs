//! What the commands on workspaces print.

use crate::cmd::table;
use crate::text;
use crate::workspaces::{Workspace, WorkspaceView};
use vstd::prelude::*;

verus! {

/// Tells that a workspace was created.
pub open spec fn created_line(workspace: WorkspaceView) -> Seq<char> {
    "Created workspace "@ + workspace.name + " for "@ + workspace.repository_alias
}

/// Tells that a workspace was cloned.
pub open spec fn cloned_line(source: Seq<char>, workspace: WorkspaceView) -> Seq<char> {
    "Cloned workspace "@ + source + " to "@ + workspace.name + " for "@
        + workspace.repository_alias
}

/// Tells that a workspace was removed.
pub open spec fn removed_line(workspace: WorkspaceView) -> Seq<char> {
    "Removed workspace "@ + workspace.name + " from "@ + workspace.repository_alias
}

/// The line of a workspace.
pub open spec fn workspace_line(workspace: WorkspaceView) -> Seq<char> {
    table::padded(workspace.name, 20) + " "@ + table::padded(workspace.branch, 20) + " "@
        + workspace.path
}

/// The table of workspaces.
pub open spec fn workspace_table(all: Seq<WorkspaceView>) -> Seq<Seq<char>> {
    seq![table::padded("WORKSPACE"@, 20) + " "@ + table::padded("BRANCH"@, 20) + " PATH"@]
        + Seq::new(all.len(), |i: int| workspace_line(all[i]))
}

/// What there is to tell of a workspace.
pub open spec fn workspace_info(workspace: WorkspaceView) -> Seq<Seq<char>> {
    seq![
        "Repository: "@ + workspace.repository,
        "Workspace: "@ + workspace.name,
        "Branch: "@ + workspace.branch,
        "Path: "@ + workspace.path,
        "Created: "@ + text::signed_decimal(workspace.created_at as int),
    ]
}

/// Tells that a workspace was created.
pub fn created(workspace: &Workspace) -> (r: String)
    ensures
        r@ == created_line(workspace@),
{
    let mut out = "Created workspace ".to_owned();
    out.append(workspace.name.as_str());
    out.append(" for ");
    out.append(workspace.repository_alias.as_str());
    out
}

/// Tells that a workspace was cloned.
pub fn cloned(source: &str, workspace: &Workspace) -> (r: String)
    ensures
        r@ == cloned_line(source@, workspace@),
{
    let mut out = "Cloned workspace ".to_owned();
    out.append(source);
    out.append(" to ");
    out.append(workspace.name.as_str());
    out.append(" for ");
    out.append(workspace.repository_alias.as_str());
    out
}

/// Tells that a workspace was removed.
pub fn removed(workspace: &Workspace) -> (r: String)
    ensures
        r@ == removed_line(workspace@),
{
    let mut out = "Removed workspace ".to_owned();
    out.append(workspace.name.as_str());
    out.append(" from ");
    out.append(workspace.repository_alias.as_str());
    out
}

/// Tells what there is to tell of a workspace.
pub fn info(workspace: &Workspace) -> (r: Vec<String>)
    ensures
        r.deep_view() == workspace_info(workspace@),
{
    let r = vec![
        table::labelled("Repository: ", workspace.repository.as_str()),
        table::labelled("Workspace: ", workspace.name.as_str()),
        table::labelled("Branch: ", workspace.branch.as_str()),
        table::labelled("Path: ", workspace.path.as_str()),
        table::labelled("Created: ", text::signed_text(workspace.created_at).as_str()),
    ];
    proof {
        assert(r.deep_view() =~= workspace_info(workspace@));
    }
    r
}

/// The table of workspaces.
pub fn list(all: &Vec<Workspace>) -> (r: Vec<String>)
    ensures
        r.deep_view() == workspace_table(all.deep_view()),
{
    let ghost goal = workspace_table(all.deep_view());
    let mut out: Vec<String> = Vec::new();
    let mut head = table::pad("WORKSPACE", 20);
    head.append(" ");
    head.append(table::pad("BRANCH", 20).as_str());
    head.append(" PATH");
    out.push(head);
    let mut i: usize = 0;
    proof {
        assert(out.deep_view() =~= goal.take(1));
    }
    while i < all.len()
        invariant
            i <= all.len(),
            goal == workspace_table(all.deep_view()),
            out.deep_view() == goal.take(i + 1),
        decreases all.len() - i,
    {
        let ghost before = out.deep_view();
        let mut line = table::pad(all[i].name.as_str(), 20);
        line.append(" ");
        line.append(table::pad(all[i].branch.as_str(), 20).as_str());
        line.append(" ");
        line.append(all[i].path.as_str());
        proof {
            assert(all.deep_view()[i as int] == all@[i as int]@);
            assert(goal[i + 1] == workspace_line(all@[i as int]@));
        }
        out.push(line);
        proof {
            assert(out.deep_view() =~= before.push(goal[i + 1]));
            assert(out.deep_view() =~= goal.take(i + 2));
        }
        i += 1;
    }
    proof {
        assert(goal.take(i + 1) =~= goal);
    }
    out
}

} // verus!
