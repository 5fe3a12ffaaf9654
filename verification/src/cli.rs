//! What the commands compute: which workspace an identifier names and how
//! a workspace is shown.

use crate::error::CursorError;
use crate::models::Workspace;
use vstd::prelude::*;
use vstd::string::StringExecFns;

verus! {

/// Whether `workspace` goes by `identifier`: as its id, or as its project
/// name.
pub open spec fn answers_to(workspace: Workspace, identifier: Seq<char>) -> bool {
    ||| workspace.id@ == identifier
    ||| (workspace.project_name matches Some(name) && name@ == identifier)
}

/// The line under which a workspace is listed: its project name with the
/// id in brackets, or the id alone.
pub open spec fn label_of(workspace: Workspace) -> Seq<char> {
    match workspace.project_name {
        Some(name) => name@ + " ("@ + workspace.id@ + ")"@,
        None => workspace.id@,
    }
}

/// The line under which `workspace` is listed.
pub fn workspace_label(workspace: &Workspace) -> (label: String)
    ensures
        label@ == label_of(*workspace),
{
    match &workspace.project_name {
        Some(name) => {
            let mut label = name.clone();
            label.append(" (");
            label.append(workspace.id.as_str());
            label.append(")");
            label
        },
        None => workspace.id.clone(),
    }
}

/// The first workspace that goes by `identifier`.
pub fn find_workspace<'a>(workspaces: &'a [Workspace], identifier: &str) -> (found: Option<
    &'a Workspace,
>)
    ensures
        match found {
            Some(workspace) => exists|i: int|
                0 <= i < workspaces@.len() && *workspace == #[trigger] workspaces@[i] && answers_to(
                    workspaces@[i],
                    identifier@,
                ) && forall|j: int| 0 <= j < i ==> !answers_to(#[trigger] workspaces@[j], identifier@),
            None => forall|j: int|
                0 <= j < workspaces@.len() ==> !answers_to(#[trigger] workspaces@[j], identifier@),
        },
{
    let wanted = identifier.to_owned();
    let mut i: usize = 0;
    while i < workspaces.len()
        invariant
            i <= workspaces@.len(),
            wanted@ == identifier@,
            forall|j: int| 0 <= j < i ==> !answers_to(#[trigger] workspaces@[j], identifier@),
        decreases workspaces@.len() - i,
    {
        let workspace = &workspaces[i];
        let by_name = match &workspace.project_name {
            Some(name) => *name == wanted,
            None => false,
        };
        if workspace.id == wanted || by_name {
            return Some(workspace);
        }
        i += 1;
    }
    None
}

/// What is reported when no workspace goes by `identifier`.
pub open spec fn not_found_text(identifier: Seq<char>) -> Seq<char> {
    "Workspace '"@ + identifier + "' not found"@
}

/// The first workspace that goes by `identifier`, or the error that names
/// the identifier where there is none.
pub fn select_workspace<'a>(workspaces: &'a [Workspace], identifier: &str) -> (selected: Result<
    &'a Workspace,
    CursorError,
>)
    ensures
        match selected {
            Ok(workspace) => exists|i: int|
                0 <= i < workspaces@.len() && *workspace == #[trigger] workspaces@[i] && answers_to(
                    workspaces@[i],
                    identifier@,
                ) && forall|j: int| 0 <= j < i ==> !answers_to(#[trigger] workspaces@[j], identifier@),
            Err(error) => error matches CursorError::Config(text) && text@ == not_found_text(
                identifier@,
            ) && forall|j: int|
                0 <= j < workspaces@.len() ==> !answers_to(#[trigger] workspaces@[j], identifier@),
        },
{
    match find_workspace(workspaces, identifier) {
        Some(workspace) => Ok(workspace),
        None => {
            let mut text = "Workspace '".to_owned();
            text.append(identifier);
            text.append("' not found");
            Err(CursorError::Config(text))
        },
    }
}

} // verus!
