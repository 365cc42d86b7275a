//! The workspace section of a root manifest.

use crate::document::{parse_document, parsed_toml, Key, ManifestSyntaxError, Node};
use crate::text::texts;
use vstd::prelude::*;

verus! {

/// Every node of the list is a string.
pub open spec fn all_text(items: Seq<Node>) -> bool {
    forall|i: int| 0 <= i < items.len() ==> (#[trigger] items[i]) is Text
}

/// The strings that a list of string nodes holds.
pub open spec fn text_values(items: Seq<Node>) -> Seq<Seq<char>> {
    Seq::new(items.len(), |i: int| items[i]->Text_0@)
}

/// The strings of a list of nodes, where every node is a string.
pub fn strings_of(items: &Vec<Node>) -> (strings: Option<Vec<String>>)
    ensures
        match strings {
            Some(list) => all_text(items@) && texts(list@) == text_values(items@),
            None => !all_text(items@),
        },
{
    let mut list: Vec<String> = Vec::new();
    let mut i: usize = 0;
    while i < items.len()
        invariant
            i <= items.len(),
            list.len() == i,
            forall|j: int| 0 <= j < i ==> (#[trigger] items[j]) is Text,
            forall|j: int| 0 <= j < i ==> (#[trigger] list[j])@ == items[j]->Text_0@,
        decreases items.len() - i,
    {
        match &items[i] {
            Node::Text(s) => {
                list.push(s.clone());
            },
            _ => {
                proof {
                    assert(!(items@[i as int] is Text));
                }
                return None;
            },
        }
        i += 1;
    }
    proof {
        assert(texts(list@) =~= text_values(items@));
    }
    Some(list)
}

/// The workspace section as mathematical values: the member patterns,
/// where the section has a `members` key.
pub struct WorkspaceView {
    pub members: Option<Seq<Seq<char>>>,
}

/// A root manifest as mathematical values: its workspace section, where
/// it has one.
pub struct CargoTomlView {
    pub workspace: Option<WorkspaceView>,
}

/// The build-relevant part of a root manifest.
#[derive(Debug, PartialEq, Eq)]
pub struct CargoToml {
    pub workspace: Option<Workspace>,
}

/// The workspace section of a root manifest.
#[derive(Debug, PartialEq, Eq)]
pub struct Workspace {
    pub members: Option<Vec<String>>,
}

impl View for Workspace {
    type V = WorkspaceView;

    open spec fn view(&self) -> WorkspaceView {
        WorkspaceView {
            members: match self.members {
                Some(list) => Some(texts(list@)),
                None => None,
            },
        }
    }
}

impl View for CargoToml {
    type V = CargoTomlView;

    open spec fn view(&self) -> CargoTomlView {
        CargoTomlView {
            workspace: match self.workspace {
                Some(section) => Some(section@),
                None => None,
            },
        }
    }
}

/// Whether a root manifest is that of a workspace, as mathematical values.
pub enum IsWorkspaceView {
    Yes { members: Seq<Seq<char>> },
    NoMembers,
    No,
}

/// Whether a root manifest is that of a workspace.
#[derive(Debug, PartialEq, Eq)]
pub enum IsWorkspace {
    /// A workspace with at least one member pattern.
    Yes { members: Vec<String> },
    /// A workspace section whose members key is not set or empty. Nothing
    /// is built for such a manifest.
    NoMembers,
    /// No workspace section: the manifest of a single package.
    No,
}

impl View for IsWorkspace {
    type V = IsWorkspaceView;

    open spec fn view(&self) -> IsWorkspaceView {
        match self {
            IsWorkspace::Yes { members } => IsWorkspaceView::Yes { members: texts(members@) },
            IsWorkspace::NoMembers => IsWorkspaceView::NoMembers,
            IsWorkspace::No => IsWorkspaceView::No,
        }
    }
}

/// What the `members` key of a workspace section holds: a list of strings
/// or nothing. Anything else is malformed.
pub open spec fn decoded_members(section: Node) -> Result<Option<Seq<Seq<char>>>, Key> {
    match section.spec_get("members"@) {
        None => Ok(None),
        Some(Node::Array(items)) => if all_text(items@) {
            Ok(Some(text_values(items@)))
        } else {
            Err(Key::Members)
        },
        Some(_) => Err(Key::Members),
    }
}

/// What a document holds of a workspace: a `workspace` table or nothing.
/// Anything else is malformed.
pub open spec fn decoded_workspace(document: Node) -> Result<CargoTomlView, Key> {
    match document.spec_get("workspace"@) {
        None => Ok(CargoTomlView { workspace: None }),
        Some(section) => if section is Table {
            match decoded_members(section) {
                Ok(members) => Ok(CargoTomlView { workspace: Some(WorkspaceView { members }) }),
                Err(key) => Err(key),
            }
        } else {
            Err(Key::Workspace)
        },
    }
}

/// The state of a root manifest: a workspace where the section names at
/// least one member, a workspace without members where the section names
/// none, and no workspace without the section.
pub open spec fn workspace_state(manifest: CargoTomlView) -> IsWorkspaceView {
    match manifest.workspace {
        Some(section) => match section.members {
            Some(members) => if members.len() > 0 {
                IsWorkspaceView::Yes { members }
            } else {
                IsWorkspaceView::NoMembers
            },
            None => IsWorkspaceView::NoMembers,
        },
        None => IsWorkspaceView::No,
    }
}

/// Reads the workspace section of a root manifest from its document.
pub fn read_workspace(document: &Node) -> (res: Result<CargoToml, ManifestSyntaxError>)
    ensures
        match decoded_workspace(*document) {
            Ok(view) => res matches Ok(manifest) && manifest@ == view,
            Err(key) => res == Err::<CargoToml, _>(ManifestSyntaxError::Malformed(key)),
        },
{
    match document.get("workspace") {
        None => Ok(CargoToml { workspace: None }),
        Some(section) => {
            match section {
                Node::Table(_) => {},
                _ => {
                    return Err(ManifestSyntaxError::Malformed(Key::Workspace));
                },
            }
            match section.get("members") {
                None => Ok(CargoToml { workspace: Some(Workspace { members: None }) }),
                Some(Node::Array(items)) => match strings_of(items) {
                    Some(members) => Ok(
                        CargoToml { workspace: Some(Workspace { members: Some(members) }) },
                    ),
                    None => Err(ManifestSyntaxError::Malformed(Key::Members)),
                },
                Some(_) => Err(ManifestSyntaxError::Malformed(Key::Members)),
            }
        },
    }
}

/// Tells from the workspace section of a root manifest what is to be
/// built.
pub fn state_of(manifest: CargoToml) -> (state: IsWorkspace)
    ensures
        state@ == workspace_state(manifest@),
{
    if let Some(workspace) = manifest.workspace {
        if let Some(members) = workspace.members {
            if members.len() > 0 {
                IsWorkspace::Yes { members }
            } else {
                IsWorkspace::NoMembers
            }
        } else {
            IsWorkspace::NoMembers
        }
    } else {
        IsWorkspace::No
    }
}

/// What `is_workspace` returns for a text that the TOML parser reads as
/// `document`.
pub open spec fn workspace_of(document: Node) -> Result<IsWorkspaceView, Key> {
    match decoded_workspace(document) {
        Ok(manifest) => Ok(workspace_state(manifest)),
        Err(key) => Err(key),
    }
}

/// Detects whether a root manifest is that of a workspace.
pub fn is_workspace(file: &str) -> (res: Result<IsWorkspace, ManifestSyntaxError>)
    ensures
        match parsed_toml(file@) {
            None => res matches Err(error) && error is Syntax,
            Some(document) => match workspace_of(document) {
                Ok(view) => res matches Ok(state) && state@ == view,
                Err(key) => res == Err::<IsWorkspace, _>(ManifestSyntaxError::Malformed(key)),
            },
        },
{
    let document = match parse_document(file) {
        Ok(document) => document,
        Err(error) => {
            return Err(error);
        },
    };
    match read_workspace(&document) {
        Ok(manifest) => Ok(state_of(manifest)),
        Err(error) => Err(error),
    }
}

/// A root manifest that must be that of a workspace.
#[derive(Debug, PartialEq, Eq)]
pub struct WorkspaceCargoToml {
    pub workspace: Workspace,
}

/// What `parse_cargo_toml` returns for a text that the TOML parser reads
/// as `document`: the member patterns. A document without a workspace
/// section, or with one that lacks the `members` key, is malformed.
pub open spec fn strict_workspace_of(document: Node) -> Result<Seq<Seq<char>>, Key> {
    match decoded_workspace(document) {
        Ok(manifest) => match manifest.workspace {
            Some(section) => match section.members {
                Some(members) => Ok(members),
                None => Err(Key::Members),
            },
            None => Err(Key::Workspace),
        },
        Err(key) => Err(key),
    }
}

/// Reads a root manifest that must declare a workspace and its members.
pub fn parse_cargo_toml(file: &str) -> (res: Result<WorkspaceCargoToml, ManifestSyntaxError>)
    ensures
        match parsed_toml(file@) {
            None => res matches Err(error) && error is Syntax,
            Some(document) => match strict_workspace_of(document) {
                Ok(members) => res matches Ok(manifest) && manifest.workspace@.members == Some(
                    members,
                ),
                Err(key) => res == Err::<WorkspaceCargoToml, _>(
                    ManifestSyntaxError::Malformed(key),
                ),
            },
        },
{
    let document = match parse_document(file) {
        Ok(document) => document,
        Err(error) => {
            return Err(error);
        },
    };
    match read_workspace(&document) {
        Ok(manifest) => match manifest.workspace {
            Some(workspace) => {
                if workspace.members.is_some() {
                    Ok(WorkspaceCargoToml { workspace })
                } else {
                    Err(ManifestSyntaxError::Malformed(Key::Members))
                }
            },
            None => Err(ManifestSyntaxError::Malformed(Key::Workspace)),
        },
        Err(error) => Err(error),
    }
}

} // verus!
