//! The directories of a persona and the files of its prompts, as they follow a
//! change of the configuration, and as they are put back where the change fails.

use crate::paths::{below, join_path};
use crate::table::Row;
use crate::text::{decimal, decimal_text};
use vstd::prelude::*;

verus! {

/// A directory that was set aside, to be moved on or put back.
pub struct PersonaScopeBackup {
    pub original: String,
    /// Where it lies while it is set aside.
    pub staged: String,
    /// Where it goes. A directory that goes nowhere is removed at the end.
    pub destination: Option<String>,
}

/// The model of [`PersonaScopeBackup`].
#[verifier::ext_equal]
pub struct PersonaScopeBackupModel {
    pub original: Seq<char>,
    pub staged: Seq<char>,
    pub destination: Option<Seq<char>>,
}

impl DeepView for PersonaScopeBackup {
    type V = PersonaScopeBackupModel;

    open spec fn deep_view(&self) -> PersonaScopeBackupModel {
        PersonaScopeBackupModel {
            original: self.original.deep_view(),
            staged: self.staged.deep_view(),
            destination: self.destination.deep_view(),
        }
    }
}

impl Row for PersonaScopeBackup {
    fn dup(&self) -> (copy: Self) {
        PersonaScopeBackup {
            original: self.original.dup(),
            staged: self.staged.dup(),
            destination: self.destination.dup(),
        }
    }
}

/// What a directory is called while it is set aside: the directory of the given
/// number, of the change of the given number.
pub open spec fn staged_name(token: Seq<char>, change: nat, scope: nat) -> Seq<char> {
    ".gqy-web-scope-"@ + token + "-"@ + decimal(change) + "-"@ + decimal(scope)
}

/// Sets a directory aside, which takes a directory that it lies in.
pub fn stage_persona_scope(
    original: &str,
    parent: Option<&str>,
    destination: Option<&str>,
    token: &str,
    change: u64,
    scope: u64,
) -> (result: Result<PersonaScopeBackup, String>)
    ensures
        match parent {
            Some(parent) => result matches Ok(backup) && backup.deep_view() == (
            PersonaScopeBackupModel {
                original: original@,
                staged: below(parent@, staged_name(token@, change as nat, scope as nat)),
                destination: destination.deep_view(),
            }),
            None => result matches Err(message) && message@ == "persona scope path has no parent"@,
        },
{
    match parent {
        None => Err("persona scope path has no parent".to_owned()),
        Some(parent) => {
            let change = decimal_text(change);
            let scope = decimal_text(scope);
            let name = ".gqy-web-scope-".to_owned().concat(token).concat("-").concat(
                change.as_str(),
            ).concat("-").concat(scope.as_str());
            let staged = join_path(parent, name.as_str());
            let destination = match destination {
                Some(path) => Some(path.to_owned()),
                None => None,
            };
            let backup = PersonaScopeBackup { original: original.to_owned(), staged, destination };
            assert(backup.destination.deep_view() == destination.deep_view());
            Ok(backup)
        },
    }
}

/// Whether a directory that was set aside is to be moved on. It may not take the
/// place of another.
pub fn settles_persona_scope(backup: &PersonaScopeBackup, destination_exists: bool) -> (result:
    Result<bool, String>)
    ensures
        match backup.deep_view().destination {
            None => result == Ok::<bool, String>(false),
            Some(destination) => if destination_exists {
                result matches Err(message) && message@
                    == "persona scope destination already exists: "@ + destination
            } else {
                result == Ok::<bool, String>(true)
            },
        },
{
    match &backup.destination {
        None => Ok(false),
        Some(destination) => if destination_exists {
            Err(
                "persona scope destination already exists: ".to_owned().concat(
                    destination.as_str(),
                ),
            )
        } else {
            Ok(true)
        },
    }
}

/// Whether a directory that is to be put back is fetched from where it went
/// first.
pub open spec fn fetched(
    backup: PersonaScopeBackupModel,
    destination_exists: bool,
    staged_exists: bool,
) -> bool {
    backup.destination is Some && destination_exists && !staged_exists
}

/// Whether a directory that is to be put back is fetched from where it went
/// first.
pub fn fetches_persona_scope(
    backup: &PersonaScopeBackup,
    destination_exists: bool,
    staged_exists: bool,
) -> (yes: bool)
    ensures
        yes == fetched(backup.deep_view(), destination_exists, staged_exists),
{
    backup.destination.is_some() && destination_exists && !staged_exists
}

/// Whether nothing is left to do with a directory that was set aside but to
/// remove it.
pub fn removes_persona_scope(backup: &PersonaScopeBackup, staged_exists: bool) -> (yes: bool)
    ensures
        yes == (backup.deep_view().destination is None && staged_exists),
{
    backup.destination.is_none() && staged_exists
}

/// What is done with a file.
#[derive(Debug, Clone, Copy, PartialEq, Eq, Structural)]
pub enum FileAction {
    Write,
    Remove,
    Leave,
}

/// What it takes for a file to hold `content`, or not to be.
pub open spec fn file_action<C>(content: Option<C>, exists: bool) -> FileAction {
    match content {
        Some(_) => FileAction::Write,
        None => if exists {
            FileAction::Remove
        } else {
            FileAction::Leave
        },
    }
}

/// What it takes for a file to hold a content, or not to be where there is none.
pub fn prompt_file_action(has_content: bool, exists: bool) -> (action: FileAction)
    ensures
        action == file_action(
            if has_content {
                Some(())
            } else {
                None
            },
            exists,
        ),
{
    if has_content {
        FileAction::Write
    } else if exists {
        FileAction::Remove
    } else {
        FileAction::Leave
    }
}

/// A tree of files after what lay at `from` was moved to `to`.
pub open spec fn moved<D>(tree: Map<Seq<char>, D>, from: Seq<char>, to: Seq<char>) -> Map<
    Seq<char>,
    D,
> {
    tree.remove(from).insert(to, tree[from])
}

/// A tree after directories were set aside, one after the other.
pub open spec fn staged<D>(
    tree: Map<Seq<char>, D>,
    backups: Seq<PersonaScopeBackupModel>,
) -> Map<Seq<char>, D>
    decreases backups.len(),
{
    if backups.len() == 0 {
        tree
    } else {
        moved(
            staged(tree, backups.drop_last()),
            backups.last().original,
            backups.last().staged,
        )
    }
}

/// A tree after a directory was moved on, if it goes anywhere.
pub open spec fn settled_one<D>(
    tree: Map<Seq<char>, D>,
    backup: PersonaScopeBackupModel,
) -> Map<Seq<char>, D> {
    match backup.destination {
        Some(destination) => moved(tree, backup.staged, destination),
        None => tree,
    }
}

/// A tree after the directories were moved on, one after the other.
pub open spec fn settled<D>(
    tree: Map<Seq<char>, D>,
    backups: Seq<PersonaScopeBackupModel>,
) -> Map<Seq<char>, D>
    decreases backups.len(),
{
    if backups.len() == 0 {
        tree
    } else {
        settled_one(settled(tree, backups.drop_last()), backups.last())
    }
}

/// A tree after a directory was put back from wherever it had come.
pub open spec fn put_back_one<D>(
    tree: Map<Seq<char>, D>,
    backup: PersonaScopeBackupModel,
) -> Map<Seq<char>, D> {
    let found = match backup.destination {
        Some(destination) => fetched(
            backup,
            tree.contains_key(destination),
            tree.contains_key(backup.staged),
        ),
        None => false,
    };
    let aside = if found {
        moved(tree, backup.destination->0, backup.staged)
    } else {
        tree
    };
    if aside.contains_key(backup.staged) {
        moved(aside, backup.staged, backup.original)
    } else {
        aside
    }
}

/// A tree after the directories were put back, the last first.
pub open spec fn put_back<D>(
    tree: Map<Seq<char>, D>,
    backups: Seq<PersonaScopeBackupModel>,
) -> Map<Seq<char>, D>
    decreases backups.len(),
{
    if backups.len() == 0 {
        tree
    } else {
        put_back(put_back_one(tree, backups.last()), backups.drop_last())
    }
}

/// A tree after the file at `path` was made to hold `content`, or removed.
pub open spec fn with_file<C>(tree: Map<Seq<char>, C>, path: Seq<char>, content: Option<C>) -> Map<
    Seq<char>,
    C,
> {
    match (file_action(content, tree.contains_key(path)), content) {
        (FileAction::Write, Some(content)) => tree.insert(path, content),
        (FileAction::Remove, _) => tree.remove(path),
        _ => tree,
    }
}

/// A tree after several files were changed, one after the other.
pub open spec fn with_files<C>(
    tree: Map<Seq<char>, C>,
    changes: Seq<(Seq<char>, Option<C>)>,
) -> Map<Seq<char>, C>
    decreases changes.len(),
{
    if changes.len() == 0 {
        tree
    } else {
        with_file(with_files(tree, changes.drop_last()), changes.last().0, changes.last().1)
    }
}

/// What the files that are to be changed hold before the change.
pub open spec fn contents<C>(
    tree: Map<Seq<char>, C>,
    changes: Seq<(Seq<char>, Option<C>)>,
) -> Seq<(Seq<char>, Option<C>)> {
    changes.map_values(
        |change: (Seq<char>, Option<C>)|
            (
                change.0,
                if tree.contains_key(change.0) {
                    Some(tree[change.0])
                } else {
                    None
                },
            ),
    )
}

} // verus!
