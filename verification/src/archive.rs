use vstd::prelude::*;
use crate::text::{decimal, decimal_text};

verus! {

/// The folder name used inside the archive for a source whose path has no
/// final component.
pub open spec fn default_folder_name() -> Seq<char> {
    "backup_source"@
}

/// The folder inside the archive under which one source's files go: none
/// (the archive root) when there is a single source, otherwise the source's
/// own folder name, or [`default_folder_name`] when it has none.
pub open spec fn prefix_for(source_count: nat, folder_name: Option<Seq<char>>) -> Seq<char> {
    if source_count == 1 {
        Seq::empty()
    } else {
        match folder_name {
            Some(name) => name,
            None => default_folder_name(),
        }
    }
}

/// The folder inside the archive under which the files of one source go.
/// `source_count` is how many sources the run backs up and `folder_name` the
/// last component of this source's path, when it has one.
pub fn archive_prefix(source_count: usize, folder_name: Option<&str>) -> (r: String)
    ensures
        r@ == prefix_for(
            source_count as nat,
            match folder_name {
                Some(n) => Some(n@),
                None => None,
            },
        ),
        source_count == 1 ==> r@.len() == 0,
        source_count != 1 && folder_name is Some ==> r@ == folder_name->0@,
        source_count != 1 && folder_name is None ==> r@ == "backup_source"@,
{
    if source_count == 1 {
        String::new()
    } else {
        match folder_name {
            Some(name) => String::from_str(name),
            None => String::from_str("backup_source"),
        }
    }
}

/// What to do with one entry found while walking a source folder.
#[derive(PartialEq, Eq, Structural, Clone, Copy, Debug)]
pub enum EntryAction {
    /// The source folder itself: nothing to add.
    Skip,
    /// A file: its contents go into the archive.
    AddFile,
    /// A folder: an empty directory entry goes into the archive.
    AddDirectory,
}

/// The action for an entry whose path relative to the source is empty
/// (`relative_is_empty`) or not, and which is a file (`is_file`) or not.
pub open spec fn action_for(relative_is_empty: bool, is_file: bool) -> EntryAction {
    if relative_is_empty {
        EntryAction::Skip
    } else if is_file {
        EntryAction::AddFile
    } else {
        EntryAction::AddDirectory
    }
}

/// The source folder itself (empty relative path) is never added, whether
/// or not it is reported as a file; every other file is added with its
/// contents and every other entry as a directory. Only files are counted.
pub proof fn lemma_entry_actions(is_file: bool)
    ensures
        action_for(true, is_file) == EntryAction::Skip,
        action_for(false, true) == EntryAction::AddFile,
        action_for(false, false) == EntryAction::AddDirectory,
        action_for(false, is_file) != EntryAction::Skip,
{
}

/// Decides what one walked entry contributes to the archive: the source
/// folder itself is skipped, files are added with their contents, anything
/// else is added as a directory.
pub fn entry_action(relative_is_empty: bool, is_file: bool) -> (r: EntryAction)
    ensures
        r == action_for(relative_is_empty, is_file),
        relative_is_empty ==> r == EntryAction::Skip,
        !relative_is_empty && is_file ==> r == EntryAction::AddFile,
        !relative_is_empty && !is_file ==> r == EntryAction::AddDirectory,
{
    if relative_is_empty {
        EntryAction::Skip
    } else if is_file {
        EntryAction::AddFile
    } else {
        EntryAction::AddDirectory
    }
}

impl EntryAction {
    /// How many files this action adds to the archive: one for a file,
    /// none otherwise.
    pub fn file_count(&self) -> (r: usize)
        ensures
            r == (if *self == EntryAction::AddFile {
                1usize
            } else {
                0usize
            }),
    {
        match self {
            EntryAction::AddFile => 1,
            _ => 0,
        }
    }
}

/// The report of a finished archive.
pub open spec fn created_text(zip_path: Seq<char>, total_files: nat) -> Seq<char> {
    "Backup created: "@ + zip_path + " ("@ + decimal_text(total_files) + " files)"@
}

/// The report of a finished archive: where it is and how many files it holds.
pub fn backup_created_message(zip_path: &str, total_files: usize) -> (r: String)
    ensures
        r@ == created_text(zip_path@, total_files as nat),
{
    let mut r = String::from_str("Backup created: ");
    r.append(zip_path);
    r.append(" (");
    r.append(decimal(total_files).as_str());
    r.append(" files)");
    r
}

} // verus!
