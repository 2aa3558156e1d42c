//! Renaming and deleting: what the engine allows, and what the host is to do.
//!
//! The engine never touches the filesystem. The host looks at the paths
//! concerned and tells the engine what it found; the engine answers with the
//! one action to perform, or with the failure to report. When the operating
//! system then refuses the action, [`FsError::from_refusal`] names the
//! failure.

use crate::app::App;
use crate::error::FsError;
use crate::path::{
    is_path_text, is_segment, lemma_segments_of_text, path_text, segments_of, AbsolutePath,
};
use vstd::prelude::*;
use vstd::string::*;

verus! {

/// What the host found at a path when it looked.
#[derive(Clone, Copy, Debug, PartialEq, Eq, Structural)]
pub enum PathKind {
    /// A regular file.
    File,
    /// A directory.
    Directory,
    /// Something that is neither of the two.
    Other,
    /// Nothing.
    Missing,
}

/// The one step that the host is to perform on the filesystem.
#[derive(Debug, PartialEq, Eq)]
pub enum FsAction {
    /// Remove the file at this path.
    RemoveFile(String),
    /// Remove the directory at this path with everything below it.
    RemoveDirAll(String),
    /// Move `from` to `to` in one step.
    Rename { from: String, to: String },
}

impl FsAction {
    /// The action removes the file at `path`.
    pub open spec fn removes_file(self, path: Seq<char>) -> bool {
        self matches FsAction::RemoveFile(target) && target@ == path
    }

    /// The action removes the directory at `path` and all below it.
    pub open spec fn removes_dir_all(self, path: Seq<char>) -> bool {
        self matches FsAction::RemoveDirAll(target) && target@ == path
    }

    /// The action moves `source` to `target`.
    pub open spec fn renames(self, source: Seq<char>, target: Seq<char>) -> bool {
        self matches FsAction::Rename { from, to } && from@ == source && to@ == target
    }
}

/// The segments of the path that `path` has after it was renamed to
/// `new_name`: those of its parent, and the new name. There is none where
/// `path` is not the text of a path, where it is the root, which has no
/// parent, and where the new name is no segment.
pub open spec fn rename_target(path: Seq<char>, new_name: Seq<char>) -> Option<Seq<Seq<char>>> {
    if is_path_text(path) && segments_of(path).len() > 0 && is_segment(new_name) {
        Some(segments_of(path).drop_last().push(new_name))
    } else {
        None
    }
}

/// `text` is the text of the root, which has no parent to be renamed in.
pub open spec fn is_root_text(text: Seq<char>) -> bool {
    text == path_text(Seq::<Seq<char>>::empty())
}

/// The failure for which `path`, at which `source` was found, cannot be
/// renamed to `new_name`, where `target` was found at the new path; `None`
/// where the rename may go ahead. The tests come in this order: the root is
/// never renamed, whatever was found; a source that is gone is not found,
/// whatever the new name; a path that is no path and a new name that is no
/// segment give no new path; a new path at which anything was found is taken.
pub open spec fn rename_failure(
    path: Seq<char>,
    new_name: Seq<char>,
    source: PathKind,
    target: PathKind,
) -> Option<FsError> {
    if is_root_text(path) {
        Some(FsError::InvalidPath)
    } else if source is Missing {
        Some(FsError::NotFound)
    } else if rename_target(path, new_name) is None {
        Some(FsError::InvalidPath)
    } else if target !is Missing {
        Some(FsError::AlreadyExists)
    } else {
        None
    }
}

/// The text of the root has no path to be renamed to, so that a rename of
/// the root fails as an invalid path on either ground.
pub proof fn lemma_root_has_no_rename_target(new_name: Seq<char>)
    ensures
        rename_target(path_text(Seq::<Seq<char>>::empty()), new_name) is None,
{
    lemma_segments_of_text(Seq::<Seq<char>>::empty());
}

/// Whether `text` is the text of the root.
fn names_root(text: &str) -> (root: bool)
    ensures
        root == is_root_text(text@),
{
    let root = text.unicode_len() == 1 && text.get_char(0) == '/';
    proof {
        if root {
            assert(text@ =~= seq!['/']);
        }
    }
    root
}

/// The path that `path` has after it was renamed to `new_name`. Where
/// there is one, the host looks at it before it asks for the rename.
pub fn renamed_path(path: &str, new_name: &str) -> (target: Result<AbsolutePath, FsError>)
    ensures
        target is Ok <==> rename_target(path@, new_name@) is Some,
        target matches Ok(renamed) ==> renamed.wf() && Some(renamed@) == rename_target(
            path@,
            new_name@,
        ),
        target matches Err(error) ==> error == FsError::InvalidPath,
{
    match AbsolutePath::parse(path) {
        Err(_) => Err(FsError::InvalidPath),
        Ok(source) => {
            proof {
                lemma_segments_of_text(source@);
            }
            let mut renamed = source;
            match renamed.pop() {
                None => Err(FsError::InvalidPath),
                Some(_) => {
                    if renamed.push(String::from_str(new_name)) {
                        Ok(renamed)
                    } else {
                        Err(FsError::InvalidPath)
                    }
                },
            }
        },
    }
}

impl App {
    /// Decides how to delete `path`, at which the host found `found`: a
    /// file is removed alone, a directory with all that is below it. What is
    /// neither, or is there no more, cannot be deleted. The navigation state
    /// plays no part and stays as it is.
    pub fn delete_file_or_dir(&self, path: String, found: PathKind) -> (plan: Result<
        FsAction,
        FsError,
    >)
        ensures
            match found {
                PathKind::File => plan is Ok && plan->Ok_0.removes_file(path@),
                PathKind::Directory => plan is Ok && plan->Ok_0.removes_dir_all(path@),
                PathKind::Other | PathKind::Missing => plan == Err::<FsAction, FsError>(
                    FsError::NotFound,
                ),
            },
    {
        match found {
            PathKind::File => Ok(FsAction::RemoveFile(path)),
            PathKind::Directory => Ok(FsAction::RemoveDirAll(path)),
            PathKind::Other => Err(FsError::NotFound),
            PathKind::Missing => Err(FsError::NotFound),
        }
    }

    /// Decides whether `path` may be renamed to `new_name` within its
    /// directory, where the host found `source` at `path` and `target` at
    /// the new path; where there is no new path, what is handed over as
    /// `target` plays no part. The root is never renamed. A source that is
    /// there no more is not found, whatever the new name. Then a path or a
    /// name from which no new path can be made is refused, and then a new
    /// path that is taken. Otherwise the host is to move the source to the
    /// new path in one step. The navigation state plays no part and stays as
    /// it is.
    pub fn rename_file_or_dir(
        &self,
        path: String,
        new_name: String,
        source: PathKind,
        target: PathKind,
    ) -> (plan: Result<FsAction, FsError>)
        ensures
            match rename_failure(path@, new_name@, source, target) {
                Some(error) => plan == Err::<FsAction, FsError>(error),
                None => plan is Ok && plan->Ok_0.renames(
                    path@,
                    path_text(rename_target(path@, new_name@)->0),
                ),
            },
    {
        if names_root(path.as_str()) {
            return Err(FsError::InvalidPath);
        }
        match source {
            PathKind::Missing => {
                return Err(FsError::NotFound);
            },
            _ => {},
        }
        match renamed_path(path.as_str(), new_name.as_str()) {
            Err(error) => Err(error),
            Ok(renamed) => {
                match target {
                    PathKind::Missing => Ok(
                        FsAction::Rename { from: path, to: renamed.to_string() },
                    ),
                    _ => Err(FsError::AlreadyExists),
                }
            },
        }
    }
}

} // verus!
