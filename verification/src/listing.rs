//! The entries of a directory, as the host read them.

use crate::error::{FsError, IoKind};
use crate::path::{all_segments, is_segment, path_text, AbsolutePath};
use vstd::prelude::*;

verus! {

/// What the host read of one child of a directory: its name, and whether
/// the child's own file type says that it is a directory.
#[derive(Debug, PartialEq, Eq)]
pub struct RawEntry {
    pub name: String,
    pub is_directory: bool,
}

/// One child of a directory at the time of the listing. An entry is never
/// changed; the next listing makes new ones.
#[derive(Debug)]
pub struct DirectoryEntry {
    name: String,
    abs_path: AbsolutePath,
    is_directory: bool,
}

impl DirectoryEntry {
    /// The name of the child.
    pub closed spec fn spec_name(&self) -> Seq<char> {
        self.name@
    }

    /// The segments of the absolute path of the child.
    pub closed spec fn spec_abs_path(&self) -> Seq<Seq<char>> {
        self.abs_path@
    }

    /// Whether the child is a directory.
    pub closed spec fn spec_is_directory(&self) -> bool {
        self.is_directory
    }

    /// The name is a segment, and the path ends in it.
    pub open spec fn wf(&self) -> bool {
        &&& is_segment(self.spec_name())
        &&& all_segments(self.spec_abs_path())
        &&& self.spec_abs_path().len() > 0
        &&& self.spec_abs_path().last() == self.spec_name()
    }

    /// This entry stands for the child `raw` of `directory`.
    pub open spec fn describes(&self, directory: Seq<Seq<char>>, raw: RawEntry) -> bool {
        &&& self.spec_name() == raw.name@
        &&& self.spec_is_directory() == raw.is_directory
        &&& self.spec_abs_path() == directory.push(raw.name@)
    }

    /// This entry is well formed and stands for the child of `directory` that
    /// was read as `child`, which therefore was read without failure.
    pub open spec fn lists(
        &self,
        directory: Seq<Seq<char>>,
        child: Result<RawEntry, IoKind>,
    ) -> bool {
        &&& self.wf()
        &&& child is Ok
        &&& self.describes(directory, child->Ok_0)
    }

    /// The entry for the child `raw` of `directory`, where the child's name
    /// is a segment.
    pub fn new(directory: &AbsolutePath, raw: &RawEntry) -> (entry: Option<DirectoryEntry>)
        requires
            directory.wf(),
        ensures
            entry is Some <==> is_segment(raw.name@),
            entry matches Some(e) ==> e.wf() && e.describes(directory@, *raw),
    {
        match directory.join(raw.name.as_str()) {
            Some(abs_path) => Some(
                DirectoryEntry { name: raw.name.clone(), abs_path, is_directory: raw.is_directory },
            ),
            None => None,
        }
    }

    /// The name of the child, without any separator.
    pub fn name(&self) -> (name: &String)
        ensures
            name@ == self.spec_name(),
    {
        &self.name
    }

    /// The text of the absolute path of the child.
    pub fn abs_path(&self) -> (text: String)
        ensures
            text@ == path_text(self.spec_abs_path()),
    {
        self.abs_path.to_string()
    }

    /// Whether the child is a directory.
    pub fn is_directory(&self) -> (is_directory: bool)
        ensures
            is_directory == self.spec_is_directory(),
    {
        self.is_directory
    }
}

/// Why a child, as it was read, cannot be listed: reading it failed, or its
/// name is no segment.
pub open spec fn child_failure(child: Result<RawEntry, IoKind>) -> Option<FsError> {
    match child {
        Err(kind) => Some(FsError::Io(kind)),
        Ok(raw) => if is_segment(raw.name@) {
            None
        } else {
            Some(FsError::InvalidPath)
        },
    }
}

/// No child of `children` fails to be listed.
pub open spec fn all_listable(children: Seq<Result<RawEntry, IoKind>>) -> bool {
    forall|i: int| 0 <= i < children.len() ==> child_failure(#[trigger] children[i]) is None
}

/// `error` is the failure of the first child of `children` that cannot be
/// listed.
pub open spec fn is_first_failure(
    error: FsError,
    children: Seq<Result<RawEntry, IoKind>>,
) -> bool {
    exists|i: int|
        0 <= i < children.len() && child_failure(#[trigger] children[i]) == Some(error)
            && all_listable(children.take(i))
}

/// `listing` is the listing of `directory` from what was read of it: `read`
/// is either the failure to open the directory, or for each child what was
/// read of it or the failure to read it.
///
/// The listing is whole or it fails. It succeeds exactly when the directory
/// was opened and every child can be listed; it then holds one entry for
/// each child, in the order in which the children were read. It fails for the
/// reason for which the directory could not be opened, or else for the
/// reason of the first child that cannot be listed.
pub open spec fn is_listing(
    listing: Result<Vec<DirectoryEntry>, FsError>,
    directory: Seq<Seq<char>>,
    read: Result<Vec<Result<RawEntry, IoKind>>, IoKind>,
) -> bool {
    match read {
        Err(kind) => listing == Err::<Vec<DirectoryEntry>, FsError>(FsError::Io(kind)),
        Ok(children) => match listing {
            Ok(entries) => {
                &&& all_listable(children@)
                &&& entries.len() == children.len()
                &&& forall|i: int|
                    0 <= i < entries.len() ==> (#[trigger] entries[i]).lists(directory, children[i])
            },
            Err(error) => !all_listable(children@) && is_first_failure(error, children@),
        },
    }
}

/// Lists `directory` from what the host read of it.
pub fn list(
    directory: &AbsolutePath,
    read: &Result<Vec<Result<RawEntry, IoKind>>, IoKind>,
) -> (listing: Result<Vec<DirectoryEntry>, FsError>)
    requires
        directory.wf(),
    ensures
        is_listing(listing, directory@, *read),
{
    match read {
        Err(kind) => Err(FsError::Io(*kind)),
        Ok(children) => {
            let mut entries: Vec<DirectoryEntry> = Vec::new();
            let mut i: usize = 0;
            while i < children.len()
                invariant
                    i <= children.len(),
                    directory.wf(),
                    read is Ok,
                    read->Ok_0 == *children,
                    entries.len() == i,
                    all_listable(children@.take(i as int)),
                    forall|k: int|
                        0 <= k < i ==> (#[trigger] entries[k]).lists(directory@, children[k]),
                decreases children.len() - i,
            {
                match &children[i] {
                    Err(kind) => {
                        assert(child_failure(children@[i as int]) == Some(FsError::Io(*kind)));
                        return Err(FsError::Io(*kind));
                    },
                    Ok(raw) => {
                        match DirectoryEntry::new(directory, raw) {
                            None => {
                                assert(child_failure(children@[i as int]) == Some(
                                    FsError::InvalidPath,
                                ));
                                return Err(FsError::InvalidPath);
                            },
                            Some(entry) => {
                                entries.push(entry);
                                assert(all_listable(children@.take(i + 1))) by {
                                    assert forall|k: int| 0 <= k < i + 1 implies child_failure(
                                        #[trigger] children@.take(i + 1)[k],
                                    ) is None by {
                                        if k < i {
                                            assert(children@.take(i as int)[k] == children@[k]);
                                        }
                                    }
                                }
                            },
                        }
                    },
                }
                i += 1;
            }
            assert(children@.take(i as int) =~= children@);
            Ok(entries)
        },
    }
}

} // verus!
