//! The file matcher: from what a glob expansion yields to the ordered list
//! of files to work on.

use vstd::prelude::*;

verus! {

/// One item of a glob expansion. `P` is the type of a path.
pub enum GlobEntry<P> {
    /// A path that matches the pattern, and whether it is a plain file.
    Found { path: P, is_file: bool },
    /// A path that could not be looked at, with the reason.
    Failed { message: String },
}

/// The files to work on, in the order of the expansion, and a warning for
/// each item of the expansion that failed.
pub struct FileSet<P> {
    pub files: Vec<P>,
    pub warnings: Vec<String>,
}

/// The warning for a failed item with the reason `message`.
pub open spec fn warning_text(message: Seq<char>) -> Seq<char> {
    "Glob error: "@ + message
}

/// The paths of the plain files among `entries`, in order.
pub open spec fn plain_files<P>(entries: Seq<GlobEntry<P>>) -> Seq<P>
    decreases entries.len(),
{
    if entries.len() == 0 {
        Seq::empty()
    } else {
        let before = plain_files(entries.drop_last());
        match entries.last() {
            GlobEntry::Found { path, is_file } => if is_file {
                before.push(path)
            } else {
                before
            },
            GlobEntry::Failed { .. } => before,
        }
    }
}

/// The warnings for the failed items among `entries`, in order.
pub open spec fn warnings_of<P>(entries: Seq<GlobEntry<P>>) -> Seq<Seq<char>>
    decreases entries.len(),
{
    if entries.len() == 0 {
        Seq::empty()
    } else {
        let before = warnings_of(entries.drop_last());
        match entries.last() {
            GlobEntry::Found { .. } => before,
            GlobEntry::Failed { message } => before.push(warning_text(message@)),
        }
    }
}

/// Keeps the plain files of a glob expansion, skips what is no plain file,
/// and turns each failed item into a warning. Nothing here is an error: an
/// expansion without plain files gives an empty set.
pub fn collect_files<P>(entries: Vec<GlobEntry<P>>) -> (set: FileSet<P>)
    ensures
        set.files@ == plain_files(entries@),
        crate::text::texts(set.warnings@) == warnings_of(entries@),
{
    let mut files: Vec<P> = Vec::new();
    let mut warnings: Vec<String> = Vec::new();
    let ghost all = entries@;
    assert(all.take(0) == Seq::<GlobEntry<P>>::empty());
    for entry in it: entries
        invariant
            it.seq() == all,
            files@ == plain_files(all.take(it.index())),
            crate::text::texts(warnings@) == warnings_of(all.take(it.index())),
    {
        let ghost k = it.index();
        assert(all.take(k + 1).drop_last() == all.take(k));
        assert(all.take(k + 1).last() == entry);
        match entry {
            GlobEntry::Found { path, is_file } => {
                if is_file {
                    files.push(path);
                }
            },
            GlobEntry::Failed { message } => {
                let mut warning = String::new();
                warning.append("Glob error: ");
                warning.append(message.as_str());
                assert(warning@ == warning_text(message@));
                assert(crate::text::texts(warnings@.push(warning)) == crate::text::texts(
                    warnings@,
                ).push(warning@));
                warnings.push(warning);
            },
        }
    }
    assert(all.take(all.len() as int) == all);
    FileSet { files, warnings }
}

/// A file of the set, as a call meets it: its path, and what reading it
/// gave.
pub struct FileEntry {
    /// The path as it is shown.
    pub path: String,
    /// The path as it is shown in quotes.
    pub quoted: String,
    /// The content of the file, or the text of the failure to read it.
    pub read: Result<String, String>,
}

/// The mathematical form of a [`FileEntry`].
pub struct FileView {
    pub path: Seq<char>,
    pub quoted: Seq<char>,
    pub read: Result<Seq<char>, Seq<char>>,
}

impl View for FileEntry {
    type V = FileView;

    open spec fn view(&self) -> FileView {
        FileView {
            path: self.path@,
            quoted: self.quoted@,
            read: match self.read {
                Ok(content) => Ok(content@),
                Err(reason) => Err(reason@),
            },
        }
    }
}

/// The mathematical forms of a sequence of files.
pub open spec fn file_views(files: Seq<FileEntry>) -> Seq<FileView> {
    files.map_values(|file: FileEntry| file@)
}

} // verus!
