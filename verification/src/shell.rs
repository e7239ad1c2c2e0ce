//! The shell's settings, and how a command name becomes the paths to try.
//!
//! The search path is fixed when the shell is made. A name is looked up by
//! trying, entry by entry, the path that joins the entry with the name; the
//! first that the file system accepts is the answer. The shell never looks
//! at the file system itself: see [`crate::exec`].
use crate::text::copy_words;
use vstd::prelude::*;
use vstd::string::StrSliceExecFns;

verus! {

/// The character that parts the directories of a path.
pub open spec fn separator() -> char {
    '/'
}

/// A shell: the directories in which commands are looked for, in the order
/// in which they are tried.
pub struct Shell {
    path_entries: Vec<String>,
}

impl View for Shell {
    type V = Seq<Seq<char>>;

    /// The entries of the search path.
    closed spec fn view(&self) -> Seq<Seq<char>> {
        self.path_entries.deep_view()
    }
}

/// What the operating system tells of a path that exists.
#[derive(Debug, Clone, Copy, PartialEq, Eq)]
pub struct FileStatus {
    /// Whether the path leads to a regular file.
    pub is_file: bool,
    /// The permission bits of the file.
    pub mode: u32,
}

/// Whether permission bits `mode` let the owner, the group or anyone else
/// execute the file.
pub open spec fn has_execute_bit(mode: u32) -> bool {
    mode & 0o111 != 0
}

/// Whether a path with this status can be run as a command: it exists, is a
/// regular file, and somebody may execute it.
pub open spec fn runnable(status: Option<FileStatus>) -> bool {
    match status {
        Some(status) => status.is_file && has_execute_bit(status.mode),
        None => false,
    }
}

/// Tells whether permission bits `mode` hold an execute bit, be it the
/// owner's, the group's or that of the others.
pub fn is_executable(mode: u32) -> (b: bool)
    ensures
        b == has_execute_bit(mode),
{
    mode & 0o111 != 0
}

/// Tells whether a path with this status can be run as a command.
pub fn is_runnable(status: Option<FileStatus>) -> (b: bool)
    ensures
        b == runnable(status),
{
    match status {
        Some(status) => status.is_file && is_executable(status.mode),
        None => false,
    }
}

/// The path of `name` in directory `dir`. A name that begins with the
/// separator is a path already and stands for itself; any other, whether or
/// not a separator stands further on in it, is put behind `dir`, with a
/// separator between unless `dir` is empty or ends with one.
pub open spec fn path_in(dir: Seq<char>, name: Seq<char>) -> Seq<char> {
    if name.len() > 0 && name[0] == separator() {
        name
    } else if dir.len() == 0 || dir.last() == separator() {
        dir + name
    } else {
        dir + seq![separator()] + name
    }
}

/// The candidate paths of `name` on the search path `entries`, one for each
/// entry.
pub open spec fn candidates(entries: Seq<Seq<char>>, name: Seq<char>) -> Seq<Seq<char>> {
    Seq::new(entries.len(), |i: int| path_in(entries[i], name))
}

/// What looking up `name` gives in a file system that accepts the paths in
/// `accepted` and no others: the candidate of the first entry, from `from`
/// on, that is accepted.
pub open spec fn first_match(
    entries: Seq<Seq<char>>,
    name: Seq<char>,
    accepted: Set<Seq<char>>,
    from: nat,
) -> Option<Seq<char>>
    decreases entries.len() - from,
{
    if from >= entries.len() {
        None
    } else if accepted.contains(path_in(entries[from as int], name)) {
        Some(path_in(entries[from as int], name))
    } else {
        first_match(entries, name, accepted, from + 1)
    }
}

/// Joins a directory and a name into a path.
pub fn join_path(dir: &str, name: &str) -> (path: String)
    ensures
        path@ == path_in(dir@, name@),
{
    let name_len = name.unicode_len();
    if name_len > 0 && name.get_char(0) == '/' {
        return String::from_str(name);
    }
    let dir_len = dir.unicode_len();
    let mut path = String::from_str(dir);
    if dir_len > 0 && dir.get_char(dir_len - 1) != '/' {
        path.append("/");
        proof {
            reveal_strlit("/");
        }
    }
    path.append(name);
    path
}

impl Shell {
    /// A shell that looks for commands in `paths`, in that order.
    pub fn with_paths(paths: &[String]) -> (shell: Shell)
        ensures
            shell@ == paths.deep_view(),
    {
        Shell { path_entries: copy_words(paths) }
    }

    /// How many entries the search path has.
    pub fn path_len(&self) -> (n: usize)
        ensures
            n == self@.len(),
    {
        self.path_entries.len()
    }

    /// The path to try for `name` in entry `index` of the search path; none
    /// when the search path has no such entry.
    pub fn candidate(&self, name: &str, index: usize) -> (path: Option<String>)
        ensures
            path.deep_view() == (if index < self@.len() {
                Some(candidates(self@, name@)[index as int])
            } else {
                None
            }),
    {
        if index < self.path_entries.len() {
            Some(join_path(self.path_entries[index].as_str(), name))
        } else {
            None
        }
    }
}

} // verus!
