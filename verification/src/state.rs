//! The layout of the state directory, and what is done to the files in it.
use crate::text;
use crate::text::{chars_of, strip_prefix};
use crate::DEFAULT_STATE_ROOT_SUFFIX;
use vstd::prelude::*;

verus! {

/// Whether a path begins at the root of the file system.
pub open spec fn absolute(path: Seq<char>) -> bool {
    path.len() > 0 && path[0] == '/'
}

/// `part` as a path below `base`. An absolute path stands for itself.
pub open spec fn joined(base: Seq<char>, part: Seq<char>) -> Seq<char> {
    if absolute(part) {
        part
    } else if base.len() == 0 || base.last() == '/' {
        base + part
    } else {
        base + "/"@ + part
    }
}

/// Whether a path begins at the root of the file system.
pub fn is_absolute(path: &str) -> (r: bool)
    ensures
        r == absolute(path@),
{
    let chars = chars_of(path);
    chars.len() > 0 && chars[0] == '/'
}

/// `part` as a path below `base`. An absolute path stands for itself.
pub fn join_path(base: &str, part: &str) -> (path: String)
    ensures
        path@ == joined(base@, part@),
{
    let bs = chars_of(base);
    if is_absolute(part) {
        part.to_owned()
    } else if bs.len() == 0 || bs[bs.len() - 1] == '/' {
        base.to_owned().concat(part)
    } else {
        base.to_owned().concat("/").concat(part)
    }
}

/// Replaces a leading `~` by the home directory; none where there is no home directory.
pub open spec fn expanded(path: Seq<char>, home: Option<Seq<char>>) -> Option<Seq<char>> {
    if text::begins(path, "~/"@) {
        match home {
            Some(dir) => Some(joined(dir, path.skip(2))),
            None => None,
        }
    } else if path == "~"@ {
        home
    } else {
        Some(path)
    }
}

/// Replaces a leading `~` by the home directory.
pub fn expand_user(input: &str, home: Option<&str>) -> (r: Result<String, String>)
    ensures
        match r {
            Ok(path) => expanded(
                input@,
                match home {
                    Some(dir) => Some(dir@),
                    None => None,
                },
            ) == Some(path@),
            Err(why) => why@ == "HOME not set"@ && expanded(
                input@,
                match home {
                    Some(dir) => Some(dir@),
                    None => None,
                },
            ) is None,
        },
{
    proof {
        reveal_strlit("~/");
        reveal_strlit("~");
    }
    match strip_prefix(input, "~/") {
        Some(rest) => match home {
            Some(dir) => Ok(join_path(dir, &rest)),
            None => Err("HOME not set".to_owned()),
        },
        None => {
            if text::same(input, "~") {
                match home {
                    Some(dir) => Ok(dir.to_owned()),
                    None => Err("HOME not set".to_owned()),
                }
            } else {
                Ok(input.to_owned())
            }
        },
    }
}

/// A path that was given on the command line, with a leading `~` and a relative path resolved; none
/// where there is no home directory and one is needed.
pub open spec fn resolved(
    path: Seq<char>,
    home: Option<Seq<char>>,
    cwd: Seq<char>,
) -> Option<Seq<char>> {
    match expanded(path, home) {
        Some(given) => Some(joined(cwd, given)),
        None => None,
    }
}

/// Resolves a path that was given on the command line: a leading `~` stands for the home
/// directory, and a relative path is one below the directory `cwd`. Where `cwd` is absolute, so is
/// the result.
pub fn resolve_repo_path(input: &str, home: Option<&str>, cwd: &str) -> (r: Result<String, String>)
    ensures
        match r {
            Ok(path) => expanded(
                input@,
                match home {
                    Some(dir) => Some(dir@),
                    None => None,
                },
            ) matches Some(given) && path@ == joined(cwd@, given),
            Err(why) => why@ == "HOME not set"@ && expanded(
                input@,
                match home {
                    Some(dir) => Some(dir@),
                    None => None,
                },
            ) is None,
        },
        r matches Ok(path) ==> absolute(cwd@) ==> absolute(path@),
        r matches Ok(path) ==> Some(path@) == resolved(
            input@,
            match home {
                Some(dir) => Some(dir@),
                None => None,
            },
            cwd@,
        ),
{
    match expand_user(input, home) {
        Ok(given) => Ok(join_path(cwd, &given)),
        Err(why) => Err(why),
    }
}

/// Something to do to a file or directory.
#[derive(Debug, PartialEq, Eq)]
pub enum FileAction {
    /// Make a directory, with those above it, unless it is there.
    CreateDir(String),
    /// Write a file, whatever it held before.
    Write { path: String, text: String },
    /// Write at the end of a file, which is made where it is missing.
    Append { path: String, text: String },
    /// Give a file another name, in the place of whatever had that name.
    Rename { from: String, to: String },
}

/// The model of a [`FileAction`].
pub enum FileOp {
    CreateDir(Seq<char>),
    Write { path: Seq<char>, text: Seq<char> },
    Append { path: Seq<char>, text: Seq<char> },
    Rename { from: Seq<char>, to: Seq<char> },
}

impl View for FileAction {
    type V = FileOp;

    open spec fn view(&self) -> FileOp {
        match self {
            FileAction::CreateDir(path) => FileOp::CreateDir(path@),
            FileAction::Write { path, text } => FileOp::Write { path: path@, text: text@ },
            FileAction::Append { path, text } => FileOp::Append { path: path@, text: text@ },
            FileAction::Rename { from, to } => FileOp::Rename { from: from@, to: to@ },
        }
    }
}

/// The views of a list of actions.
pub open spec fn ops(list: Seq<FileAction>) -> Seq<FileOp> {
    list.map_values(|a: FileAction| a@)
}

/// The state directory.
#[derive(Debug, PartialEq, Eq)]
pub struct StateRoot {
    root: String,
}

impl View for StateRoot {
    type V = Seq<char>;

    closed spec fn view(&self) -> Seq<char> {
        self.root@
    }
}

impl Clone for StateRoot {
    fn clone(&self) -> (r: StateRoot)
        ensures
            r@ == self@,
    {
        StateRoot { root: self.root.clone() }
    }
}

/// The registry file below a state directory.
pub open spec fn registry_file(root: Seq<char>) -> Seq<char> {
    joined(root, "registry.json"@)
}

/// The file that a new registry is written to, before it takes the place of the old one.
pub open spec fn registry_tmp_file(root: Seq<char>) -> Seq<char> {
    joined(root, "registry.tmp"@)
}

/// The directories that are made before anything is written.
pub open spec fn needed_dirs(root: Seq<char>) -> Seq<FileOp> {
    seq![
        FileOp::CreateDir(root),
        FileOp::CreateDir(joined(root, "state"@)),
        FileOp::CreateDir(joined(root, "logs"@)),
    ]
}

/// The usual state directory, below the home directory; below `/tmp` where there is none.
pub open spec fn usual_root(home: Option<Seq<char>>) -> Seq<char> {
    joined(text::text_or(home, "/tmp"@), DEFAULT_STATE_ROOT_SUFFIX@)
}

/// The log file `name` below a state directory.
pub open spec fn log_file(root: Seq<char>, name: Seq<char>) -> Seq<char> {
    joined(joined(root, "logs"@), name + ".log"@)
}

impl StateRoot {
    /// The state directory at any path. Nothing is touched on disk.
    pub fn from_path(path: String) -> (r: StateRoot)
        ensures
            r@ == path@,
    {
        StateRoot { root: path }
    }

    /// The usual state directory, below the home directory; below `/tmp` where there is none.
    pub fn default_from_home(home: Option<&str>) -> (r: StateRoot)
        ensures
            r@ == usual_root(
                match home {
                    Some(dir) => Some(dir@),
                    None => None,
                },
            ),
            r@ == joined(
                match home {
                    Some(dir) => dir@,
                    None => "/tmp"@,
                },
                DEFAULT_STATE_ROOT_SUFFIX@,
            ),
    {
        match home {
            Some(dir) => StateRoot::from_path(join_path(dir, DEFAULT_STATE_ROOT_SUFFIX)),
            None => StateRoot::from_path(join_path("/tmp", DEFAULT_STATE_ROOT_SUFFIX)),
        }
    }

    pub fn root(&self) -> (path: &str)
        ensures
            path@ == self@,
    {
        &self.root
    }

    pub fn registry_path(&self) -> (path: String)
        ensures
            path@ == registry_file(self@),
    {
        join_path(&self.root, "registry.json")
    }

    /// The file that a new registry is written to, before it takes the place of the old one.
    pub fn registry_tmp_path(&self) -> (path: String)
        ensures
            path@ == registry_tmp_file(self@),
    {
        join_path(&self.root, "registry.tmp")
    }

    pub fn logs_dir(&self) -> (path: String)
        ensures
            path@ == joined(self@, "logs"@),
    {
        join_path(&self.root, "logs")
    }

    pub fn state_dir(&self) -> (path: String)
        ensures
            path@ == joined(self@, "state"@),
    {
        join_path(&self.root, "state")
    }

    pub fn log_path(&self, name: &str) -> (path: String)
        ensures
            path@ == log_file(self@, name@),
    {
        join_path(&self.logs_dir(), &name.to_owned().concat(".log"))
    }

    /// Makes every directory that the engine writes to. Nothing is ever deleted.
    pub fn ensure_dirs(&self) -> (list: Vec<FileAction>)
        ensures
            ops(list@) == needed_dirs(self@),
    {
        let list = vec![
            FileAction::CreateDir(self.root.clone()),
            FileAction::CreateDir(self.state_dir()),
            FileAction::CreateDir(self.logs_dir()),
        ];
        proof {
            assert(ops(list@) =~= needed_dirs(self@));
        }
        list
    }
}

} // verus!
