//! What the command line asks for, and the diff command it leads to.

use vstd::prelude::*;

verus! {

/// The command-line arguments: the file to diff, and whether the diff is
/// taken from the file's own directory, so that a file outside the current
/// repository can be shown.
#[derive(Clone, Debug)]
pub struct Args {
    change_dir: bool,
    path: String,
}

impl Args {
    pub fn new(change_dir: bool, path: String) -> (r: Args)
        ensures
            r.change_dir_spec() == change_dir,
            r.path_spec() == path@,
    {
        Args { change_dir, path }
    }

    pub closed spec fn change_dir_spec(&self) -> bool {
        self.change_dir
    }

    pub closed spec fn path_spec(&self) -> Seq<char> {
        self.path@
    }

    /// The file to diff.
    pub fn path(&self) -> (r: &str)
        ensures
            r@ == self.path_spec(),
    {
        self.path.as_str()
    }

    /// Whether the diff is taken from the file's own directory.
    pub fn change_dir(&self) -> (r: bool)
        ensures
            r == self.change_dir_spec(),
    {
        self.change_dir
    }
}

/// The arguments of the `git` call that produces the diff of `file` with
/// the whole file as context, run from `directory` when one is given.
pub open spec fn diff_command(file: Seq<char>, directory: Option<Seq<char>>) -> Seq<Seq<char>> {
    match directory {
        None => seq!["diff"@, "-U1000"@, file],
        Some(dir) => seq!["-C"@, dir, "diff"@, "-U1000"@, file],
    }
}

/// The arguments for `git` that produce the diff of `file` with the whole
/// file as context: `diff -U1000 <file>`, or `-C <directory> diff -U1000
/// <file>` when the diff is taken from the file's directory.
pub fn git_diff_args(file: &str, directory: Option<&str>) -> (r: Vec<String>)
    ensures
        r@.map_values(|s: String| s@) == diff_command(
            file@,
            match directory {
                Some(d) => Some(d@),
                None => None,
            },
        ),
{
    let mut args: Vec<String> = Vec::new();
    match directory {
        Some(dir) => {
            args.push("-C".to_owned());
            args.push(dir.to_owned());
        },
        None => {},
    }
    args.push("diff".to_owned());
    args.push("-U1000".to_owned());
    args.push(file.to_owned());
    proof {
        let d = match directory {
            Some(d) => Some(d@),
            None => None,
        };
        assert(args@.map_values(|s: String| s@) =~= diff_command(file@, d));
    }
    args
}

} // verus!
