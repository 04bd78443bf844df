//! Version-control commands, built as data.
//!
//! Each function assembles the exact command line the release run must
//! issue; executing it (or logging it under dry run) is the caller's side
//! of the boundary.

use vstd::prelude::*;

verus! {

/// A fully assembled version-control invocation.
#[derive(Debug)]
pub struct Invocation {
    /// The command line, program name first.
    pub args: Vec<String>,
    /// The directory to run in.
    pub cwd: String,
    /// Under dry run the command is logged and treated as having succeeded.
    pub dry_run: bool,
}

/// The texts of a list of strings.
pub open spec fn strs_view(l: Seq<String>) -> Seq<Seq<char>> {
    l.map_values(|s: String| s@)
}

/// The command line that commits all pending changes.
pub open spec fn spec_commit_all_args(msg: Seq<char>, sign: bool) -> Seq<Seq<char>> {
    seq![
        "git"@,
        "commit"@,
        if sign {
            "-S"@
        } else {
            ""@
        },
        "-am"@,
        msg,
    ]
}

/// Builds `git commit -am <msg>`, signed when asked.
pub fn commit_all(dir: &str, msg: &str, sign: bool, dry_run: bool) -> (c: Invocation)
    ensures
        strs_view(c.args@) == spec_commit_all_args(msg@, sign),
        c.cwd@ == dir@,
        c.dry_run == dry_run,
{
    let mut args: Vec<String> = Vec::new();
    args.push(String::from_str("git"));
    args.push(String::from_str("commit"));
    args.push(String::from_str(if sign {
        "-S"
    } else {
        ""
    }));
    args.push(String::from_str("-am"));
    args.push(String::from_str(msg));
    proof {
        assert(strs_view(args@) =~= spec_commit_all_args(msg@, sign));
    }
    Invocation { args, cwd: String::from_str(dir), dry_run }
}

/// The command line that creates an annotated tag.
pub open spec fn spec_tag_args(name: Seq<char>, msg: Seq<char>, sign: bool) -> Seq<Seq<char>> {
    seq![
        "git"@,
        "tag"@,
        "-a"@,
        name,
        "-m"@,
        msg,
        if sign {
            "-s"@
        } else {
            ""@
        },
    ]
}

/// Builds `git tag -a <name> -m <msg>`, signed when asked.
pub fn tag(dir: &str, name: &str, msg: &str, sign: bool, dry_run: bool) -> (c: Invocation)
    ensures
        strs_view(c.args@) == spec_tag_args(name@, msg@, sign),
        c.cwd@ == dir@,
        c.dry_run == dry_run,
{
    let mut args: Vec<String> = Vec::new();
    args.push(String::from_str("git"));
    args.push(String::from_str("tag"));
    args.push(String::from_str("-a"));
    args.push(String::from_str(name));
    args.push(String::from_str("-m"));
    args.push(String::from_str(msg));
    args.push(String::from_str(if sign {
        "-s"
    } else {
        ""
    }));
    proof {
        assert(strs_view(args@) =~= spec_tag_args(name@, msg@, sign));
    }
    Invocation { args, cwd: String::from_str(dir), dry_run }
}

/// The command line that pushes the current branch.
pub open spec fn spec_push_args(remote: Seq<char>) -> Seq<Seq<char>> {
    seq!["git"@, "push"@, remote]
}

/// Builds `git push <remote>`.
pub fn push(dir: &str, remote: &str, dry_run: bool) -> (c: Invocation)
    ensures
        strs_view(c.args@) == spec_push_args(remote@),
        c.cwd@ == dir@,
        c.dry_run == dry_run,
{
    let mut args: Vec<String> = Vec::new();
    args.push(String::from_str("git"));
    args.push(String::from_str("push"));
    args.push(String::from_str(remote));
    proof {
        assert(strs_view(args@) =~= spec_push_args(remote@));
    }
    Invocation { args, cwd: String::from_str(dir), dry_run }
}

/// The command line that pushes one tag.
pub open spec fn spec_push_tag_args(remote: Seq<char>, tag: Seq<char>) -> Seq<Seq<char>> {
    seq!["git"@, "push"@, remote, tag]
}

/// Builds `git push <remote> <tag>`.
pub fn push_tag(dir: &str, remote: &str, tag_name: &str, dry_run: bool) -> (c: Invocation)
    ensures
        strs_view(c.args@) == spec_push_tag_args(remote@, tag_name@),
        c.cwd@ == dir@,
        c.dry_run == dry_run,
{
    let mut args: Vec<String> = Vec::new();
    args.push(String::from_str("git"));
    args.push(String::from_str("push"));
    args.push(String::from_str(remote));
    args.push(String::from_str(tag_name));
    proof {
        assert(strs_view(args@) =~= spec_push_tag_args(remote@, tag_name@));
    }
    Invocation { args, cwd: String::from_str(dir), dry_run }
}

/// Builds `git init`.
pub fn init(dir: &str, dry_run: bool) -> (c: Invocation)
    ensures
        strs_view(c.args@) == seq!["git"@, "init"@],
        c.cwd@ == dir@,
        c.dry_run == dry_run,
{
    let mut args: Vec<String> = Vec::new();
    args.push(String::from_str("git"));
    args.push(String::from_str("init"));
    proof {
        assert(strs_view(args@) =~= seq!["git"@, "init"@]);
    }
    Invocation { args, cwd: String::from_str(dir), dry_run }
}

/// Builds `git add .`.
pub fn add_all(dir: &str, dry_run: bool) -> (c: Invocation)
    ensures
        strs_view(c.args@) == seq!["git"@, "add"@, "."@],
        c.cwd@ == dir@,
        c.dry_run == dry_run,
{
    let mut args: Vec<String> = Vec::new();
    args.push(String::from_str("git"));
    args.push(String::from_str("add"));
    args.push(String::from_str("."));
    proof {
        assert(strs_view(args@) =~= seq!["git"@, "add"@, "."@]);
    }
    Invocation { args, cwd: String::from_str(dir), dry_run }
}

/// The command line that force-pushes one refspec.
pub open spec fn spec_force_push_args(remote: Seq<char>, refspec: Seq<char>) -> Seq<Seq<char>> {
    seq!["git"@, "push"@, "-f"@, remote, refspec]
}

/// Builds `git push -f <remote> <refspec>`.
pub fn force_push(dir: &str, remote: &str, refspec: &str, dry_run: bool) -> (c: Invocation)
    ensures
        strs_view(c.args@) == spec_force_push_args(remote@, refspec@),
        c.cwd@ == dir@,
        c.dry_run == dry_run,
{
    let mut args: Vec<String> = Vec::new();
    args.push(String::from_str("git"));
    args.push(String::from_str("push"));
    args.push(String::from_str("-f"));
    args.push(String::from_str(remote));
    args.push(String::from_str(refspec));
    proof {
        assert(strs_view(args@) =~= spec_force_push_args(remote@, refspec@));
    }
    Invocation { args, cwd: String::from_str(dir), dry_run }
}

/// Reads the outcome of the tree-dirtiness checks: the tree is dirty when
/// tracked files changed or untracked files are present.
pub fn dirty_from_outputs(tracked_clean: bool, has_untracked: bool) -> (r: bool)
    ensures
        r == (!tracked_clean || has_untracked),
{
    !tracked_clean || has_untracked
}

/// Reads the exit status of a `diff <tag>..HEAD` probe: clean exit means
/// nothing changed, exit one means something did, anything else (for
/// instance a missing tag) means the answer is unknown.
pub fn changed_from_status(code: Option<i32>) -> (r: Option<bool>)
    ensures
        r == (match code {
            Option::Some(0i32) => Option::Some(false),
            Option::Some(1i32) => Option::Some(true),
            _ => Option::None,
        }),
{
    match code {
        Option::Some(c) => {
            if c == 0 {
                Option::Some(false)
            } else if c == 1 {
                Option::Some(true)
            } else {
                Option::None
            }
        },
        Option::None => Option::None,
    }
}

} // verus!
