//! Registry commands, built as data.

use vstd::prelude::*;
use crate::Features;
use crate::git::Invocation;
use crate::git::strs_view;

verus! {

/// The space-joined text of a list of strings, from position `i` on.
pub open spec fn spec_join_space_from(l: Seq<Seq<char>>, i: int) -> Seq<char>
    decreases l.len() - i,
{
    if i < 0 || i >= l.len() {
        Seq::empty()
    } else if i == l.len() - 1 {
        l[i]
    } else {
        l[i] + seq![' '] + spec_join_space_from(l, i + 1)
    }
}

/// The space-joined text of a list of strings.
pub open spec fn spec_join_space(l: Seq<Seq<char>>) -> Seq<char> {
    spec_join_space_from(l, 0)
}

fn join_space_from(l: &Vec<String>, i: usize) -> (r: String)
    ensures
        r@ == spec_join_space_from(strs_view(l@), i as int),
    decreases l@.len() - i,
{
    let ghost lv = strs_view(l@);
    proof {
        assert(lv.len() == l@.len());
        assert(forall|j: int| 0 <= j < l@.len() ==> lv[j] == l@[j]@);
    }
    if i >= l.len() {
        let r = String::new();
        proof {
            assert(r@ =~= spec_join_space_from(lv, i as int));
        }
        r
    } else if i == l.len() - 1 {
        l[i].clone()
    } else {
        let mut s = l[i].clone();
        s.append(" ");
        let rest = join_space_from(l, i + 1);
        s.append(rest.as_str());
        proof {
            reveal_strlit(" ");
            assert(s@ =~= spec_join_space_from(lv, i as int));
        }
        s
    }
}

/// Joins strings with single spaces.
pub fn join_space(l: &Vec<String>) -> (r: String)
    ensures
        r@ == spec_join_space(strs_view(l@)),
{
    join_space_from(l, 0)
}

/// The command line that publishes one package: the feature selection picks
/// the flags, and `--allow-dirty` is appended when asked.
pub open spec fn spec_publish_args(
    manifest_path: Seq<char>,
    features: Seq<Seq<char>>,
    all_features: bool,
    selective: bool,
    allow_dirty: bool,
) -> Seq<Seq<char>> {
    let base: Seq<Seq<char>> = if all_features {
        seq!["cargo"@, "publish"@, "--all-features"@, "--manifest-path"@, manifest_path]
    } else if selective {
        seq![
            "cargo"@,
            "publish"@,
            "--features"@,
            spec_join_space(features),
            "--manifest-path"@,
            manifest_path,
        ]
    } else {
        seq!["cargo"@, "publish"@, "--manifest-path"@, manifest_path]
    };
    if allow_dirty {
        base.push("--allow-dirty"@)
    } else {
        base
    }
}

/// Builds the `cargo publish` invocation for one package.
pub fn publish(dry_run: bool, allow_dirty: bool, manifest_path: &str, features: &Features) -> (c:
    Invocation)
    ensures
        strs_view(c.args@) == spec_publish_args(
            manifest_path@,
            match features {
                Features::Selective(l) => strs_view(l@),
                _ => Seq::empty(),
            },
            features is All,
            features is Selective,
            allow_dirty,
        ),
        c.cwd@ == ""@,
        c.dry_run == dry_run,
{
    let mut args: Vec<String> = Vec::new();
    args.push(String::from_str("cargo"));
    args.push(String::from_str("publish"));
    match features {
        Features::Nothing => {
            args.push(String::from_str("--manifest-path"));
            args.push(String::from_str(manifest_path));
        },
        Features::Selective(l) => {
            args.push(String::from_str("--features"));
            args.push(join_space(l));
            args.push(String::from_str("--manifest-path"));
            args.push(String::from_str(manifest_path));
        },
        Features::All => {
            args.push(String::from_str("--all-features"));
            args.push(String::from_str("--manifest-path"));
            args.push(String::from_str(manifest_path));
        },
    }
    if allow_dirty {
        args.push(String::from_str("--allow-dirty"));
    }
    proof {
        assert(strs_view(args@) =~= spec_publish_args(
            manifest_path@,
            match features {
                Features::Selective(l) => strs_view(l@),
                _ => Seq::empty(),
            },
            features is All,
            features is Selective,
            allow_dirty,
        ));
    }
    Invocation { args, cwd: String::from_str(""), dry_run }
}

} // verus!
