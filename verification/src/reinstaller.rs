//! Reinstalling the tool itself: the arguments with which the package
//! manager is called.

use vstd::prelude::*;
use crate::session::arg_views;
use crate::text::{from_chars, push_str};

verus! {

/// The package manager.
pub const INSTALLER: &'static str = "cargo";

/// The source that a commit of a repository is installed from.
pub open spec fn git_source(repo_url: Seq<char>, commit: Option<Seq<char>>) -> Seq<char> {
    match commit {
        Some(c) => repo_url + "/commit/"@ + c,
        None => repo_url,
    }
}

/// The arguments that install the tool from its repository at `repo_url`,
/// at the given commit where one is given.
pub fn with_git(repo_url: &str, commit: Option<&str>) -> (args: Vec<String>)
    ensures
        arg_views(args@) == seq![
            "install"@,
            "--git"@,
            git_source(
                repo_url@,
                match commit {
                    Some(c) => Some(c@),
                    None => None,
                },
            ),
            "--force"@,
        ],
{
    let source = match commit {
        Some(c) => {
            let mut out: Vec<char> = Vec::new();
            push_str(&mut out, repo_url);
            push_str(&mut out, "/commit/");
            push_str(&mut out, c);
            from_chars(&out)
        },
        None => repo_url.to_owned(),
    };
    let mut args: Vec<String> = Vec::new();
    args.push("install".to_owned());
    args.push("--git".to_owned());
    args.push(source);
    args.push("--force".to_owned());
    assert(arg_views(args@) =~= seq![
        "install"@,
        "--git"@,
        git_source(
            repo_url@,
            match commit {
                Some(c) => Some(c@),
                None => None,
            },
        ),
        "--force"@,
    ]);
    args
}

/// The arguments that install the tool from the source tree at `path`.
pub fn with_path(path: &str) -> (args: Vec<String>)
    ensures
        arg_views(args@) == seq!["install"@, "--path"@, path@, "--force"@],
{
    let mut args: Vec<String> = Vec::new();
    args.push("install".to_owned());
    args.push("--path".to_owned());
    args.push(path.to_owned());
    args.push("--force".to_owned());
    assert(arg_views(args@) =~= seq!["install"@, "--path"@, path@, "--force"@]);
    args
}

/// The arguments that install the tool from the registry, where it is
/// published as `package`.
pub fn with_crate(package: &str) -> (args: Vec<String>)
    ensures
        arg_views(args@) == seq!["install"@, package@],
{
    let mut args: Vec<String> = Vec::new();
    args.push("install".to_owned());
    args.push(package.to_owned());
    assert(arg_views(args@) =~= seq!["install"@, package@]);
    args
}

} // verus!
