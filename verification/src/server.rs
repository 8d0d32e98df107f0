//! Servers as directories: their names, their templates, their removal and
//! the command that runs them.

use vstd::prelude::*;
use crate::error::Error;
use crate::names::{contains, distinct, has_name, insert, name_views, same_text};
use crate::naming::{candidate, get_first_server_path, is_first_free};
use crate::platforms::{platform_name, Platform};
use crate::session::BASE_COMMAND;
use crate::text::{
    ends_with, find, find_first, from_chars, lemma_find_is_first, has_suffix, push_str, slice_chars,
    to_chars, trim_end, trim_end_chars,
};

verus! {

/// What the name of a template ends with.
pub const TEMPLATE_SUFFIX: &'static str = ".template";

/// The directory inside a server's directory that holds its records.
pub const METADATA_DIRECTORY: &'static str = ".mcserver";

/// The record that names the server's jar file.
pub const JAR_FILE_TXT_NAME: &'static str = "jar_file.txt";

/// The record that holds the time of the server's last use.
pub const LAST_USED_FILE: &'static str = "last_used.timestamp";

/// A server as it is listed: its name and the tags shown after it.
#[derive(Debug)]
pub struct ServerObject {
    pub name: String,
    pub tags: Vec<String>,
}

impl ServerObject {
    /// A server without tags.
    pub fn new(name: String) -> (server: ServerObject)
        ensures
            server.name == name,
            server.tags@.len() == 0,
    {
        ServerObject { name, tags: Vec::new() }
    }
}

/// `name` is the name of a template.
pub open spec fn is_template_name(name: Seq<char>) -> bool {
    ends_with(name, TEMPLATE_SUFFIX@)
}

/// Whether `server` is the name of a template.
pub fn is_template(server: &str) -> (b: bool)
    ensures
        b == is_template_name(server@),
{
    let name = to_chars(server);
    let suffix = to_chars(TEMPLATE_SUFFIX);
    has_suffix(&name, &suffix)
}

/// The name of the template made from `server`.
pub fn template_name(server: &str) -> (name: String)
    ensures
        name@ == server@ + TEMPLATE_SUFFIX@,
{
    let mut out: Vec<char> = Vec::new();
    push_str(&mut out, server);
    push_str(&mut out, TEMPLATE_SUFFIX);
    from_chars(&out)
}

/// A directory to copy, with all that it holds, to a directory beside it
/// that does not exist yet.
#[derive(Debug)]
pub struct CopyPlan {
    pub source: String,
    pub target: String,
}

/// What `new_template` answers, given the entries of the servers directory.
pub open spec fn new_template_outcome(
    existing: Seq<String>,
    server: Seq<char>,
    result: Result<CopyPlan, Error>,
) -> bool {
    if is_template_name(server) {
        result matches Err(Error::TemplateUsedForTemplate)
    } else if !has_name(existing, server) {
        result matches Err(Error::ServerNotFound(n)) && n@ == server
    } else if has_name(existing, server + TEMPLATE_SUFFIX@) {
        result matches Err(Error::TemplateAlreadyExists(n)) && n@ == server
    } else {
        result matches Ok(plan) && plan.source@ == server && plan.target@ == server
            + TEMPLATE_SUFFIX@
    }
}

/// Plans the making of a template from `server`: the copy of its directory to
/// the directory of the template. Refused where `server` is itself a
/// template, where it does not exist, and where its template exists already.
pub fn new_template(existing: &Vec<String>, server: &str) -> (result: Result<CopyPlan, Error>)
    ensures
        new_template_outcome(existing@, server@, result),
        is_template_name(server@) ==> (result matches Err(Error::TemplateUsedForTemplate)),
{
    if is_template(server) {
        return Err(Error::TemplateUsedForTemplate);
    }
    if !contains(existing, server) {
        return Err(Error::ServerNotFound(server.to_owned()));
    }
    let template = template_name(server);
    if contains(existing, template.as_str()) {
        return Err(Error::TemplateAlreadyExists(server.to_owned()));
    }
    Ok(CopyPlan { source: server.to_owned(), target: template })
}

/// The directory of the template that `template` names: `template` itself if
/// it ends with the template suffix, else `template` with that suffix added.
pub open spec fn template_dir(template: Seq<char>) -> Seq<char> {
    if is_template_name(template) {
        template
    } else {
        template + TEMPLATE_SUFFIX@
    }
}

/// The name of the server that a template was made from: `template` without
/// the template suffix, if it ends with it.
pub open spec fn template_base(template: Seq<char>) -> Seq<char> {
    if is_template_name(template) {
        template.subrange(0, template.len() - TEMPLATE_SUFFIX@.len())
    } else {
        template
    }
}

/// The name that is refused as a target because an entry has it already.
pub open spec fn taken_target(existing: Seq<String>, server: Option<Seq<char>>) -> Option<
    Seq<char>,
> {
    match server {
        Some(target) => if has_name(existing, target) {
            Some(target)
        } else {
            None
        },
        None => None,
    }
}

/// What `from_template` answers, given the entries of the servers directory.
/// A named target that exists already is refused first, whether or not the
/// template exists; then a template that does not exist.
pub open spec fn from_template_outcome(
    existing: Seq<String>,
    template: Seq<char>,
    server: Option<Seq<char>>,
    result: Result<CopyPlan, Error>,
) -> bool {
    if taken_target(existing, server) is Some {
        result matches Err(Error::ServerAlreadyExists(n)) && n@ == taken_target(
            existing,
            server,
        )->Some_0
    } else if !has_name(existing, template_dir(template)) {
        result matches Err(Error::TemplateNotFound(n)) && n@ == template
    } else {
        match server {
            Some(target) => result matches Ok(plan) && plan.source@ == template_dir(template)
                && plan.target@ == target,
            None => result matches Ok(plan) && plan.source@ == template_dir(template) && exists|
                k: nat,
            |
                is_first_free(existing, template_base(template), k) && plan.target@ == candidate(
                    template_base(template),
                    k,
                ),
        }
    }
}

/// Plans the making of a server from a template: the copy of the template's
/// directory to the directory of the new server. `template` may be given with
/// or without the template suffix. The new server gets the name `server`, or,
/// where none is given, the first free name for the server that the template
/// was made from. Refused where the named server exists already, and where
/// the template does not exist, in this order.
pub fn from_template(existing: &Vec<String>, template: &str, server: Option<&str>) -> (result:
    Result<CopyPlan, Error>)
    ensures
        from_template_outcome(
            existing@,
            template@,
            match server {
                Some(s) => Some(s@),
                None => None,
            },
            result,
        ),
        result matches Ok(plan) ==> !has_name(existing@, plan.target@),
        match server {
            Some(s) => has_name(existing@, s@) ==> (result matches Err(
                Error::ServerAlreadyExists(n),
            ) && n@ == s@),
            None => true,
        },
{
    match server {
        Some(server) => {
            if contains(existing, server) {
                return Err(Error::ServerAlreadyExists(server.to_owned()));
            }
        },
        None => {},
    }
    let chars = to_chars(template);
    let suffix = to_chars(TEMPLATE_SUFFIX);
    let given_with_suffix = has_suffix(&chars, &suffix);
    let source = if given_with_suffix {
        template.to_owned()
    } else {
        template_name(template)
    };
    if !contains(existing, source.as_str()) {
        return Err(Error::TemplateNotFound(template.to_owned()));
    }
    let target = match server {
        Some(server) => server.to_owned(),
        None => {
            let base = if given_with_suffix {
                from_chars(&slice_chars(&chars, 0, chars.len() - suffix.len()))
            } else {
                template.to_owned()
            };
            let free = get_first_server_path(existing, base.as_str());
            proof {
                assert(base@ == template_base(template@));
                let k = choose|k: nat|
                    is_first_free(existing@, base@, k) && free@ == candidate(base@, k);
                assert(is_first_free(existing@, template_base(template@), k) && free@ == candidate(
                    template_base(template@),
                    k,
                ));
            }
            free
        },
    };
    Ok(CopyPlan { source, target })
}

/// How often the removal of a directory is tried before it is given up.
pub const ATTEMPTS: u8 = 10;

/// What to do after one attempt to remove a directory.
pub enum RemovalStep<E> {
    /// Try again.
    Retry,
    /// Stop with this result.
    Done(Result<(), E>),
}

/// What follows the `attempt`-th attempt, counted from 1, which ended with
/// `outcome`: success ends the removal, a failure is retried until the last
/// attempt, whose failure is the result.
pub open spec fn step_after<E>(attempt: nat, outcome: Result<(), E>) -> RemovalStep<E> {
    match outcome {
        Ok(_) => RemovalStep::Done(Ok(())),
        Err(e) => if attempt >= ATTEMPTS {
            RemovalStep::Done(Err(e))
        } else {
            RemovalStep::Retry
        },
    }
}

/// Decides what follows the `attempt`-th attempt to remove a directory,
/// counted from 1, which ended with `outcome`.
pub fn after_removal_attempt<E>(attempt: u8, outcome: Result<(), E>) -> (step: RemovalStep<E>)
    ensures
        step == step_after(attempt as nat, outcome),
{
    match outcome {
        Ok(_) => RemovalStep::Done(Ok(())),
        Err(e) => {
            if attempt >= ATTEMPTS {
                RemovalStep::Done(Err(e))
            } else {
                RemovalStep::Retry
            }
        },
    }
}

/// The result of a removal whose attempts, from the `attempt`-th on, end as
/// `outcomes` says from index `attempt - 1` on. `None` where the outcomes run
/// out before the removal has come to an end.
pub open spec fn removal_result<E>(outcomes: Seq<Result<(), E>>, attempt: nat) -> Option<
    Result<(), E>,
>
    decreases outcomes.len() + 1 - attempt,
{
    if attempt < 1 || attempt > outcomes.len() {
        None
    } else {
        match step_after(attempt, outcomes[attempt - 1]) {
            RemovalStep::Retry => removal_result(outcomes, attempt + 1),
            RemovalStep::Done(result) => Some(result),
        }
    }
}

/// A removal whose first attempts fail and whose next attempt, one of the
/// ten, succeeds, succeeds.
pub proof fn lemma_removal_succeeds_late<E>(outcomes: Seq<Result<(), E>>, good: nat)
    requires
        1 <= good <= ATTEMPTS,
        outcomes.len() >= good,
        forall|i: int| 0 <= i < good - 1 ==> (#[trigger] outcomes[i]) is Err,
        outcomes[good - 1] is Ok,
    ensures
        removal_result(outcomes, 1) == Some(Ok::<(), E>(())),
{
    lemma_removal_from(outcomes, good, 1);
}

proof fn lemma_removal_from<E>(outcomes: Seq<Result<(), E>>, good: nat, attempt: nat)
    requires
        1 <= attempt <= good <= ATTEMPTS,
        outcomes.len() >= good,
        forall|i: int| 0 <= i < good - 1 ==> (#[trigger] outcomes[i]) is Err,
        outcomes[good - 1] is Ok,
    ensures
        removal_result(outcomes, attempt) == Some(Ok::<(), E>(())),
    decreases good - attempt,
{
    if attempt < good {
        assert(outcomes[attempt - 1] is Err);
        lemma_removal_from(outcomes, good, attempt + 1);
    }
}

/// A removal whose ten attempts all fail fails with the error of the tenth.
pub proof fn lemma_removal_gives_up<E>(outcomes: Seq<Result<(), E>>)
    requires
        outcomes.len() >= ATTEMPTS,
        forall|i: int| 0 <= i < ATTEMPTS ==> (#[trigger] outcomes[i]) is Err,
    ensures
        removal_result(outcomes, 1) == Some(outcomes[ATTEMPTS - 1]),
{
    lemma_removal_fails_from(outcomes, 1);
}

proof fn lemma_removal_fails_from<E>(outcomes: Seq<Result<(), E>>, attempt: nat)
    requires
        1 <= attempt <= ATTEMPTS,
        outcomes.len() >= ATTEMPTS,
        forall|i: int| 0 <= i < ATTEMPTS ==> (#[trigger] outcomes[i]) is Err,
    ensures
        removal_result(outcomes, attempt) == Some(outcomes[ATTEMPTS - 1]),
    decreases ATTEMPTS - attempt,
{
    assert(outcomes[attempt - 1] is Err);
    if attempt < ATTEMPTS {
        lemma_removal_fails_from(outcomes, attempt + 1);
    }
}

/// The servers to remove, in order, and the failure that ends the removal
/// after them, if one does.
#[derive(Debug)]
pub struct RemovalPlan {
    pub remove: Vec<String>,
    pub failure: Option<Error>,
}

/// How many of `servers`, counted from the first, are entries of `existing`
/// before one is not.
pub open spec fn first_missing(existing: Seq<String>, servers: Seq<String>) -> nat
    decreases servers.len(),
{
    if servers.len() == 0 {
        0
    } else if !has_name(existing, servers[0]@) {
        0
    } else {
        1 + first_missing(existing, servers.drop_first())
    }
}

/// `first_missing` is an index into `servers`, or their number.
pub proof fn lemma_first_missing(existing: Seq<String>, servers: Seq<String>)
    ensures
        first_missing(existing, servers) <= servers.len(),
        forall|i: int|
            0 <= i < first_missing(existing, servers) ==> has_name(
                existing,
                (#[trigger] servers[i])@,
            ),
        first_missing(existing, servers) < servers.len() ==> !has_name(
            existing,
            servers[first_missing(existing, servers) as int]@,
        ),
    decreases servers.len(),
{
    if servers.len() > 0 && has_name(existing, servers[0]@) {
        let rest = servers.drop_first();
        lemma_first_missing(existing, rest);
        assert forall|i: int| 0 <= i < first_missing(existing, servers) implies has_name(
            existing,
            (#[trigger] servers[i])@,
        ) by {
            if i > 0 {
                assert(rest[i - 1] == servers[i]);
            }
        }
        let m = first_missing(existing, rest);
        if m < rest.len() {
            assert(rest[m as int] == servers[m as int + 1]);
        }
    }
}

/// What `remove_servers` plans: the servers before the first one that is no
/// entry of `existing` are removed, in their order, and that first one, if
/// there is one, is reported as not found.
pub open spec fn removal_plan_of(existing: Seq<String>, servers: Seq<String>, plan: RemovalPlan) -> bool {
    let m = first_missing(existing, servers) as int;
    &&& name_views(plan.remove@) == name_views(servers).subrange(0, m)
    &&& if m < servers.len() {
        plan.failure matches Some(Error::ServerNotFound(n)) && n@ == servers[m]@
    } else {
        plan.failure is None
    }
}

/// Plans the removal of `servers`, given the entries of the servers
/// directory: every server up to the first one that does not exist is
/// removed, and that first one, if there is one, is reported as not found.
#[verifier::spinoff_prover]
pub fn remove_servers(existing: &Vec<String>, servers: Vec<String>) -> (plan: RemovalPlan)
    ensures
        first_missing(existing@, servers@) <= servers@.len(),
        removal_plan_of(existing@, servers@, plan),
{
    let ghost all = servers@;
    let ghost texts = name_views(all);
    let mut remove: Vec<String> = Vec::new();
    let mut i: usize = 0;
    proof {
        lemma_first_missing(existing@, all);
        assert(all.subrange(0, all.len() as int) =~= all);
        assert(name_views(remove@) =~= texts.subrange(0, 0));
    }
    while i < servers.len()
        invariant
            i <= servers.len(),
            all == servers@,
            texts == name_views(all),
            first_missing(existing@, all) == i + first_missing(
                existing@,
                all.subrange(i as int, all.len() as int),
            ),
            name_views(remove@) == texts.subrange(0, i as int),
        decreases servers.len() - i,
    {
        let ghost tail = all.subrange(i as int, all.len() as int);
        let ghost before = name_views(remove@);
        let server = servers[i].clone();
        proof {
            assert(tail.len() > 0);
            assert(tail[0] == all[i as int]);
            assert(server@ == all[i as int]@);
        }
        if !contains(existing, server.as_str()) {
            proof {
                assert(first_missing(existing@, tail) == 0);
                assert(first_missing(existing@, all) == i);
            }
            return RemovalPlan { remove, failure: Some(Error::ServerNotFound(server)) };
        }
        remove.push(server);
        proof {
            assert(tail.drop_first() =~= all.subrange(i + 1, all.len() as int));
            assert(first_missing(existing@, tail) == 1 + first_missing(
                existing@,
                tail.drop_first(),
            ));
            assert(texts[i as int] == all[i as int]@);
            assert(name_views(remove@) =~= before.push(server@));
            assert(before.push(texts[i as int]) =~= texts.subrange(0, i + 1));
        }
        i = i + 1;
    }
    proof {
        assert(all.subrange(all.len() as int, all.len() as int) =~= Seq::<String>::empty());
        assert(first_missing(existing@, all) == all.len());
        assert(texts.subrange(0, all.len() as int) =~= texts);
    }
    RemovalPlan { remove, failure: None }
}

/// What the operator's answer to the question before a removal means.
#[derive(Debug, PartialEq, Eq, Clone, Copy)]
pub enum Confirmation {
    /// The server's name was typed back: remove it.
    Confirmed,
    /// Nothing but white space was entered: leave the server.
    Canceled,
    /// Anything else: ask again.
    AskAgain,
}

/// What `response` means as the answer to the question whether `server` is
/// to be removed. White space at the end of the response, the line ending
/// among it, is not counted. What is left confirms if it is the server's
/// name; else it cancels if it is empty, as after the enter key alone or at
/// the end of the input; anything else has the question asked again.
pub open spec fn confirmation_of(server: Seq<char>, response: Seq<char>) -> Confirmation {
    if trim_end(response) == server {
        Confirmation::Confirmed
    } else if trim_end(response).len() == 0 {
        Confirmation::Canceled
    } else {
        Confirmation::AskAgain
    }
}

/// Reads the operator's answer to the question whether `server` is to be
/// removed.
pub fn confirm_removal(server: &str, response: &str) -> (answer: Confirmation)
    ensures
        answer == confirmation_of(server@, response@),
{
    let chars = to_chars(response);
    let trimmed = trim_end_chars(&chars);
    let answer = from_chars(&trimmed);
    if same_text(answer.as_str(), server) {
        Confirmation::Confirmed
    } else if trimmed.len() == 0 {
        Confirmation::Canceled
    } else {
        Confirmation::AskAgain
    }
}

/// The servers of the fleet as a set: the entries of the servers directory,
/// each once. `entries` is `None` where the servers directory does not exist
/// or is no directory, which is an error that names `servers_dir`.
pub fn get_all_hashed(servers_dir: String, entries: Option<Vec<String>>) -> (result: Result<
    Vec<String>,
    Error,
>)
    ensures
        match entries {
            Some(all) => result matches Ok(set) && distinct(set@) && forall|n: Seq<char>|
                has_name(set@, n) <==> has_name(all@, n),
            None => result matches Err(Error::MissingDirectory { dir }) && dir == servers_dir,
        },
{
    let all = match entries {
        Some(all) => all,
        None => return Err(Error::MissingDirectory { dir: servers_dir }),
    };
    let mut set: Vec<String> = Vec::new();
    let mut i: usize = 0;
    while i < all.len()
        invariant
            i <= all.len(),
            distinct(set@),
            forall|n: Seq<char>|
                has_name(set@, n) <==> has_name(all@.subrange(0, i as int), n),
        decreases all.len() - i,
    {
        let ghost before = all@.subrange(0, i as int);
        let ghost after = all@.subrange(0, i + 1);
        let ghost old_set = set@;
        insert(&mut set, all[i].clone());
        proof {
            assert forall|n: Seq<char>| has_name(set@, n) <==> has_name(after, n) by {
                if has_name(after, n) {
                    let k = choose|k: int| 0 <= k < after.len() && (#[trigger] after[k])@ == n;
                    if k < i {
                        assert(before[k]@ == n);
                    }
                }
                if has_name(before, n) {
                    let k = choose|k: int| 0 <= k < before.len() && (#[trigger] before[k])@ == n;
                    assert(after[k]@ == n);
                }
                if n == all@[i as int]@ {
                    assert(after[i as int]@ == n);
                }
            }
        }
        i = i + 1;
    }
    assert(all@.subrange(0, all.len() as int) =~= all@);
    Ok(set)
}

/// The directory of a server, which has to exist: `server_dir` itself where
/// it is a directory, else the error that names it.
pub fn get_server_dir_required(server_dir: String, is_dir: bool) -> (result: Result<String, Error>)
    ensures
        is_dir ==> result == Ok::<String, Error>(server_dir),
        !is_dir ==> result == Err::<String, Error>(Error::MissingDirectory { dir: server_dir }),
{
    if is_dir {
        Ok(server_dir)
    } else {
        Err(Error::MissingDirectory { dir: server_dir })
    }
}

/// What the record of a server's jar file says, and whether the file it
/// names is there.
#[derive(Debug)]
pub struct JarReference {
    /// The path of the jar file that the record names.
    pub path: String,
    /// Whether a file stands at that path.
    pub is_file: bool,
}

/// What is found on disk of a server that is about to run.
#[derive(Debug)]
pub struct ServerFiles {
    /// The path of the server's directory.
    pub server_dir: String,
    /// Whether a directory stands at that path.
    pub is_dir: bool,
    /// The path of the record that names the jar file.
    pub jar_file_txt: String,
    /// What that record leads to; `None` where the record is no file.
    pub reference: Option<JarReference>,
}

/// The name of the jar file that a record names: the record's text without
/// the white space at its end.
pub fn jar_reference(record: &str) -> (name: String)
    ensures
        name@ == trim_end(record@),
{
    let chars = to_chars(record);
    from_chars(&trim_end_chars(&chars))
}

/// The text of the record that names the jar file `jar_file_name`: the name
/// and a line feed.
pub fn set_jar_file_metadata(jar_file_name: &str) -> (record: String)
    ensures
        record@ == jar_file_name@.push('\n'),
{
    let mut out: Vec<char> = Vec::new();
    push_str(&mut out, jar_file_name);
    out.push('\n');
    from_chars(&out)
}

/// The path of the jar file of a server, which has to exist, as has the
/// record that names it: an error names the first of the two that is missing.
pub fn get_server_jar_path(jar_file_txt: String, reference: Option<JarReference>) -> (result:
    Result<String, Error>)
    ensures
        match reference {
            None => result == Err::<String, Error>(Error::MissingFile { file: jar_file_txt }),
            Some(r) => if r.is_file {
                result == Ok::<String, Error>(r.path)
            } else {
                result == Err::<String, Error>(Error::MissingFile { file: r.path })
            },
        },
{
    match reference {
        None => Err(Error::MissingFile { file: jar_file_txt }),
        Some(r) => {
            if r.is_file {
                Ok(r.path)
            } else {
                Err(Error::MissingFile { file: r.path })
            }
        },
    }
}

/// The word that keeps the server from opening a window, or nothing.
pub open spec fn nogui_word(nogui: bool) -> Seq<char> {
    if nogui {
        "nogui"@
    } else {
        Seq::empty()
    }
}

/// The shell command that runs a server inside its session: it names the
/// tab, enters the server's directory, starts the jar with the configured
/// arguments, and ends the session once the server has stopped.
pub open spec fn command_text(
    server_dir: Seq<char>,
    java_args: Seq<char>,
    jar_path: Seq<char>,
    nogui: bool,
) -> Seq<char> {
    BASE_COMMAND@ + " action rename-tab Server && cd "@ + server_dir + " && java -jar "@ + java_args
        + " "@ + jar_path + " "@ + nogui_word(nogui) + " && "@ + BASE_COMMAND@
        + " kill-session $ZELLIJ_SESSION_NAME"@
}

/// What `get_command` answers.
pub open spec fn command_outcome(
    server: Seq<char>,
    files: ServerFiles,
    java_args: Seq<char>,
    nogui: bool,
    result: Result<String, Error>,
) -> bool {
    if is_template_name(server) {
        result matches Err(Error::TemplateDeployed)
    } else if !files.is_dir {
        result matches Err(Error::MissingDirectory { dir }) && dir == files.server_dir
    } else {
        match files.reference {
            None => result matches Err(Error::MissingFile { file }) && file == files.jar_file_txt,
            Some(r) => if !r.is_file {
                result matches Err(Error::MissingFile { file }) && file == r.path
            } else {
                result matches Ok(command) && command@ == command_text(
                    files.server_dir@,
                    java_args,
                    r.path@,
                    nogui,
                )
            },
        }
    }
}

/// The shell command that runs `server`, given what is found of it on disk
/// and the configured Java arguments. Refused for a template, and where the
/// server's directory, the record of its jar file or the jar file itself is
/// missing, in this order.
pub fn get_command(server: &str, files: ServerFiles, java_args: &str, nogui: bool) -> (result:
    Result<String, Error>)
    ensures
        command_outcome(server@, files, java_args@, nogui, result),
{
    if is_template(server) {
        return Err(Error::TemplateDeployed);
    }
    let ServerFiles { server_dir, is_dir, jar_file_txt, reference } = files;
    let server_dir = match get_server_dir_required(server_dir, is_dir) {
        Ok(dir) => dir,
        Err(e) => {
            return Err(e);
        },
    };
    let jar_path = match get_server_jar_path(jar_file_txt, reference) {
        Ok(path) => path,
        Err(e) => {
            return Err(e);
        },
    };
    let mut out: Vec<char> = Vec::new();
    push_str(&mut out, BASE_COMMAND);
    push_str(&mut out, " action rename-tab Server && cd ");
    push_str(&mut out, server_dir.as_str());
    push_str(&mut out, " && java -jar ");
    push_str(&mut out, java_args);
    push_str(&mut out, " ");
    push_str(&mut out, jar_path.as_str());
    push_str(&mut out, " ");
    if nogui {
        push_str(&mut out, "nogui");
    }
    push_str(&mut out, " && ");
    push_str(&mut out, BASE_COMMAND);
    push_str(&mut out, " kill-session $ZELLIJ_SESSION_NAME");
    assert(out@ =~= command_text(server_dir@, java_args@, jar_path@, nogui));
    Ok(from_chars(&out))
}

/// The name under which a server is made where none is asked for.
pub fn default_server_name(platform: Platform) -> (name: String)
    ensures
        name@ == platform_name(platform) + "-server"@,
{
    let mut out: Vec<char> = Vec::new();
    push_str(&mut out, platform.name());
    push_str(&mut out, "-server");
    from_chars(&out)
}

/// What opens the file name in a `Content-Disposition` header.
pub const FILENAME_OPEN: &'static str = "filename=\"";

/// The file name that a `Content-Disposition` header gives. It is read from
/// what stands between the first `filename="` and the next one, or the end:
/// of that, the part before the first `"`.
pub open spec fn disposition_file_name(disposition: Seq<char>) -> Option<Seq<char>> {
    match find(disposition, FILENAME_OPEN@) {
        Some(at) => {
            let rest = disposition.subrange(at + FILENAME_OPEN@.len(), disposition.len() as int);
            let piece = match find(rest, FILENAME_OPEN@) {
                Some(next) => rest.subrange(0, next),
                None => rest,
            };
            Some(piece.subrange(0, crate::text::first_index(piece, '"') as int))
        },
        None => None,
    }
}

/// The name under which a downloaded jar is stored: the file name that the
/// `Content-Disposition` header gives, or the platform's name with `.jar`
/// where there is no header or it gives no file name.
pub fn jar_file_name(disposition: Option<&str>, platform: Platform) -> (name: String)
    ensures
        match disposition {
            Some(d) => match disposition_file_name(d@) {
                Some(n) => name@ == n,
                None => name@ == platform_name(platform) + ".jar"@,
            },
            None => name@ == platform_name(platform) + ".jar"@,
        },
{
    match disposition {
        Some(d) => {
            let chars = to_chars(d);
            let open = to_chars(FILENAME_OPEN);
            match find_first(&chars, &open) {
                Some(at) => {
                    proof {
                        lemma_find_is_first(chars@, open@, at as int);
                    }
                    let rest = slice_chars(&chars, at + open.len(), chars.len());
                    let piece = match find_first(&rest, &open) {
                        Some(next) => {
                            proof {
                                lemma_find_is_first(rest@, open@, next as int);
                            }
                            slice_chars(&rest, 0, next)
                        },
                        None => rest,
                    };
                    let end = crate::text::find_char_from(&piece, '"', 0);
                    assert(piece@.subrange(0, piece@.len() as int) =~= piece@);
                    return from_chars(&slice_chars(&piece, 0, end));
                },
                None => {},
            }
        },
        None => {},
    }
    let mut out: Vec<char> = Vec::new();
    push_str(&mut out, platform.name());
    push_str(&mut out, ".jar");
    from_chars(&out)
}

/// The name that a new server of `platform` is asked to have: the one
/// given, or the platform's default name.
pub open spec fn requested_name(platform: Platform, name: Option<&str>) -> Seq<char> {
    match name {
        Some(n) => n@,
        None => platform_name(platform) + "-server"@,
    }
}

/// The name under which a new server of `platform` is made: the first free
/// name for the name asked for, or for the platform's default name where
/// none is asked for.
pub fn new_server_name(existing: &Vec<String>, platform: Platform, name: Option<&str>) -> (free:
    String)
    ensures
        !has_name(existing@, free@),
        exists|k: nat|
            is_first_free(existing@, requested_name(platform, name), k) && free@ == candidate(
                requested_name(platform, name),
                k,
            ),
{
    let wanted = match name {
        Some(n) => n.to_owned(),
        None => default_server_name(platform),
    };
    let free = get_first_server_path(existing, wanted.as_str());
    proof {
        let base = requested_name(platform, name);
        assert(wanted@ == base);
        let k = choose|k: nat| is_first_free(existing@, wanted@, k) && free@ == candidate(wanted@, k);
        assert(is_first_free(existing@, base, k) && free@ == candidate(base, k));
    }
    free
}

} // verus!
