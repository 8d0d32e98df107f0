//! Sessions of the multiplexer: their names, and what its listing says about
//! which servers are alive and which have exited.

use vstd::prelude::*;
use crate::error::Error;
use crate::names::{distinct, has_name, insert, same_text};
use crate::text::{
    lemma_rfind_is_last, lossy_text, utf8_lossy, ends_with, find_last, from_chars, has_suffix, lines, lines_of, occurs, occurs_from, push_str,
    rfind, slice_chars, to_chars, trim_end, trim_end_chars,
};

verus! {

/// The multiplexer's executable.
pub const BASE_COMMAND: &'static str = "zellij";

/// What the name of a server's session ends with.
pub const SUFFIX: &'static str = ".mcserver";

/// What stands in a listing line right after the session's name.
pub const CREATED_MARKER: &'static str = "[Created";

/// The word that the listing puts in the status of a session that has exited.
pub const EXITED_TOKEN: &'static str = "EXITED";

/// What opens the status at the end of a listing line.
pub const STATUS_OPEN: &'static str = "(";

/// The number of characters that a listing line puts before the session's
/// name: the escape sequence that colours it. Characters are counted, not
/// bytes.
pub const NAME_LEAD: usize = 7;

/// The number of characters between the session's name and the marker
/// after it: the escape sequence that ends the colour, and a space.
/// Characters are counted, not bytes.
pub const NAME_GAP: usize = 4;

/// The name of the session that belongs to `server`.
pub fn get_name(server: &str) -> (name: String)
    ensures
        name@ == server@ + SUFFIX@,
{
    let mut out: Vec<char> = Vec::new();
    push_str(&mut out, server);
    push_str(&mut out, SUFFIX);
    from_chars(&out)
}

/// A listing line reports an exited session: the word `EXITED` stands at or
/// after the last `(` of the line. A line without `(` reports none.
pub open spec fn has_exited(line: Seq<char>) -> bool {
    match rfind(line, STATUS_OPEN@) {
        Some(open) => occurs(line.subrange(open, line.len() as int), EXITED_TOKEN@),
        None => false,
    }
}

/// Whether the listing line reports a session that has exited.
pub fn session_has_exited(session_line: &str) -> (exited: bool)
    ensures
        exited == has_exited(session_line@),
{
    let line = to_chars(session_line);
    let open = to_chars(STATUS_OPEN);
    let token = to_chars(EXITED_TOKEN);
    match find_last(&line, &open) {
        Some(pos) => {
            proof {
                lemma_rfind_is_last(line@, open@, pos as int);
            }
            occurs_from(&line, &token, pos)
        },
        None => false,
    }
}

/// Whether the listing line reports a session that is still alive: any line
/// that does not report an exited one.
pub fn session_is_alive(session_line: &str) -> (alive: bool)
    ensures
        alive == !has_exited(session_line@),
{
    !session_has_exited(session_line)
}

/// The server whose session a listing line shows. The session's name stands
/// between the line's lead and the gap before the last `[Created`; it names a
/// server if it ends with the session suffix, and the server's name is what
/// stands before that suffix. Lead, gap and every index are counted in
/// characters, so a name may hold any text, and a line on which lead and gap
/// do not fit before the marker shows no server.
pub open spec fn server_of_line(line: Seq<char>) -> Option<Seq<char>> {
    match rfind(line, CREATED_MARKER@) {
        Some(pos) => if pos < NAME_LEAD + NAME_GAP {
            None
        } else {
            let session = line.subrange(NAME_LEAD as int, pos - NAME_GAP);
            if ends_with(session, SUFFIX@) {
                Some(session.subrange(0, session.len() - SUFFIX@.len()))
            } else {
                None
            }
        },
        None => None,
    }
}

/// The server whose session the listing line shows, if it shows one.
pub fn session_line_to_server(session_line: &str) -> (server: Option<String>)
    ensures
        match server {
            Some(name) => server_of_line(session_line@) == Some(name@),
            None => server_of_line(session_line@) is None,
        },
{
    let line = to_chars(session_line);
    let marker = to_chars(CREATED_MARKER);
    let suffix = to_chars(SUFFIX);
    let pos = match find_last(&line, &marker) {
        Some(pos) => pos,
        None => return None,
    };
    if pos < NAME_LEAD + NAME_GAP {
        return None;
    }
    proof {
        lemma_rfind_is_last(line@, marker@, pos as int);
    }
    let session = slice_chars(&line, NAME_LEAD, pos - NAME_GAP);
    if !has_suffix(&session, &suffix) {
        return None;
    }
    let name = slice_chars(&session, 0, session.len() - suffix.len());
    Some(from_chars(&name))
}

/// One session of a server, as a listing line shows it.
#[derive(Debug)]
pub struct SessionRecord {
    pub instance_name: String,
    pub alive: bool,
}

impl View for SessionRecord {
    type V = (Seq<char>, bool);

    open spec fn view(&self) -> (Seq<char>, bool) {
        (self.instance_name@, self.alive)
    }
}

/// The sessions that the given lines show, in the order of the lines. A line
/// that shows no server's session adds nothing.
pub open spec fn records_of(lines: Seq<Seq<char>>) -> Seq<(Seq<char>, bool)>
    decreases lines.len(),
{
    if lines.len() == 0 {
        Seq::empty()
    } else {
        let before = records_of(lines.drop_last());
        match server_of_line(lines.last()) {
            Some(name) => before.push((name, !has_exited(lines.last()))),
            None => before,
        }
    }
}

/// The sessions that a listing shows; none where the multiplexer has no
/// sessions at all.
pub open spec fn listed(listing: Option<Seq<char>>) -> Seq<(Seq<char>, bool)> {
    match listing {
        Some(text) => records_of(lines_of(text)),
        None => Seq::empty(),
    }
}

/// What the last record of `name` says about it, if there is a record of it.
pub open spec fn last_state(records: Seq<(Seq<char>, bool)>, name: Seq<char>) -> Option<bool>
    decreases records.len(),
{
    if records.len() == 0 {
        None
    } else if records.last().0 == name {
        Some(records.last().1)
    } else {
        last_state(records.drop_last(), name)
    }
}

/// The texts of `records`, in order.
pub open spec fn record_views(records: Seq<SessionRecord>) -> Seq<(Seq<char>, bool)> {
    records.map_values(|r: SessionRecord| r@)
}

/// What the multiplexer's listing command said, given how it ended: the
/// text of its output when it ended with status 0, no sessions at all when it
/// ended with status 1, a command failure that carries its error output
/// otherwise.
pub open spec fn listing_outcome(
    code: Option<i32>,
    stdout: Seq<u8>,
    stderr: Vec<u8>,
    result: Result<Option<String>, Error>,
) -> bool {
    if code == Some(0i32) {
        result matches Ok(Some(text)) && text@ == utf8_lossy(stdout)
    } else if code == Some(1i32) {
        result matches Ok(None)
    } else {
        result == Err::<Option<String>, Error>(
            Error::CommandFailure { code, stderr: Some(stderr) },
        )
    }
}

/// Reads the end of the multiplexer's listing command: the listing text, the
/// absence of any session, or the failure of the command.
pub fn classify_listing(code: Option<i32>, stdout: &Vec<u8>, stderr: Vec<u8>) -> (result: Result<
    Option<String>,
    Error,
>)
    ensures
        listing_outcome(code, stdout@, stderr, result),
{
    match code {
        Some(0) => Ok(Some(lossy_text(stdout))),
        Some(1) => Ok(None),
        _ => Err(Error::CommandFailure { code, stderr: Some(stderr) }),
    }
}

/// The sessions that the listing text shows, one record for each line that
/// shows a server's session, in the order of the lines.
pub fn list_sessions(listing: &str) -> (records: Vec<SessionRecord>)
    ensures
        record_views(records@) == records_of(lines_of(listing@)),
{
    let all = lines(listing);
    let ghost texts = lines_of(listing@);
    let mut records: Vec<SessionRecord> = Vec::new();
    let mut i: usize = 0;
    assert(texts.subrange(0, 0) =~= Seq::<Seq<char>>::empty());
    assert(record_views(records@) =~= records_of(texts.subrange(0, 0)));
    while i < all.len()
        invariant
            i <= all.len(),
            all@.len() == texts.len(),
            forall|k: int| 0 <= k < all@.len() ==> (#[trigger] all@[k])@ == texts[k],
            record_views(records@) == records_of(texts.subrange(0, i as int)),
        decreases all.len() - i,
    {
        let line = all[i].as_str();
        let ghost upto = texts.subrange(0, i + 1);
        proof {
            assert(upto.drop_last() =~= texts.subrange(0, i as int));
            assert(upto.last() == texts[i as int]);
            assert(all@[i as int]@ == texts[i as int]);
        }
        let alive = session_is_alive(line);
        match session_line_to_server(line) {
            Some(name) => {
                let ghost before = records@;
                let record = SessionRecord { instance_name: name, alive };
                records.push(record);
                assert(record_views(records@) =~= record_views(before).push(record@));
            },
            None => {},
        }
        i = i + 1;
    }
    assert(texts.subrange(0, texts.len() as int) =~= texts);
    records
}

/// The text of a listing that may be absent.
pub open spec fn text_of(listing: Option<&str>) -> Option<Seq<char>> {
    match listing {
        Some(text) => Some(text@),
        None => None,
    }
}

/// One of the first `upto` records is `(name, alive)`.
pub open spec fn among_first(
    records: Seq<(Seq<char>, bool)>,
    upto: int,
    name: Seq<char>,
    alive: bool,
) -> bool {
    exists|k: int| 0 <= k < upto && k < records.len() && #[trigger] records[k] == (name, alive)
}

fn names_in_state(records: &Vec<SessionRecord>, alive: bool) -> (names: Vec<String>)
    ensures
        distinct(names@),
        forall|n: Seq<char>| has_name(names@, n) <==> record_views(records@).contains((n, alive)),
{
    let ghost rv = record_views(records@);
    let mut names: Vec<String> = Vec::new();
    let mut i: usize = 0;
    while i < records.len()
        invariant
            i <= records.len(),
            rv == record_views(records@),
            distinct(names@),
            forall|n: Seq<char>| has_name(names@, n) <==> among_first(rv, i as int, n, alive),
        decreases records.len() - i,
    {
        let ghost before = names@;
        assert(rv[i as int] == records@[i as int]@);
        if records[i].alive == alive {
            insert(&mut names, records[i].instance_name.clone());
        }
        proof {
            assert forall|n: Seq<char>| has_name(names@, n) <==> among_first(
                rv,
                i + 1,
                n,
                alive,
            ) by {
                if among_first(rv, i + 1, n, alive) {
                    let k = choose|k: int|
                        0 <= k < i + 1 && k < rv.len() && #[trigger] rv[k] == (n, alive);
                    if k < i {
                        assert(among_first(rv, i as int, n, alive));
                    }
                }
                if among_first(rv, i as int, n, alive) {
                    let k = choose|k: int|
                        0 <= k < i && k < rv.len() && #[trigger] rv[k] == (n, alive);
                    assert(0 <= k < i + 1 && rv[k] == (n, alive));
                }
                if records@[i as int].alive == alive && n == records@[i as int].instance_name@ {
                    assert(rv[i as int] == (n, alive));
                }
            }
        }
        i = i + 1;
    }
    proof {
        assert forall|n: Seq<char>| has_name(names@, n) <==> rv.contains((n, alive)) by {
            if rv.contains((n, alive)) {
                let k = choose|k: int| 0 <= k < rv.len() && rv[k] == (n, alive);
                assert(among_first(rv, i as int, n, alive));
            }
        }
    }
    names
}

/// The servers that the listing shows with a session that is alive. No name
/// stands twice. An absent listing means that there are no sessions.
pub fn get_alive_server_sessions(listing: Option<&str>) -> (names: Vec<String>)
    ensures
        distinct(names@),
        forall|n: Seq<char>| has_name(names@, n) <==> listed(text_of(listing)).contains((n, true)),
{
    match listing {
        Some(text) => {
            let records = list_sessions(text);
            names_in_state(&records, true)
        },
        None => Vec::new(),
    }
}

/// The servers that the listing shows with a session that has exited. No name
/// stands twice. An absent listing means that there are no sessions.
pub fn get_dead_server_sessions(listing: Option<&str>) -> (names: Vec<String>)
    ensures
        distinct(names@),
        forall|n: Seq<char>| has_name(names@, n) <==> listed(text_of(listing)).contains((n, false)),
{
    match listing {
        Some(text) => {
            let records = list_sessions(text);
            names_in_state(&records, false)
        },
        None => Vec::new(),
    }
}

/// No server has two records in `records`.
pub open spec fn one_record_each(records: Seq<SessionRecord>) -> bool {
    forall|i: int, j: int|
        0 <= i < j < records.len() ==> (#[trigger] records[i]).instance_name@ != (
        #[trigger] records[j]).instance_name@
}

/// One of `records` says of `name` that it is alive, or that it is not.
pub open spec fn says(records: Seq<SessionRecord>, name: Seq<char>, alive: bool) -> bool {
    exists|k: int| 0 <= k < records.len() && (#[trigger] records[k])@ == (name, alive)
}

fn find_record(records: &Vec<SessionRecord>, name: &str) -> (found: Option<usize>)
    ensures
        match found {
            Some(k) => k < records.len() && records@[k as int].instance_name@ == name@,
            None => forall|k: int|
                0 <= k < records.len() ==> (#[trigger] records@[k]).instance_name@ != name@,
        },
{
    let mut i: usize = 0;
    while i < records.len()
        invariant
            i <= records.len(),
            forall|k: int| 0 <= k < i ==> (#[trigger] records@[k]).instance_name@ != name@,
        decreases records.len() - i,
    {
        if same_text(records[i].instance_name.as_str(), name) {
            return Some(i);
        }
        i = i + 1;
    }
    None
}

/// For each server that the listing shows, whether it is alive: one record
/// for each server, which says what the last line about that server says. An
/// absent listing means that there are no sessions.
pub fn get_server_sessions_to_living(listing: Option<&str>) -> (states: Vec<SessionRecord>)
    ensures
        one_record_each(states@),
        forall|n: Seq<char>, b: bool|
            says(states@, n, b) <==> last_state(listed(text_of(listing)), n) == Some(b),
{
    let text = match listing {
        Some(text) => text,
        None => {
            return Vec::new();
        },
    };
    let records = list_sessions(text);
    let ghost rv = record_views(records@);
    let mut states: Vec<SessionRecord> = Vec::new();
    let mut i: usize = 0;
    assert(rv.subrange(0, 0) =~= Seq::<(Seq<char>, bool)>::empty());
    while i < records.len()
        invariant
            i <= records.len(),
            rv == record_views(records@),
            one_record_each(states@),
            forall|n: Seq<char>, b: bool|
                says(states@, n, b) <==> last_state(rv.subrange(0, i as int), n) == Some(b),
        decreases records.len() - i,
    {
        let ghost before = states@;
        let ghost prefix = rv.subrange(0, i as int);
        let ghost next = rv.subrange(0, i + 1);
        let ghost m = records@[i as int].instance_name@;
        let alive = records[i].alive;
        proof {
            assert(next.drop_last() =~= prefix);
            assert(next.last() == rv[i as int]);
            assert(rv[i as int] == (m, alive));
        }
        let name = records[i].instance_name.clone();
        match find_record(&states, name.as_str()) {
            Some(k) => {
                states.set(k, SessionRecord { instance_name: name, alive });
                proof {
                    assert(one_record_each(states@)) by {
                        assert forall|x: int, y: int| 0 <= x < y < states@.len() implies (
                        #[trigger] states@[x]).instance_name@ != (
                        #[trigger] states@[y]).instance_name@ by {
                            assert(before[x].instance_name@ != before[y].instance_name@);
                        }
                    }
                    assert forall|n: Seq<char>, b: bool| says(states@, n, b) <==> last_state(
                        next,
                        n,
                    ) == Some(b) by {
                        if says(states@, n, b) {
                            let j = choose|j: int|
                                0 <= j < states@.len() && (#[trigger] states@[j])@ == (n, b);
                            if j != k {
                                assert(before[j]@ == (n, b));
                                assert(says(before, n, b));
                                if j < k {
                                    assert(before[j].instance_name@ != before[k as int].instance_name@);
                                } else {
                                    assert(before[k as int].instance_name@ != before[j].instance_name@);
                                }
                            }
                        }
                        if last_state(next, n) == Some(b) {
                            if n == m {
                                assert(states@[k as int]@ == (n, b));
                            } else {
                                assert(says(before, n, b));
                                let j = choose|j: int|
                                    0 <= j < before.len() && (#[trigger] before[j])@ == (n, b);
                                assert(states@[j]@ == (n, b));
                            }
                        }
                    }
                }
            },
            None => {
                states.push(SessionRecord { instance_name: name, alive });
                proof {
                    assert(one_record_each(states@)) by {
                        assert forall|x: int, y: int| 0 <= x < y < states@.len() implies (
                        #[trigger] states@[x]).instance_name@ != (
                        #[trigger] states@[y]).instance_name@ by {
                            if y < before.len() {
                                assert(before[x].instance_name@ != before[y].instance_name@);
                            } else {
                                assert(before[x].instance_name@ != m);
                            }
                        }
                    }
                    assert forall|n: Seq<char>, b: bool| says(states@, n, b) <==> last_state(
                        next,
                        n,
                    ) == Some(b) by {
                        if says(states@, n, b) {
                            let j = choose|j: int|
                                0 <= j < states@.len() && (#[trigger] states@[j])@ == (n, b);
                            if j < before.len() {
                                assert(before[j]@ == (n, b));
                                assert(says(before, n, b));
                                assert(before[j].instance_name@ != m);
                            }
                        }
                        if last_state(next, n) == Some(b) {
                            if n == m {
                                assert(states@[before.len() as int]@ == (n, b));
                            } else {
                                assert(says(before, n, b));
                                let j = choose|j: int|
                                    0 <= j < before.len() && (#[trigger] before[j])@ == (n, b);
                                assert(states@[j]@ == (n, b));
                            }
                        }
                    }
                }
            },
        }
        i = i + 1;
    }
    assert(rv.subrange(0, rv.len() as int) =~= rv);
    states
}

/// The texts of `args`, in order.
pub open spec fn arg_views(args: Seq<String>) -> Seq<Seq<char>> {
    args.map_values(|a: String| a@)
}

/// How long a new session is given to start before anything is written to
/// it, in milliseconds.
pub const SESSION_GRACE_MILLIS: u64 = 300;

/// The result of an external command: success, or the failure that carries
/// its exit code and what it wrote as errors, where that was captured.
pub fn command_result(success: bool, code: Option<i32>, stderr: Option<Vec<u8>>) -> (result:
    Result<(), Error>)
    ensures
        success ==> result is Ok,
        !success ==> result == Err::<(), Error>(Error::CommandFailure { code, stderr }),
{
    if success {
        Ok(())
    } else {
        Err(Error::CommandFailure { code, stderr })
    }
}

/// The arguments that attach the terminal to the session of `server`.
pub fn attach(server: &str) -> (args: Vec<String>)
    ensures
        arg_views(args@) == seq!["attach"@, server@ + SUFFIX@],
{
    let mut args: Vec<String> = Vec::new();
    args.push("attach".to_owned());
    args.push(get_name(server));
    assert(arg_views(args@) =~= seq!["attach"@, server@ + SUFFIX@]);
    args
}

/// The arguments that start the multiplexer in a session named `session`.
pub fn new_session(session: &str) -> (args: Vec<String>)
    ensures
        arg_views(args@) == seq!["--session"@, session@],
{
    let mut args: Vec<String> = Vec::new();
    args.push("--session".to_owned());
    args.push(session.to_owned());
    assert(arg_views(args@) =~= seq!["--session"@, session@]);
    args
}

/// The arguments that delete the session named `session`, without the
/// multiplexer's own question where `force` is set.
pub open spec fn delete_session_args(session: Seq<char>, force: bool) -> Seq<Seq<char>> {
    if force {
        seq!["delete-session"@, session, "--force"@]
    } else {
        seq!["delete-session"@, session]
    }
}

/// The arguments that delete the session named `session`.
pub fn delete_session(session: &str, force: bool) -> (args: Vec<String>)
    ensures
        arg_views(args@) == delete_session_args(session@, force),
{
    let mut args: Vec<String> = Vec::new();
    args.push("delete-session".to_owned());
    args.push(session.to_owned());
    if force {
        args.push("--force".to_owned());
    }
    assert(arg_views(args@) =~= delete_session_args(session@, force));
    args
}

/// The arguments that delete the session of `server`.
pub fn delete_server_session(server: &str, force: bool) -> (args: Vec<String>)
    ensures
        arg_views(args@) == delete_session_args(server@ + SUFFIX@, force),
{
    let name = get_name(server);
    delete_session(name.as_str(), force)
}

/// The server whose session the arguments `args` delete: what stands before
/// the session suffix in their second argument.
pub open spec fn deleted_server(args: Seq<Seq<char>>) -> Seq<char> {
    args[1].subrange(0, args[1].len() - SUFFIX@.len())
}

/// The commands that delete every session that the listing shows as exited:
/// one for each such server, none of them forced.
pub fn delete_all(listing: Option<&str>) -> (commands: Vec<Vec<String>>)
    ensures
        forall|n: Seq<char>|
            listed(text_of(listing)).contains((n, false)) <==> exists|k: int|
                0 <= k < commands@.len() && arg_views((#[trigger] commands@[k])@)
                    == delete_session_args(n + SUFFIX@, false),
        forall|k: int|
            0 <= k < commands@.len() ==> listed(text_of(listing)).contains(
                (deleted_server(arg_views((#[trigger] commands@[k])@)), false),
            ) && arg_views(commands@[k]@) == delete_session_args(
                deleted_server(arg_views(commands@[k]@)) + SUFFIX@,
                false,
            ),
        forall|i: int, j: int|
            0 <= i < j < commands@.len() ==> deleted_server(arg_views((#[trigger] commands@[i])@))
                != deleted_server(arg_views((#[trigger] commands@[j])@)),
{
    let dead = get_dead_server_sessions(listing);
    let mut commands: Vec<Vec<String>> = Vec::new();
    let mut i: usize = 0;
    while i < dead.len()
        invariant
            i <= dead.len(),
            commands@.len() == i,
            forall|k: int|
                0 <= k < i ==> arg_views((#[trigger] commands@[k])@) == delete_session_args(
                    dead@[k]@ + SUFFIX@,
                    false,
                ),
        decreases dead.len() - i,
    {
        commands.push(delete_server_session(dead[i].as_str(), false));
        i = i + 1;
    }
    proof {
        assert forall|k: int| 0 <= k < commands@.len() implies deleted_server(
            arg_views((#[trigger] commands@[k])@),
        ) == dead@[k]@ by {
            let x = dead@[k]@ + SUFFIX@;
            assert(x.subrange(0, x.len() - SUFFIX@.len()) =~= dead@[k]@);
            assert(arg_views(commands@[k]@)[1] == x);
        }
        assert forall|i: int, j: int| 0 <= i < j < commands@.len() implies deleted_server(
            arg_views((#[trigger] commands@[i])@),
        ) != deleted_server(arg_views((#[trigger] commands@[j])@)) by {
            assert(dead@[i]@ != dead@[j]@);
        }
        assert forall|k: int| 0 <= k < commands@.len() implies listed(text_of(listing)).contains(
            (deleted_server(arg_views((#[trigger] commands@[k])@)), false),
        ) && arg_views(commands@[k]@) == delete_session_args(
            deleted_server(arg_views(commands@[k]@)) + SUFFIX@,
            false,
        ) by {
            let x = dead@[k]@ + SUFFIX@;
            assert(x.subrange(0, x.len() - SUFFIX@.len()) =~= dead@[k]@);
            assert(arg_views(commands@[k]@)[1] == x);
            assert(has_name(dead@, dead@[k]@));
        }
        assert forall|n: Seq<char>| listed(text_of(listing)).contains((n, false)) <==> exists|
            k: int,
        |
            0 <= k < commands@.len() && arg_views((#[trigger] commands@[k])@)
                == delete_session_args(n + SUFFIX@, false) by {
            if has_name(dead@, n) {
                let k = choose|k: int| 0 <= k < dead@.len() && (#[trigger] dead@[k])@ == n;
                assert(arg_views(commands@[k]@) == delete_session_args(n + SUFFIX@, false));
            }
            if exists|k: int|
                0 <= k < commands@.len() && arg_views((#[trigger] commands@[k])@)
                    == delete_session_args(n + SUFFIX@, false) {
                let k = choose|k: int|
                    0 <= k < commands@.len() && arg_views((#[trigger] commands@[k])@)
                        == delete_session_args(n + SUFFIX@, false);
                let a = delete_session_args(dead@[k]@ + SUFFIX@, false);
                let b = delete_session_args(n + SUFFIX@, false);
                assert(a[1] == b[1]);
                let x = dead@[k]@ + SUFFIX@;
                let y = n + SUFFIX@;
                assert(x.subrange(0, x.len() - SUFFIX@.len()) =~= dead@[k]@);
                assert(y.subrange(0, y.len() - SUFFIX@.len()) =~= n);
                assert(dead@[k]@ == n);
            }
        }
    }
    commands
}

/// What the operator's answer to the question before a bulk deletion means.
#[derive(Debug, PartialEq, Eq, Clone, Copy, Structural)]
pub enum Answer {
    /// Go on.
    Yes,
    /// Leave everything as it is.
    No,
    /// Neither: ask again.
    AskAgain,
}

/// `c` is the letter `lower`, in lower or in upper case.
pub open spec fn is_letter(c: char, lower: char, upper: char) -> bool {
    c == lower || c == upper
}

/// `s` reads `y` or `yes`, in any mix of cases.
pub open spec fn reads_yes(s: Seq<char>) -> bool {
    ||| s.len() == 1 && is_letter(s[0], 'y', 'Y')
    ||| s.len() == 3 && is_letter(s[0], 'y', 'Y') && is_letter(s[1], 'e', 'E') && is_letter(
        s[2],
        's',
        'S',
    )
}

/// `s` reads `n` or `no`, in any mix of cases.
pub open spec fn reads_no(s: Seq<char>) -> bool {
    ||| s.len() == 1 && is_letter(s[0], 'n', 'N')
    ||| s.len() == 2 && is_letter(s[0], 'n', 'N') && is_letter(s[1], 'o', 'O')
}

/// What `response` means as the answer to a yes-or-no question, white space
/// at its end not counted.
pub open spec fn answer_of(response: Seq<char>) -> Answer {
    if reads_yes(trim_end(response)) {
        Answer::Yes
    } else if reads_no(trim_end(response)) {
        Answer::No
    } else {
        Answer::AskAgain
    }
}

fn letter(c: char, lower: char, upper: char) -> (b: bool)
    ensures
        b == is_letter(c, lower, upper),
{
    c == lower || c == upper
}

/// Reads the operator's answer to the question whether all exited sessions
/// are to be deleted.
pub fn confirm_delete_all(response: &str) -> (answer: Answer)
    ensures
        answer == answer_of(response@),
{
    let chars = to_chars(response);
    let s = trim_end_chars(&chars);
    let n = s.len();
    if (n == 1 && letter(s[0], 'y', 'Y')) || (n == 3 && letter(s[0], 'y', 'Y') && letter(
        s[1],
        'e',
        'E',
    ) && letter(s[2], 's', 'S')) {
        Answer::Yes
    } else if (n == 1 && letter(s[0], 'n', 'N')) || (n == 2 && letter(s[0], 'n', 'N') && letter(
        s[1],
        'o',
        'O',
    )) {
        Answer::No
    } else {
        Answer::AskAgain
    }
}

/// The key code that ends a line: the carriage return.
pub const CARRIAGE_RETURN: &'static str = "13";

/// The arguments that have the multiplexer perform the action `mode` with
/// `chars` in the session named `session`.
pub fn session_write(session: &str, mode: &str, chars: &str) -> (args: Vec<String>)
    ensures
        arg_views(args@) == seq!["--session"@, session@, "action"@, mode@, chars@],
{
    let mut args: Vec<String> = Vec::new();
    args.push("--session".to_owned());
    args.push(session.to_owned());
    args.push("action".to_owned());
    args.push(mode.to_owned());
    args.push(chars.to_owned());
    assert(arg_views(args@) =~= seq!["--session"@, session@, "action"@, mode@, chars@]);
    args
}

/// The arguments that type `chars` into the session named `session`.
pub fn write_chars(session: &str, chars: &str) -> (args: Vec<String>)
    ensures
        arg_views(args@) == seq!["--session"@, session@, "action"@, "write-chars"@, chars@],
{
    session_write(session, "write-chars", chars)
}

/// The two commands that type a line into the session named `session`: the
/// first types `chars`, the second sends the carriage return.
pub fn write_line(session: &str, chars: &str) -> (commands: (Vec<String>, Vec<String>))
    ensures
        arg_views(commands.0@) == seq![
            "--session"@,
            session@,
            "action"@,
            "write-chars"@,
            chars@,
        ],
        arg_views(commands.1@) == seq![
            "--session"@,
            session@,
            "action"@,
            "write"@,
            CARRIAGE_RETURN@,
        ],
{
    (write_chars(session, chars), session_write(session, "write", CARRIAGE_RETURN))
}

/// The server to which the session named `session_name` belongs.
pub open spec fn server_of_session(session_name: Seq<char>) -> Option<Seq<char>> {
    if ends_with(session_name, SUFFIX@) {
        Some(session_name.subrange(0, session_name.len() - SUFFIX@.len()))
    } else {
        None
    }
}

/// The server that is to be restarted from inside its own session, whose
/// name the environment gives: an error where it gives none, and where the
/// session is not that of a server.
pub fn restart(session_name: Option<String>) -> (result: Result<String, Error>)
    ensures
        match session_name {
            None => result matches Err(Error::NoSessionName),
            Some(name) => match server_of_session(name@) {
                Some(server) => result matches Ok(s) && s@ == server,
                None => result == Err::<String, Error>(Error::InvalidServerSession(name)),
            },
        },
{
    let name = match session_name {
        Some(name) => name,
        None => return Err(Error::NoSessionName),
    };
    let chars = to_chars(name.as_str());
    let suffix = to_chars(SUFFIX);
    if has_suffix(&chars, &suffix) {
        Ok(from_chars(&slice_chars(&chars, 0, chars.len() - suffix.len())))
    } else {
        Err(Error::InvalidServerSession(name))
    }
}

} // verus!
