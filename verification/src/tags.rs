//! The listing of the fleet: which servers are shown, and with which tags.

use vstd::prelude::*;
use crate::last_used::LastUsed;
use crate::names::same_text;
use crate::server::ServerObject;
use crate::session::{one_record_each, says, SessionRecord};
use crate::text::{from_chars, push_str};

verus! {

/// The state of a server's session.
#[derive(Debug, PartialEq, Eq, Clone, Copy, Structural)]
pub enum SessionState {
    /// The server has no session.
    NoSession,
    /// The server's session is alive.
    Alive,
    /// The server's session has exited.
    Dead,
}

/// The state that `states` gives for `name`: that of the first record of this
/// name, no session if there is none.
pub open spec fn state_of(states: Seq<SessionRecord>, name: Seq<char>) -> SessionState
    decreases states.len(),
{
    if states.len() == 0 {
        SessionState::NoSession
    } else if states[0].instance_name@ == name {
        if states[0].alive {
            SessionState::Alive
        } else {
            SessionState::Dead
        }
    } else {
        state_of(states.drop_first(), name)
    }
}

/// Where each server has one record, its state is what that record says.
pub proof fn lemma_state_of_says(states: Seq<SessionRecord>, name: Seq<char>)
    requires
        one_record_each(states),
    ensures
        state_of(states, name) is Alive <==> says(states, name, true),
        state_of(states, name) is Dead <==> says(states, name, false),
    decreases states.len(),
{
    if states.len() > 0 {
        let rest = states.drop_first();
        assert(one_record_each(rest)) by {
            assert forall|i: int, j: int| 0 <= i < j < rest.len() implies (
            #[trigger] rest[i]).instance_name@ != (#[trigger] rest[j]).instance_name@ by {
                assert(states[i + 1].instance_name@ != states[j + 1].instance_name@);
            }
        }
        lemma_state_of_says(rest, name);
        assert forall|b: bool| says(rest, name, b) implies says(states, name, b) by {
            let k = choose|k: int| 0 <= k < rest.len() && (#[trigger] rest[k])@ == (name, b);
            assert(states[k + 1]@ == (name, b));
        }
        if states[0].instance_name@ == name {
            assert(states[0]@ == (name, states[0].alive));
            assert forall|b: bool| says(states, name, b) implies b == states[0].alive by {
                let k = choose|k: int| 0 <= k < states.len() && (#[trigger] states[k])@ == (name, b);
                if k > 0 {
                    assert(states[0].instance_name@ != states[k].instance_name@);
                }
            }
        } else {
            assert forall|b: bool| says(states, name, b) implies says(rest, name, b) by {
                let k = choose|k: int| 0 <= k < states.len() && (#[trigger] states[k])@ == (name, b);
                assert(rest[k - 1]@ == (name, b));
            }
        }
    }
}

/// The state that `states` gives for `server`.
pub fn session_state(states: &Vec<SessionRecord>, server: &str) -> (state: SessionState)
    ensures
        state == state_of(states@, server@),
{
    let mut i: usize = 0;
    proof {
        assert(states@.subrange(0, states@.len() as int) =~= states@);
    }
    while i < states.len()
        invariant
            i <= states.len(),
            state_of(states@, server@) == state_of(
                states@.subrange(i as int, states@.len() as int),
                server@,
            ),
        decreases states.len() - i,
    {
        let ghost tail = states@.subrange(i as int, states@.len() as int);
        assert(tail[0] == states@[i as int]);
        if same_text(states[i].instance_name.as_str(), server) {
            if states[i].alive {
                return SessionState::Alive;
            } else {
                return SessionState::Dead;
            }
        }
        assert(tail.drop_first() =~= states@.subrange(i + 1, states@.len() as int));
        i = i + 1;
    }
    SessionState::NoSession
}

/// Which servers a listing shows.
#[derive(Debug, PartialEq, Eq, Clone, Copy, Structural)]
pub enum Filter {
    /// Every server.
    All,
    /// The servers whose session is alive.
    Active,
    /// The servers without a session that is alive.
    Inactive,
    /// The servers whose session has exited.
    Dead,
}

/// A server in the given state passes the filter.
pub open spec fn passes(filter: Filter, state: SessionState) -> bool {
    match filter {
        Filter::All => true,
        Filter::Active => state is Alive,
        Filter::Inactive => !(state is Alive),
        Filter::Dead => state is Dead,
    }
}

/// Whether a server in the given state passes the filter.
pub fn is_shown(filter: Filter, state: SessionState) -> (shown: bool)
    ensures
        shown == passes(filter, state),
{
    match filter {
        Filter::All => true,
        Filter::Active => state == SessionState::Alive,
        Filter::Inactive => state != SessionState::Alive,
        Filter::Dead => state == SessionState::Dead,
    }
}

/// The names among `names` whose state passes the filter, in their order.
pub open spec fn selected(names: Seq<String>, states: Seq<SessionRecord>, filter: Filter) -> Seq<
    Seq<char>,
>
    decreases names.len(),
{
    if names.len() == 0 {
        Seq::empty()
    } else {
        let before = selected(names.drop_last(), states, filter);
        if passes(filter, state_of(states, names.last()@)) {
            before.push(names.last()@)
        } else {
            before
        }
    }
}

/// The servers among `names` that the filter lets through, in their order,
/// without tags.
pub fn retain(names: &Vec<String>, states: &Vec<SessionRecord>, filter: Filter) -> (kept: Vec<
    ServerObject,
>)
    ensures
        kept@.len() == selected(names@, states@, filter).len(),
        forall|i: int|
            0 <= i < kept@.len() ==> (#[trigger] kept@[i]).name@ == selected(
                names@,
                states@,
                filter,
            )[i] && kept@[i].tags@.len() == 0,
{
    let mut kept: Vec<ServerObject> = Vec::new();
    let mut i: usize = 0;
    assert(names@.subrange(0, 0) =~= Seq::<String>::empty());
    while i < names.len()
        invariant
            i <= names.len(),
            kept@.len() == selected(names@.subrange(0, i as int), states@, filter).len(),
            forall|k: int|
                0 <= k < kept@.len() ==> (#[trigger] kept@[k]).name@ == selected(
                    names@.subrange(0, i as int),
                    states@,
                    filter,
                )[k] && kept@[k].tags@.len() == 0,
        decreases names.len() - i,
    {
        let ghost upto = names@.subrange(0, i + 1);
        proof {
            assert(upto.drop_last() =~= names@.subrange(0, i as int));
            assert(upto.last() == names@[i as int]);
        }
        let state = session_state(states, names[i].as_str());
        if is_shown(filter, state) {
            kept.push(ServerObject::new(names[i].clone()));
        }
        i = i + 1;
    }
    assert(names@.subrange(0, names@.len() as int) =~= names@);
    kept
}

/// The tag of a server whose session is alive.
pub const ACTIVE_TAG: &'static str = "(active)";

/// The tag of a server whose session has exited.
pub const DEAD_TAG: &'static str = "(dead)";

/// The tag that tells when a server was last used.
pub open spec fn last_used_tag(last_used: LastUsed) -> Seq<char> {
    match last_used {
        LastUsed::Never => "(never used)"@,
        LastUsed::Unknown => "(last used: unknown)"@,
        LastUsed::Time(age) => "(last used: "@ + age@ + " ago)"@,
    }
}

/// The tags of a server in the given state: the active tag where its session
/// is alive; else the last-used tag, followed by the dead tag where its
/// session has exited and dead sessions are to be marked.
pub open spec fn tags_for(state: SessionState, last_used: LastUsed, mark_dead: bool) -> Seq<
    Seq<char>,
> {
    if state is Alive {
        seq![ACTIVE_TAG@]
    } else if state is Dead && mark_dead {
        seq![last_used_tag(last_used), DEAD_TAG@]
    } else {
        seq![last_used_tag(last_used)]
    }
}

/// The texts of `tags`, in order.
pub open spec fn tag_views(tags: Seq<String>) -> Seq<Seq<char>> {
    tags.map_values(|t: String| t@)
}

fn last_used_text(last_used: &LastUsed) -> (tag: String)
    ensures
        tag@ == last_used_tag(*last_used),
{
    match last_used {
        LastUsed::Never => "(never used)".to_owned(),
        LastUsed::Unknown => "(last used: unknown)".to_owned(),
        LastUsed::Time(age) => {
            let mut out: Vec<char> = Vec::new();
            push_str(&mut out, "(last used: ");
            push_str(&mut out, age.as_str());
            push_str(&mut out, " ago)");
            from_chars(&out)
        },
    }
}

/// Whether the tags of a server in this state tell when it was last used:
/// they do unless its session is alive.
pub fn needs_last_used(state: SessionState) -> (needed: bool)
    ensures
        needed == !(state is Alive),
{
    state != SessionState::Alive
}

/// Adds to `server` the tags of its state. `last_used` is read only where
/// the state is not alive.
pub fn tag_server(
    server: &mut ServerObject,
    state: SessionState,
    last_used: &LastUsed,
    mark_dead: bool,
)
    ensures
        final(server).name == old(server).name,
        tag_views(final(server).tags@) == tag_views(old(server).tags@) + tags_for(
            state,
            *last_used,
            mark_dead,
        ),
{
    let ghost before = tag_views(server.tags@);
    if state == SessionState::Alive {
        server.tags.push(ACTIVE_TAG.to_owned());
    } else {
        server.tags.push(last_used_text(last_used));
        if state == SessionState::Dead && mark_dead {
            server.tags.push(DEAD_TAG.to_owned());
        }
    }
    assert(tag_views(server.tags@) =~= before + tags_for(state, *last_used, mark_dead));
}

/// The line that shows a server: its name, then each tag after a space.
pub open spec fn display_text(name: Seq<char>, tags: Seq<String>) -> Seq<char>
    decreases tags.len(),
{
    if tags.len() == 0 {
        name
    } else {
        display_text(name, tags.drop_last()) + seq![' '] + tags.last()@
    }
}

/// The line that shows `server`.
pub fn display(server: &ServerObject) -> (line: String)
    ensures
        line@ == display_text(server.name@, server.tags@),
{
    let mut out: Vec<char> = Vec::new();
    push_str(&mut out, server.name.as_str());
    let mut i: usize = 0;
    assert(server.tags@.subrange(0, 0) =~= Seq::<String>::empty());
    while i < server.tags.len()
        invariant
            i <= server.tags.len(),
            out@ == display_text(server.name@, server.tags@.subrange(0, i as int)),
        decreases server.tags.len() - i,
    {
        let ghost upto = server.tags@.subrange(0, i + 1);
        proof {
            assert(upto.drop_last() =~= server.tags@.subrange(0, i as int));
            assert(upto.last() == server.tags@[i as int]);
        }
        let ghost before = out@;
        out.push(' ');
        push_str(&mut out, server.tags[i].as_str());
        assert(out@ =~= before + seq![' '] + server.tags@[i as int]@);
        i = i + 1;
    }
    assert(server.tags@.subrange(0, server.tags@.len() as int) =~= server.tags@);
    from_chars(&out)
}

} // verus!
