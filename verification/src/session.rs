//! The per-session protocol steps. A session's task performs the socket I/O
//! and calls one step here per event, holding the registry's exclusive guard
//! for the whole call, so that each step is atomic relative to every other
//! session: the handshake once its username line (or end of stream) arrives,
//! then one read-loop step per received line, and the disconnect step exactly
//! once when its stream ends.

use vstd::prelude::*;

use crate::ChatErr;
use crate::bytes::strip_newline;
use crate::bytes::strip_nl;
use crate::bytes::trim_bytes;
use crate::bytes::trim_spec;
use crate::messages::chat_msg;
use crate::messages::join_msg;
use crate::messages::leave_msg;
use crate::messages::line_of;
use crate::messages::render_chat;
use crate::messages::render_join;
use crate::messages::render_leave;
use crate::messages::render_roster;
use crate::messages::roster_msg;
use crate::messages::to_line;
use crate::registry::Delivery;
use crate::registry::Registry;
use crate::registry::contains_name;
use crate::registry::others_spec;
use crate::registry::plan_matches;
use crate::registry::plan_spec;

verus! {

/// What one handshake attempt came to.
pub enum HandshakeOutcome {
    /// The peer closed before sending a username line: a normal closed
    /// connection, nothing admitted, nothing sent.
    Closed,
    /// The username was rejected; the connection is closed without admission
    /// and without any notice to anyone.
    Rejected(ChatErr),
    /// The session is admitted under `name`; `plan` holds the records to
    /// write: the roster notice to the newcomer, then the join notice to
    /// every prior session.
    Admitted { name: Vec<u8>, plan: Vec<Delivery> },
}

/// The deliveries that admit a session named `name` on sink `sink` to a room
/// whose prior occupants are `prior`: first the roster notice to the
/// newcomer, then the join notice to everyone already present.
pub open spec fn admission_plan(prior: Seq<(Seq<u8>, u64)>, name: Seq<u8>, sink: u64) -> Seq<
    (u64, Seq<u8>),
> {
    seq![(sink, line_of(roster_msg(others_spec(prior, name))))] + plan_spec(
        prior,
        name,
        join_msg(name),
    )
}

/// Validation of a (trimmed) candidate username against the registry, made
/// under the registry guard: accepted exactly when it is 1 to 20 bytes long
/// and no active session already holds it.
pub fn validate_username(reg: &Registry, name: &Vec<u8>) -> (r: Result<(), ChatErr>)
    ensures
        r is Ok <==> (1 <= name@.len() <= 20 && !contains_name(reg@, name@)),
        (name@.len() == 0 || name@.len() > 20) ==> r == Err::<(), ChatErr>(
            ChatErr::InvalidUsername,
        ),
        (1 <= name@.len() <= 20 && contains_name(reg@, name@)) ==> r == Err::<(), ChatErr>(
            ChatErr::UsernameTaken,
        ),
{
    if name.len() == 0 || name.len() > 20 {
        return Err(ChatErr::InvalidUsername);
    }
    if reg.contains(name) {
        return Err(ChatErr::UsernameTaken);
    }
    Ok(())
}

/// One complete handshake step, atomic under the registry guard: `line` is
/// the username line as received (`None` when the peer closed first), `sink`
/// the handle of this connection's outbound side. On admission the registry
/// gains exactly the new entry and the returned plan holds every record to
/// write; on any other outcome the registry is unchanged and nothing is sent.
pub fn handshake(reg: &mut Registry, line: Option<Vec<u8>>, sink: u64) -> (r: HandshakeOutcome)
    requires
        old(reg).wf(),
    ensures
        final(reg).wf(),
        match r {
            HandshakeOutcome::Closed => line is None && final(reg)@ == old(reg)@,
            HandshakeOutcome::Rejected(e) => {
                &&& final(reg)@ == old(reg)@
                &&& line matches Some(l)
                &&& (e == ChatErr::InvalidUsername || e == ChatErr::UsernameTaken)
                &&& (e == ChatErr::InvalidUsername <==> (trim_spec(l@).len() == 0 || trim_spec(
                    l@,
                ).len() > 20))
                &&& (e == ChatErr::UsernameTaken <==> (1 <= trim_spec(l@).len() <= 20
                    && contains_name(old(reg)@, trim_spec(l@))))
            },
            HandshakeOutcome::Admitted { name, plan } => {
                &&& line matches Some(l)
                &&& name@ == trim_spec(l@)
                &&& 1 <= name@.len() <= 20
                &&& !contains_name(old(reg)@, name@)
                &&& final(reg)@ == old(reg)@.push((name@, sink))
                &&& plan_matches(plan@, admission_plan(old(reg)@, name@, sink))
            },
        },
{
    match line {
        None => HandshakeOutcome::Closed,
        Some(l) => {
            let name = trim_bytes(&l);
            match validate_username(reg, &name) {
                Err(e) => HandshakeOutcome::Rejected(e),
                Ok(()) => {
                    let others = reg.others(&name);
                    let roster = render_roster(&others);
                    let roster_line = to_line(&roster);
                    let mut plan: Vec<Delivery> = Vec::new();
                    plan.push(Delivery { sink, bytes: roster_line });
                    let jm = render_join(&name);
                    let mut rest = reg.broadcast_except_one(&name, &jm);
                    let ghost rest_view = rest@;
                    plan.append(&mut rest);
                    let name_copy = crate::bytes::copy_bytes(&name);
                    let ghost prior = reg@;
                    reg.register(name_copy, sink);
                    proof {
                        let sp = admission_plan(prior, name@, sink);
                        assert(plan@.len() == sp.len());
                        assert forall|i: int| 0 <= i < plan@.len() implies plan@[i].sink
                            == sp[i].0 && plan@[i].bytes@ == sp[i].1 by {
                            if i == 0 {
                                assert(plan@[0].sink == sink);
                            } else {
                                assert(plan@[i] == rest_view[i - 1]);
                            }
                        }
                    }
                    HandshakeOutcome::Admitted { name, plan }
                },
            }
        },
    }
}

/// One read-loop step for a line received from the active session `name`:
/// the chat relay, `[<name>] <text>`, to every other active session. Only
/// the trailing newline is stripped from the received line.
pub fn chat_line_step(reg: &Registry, name: &Vec<u8>, line: &Vec<u8>) -> (plan: Vec<Delivery>)
    ensures
        plan_matches(plan@, plan_spec(reg@, name@, chat_msg(name@, strip_nl(line@)))),
{
    let text = strip_newline(line);
    let msg = render_chat(name, &text);
    reg.broadcast_except_one(name, &msg)
}

/// The read-loop termination step, run exactly once per active session, on
/// end of stream or a read error: removes the session from the registry and
/// returns the leave notice for every remaining session.
pub fn disconnect_step(reg: &mut Registry, name: &Vec<u8>) -> (plan: Vec<Delivery>)
    requires
        old(reg).wf(),
    ensures
        final(reg).wf(),
        !contains_name(final(reg)@, name@),
        !contains_name(old(reg)@, name@) ==> final(reg)@ == old(reg)@,
        contains_name(old(reg)@, name@) ==> exists|i: int|
            0 <= i < old(reg)@.len() && old(reg)@[i].0 == name@ && final(reg)@ == old(
                reg,
            )@.remove(i),
        plan_matches(plan@, plan_spec(final(reg)@, name@, leave_msg(name@))),
{
    reg.unregister(name);
    let msg = render_leave(name);
    reg.broadcast_except_one(name, &msg)
}

} // verus!
