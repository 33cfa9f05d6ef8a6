//! The room registry: the single shared store mapping each active username to
//! its session's outbound delivery handle, and the broadcast engine built on
//! it. The caller holds the registry under one exclusive guard; every
//! operation here is one atomic unit relative to all sessions.
//!
//! Delivery itself is socket I/O and happens outside: each operation that
//! sends returns a plan, the exact records and the sinks they go to.

use vstd::prelude::*;

use crate::bytes::bytes_eq;
use crate::messages::line_of;
use crate::messages::views_of;

verus! {

/// One registry entry: an active username and its session's sink handle.
struct Entry {
    name: Vec<u8>,
    sink: u64,
}

/// One record to be written: `bytes` (newline already appended) to the
/// session behind `sink`.
pub struct Delivery {
    pub sink: u64,
    pub bytes: Vec<u8>,
}

/// Whether some entry carries the username `n`.
pub open spec fn contains_name(entries: Seq<(Seq<u8>, u64)>, n: Seq<u8>) -> bool {
    exists|i: int| 0 <= i < entries.len() && entries[i].0 == n
}

/// No two entries share a username.
pub open spec fn unique_names(entries: Seq<(Seq<u8>, u64)>) -> bool {
    forall|i: int, j: int| 0 <= i < j < entries.len() ==> entries[i].0 != entries[j].0
}

/// The deliveries of one broadcast: the message, with its newline, to the
/// sink of every entry whose name is not `excluded`, in registry order.
pub open spec fn plan_spec(
    entries: Seq<(Seq<u8>, u64)>,
    excluded: Seq<u8>,
    msg: Seq<u8>,
) -> Seq<(u64, Seq<u8>)>
    decreases entries.len(),
{
    if entries.len() == 0 {
        Seq::empty()
    } else {
        let rest = plan_spec(entries.drop_last(), excluded, msg);
        if entries.last().0 == excluded {
            rest
        } else {
            rest.push((entries.last().1, line_of(msg)))
        }
    }
}

/// The usernames of every entry other than `me`, in registry order.
pub open spec fn others_spec(entries: Seq<(Seq<u8>, u64)>, me: Seq<u8>) -> Seq<Seq<u8>>
    decreases entries.len(),
{
    if entries.len() == 0 {
        Seq::empty()
    } else {
        let rest = others_spec(entries.drop_last(), me);
        if entries.last().0 == me {
            rest
        } else {
            rest.push(entries.last().0)
        }
    }
}

/// An executable plan agrees, delivery by delivery, with a specified one.
pub open spec fn plan_matches(plan: Seq<Delivery>, sp: Seq<(u64, Seq<u8>)>) -> bool {
    &&& plan.len() == sp.len()
    &&& forall|i: int|
        0 <= i < plan.len() ==> plan[i].sink == sp[i].0 && plan[i].bytes@ == sp[i].1
}

/// The shared concurrent store of who is present. Its invariant: no two
/// entries share a username.
pub struct Registry {
    entries: Vec<Entry>,
}

impl View for Registry {
    type V = Seq<(Seq<u8>, u64)>;

    closed spec fn view(&self) -> Seq<(Seq<u8>, u64)> {
        self.entries@.map_values(|e: Entry| (e.name@, e.sink))
    }
}

impl Registry {
    /// The registry invariant: usernames are unique.
    pub open spec fn wf(&self) -> bool {
        unique_names(self@)
    }

    /// An empty room.
    pub fn new() -> (r: Registry)
        ensures
            r.wf(),
            r@ == Seq::<(Seq<u8>, u64)>::empty(),
    {
        let r = Registry { entries: Vec::new() };
        proof {
            assert(r@ =~= Seq::<(Seq<u8>, u64)>::empty());
        }
        r
    }

    /// How many sessions are present.
    pub fn len(&self) -> (n: usize)
        ensures
            n == self@.len(),
    {
        self.entries.len()
    }

    /// The membership check made under the registry guard.
    pub fn contains(&self, name: &Vec<u8>) -> (r: bool)
        ensures
            r == contains_name(self@, name@),
    {
        let mut i: usize = 0;
        while i < self.entries.len()
            invariant
                i <= self.entries@.len(),
                self@.len() == self.entries@.len(),
                forall|j: int| 0 <= j < i ==> self@[j].0 != name@,
            decreases self.entries@.len() - i,
        {
            if bytes_eq(&self.entries[i].name, name) {
                proof {
                    assert(self@[i as int].0 == name@);
                }
                return true;
            }
            proof {
                assert(self@[i as int].0 == self.entries@[i as int].name@);
            }
            i = i + 1;
        }
        false
    }

    /// Inserts a new entry. The uniqueness precondition is enforced jointly
    /// with the caller's membership check, under the same exclusive scope.
    pub fn register(&mut self, name: Vec<u8>, sink: u64)
        requires
            old(self).wf(),
            !contains_name(old(self)@, name@),
        ensures
            final(self).wf(),
            final(self)@ == old(self)@.push((name@, sink)),
    {
        let ghost prev = self@;
        let ghost n = name@;
        self.entries.push(Entry { name, sink });
        proof {
            assert(self@ =~= prev.push((n, sink)));
            assert forall|i: int, j: int| 0 <= i < j < self@.len() implies self@[i].0
                != self@[j].0 by {
                if j < prev.len() {
                    assert(prev[i].0 != prev[j].0);
                } else {
                    assert(self@[j].0 == n);
                    assert(!contains_name(prev, n));
                    assert(prev[i].0 != n);
                }
            }
        }
    }

    /// Removes the entry for `name` if one is present; absent names are left
    /// as they are, without error.
    #[verifier::loop_isolation(false)]
    pub fn unregister(&mut self, name: &Vec<u8>)
        requires
            old(self).wf(),
        ensures
            final(self).wf(),
            !contains_name(final(self)@, name@),
            !contains_name(old(self)@, name@) ==> final(self)@ == old(self)@,
            contains_name(old(self)@, name@) ==> exists|i: int|
                0 <= i < old(self)@.len() && old(self)@[i].0 == name@ && final(self)@ == old(
                    self,
                )@.remove(i),
    {
        let ghost prev = self@;
        let mut i: usize = 0;
        while i < self.entries.len()
            invariant
                i <= self.entries@.len(),
                self@ == prev,
                prev.len() == self.entries@.len(),
                unique_names(prev),
                forall|j: int| 0 <= j < i ==> prev[j].0 != name@,
            decreases self.entries@.len() - i,
        {
            if bytes_eq(&self.entries[i].name, name) {
                proof {
                    assert(prev[i as int].0 == name@);
                }
                self.entries.remove(i);
                proof {
                    assert(self@ =~= prev.remove(i as int));
                    assert forall|a: int, b: int| 0 <= a < b < self@.len() implies self@[a].0
                        != self@[b].0 by {
                        let a0: int = if a < i { a } else { a + 1 };
                        let b0: int = if b < i { b } else { b + 1 };
                        assert(self@[a] == prev[a0]);
                        assert(self@[b] == prev[b0]);
                    }
                    assert(!contains_name(self@, name@)) by {
                        if contains_name(self@, name@) {
                            let k = choose|k: int|
                                0 <= k < self@.len() && self@[k].0 == name@;
                            let k0: int = if k < i { k } else { k + 1 };
                            assert(self@[k] == prev[k0]);
                            assert(prev[k0].0 == name@ && prev[i as int].0 == name@ && k0
                                != i);
                        }
                    }
                    assert(contains_name(prev, name@)) by {
                        assert(0 <= i < prev.len() && prev[i as int].0 == name@);
                    }
                    assert(0 <= i < prev.len() && prev[i as int].0 == name@ && self@
                        == prev.remove(i as int));
                }
                return ;
            }
            proof {
                assert(self@[i as int].0 == self.entries@[i as int].name@);
            }
            i = i + 1;
        }
    }

    /// The delivery that `deliver_to_one` asks for: the message, newline
    /// appended, to exactly the named session's sink; none when the name is
    /// no longer present.
    pub fn deliver_to_one(&self, name: &Vec<u8>, msg: &Vec<u8>) -> (r: Option<Delivery>)
        ensures
            match r {
                Some(d) => {
                    &&& contains_name(self@, name@)
                    &&& exists|i: int| 0 <= i < self@.len() && self@[i] == (name@, d.sink)
                    &&& d.bytes@ == line_of(msg@)
                },
                None => !contains_name(self@, name@),
            },
    {
        let mut i: usize = 0;
        while i < self.entries.len()
            invariant
                i <= self.entries@.len(),
                self@.len() == self.entries@.len(),
                forall|j: int| 0 <= j < i ==> self@[j].0 != name@,
            decreases self.entries@.len() - i,
        {
            if bytes_eq(&self.entries[i].name, name) {
                let bytes = crate::messages::to_line(msg);
                let d = Delivery { sink: self.entries[i].sink, bytes };
                proof {
                    assert(self@[i as int] == (name@, d.sink));
                }
                return Some(d);
            }
            proof {
                assert(self@[i as int].0 == self.entries@[i as int].name@);
            }
            i = i + 1;
        }
        None
    }

    /// The deliveries of one broadcast: the message, newline appended, to
    /// every active entry except the excluded name, in registry order.
    pub fn broadcast_except_one(&self, excluded: &Vec<u8>, msg: &Vec<u8>) -> (plan: Vec<
        Delivery,
    >)
        ensures
            plan_matches(plan@, plan_spec(self@, excluded@, msg@)),
    {
        let mut plan: Vec<Delivery> = Vec::new();
        proof {
            assert(self@.take(0) =~= Seq::<(Seq<u8>, u64)>::empty());
        }
        let mut i: usize = 0;
        while i < self.entries.len()
            invariant
                i <= self.entries@.len(),
                self@.len() == self.entries@.len(),
                plan_matches(plan@, plan_spec(self@.take(i as int), excluded@, msg@)),
            decreases self.entries@.len() - i,
        {
            proof {
                assert(self@[i as int] == (self.entries@[i as int].name@, self.entries@[
                    i as int].sink));
            }
            if !bytes_eq(&self.entries[i].name, excluded) {
                let bytes = crate::messages::to_line(msg);
                plan.push(Delivery { sink: self.entries[i].sink, bytes });
            }
            proof {
                let t1 = self@.take(i as int + 1);
                assert(t1.drop_last() =~= self@.take(i as int));
                assert(t1.last() == self@[i as int]);
            }
            i = i + 1;
        }
        proof {
            assert(self@.take(self@.len() as int) =~= self@);
        }
        plan
    }

    /// The usernames of every entry other than `me`, in registry order, for
    /// rendering the roster notice. Raw iteration is not exposed: the
    /// handshake alone reads this, under the same guard as its insert.
    pub(crate) fn others(&self, me: &Vec<u8>) -> (r: Vec<Vec<u8>>)
        ensures
            views_of(r@) == others_spec(self@, me@),
    {
        let mut r: Vec<Vec<u8>> = Vec::new();
        proof {
            assert(self@.take(0) =~= Seq::<(Seq<u8>, u64)>::empty());
            assert(views_of(r@) =~= others_spec(self@.take(0), me@));
        }
        let mut i: usize = 0;
        while i < self.entries.len()
            invariant
                i <= self.entries@.len(),
                self@.len() == self.entries@.len(),
                views_of(r@) == others_spec(self@.take(i as int), me@),
            decreases self.entries@.len() - i,
        {
            proof {
                assert(self@[i as int] == (self.entries@[i as int].name@, self.entries@[
                    i as int].sink));
            }
            let ghost prev = r@;
            if !bytes_eq(&self.entries[i].name, me) {
                let n = crate::bytes::copy_bytes(&self.entries[i].name);
                r.push(n);
                proof {
                    assert(views_of(r@) =~= views_of(prev).push(self@[i as int].0));
                }
            }
            proof {
                let t1 = self@.take(i as int + 1);
                assert(t1.drop_last() =~= self@.take(i as int));
                assert(t1.last() == self@[i as int]);
                assert(views_of(r@) =~= others_spec(t1, me@));
            }
            i = i + 1;
        }
        proof {
            assert(self@.take(self@.len() as int) =~= self@);
        }
        r
    }
}

/// Uniqueness: at any observation instant, no two registry entries share a
/// username.
pub proof fn lemma_registry_uniqueness(r: &Registry)
    requires
        r.wf(),
    ensures
        forall|i: int, j: int|
            0 <= i < r@.len() && 0 <= j < r@.len() && i != j ==> r@[i].0 != r@[j].0,
{
    assert forall|i: int, j: int|
        0 <= i < r@.len() && 0 <= j < r@.len() && i != j implies r@[i].0 != r@[j].0 by {
        if i < j {
            assert(r@[i].0 != r@[j].0);
        } else {
            assert(r@[j].0 != r@[i].0);
        }
    }
}

/// Exclusive registration: a name just admitted is present, so the handshake
/// contract — admission only of an absent name, `UsernameTaken` for a present
/// one — lets exactly one of any number of attempts at one name succeed, the
/// attempts being serialized by the registry guard.
pub proof fn lemma_admitted_name_present(entries: Seq<(Seq<u8>, u64)>, name: Seq<u8>, sink: u64)
    ensures
        contains_name(entries.push((name, sink)), name),
{
    let e2 = entries.push((name, sink));
    assert(e2[e2.len() - 1].0 == name);
}

/// Broadcast completeness: a message broadcast past `excluded` is delivered,
/// with its newline, to the sink of every entry whose name is not `excluded`.
pub proof fn lemma_broadcast_completeness(
    entries: Seq<(Seq<u8>, u64)>,
    excluded: Seq<u8>,
    msg: Seq<u8>,
)
    ensures
        forall|i: int|
            0 <= i < entries.len() && (#[trigger] entries[i]).0 != excluded ==> plan_spec(
                entries,
                excluded,
                msg,
            ).contains((entries[i].1, line_of(msg))),
    decreases entries.len(),
{
    if entries.len() > 0 {
        let rest = entries.drop_last();
        lemma_broadcast_completeness(rest, excluded, msg);
        let p = plan_spec(entries, excluded, msg);
        let rp = plan_spec(rest, excluded, msg);
        assert forall|i: int|
            0 <= i < entries.len() && entries[i].0 != excluded implies p.contains(
            (entries[i].1, line_of(msg)),
        ) by {
            if i == entries.len() - 1 {
                assert(p.last() == (entries[i].1, line_of(msg)));
                assert(p.contains((entries[i].1, line_of(msg))));
            } else {
                assert(rest[i] == entries[i]);
                assert(rp.contains((entries[i].1, line_of(msg))));
                let k = choose|k: int|
                    0 <= k < rp.len() && rp[k] == (entries[i].1, line_of(msg));
                assert(p[k] == (entries[i].1, line_of(msg)));
            }
        }
    }
}

/// Broadcast soundness: every delivery of a broadcast plan carries exactly
/// the message line, and goes to the sink of some entry whose name is not the
/// excluded one.
pub proof fn lemma_broadcast_soundness(
    entries: Seq<(Seq<u8>, u64)>,
    excluded: Seq<u8>,
    msg: Seq<u8>,
)
    ensures
        forall|j: int|
            0 <= j < plan_spec(entries, excluded, msg).len() ==> ((#[trigger] plan_spec(
                entries,
                excluded,
                msg,
            )[j]).1 == line_of(msg) && exists|i: int|
                0 <= i < entries.len() && entries[i].0 != excluded && entries[i].1
                    == plan_spec(entries, excluded, msg)[j].0),
    decreases entries.len(),
{
    if entries.len() > 0 {
        let rest = entries.drop_last();
        lemma_broadcast_soundness(rest, excluded, msg);
        let p = plan_spec(entries, excluded, msg);
        let rp = plan_spec(rest, excluded, msg);
        assert forall|j: int| 0 <= j < p.len() implies p[j].1 == line_of(msg) && exists|
            i: int,
        |
            0 <= i < entries.len() && entries[i].0 != excluded && entries[i].1 == p[j].0 by {
            if j < rp.len() {
                assert(rp[j].1 == line_of(msg));
                let i = choose|i: int|
                    0 <= i < rest.len() && rest[i].0 != excluded && rest[i].1 == rp[j].0;
                assert(entries[i] == rest[i]);
                assert(entries[i].0 != excluded && entries[i].1 == p[j].0);
            } else {
                assert(entries.last().0 != excluded);
                assert(p[j] == (entries.last().1, line_of(msg)));
                let i = entries.len() - 1;
                assert(entries[i].0 != excluded && entries[i].1 == p[j].0);
            }
        }
    }
}

/// Self-exclusion: the list of other occupants computed for `me` never
/// lists `me`.
pub proof fn lemma_roster_self_exclusion(entries: Seq<(Seq<u8>, u64)>, me: Seq<u8>)
    ensures
        forall|i: int|
            0 <= i < others_spec(entries, me).len() ==> #[trigger] others_spec(entries, me)[i]
                != me,
    decreases entries.len(),
{
    if entries.len() > 0 {
        let rest = entries.drop_last();
        lemma_roster_self_exclusion(rest, me);
        let o = others_spec(entries, me);
        let ro = others_spec(rest, me);
        assert forall|i: int| 0 <= i < o.len() implies o[i] != me by {
            if entries.last().0 == me {
                assert(o == ro);
                assert(ro[i] != me);
            } else {
                assert(o == ro.push(entries.last().0));
                if i < ro.len() {
                    assert(o[i] == ro[i]);
                    assert(ro[i] != me);
                } else {
                    assert(o[i] == entries.last().0);
                }
            }
        }
    }
}

} // verus!
