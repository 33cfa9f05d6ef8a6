//! Rendering of the server-to-client messages as exact byte sequences.
//! A message is rendered without its trailing newline; the delivery layer
//! appends one to every record it sends.

use vstd::prelude::*;

use crate::bytes::copy_bytes;

verus! {

/// The one-time prompt sent to a freshly accepted connection
/// ("Welcome to the crab land, what should I call you?"), newline included.
pub open spec fn greeting_spec() -> Seq<u8> {
    seq![
        87u8, 101u8, 108u8, 99u8, 111u8, 109u8, 101u8, 32u8, 116u8, 111u8,
        32u8, 116u8, 104u8, 101u8, 32u8, 99u8, 114u8, 97u8, 98u8, 32u8,
        108u8, 97u8, 110u8, 100u8, 44u8, 32u8, 119u8, 104u8, 97u8, 116u8,
        32u8, 115u8, 104u8, 111u8, 117u8, 108u8, 100u8, 32u8, 73u8, 32u8,
        99u8, 97u8, 108u8, 108u8, 32u8, 121u8, 111u8, 117u8, 63u8, 10u8,
    ]
}

/// "* The room contains: "
pub open spec fn roster_prefix() -> Seq<u8> {
    seq![
        42u8, 32u8, 84u8, 104u8, 101u8, 32u8, 114u8, 111u8, 111u8, 109u8,
        32u8, 99u8, 111u8, 110u8, 116u8, 97u8, 105u8, 110u8, 115u8, 58u8,
        32u8,
    ]
}

/// "* "
pub open spec fn star_sp() -> Seq<u8> {
    seq![42u8, 32u8]
}

/// ", "
pub open spec fn comma_sp() -> Seq<u8> {
    seq![44u8, 32u8]
}

/// " has entered the room"
pub open spec fn entered_suffix() -> Seq<u8> {
    seq![
        32u8, 104u8, 97u8, 115u8, 32u8, 101u8, 110u8, 116u8, 101u8, 114u8,
        101u8, 100u8, 32u8, 116u8, 104u8, 101u8, 32u8, 114u8, 111u8, 111u8,
        109u8,
    ]
}

/// " has left the room"
pub open spec fn left_suffix() -> Seq<u8> {
    seq![
        32u8, 104u8, 97u8, 115u8, 32u8, 108u8, 101u8, 102u8, 116u8, 32u8,
        116u8, 104u8, 101u8, 32u8, 114u8, 111u8, 111u8, 109u8,
    ]
}

/// The names joined with ", ", in order; empty when there are none.
pub open spec fn joined(names: Seq<Seq<u8>>) -> Seq<u8>
    decreases names.len(),
{
    if names.len() == 0 {
        Seq::empty()
    } else if names.len() == 1 {
        names.last()
    } else {
        joined(names.drop_last()) + comma_sp() + names.last()
    }
}

/// The roster notice for a room whose other occupants are `names`:
/// "* The room contains: <name1>, <name2>, ..."; nothing follows the colon
/// and space when the room is otherwise empty.
pub open spec fn roster_msg(names: Seq<Seq<u8>>) -> Seq<u8> {
    roster_prefix() + joined(names)
}

/// "* <name> has entered the room"
pub open spec fn join_msg(name: Seq<u8>) -> Seq<u8> {
    star_sp() + name + entered_suffix()
}

/// "* <name> has left the room"
pub open spec fn leave_msg(name: Seq<u8>) -> Seq<u8> {
    star_sp() + name + left_suffix()
}

/// "[<name>] <text>"
pub open spec fn chat_msg(name: Seq<u8>, text: Seq<u8>) -> Seq<u8> {
    seq![91u8] + name + seq![93u8, 32u8] + text
}

/// A rendered message followed by the newline that terminates every record.
pub open spec fn line_of(m: Seq<u8>) -> Seq<u8> {
    m + seq![10u8]
}

/// The views of a list of byte strings.
pub open spec fn views_of(names: Seq<Vec<u8>>) -> Seq<Seq<u8>> {
    names.map_values(|n: Vec<u8>| n@)
}

/// A rendered message with the newline appended, ready to write.
pub fn to_line(msg: &Vec<u8>) -> (r: Vec<u8>)
    ensures
        r@ == line_of(msg@),
{
    let mut r = copy_bytes(msg);
    r.push(10);
    proof {
        assert(r@ =~= line_of(msg@));
    }
    r
}

/// The greeting, ready to send.
pub fn greeting_line() -> (r: Vec<u8>)
    ensures
        r@ == greeting_spec(),
{
    let mut r: Vec<u8> = Vec::new();
    r.push(87); r.push(101); r.push(108); r.push(99); r.push(111);
    r.push(109); r.push(101); r.push(32); r.push(116); r.push(111);
    r.push(32); r.push(116); r.push(104); r.push(101); r.push(32);
    r.push(99); r.push(114); r.push(97); r.push(98); r.push(32);
    r.push(108); r.push(97); r.push(110); r.push(100); r.push(44);
    r.push(32); r.push(119); r.push(104); r.push(97); r.push(116);
    r.push(32); r.push(115); r.push(104); r.push(111); r.push(117);
    r.push(108); r.push(100); r.push(32); r.push(73); r.push(32);
    r.push(99); r.push(97); r.push(108); r.push(108); r.push(32);
    r.push(121); r.push(111); r.push(117); r.push(63); r.push(10);
    proof {
        assert(r@ =~= greeting_spec());
    }
    r
}

fn roster_prefix_vec() -> (r: Vec<u8>)
    ensures
        r@ == roster_prefix(),
{
    let mut r: Vec<u8> = Vec::new();
    r.push(42); r.push(32); r.push(84); r.push(104); r.push(101);
    r.push(32); r.push(114); r.push(111); r.push(111); r.push(109);
    r.push(32); r.push(99); r.push(111); r.push(110); r.push(116);
    r.push(97); r.push(105); r.push(110); r.push(115); r.push(58);
    r.push(32);
    proof {
        assert(r@ =~= roster_prefix());
    }
    r
}

fn entered_suffix_vec() -> (r: Vec<u8>)
    ensures
        r@ == entered_suffix(),
{
    let mut r: Vec<u8> = Vec::new();
    r.push(32); r.push(104); r.push(97); r.push(115); r.push(32);
    r.push(101); r.push(110); r.push(116); r.push(101); r.push(114);
    r.push(101); r.push(100); r.push(32); r.push(116); r.push(104);
    r.push(101); r.push(32); r.push(114); r.push(111); r.push(111);
    r.push(109);
    proof {
        assert(r@ =~= entered_suffix());
    }
    r
}

fn left_suffix_vec() -> (r: Vec<u8>)
    ensures
        r@ == left_suffix(),
{
    let mut r: Vec<u8> = Vec::new();
    r.push(32); r.push(104); r.push(97); r.push(115); r.push(32);
    r.push(108); r.push(101); r.push(102); r.push(116); r.push(32);
    r.push(116); r.push(104); r.push(101); r.push(32); r.push(114);
    r.push(111); r.push(111); r.push(109);
    proof {
        assert(r@ =~= left_suffix());
    }
    r
}

/// "* <name> has entered the room", without the newline.
pub fn render_join(name: &Vec<u8>) -> (r: Vec<u8>)
    ensures
        r@ == join_msg(name@),
{
    let mut r: Vec<u8> = Vec::new();
    r.push(42);
    r.push(32);
    proof {
        assert(r@ =~= star_sp());
    }
    let mut n = copy_bytes(name);
    r.append(&mut n);
    let mut suf = entered_suffix_vec();
    r.append(&mut suf);
    proof {
        assert(r@ =~= join_msg(name@));
    }
    r
}

/// "* <name> has left the room", without the newline.
pub fn render_leave(name: &Vec<u8>) -> (r: Vec<u8>)
    ensures
        r@ == leave_msg(name@),
{
    let mut r: Vec<u8> = Vec::new();
    r.push(42);
    r.push(32);
    proof {
        assert(r@ =~= star_sp());
    }
    let mut n = copy_bytes(name);
    r.append(&mut n);
    let mut suf = left_suffix_vec();
    r.append(&mut suf);
    proof {
        assert(r@ =~= leave_msg(name@));
    }
    r
}

/// "[<name>] <text>", without the newline.
pub fn render_chat(name: &Vec<u8>, text: &Vec<u8>) -> (r: Vec<u8>)
    ensures
        r@ == chat_msg(name@, text@),
{
    let mut r: Vec<u8> = Vec::new();
    r.push(91);
    let mut n = copy_bytes(name);
    r.append(&mut n);
    r.push(93);
    r.push(32);
    let mut t = copy_bytes(text);
    r.append(&mut t);
    proof {
        assert(r@ =~= chat_msg(name@, text@));
    }
    r
}

/// The roster notice for the given other occupants, without the newline.
pub fn render_roster(names: &Vec<Vec<u8>>) -> (r: Vec<u8>)
    ensures
        r@ == roster_msg(views_of(names@)),
{
    let ghost dv = views_of(names@);
    let mut r = roster_prefix_vec();
    proof {
        assert(dv.take(0) =~= Seq::<Seq<u8>>::empty());
        assert(r@ =~= roster_prefix() + joined(dv.take(0)));
    }
    let mut i: usize = 0;
    while i < names.len()
        invariant
            i <= names@.len(),
            dv == views_of(names@),
            dv.len() == names@.len(),
            r@ == roster_prefix() + joined(dv.take(i as int)),
        decreases names@.len() - i,
    {
        if i > 0 {
            r.push(44);
            r.push(32);
        }
        let mut n = copy_bytes(&names[i]);
        r.append(&mut n);
        proof {
            let t1 = dv.take(i as int + 1);
            assert(t1.drop_last() =~= dv.take(i as int));
            assert(t1.last() == names@[i as int]@);
            if i == 0 {
                assert(joined(t1) == t1.last());
                assert(r@ =~= roster_prefix() + joined(t1));
            } else {
                assert(joined(t1) == joined(dv.take(i as int)) + comma_sp() + t1.last());
                assert(r@ =~= roster_prefix() + joined(t1));
            }
        }
        i = i + 1;
    }
    proof {
        assert(dv.take(names@.len() as int) =~= dv);
    }
    r
}

} // verus!
