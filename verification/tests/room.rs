//! Behavioural tests of the room: handshakes, roster and join/leave notices,
//! chat relay, and the registration race, driven through the public protocol
//! steps.

use budget_chat::messages::greeting_line;
use budget_chat::registry::Delivery;
use budget_chat::registry::Registry;
use budget_chat::session::HandshakeOutcome;
use budget_chat::session::chat_line_step;
use budget_chat::session::disconnect_step;
use budget_chat::session::handshake;
use budget_chat::session::validate_username;
use budget_chat::ChatErr;

fn attempt(reg: &mut Registry, line: &[u8], sink: u64) -> HandshakeOutcome {
    handshake(reg, Some(line.to_vec()), sink)
}

fn join_room(reg: &mut Registry, line: &[u8], sink: u64) -> (Vec<u8>, Vec<Delivery>) {
    match attempt(reg, line, sink) {
        HandshakeOutcome::Admitted { name, plan } => (name, plan),
        _ => panic!("expected admission"),
    }
}

#[test]
fn greeting_is_the_fixed_prompt() {
    assert_eq!(
        greeting_line(),
        b"Welcome to the crab land, what should I call you?\n".to_vec()
    );
}

#[test]
fn scenario_two_clients_join_and_one_leaves() {
    let mut reg = Registry::new();

    let (bob, plan1) = join_room(&mut reg, b"bob\n", 1);
    assert_eq!(bob, b"bob".to_vec());
    assert_eq!(plan1.len(), 1);
    assert_eq!(plan1[0].sink, 1);
    assert_eq!(plan1[0].bytes, b"* The room contains: \n".to_vec());

    let (ann, plan2) = join_room(&mut reg, b"ann\n", 2);
    assert_eq!(ann, b"ann".to_vec());
    assert_eq!(plan2.len(), 2);
    assert_eq!(plan2[0].sink, 2);
    assert_eq!(plan2[0].bytes, b"* The room contains: bob\n".to_vec());
    assert_eq!(plan2[1].sink, 1);
    assert_eq!(plan2[1].bytes, b"* ann has entered the room\n".to_vec());

    let plan3 = disconnect_step(&mut reg, &ann);
    assert_eq!(plan3.len(), 1);
    assert_eq!(plan3[0].sink, 1);
    assert_eq!(plan3[0].bytes, b"* ann has left the room\n".to_vec());

    assert_eq!(reg.len(), 1);
    assert!(reg.contains(&b"bob".to_vec()));
    assert!(!reg.contains(&b"ann".to_vec()));
}

#[test]
fn chat_round_trip() {
    let mut reg = Registry::new();
    let (alice, _) = join_room(&mut reg, b"alice\n", 3);
    let (_carol, _) = join_room(&mut reg, b"carol\n", 7);

    let plan = chat_line_step(&reg, &alice, &b"hello world\n".to_vec());
    assert_eq!(plan.len(), 1);
    assert_eq!(plan[0].sink, 7);
    assert_eq!(plan[0].bytes, b"[alice] hello world\n".to_vec());
}

#[test]
fn chat_reaches_every_other_session() {
    let mut reg = Registry::new();
    let (_a, _) = join_room(&mut reg, b"a\n", 10);
    let (b, _) = join_room(&mut reg, b"b\n", 11);
    let (_c, _) = join_room(&mut reg, b"c\n", 12);

    let plan = chat_line_step(&reg, &b, &b"hi\n".to_vec());
    let sinks: Vec<u64> = plan.iter().map(|d| d.sink).collect();
    assert_eq!(sinks, vec![10, 12]);
    for d in &plan {
        assert_eq!(d.bytes, b"[b] hi\n".to_vec());
    }
}

#[test]
fn empty_chat_line_is_forwarded() {
    let mut reg = Registry::new();
    let (alice, _) = join_room(&mut reg, b"alice\n", 1);
    let (_bo, _) = join_room(&mut reg, b"bo\n", 2);

    let plan = chat_line_step(&reg, &alice, &b"\n".to_vec());
    assert_eq!(plan.len(), 1);
    assert_eq!(plan[0].bytes, b"[alice] \n".to_vec());
}

#[test]
fn roster_never_lists_the_recipient() {
    let mut reg = Registry::new();
    let (_bob, _) = join_room(&mut reg, b"bob\n", 1);
    let (_ann, _) = join_room(&mut reg, b"ann\n", 2);
    let (_eve, plan) = join_room(&mut reg, b"eve\n", 3);

    assert_eq!(plan[0].sink, 3);
    assert_eq!(plan[0].bytes, b"* The room contains: bob, ann\n".to_vec());
}

#[test]
fn twenty_byte_username_is_accepted() {
    let mut reg = Registry::new();
    let name = [b'a'; 20];
    let mut line = name.to_vec();
    line.push(b'\n');
    let (joined, _) = join_room(&mut reg, &line, 1);
    assert_eq!(joined, name.to_vec());
    assert!(reg.contains(&name.to_vec()));
}

#[test]
fn twenty_one_byte_username_is_rejected() {
    let mut reg = Registry::new();
    let mut line = [b'a'; 21].to_vec();
    line.push(b'\n');
    match attempt(&mut reg, &line, 1) {
        HandshakeOutcome::Rejected(e) => assert_eq!(e, ChatErr::InvalidUsername),
        _ => panic!("expected rejection"),
    }
    assert_eq!(reg.len(), 0);
}

#[test]
fn empty_username_is_rejected() {
    let mut reg = Registry::new();
    match attempt(&mut reg, b"   \n", 1) {
        HandshakeOutcome::Rejected(e) => assert_eq!(e, ChatErr::InvalidUsername),
        _ => panic!("expected rejection"),
    }
    assert_eq!(reg.len(), 0);
}

#[test]
fn closed_before_username_enters_nothing() {
    let mut reg = Registry::new();
    match handshake(&mut reg, None, 1) {
        HandshakeOutcome::Closed => {}
        _ => panic!("expected a quiet close"),
    }
    assert_eq!(reg.len(), 0);
}

#[test]
fn username_is_trimmed_before_validation() {
    let mut reg = Registry::new();
    let (name, _) = join_room(&mut reg, b"  bob \r\n", 1);
    assert_eq!(name, b"bob".to_vec());
    assert!(reg.contains(&b"bob".to_vec()));
}

#[test]
fn validate_username_reports_each_error() {
    let mut reg = Registry::new();
    let (_bob, _) = join_room(&mut reg, b"bob\n", 1);
    assert_eq!(
        validate_username(&reg, &b"".to_vec()),
        Err(ChatErr::InvalidUsername)
    );
    assert_eq!(
        validate_username(&reg, &[b'x'; 21].to_vec()),
        Err(ChatErr::InvalidUsername)
    );
    assert_eq!(
        validate_username(&reg, &b"bob".to_vec()),
        Err(ChatErr::UsernameTaken)
    );
    assert_eq!(validate_username(&reg, &b"ann".to_vec()), Ok(()));
}

#[test]
fn hundred_attempts_at_one_name_let_exactly_one_in() {
    let mut reg = Registry::new();
    let mut joined = 0;
    let mut taken = 0;
    for sink in 0..100u64 {
        match attempt(&mut reg, b"dave\n", sink) {
            HandshakeOutcome::Admitted { .. } => joined += 1,
            HandshakeOutcome::Rejected(e) => {
                assert_eq!(e, ChatErr::UsernameTaken);
                taken += 1;
            }
            HandshakeOutcome::Closed => panic!("unexpected close"),
        }
    }
    assert_eq!(joined, 1);
    assert_eq!(taken, 99);
    assert_eq!(reg.len(), 1);
}

#[test]
fn unregister_absent_name_is_a_no_op() {
    let mut reg = Registry::new();
    let (_bob, _) = join_room(&mut reg, b"bob\n", 1);
    reg.unregister(&b"ghost".to_vec());
    assert_eq!(reg.len(), 1);
    assert!(reg.contains(&b"bob".to_vec()));
    reg.unregister(&b"ghost".to_vec());
    assert_eq!(reg.len(), 1);
}

#[test]
fn deliver_to_one_targets_only_the_named_session() {
    let mut reg = Registry::new();
    let (_bob, _) = join_room(&mut reg, b"bob\n", 5);
    let d = reg
        .deliver_to_one(&b"bob".to_vec(), &b"psst".to_vec())
        .expect("bob is present");
    assert_eq!(d.sink, 5);
    assert_eq!(d.bytes, b"psst\n".to_vec());
    assert!(reg.deliver_to_one(&b"ghost".to_vec(), &b"psst".to_vec()).is_none());
}

#[test]
fn disconnect_after_disconnect_notifies_no_one_twice() {
    let mut reg = Registry::new();
    let (bob, _) = join_room(&mut reg, b"bob\n", 1);
    let (_ann, _) = join_room(&mut reg, b"ann\n", 2);
    let first = disconnect_step(&mut reg, &bob);
    assert_eq!(first.len(), 1);
    assert_eq!(first[0].sink, 2);
    assert_eq!(reg.len(), 1);
}
