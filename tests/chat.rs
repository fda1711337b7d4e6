use tcp_chat::actor::{Action, ConnectionActor, Event, Phase};
use tcp_chat::client::{Client, PostOutcome};
use tcp_chat::fanout::send_message;
use tcp_chat::peer::PeerAddr;
use tcp_chat::registry::{Registry, RegistryError};
use tcp_chat::server::{
    assign_username, handle_client_connect, handle_client_disconnect, name_connection,
};
use tcp_chat::text::{validate_username, join_notice, leave_notice, request_username, UsernameError};
use tokio::sync::mpsc::{channel, Receiver};

fn local(port: u16) -> PeerAddr {
    PeerAddr::v4([127, 0, 0, 1], port)
}

fn registered(reg: &mut Registry, addr: PeerAddr) -> Receiver<String> {
    let (tx, rx) = channel::<String>(100);
    reg.register(addr, tx).unwrap();
    rx
}

fn drain(rx: &mut Receiver<String>) -> Vec<String> {
    let mut out = Vec::new();
    while let Ok(m) = rx.try_recv() {
        out.push(m);
    }
    out
}

fn run(action: Action) -> Vec<PostOutcome> {
    match action {
        Action::Broadcast(b) | Action::Close(Some(b)) => {
            b.deliver().iter().map(|d| d.outcome).collect()
        }
        _ => Vec::new(),
    }
}

#[test]
fn test_request_username_success() {
    let input = b"mytestusername\n";
    let username = request_username(input);
    assert!(username.is_ok());
    assert_eq!(username.unwrap(), "mytestusername");
}

#[test]
fn test_request_username_empty() {
    let input = b"\n";
    let username = request_username(input);
    assert!(username.is_err());
}

#[test]
fn test_request_username_trim() {
    let input = b"  mytestusername  \n";
    let username = request_username(input).unwrap();
    assert_eq!(username, "mytestusername");
}

#[test]
fn test_request_username_invalid_utf8() {
    let input = [0, 159, 146, 150];
    let result = request_username(&input);
    assert!(result.is_err());
    assert_eq!(result, Err(UsernameError::InvalidUtf8));
}

#[test]
fn test_assign_username_success() {
    let input = b"mytestusername\n";
    let addr = PeerAddr::v4([127, 0, 0, 1], 8080);
    let mut clients = Registry::new();
    clients.register(addr, channel::<String>(100).0).unwrap();

    let username = assign_username(&mut clients, addr, input);
    let client = clients.snapshot().into_iter().find(|c| c.addr_eq(addr)).unwrap();

    assert!(username.is_ok());
    assert_eq!(username.unwrap(), "mytestusername");
    assert_eq!(client.get_username().as_deref(), Some("mytestusername"));
}

#[test]
fn test_assign_username_empty() {
    let input = b"\n";
    let addr = PeerAddr::v4([127, 0, 0, 1], 8080);
    let mut clients = Registry::new();
    clients.register(addr, channel::<String>(100).0).unwrap();

    let username = assign_username(&mut clients, addr, input);

    assert!(username.is_err());
}

#[test]
fn test_clients_len_after_client_disconnect() {
    let addr = PeerAddr::v4([127, 0, 0, 1], 8080);
    let mut clients = Registry::new();
    clients.register(addr, channel::<String>(100).0).unwrap();

    let result = handle_client_disconnect(&mut clients, addr);

    assert!(result.is_none());
    assert_eq!(clients.len(), 0);
}

#[test]
fn peer_addr_packs_octets() {
    assert_eq!(
        PeerAddr::v4([127, 0, 0, 1], 8080),
        PeerAddr::V4 { ip: 0x7f00_0001, port: 8080 }
    );
    assert_ne!(local(8080), local(8081));
}

#[test]
fn notices_have_exact_text() {
    assert_eq!(join_notice("bob"), "bob has joined the chat!");
    assert_eq!(leave_notice("alice"), "alice has left the chat!");
}

#[test]
fn validate_username_refuses_empty() {
    assert_eq!(validate_username(String::new()), Err(UsernameError::Empty));
    assert_eq!(validate_username("x".to_string()), Ok("x".to_string()));
}

#[test]
fn register_twice_is_refused() {
    let mut reg = Registry::new();
    let _rx = registered(&mut reg, local(1));
    let (tx, _rx2) = channel::<String>(1);
    assert_eq!(reg.register(local(1), tx), Err(RegistryError::AlreadyRegistered));
    assert_eq!(reg.len(), 1);
}

#[test]
fn set_username_of_unknown_endpoint_is_not_found() {
    let mut reg = Registry::new();
    assert_eq!(reg.set_username(local(1), "x".to_string()), Err(RegistryError::NotFound));
    assert_eq!(
        name_connection(&mut reg, local(1), "x".to_string()),
        Err(UsernameError::NotFound)
    );
    assert_eq!(assign_username(&mut reg, local(1), b"x"), Err(UsernameError::NotFound));
}

#[test]
fn set_username_overwrites() {
    let mut reg = Registry::new();
    let _rx = registered(&mut reg, local(1));
    reg.set_username(local(1), "a".to_string()).unwrap();
    reg.set_username(local(1), "b".to_string()).unwrap();
    assert_eq!(reg.username_of(local(1)), Some(Some("b".to_string())));
}

#[test]
fn count_follows_connects_and_disconnects() {
    let mut reg = Registry::new();
    let _a = registered(&mut reg, local(1));
    let _b = registered(&mut reg, local(2));
    let _c = registered(&mut reg, local(3));
    assert_eq!(reg.len(), 3);
    assert!(reg.remove(local(2)));
    assert_eq!(reg.len(), 2);
    assert!(!reg.remove(local(2)));
    assert_eq!(reg.len(), 2);
    let _b2 = registered(&mut reg, local(2));
    assert_eq!(reg.len(), 3);
    assert!(reg.contains(local(2)));
}

#[test]
fn sender_never_gets_its_own_message() {
    let mut reg = Registry::new();
    let mut a = registered(&mut reg, local(1));
    let mut b = registered(&mut reg, local(2));
    let d = send_message(&reg.snapshot(), local(1), &"hi".to_string());
    assert_eq!(d.len(), 1);
    assert_eq!(d[0].to, local(2));
    assert!(drain(&mut a).is_empty());
    assert_eq!(drain(&mut b), vec!["hi".to_string()]);
}

#[test]
fn leave_notice_once_and_removal_idempotent() {
    let mut reg = Registry::new();
    let _a = registered(&mut reg, local(1));
    let mut b = registered(&mut reg, local(2));
    let mut c = registered(&mut reg, local(3));
    reg.set_username(local(1), "alice".to_string()).unwrap();
    let first = handle_client_disconnect(&mut reg, local(1)).unwrap();
    assert_eq!(first.text, "alice has left the chat!");
    first.deliver();
    let second = handle_client_disconnect(&mut reg, local(1));
    assert!(second.is_none());
    assert_eq!(reg.len(), 2);
    assert_eq!(drain(&mut b), vec!["alice has left the chat!".to_string()]);
    assert_eq!(drain(&mut c), vec!["alice has left the chat!".to_string()]);
}

#[test]
fn mailbox_keeps_order_per_sender() {
    let mut reg = Registry::new();
    let _a = registered(&mut reg, local(1));
    let mut b = registered(&mut reg, local(2));
    let peers = reg.snapshot();
    send_message(&peers, local(1), &"a".to_string());
    send_message(&peers, local(1), &"b".to_string());
    assert_eq!(drain(&mut b), vec!["a".to_string(), "b".to_string()]);
}

#[test]
fn chat_walkthrough() {
    let mut reg = Registry::new();
    let mut rx_a = registered(&mut reg, local(1));
    let mut alice = ConnectionActor::new(local(1));
    let outcomes = run(alice.step(&mut reg, Event::Inbound(b"alice".to_vec())));
    assert!(outcomes.is_empty());
    assert!(matches!(alice.phase(), Phase::Active { username } if username == "alice"));

    let mut rx_b = registered(&mut reg, local(2));
    let mut bob = ConnectionActor::new(local(2));
    run(bob.step(&mut reg, Event::Inbound(b"bob".to_vec())));
    assert_eq!(drain(&mut rx_a), vec!["bob has joined the chat!".to_string()]);
    assert!(drain(&mut rx_b).is_empty());

    run(alice.step(&mut reg, Event::Inbound(b"hi".to_vec())));
    assert_eq!(drain(&mut rx_b), vec!["hi".to_string()]);
    assert!(drain(&mut rx_a).is_empty());

    let out = run(alice.step(&mut reg, Event::ReadEnded));
    assert_eq!(out, vec![PostOutcome::Queued]);
    assert_eq!(drain(&mut rx_b), vec!["alice has left the chat!".to_string()]);
    assert_eq!(reg.len(), 1);
    assert!(matches!(alice.phase(), Phase::Closed));
    assert!(matches!(alice.step(&mut reg, Event::Inbound(b"x".to_vec())), Action::Close(None)));
}

#[test]
fn whitespace_username_is_rejected() {
    let mut reg = Registry::new();
    let _rx = registered(&mut reg, local(1));
    let mut actor = ConnectionActor::new(local(1));
    let action = actor.step(&mut reg, Event::Inbound(b"   ".to_vec()));
    assert!(matches!(action, Action::Close(None)));
    assert!(matches!(actor.phase(), Phase::Closed));
    assert_eq!(reg.len(), 0);
    let mut reg2 = Registry::new();
    let _rx2 = registered(&mut reg2, local(1));
    assert!(matches!(
        handle_client_connect(&mut reg2, local(1), b"   \n"),
        Err(UsernameError::Empty)
    ));
    assert_eq!(reg2.username_of(local(1)), Some(None));
}

#[test]
fn full_mailbox_drops_only_its_own_copy() {
    let mut reg = Registry::new();
    let _a = registered(&mut reg, local(1));
    let (tx_c, mut rx_c) = channel::<String>(1);
    reg.register(local(3), tx_c).unwrap();
    let mut b = registered(&mut reg, local(2));
    let peers = reg.snapshot();
    send_message(&peers, local(2), &"fill".to_string());
    let d = send_message(&peers, local(1), &"hello".to_string());
    assert_eq!(d.len(), 2);
    assert_eq!(d[0].to, local(3));
    assert_eq!(d[0].outcome, PostOutcome::Full);
    assert_eq!(d[1].to, local(2));
    assert_eq!(d[1].outcome, PostOutcome::Queued);
    assert_eq!(drain(&mut b), vec!["hello".to_string()]);
    assert_eq!(drain(&mut rx_c), vec!["fill".to_string()]);
}

#[test]
fn closed_mailbox_is_reported() {
    let mut reg = Registry::new();
    let _a = registered(&mut reg, local(1));
    let rx = registered(&mut reg, local(2));
    drop(rx);
    let d = send_message(&reg.snapshot(), local(1), &"x".to_string());
    assert_eq!(d[0].outcome, PostOutcome::Closed);
}

#[test]
fn inbound_chunk_is_decoded_lossily() {
    let mut reg = Registry::new();
    let _a = registered(&mut reg, local(1));
    let mut b = registered(&mut reg, local(2));
    let mut actor = ConnectionActor::new(local(1));
    actor.step(&mut reg, Event::Inbound(b"alice".to_vec()));
    drain(&mut b);
    let action = actor.step(&mut reg, Event::Inbound(vec![b'o', 0xff, b'k', b'\n']));
    match action {
        Action::Broadcast(m) => assert_eq!(m.text, "o\u{fffd}k\n"),
        _ => panic!("expected a broadcast"),
    }
}

#[test]
fn outbound_text_is_written_whole() {
    let mut reg = Registry::new();
    let _a = registered(&mut reg, local(1));
    let mut actor = ConnectionActor::new(local(1));
    let action = actor.step(&mut reg, Event::Outbound("  hi\n".to_string()));
    assert!(matches!(action, Action::Write(t) if t == "  hi\n"));
    assert!(matches!(actor.phase(), Phase::Connecting));
    assert_eq!(reg.len(), 1);
}

#[test]
fn write_failure_while_connecting_drops_silently() {
    let mut reg = Registry::new();
    let _a = registered(&mut reg, local(1));
    let mut actor = ConnectionActor::new(local(1));
    assert!(matches!(actor.step(&mut reg, Event::WriteFailed), Action::Close(None)));
    assert_eq!(reg.len(), 0);
}

#[test]
fn client_record_accessors() {
    let (tx, _rx) = channel::<String>(1);
    let mut c = Client::new(local(5), tx);
    assert!(c.get_username().is_none());
    c.set_username("zed".to_string());
    assert_eq!(c.get_username().as_deref(), Some("zed"));
    assert!(c.addr_eq(local(5)));
    assert_eq!(c.get_addr(), local(5));
    let d = c.duplicate();
    assert_eq!(d.post("m".to_string()).outcome, PostOutcome::Queued);
    assert_eq!(c.get_sender().capacity(), 0);
}

#[test]
fn unicode_whitespace_username_is_rejected() {
    assert_eq!(request_username("\u{3000}\t \u{a0}\n".as_bytes()), Err(UsernameError::Empty));
    assert_eq!(request_username(" \u{2003}ann\u{85}".as_bytes()), Ok("ann".to_string()));
}

#[test]
fn username_is_its_own_trim() {
    let name = request_username(b"  carol \r\n").unwrap();
    assert_eq!(name, "carol");
    assert_eq!(name.trim(), name);
}

#[test]
fn leave_notice_uses_the_joined_name() {
    let mut reg = Registry::new();
    let _a = registered(&mut reg, local(1));
    let mut b = registered(&mut reg, local(2));
    let mut actor = ConnectionActor::new(local(1));
    actor.step(&mut reg, Event::Inbound(b"dora\n".to_vec()));
    drain(&mut b);
    let action = actor.step(&mut reg, Event::WriteFailed);
    match action {
        Action::Close(Some(m)) => {
            assert_eq!(m.text, "dora has left the chat!");
            m.deliver();
        }
        _ => panic!("expected a leave notice"),
    }
    assert_eq!(drain(&mut b), vec!["dora has left the chat!".to_string()]);
    assert_eq!(reg.len(), 1);
    assert!(!reg.contains(local(1)));
}
