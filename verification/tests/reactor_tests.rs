//! The session entry's queue discipline and the reactor's dispatch paths,
//! driven by a scripted in-memory transport.
use irc_bot::action::Action;
use irc_bot::client::{Client, MPSC_QUEUE_TOKEN};
use irc_bot::SessionId;
use irc_bot::message::{parse_message, Message};
use irc_bot::msg_ctx::MessageContext;
use irc_bot::reaction::Reaction;
use irc_bot::session::{
    MessageHandler, RecvStatus, SendStatus, SessionEntry, SessionError, Transport,
};

/// One scripted outcome for a send attempt.
#[derive(Clone, Copy)]
enum SendPlan {
    Accept,
    Block,
    Fail,
}

/// A transport with scripted outcomes that records what it accepted.
struct MockTransport {
    send_plan: Vec<SendPlan>,
    sent: Vec<String>,
    inbound: Vec<String>,
}

impl MockTransport {
    fn new() -> MockTransport {
        MockTransport { send_plan: Vec::new(), sent: Vec::new(), inbound: Vec::new() }
    }
}

impl Transport for MockTransport {
    fn receive(&mut self) -> RecvStatus {
        if self.inbound.is_empty() {
            RecvStatus::NoData
        } else {
            let raw = self.inbound.remove(0);
            match parse_message(&raw) {
                Ok(m) => RecvStatus::Msg(m),
                Err(e) => RecvStatus::Failed(e),
            }
        }
    }

    fn try_send(&mut self, msg: &Message) -> SendStatus {
        let plan = if self.send_plan.is_empty() { SendPlan::Accept } else { self.send_plan.remove(0) };
        match plan {
            SendPlan::Accept => {
                self.sent.push(msg.raw_text().to_string());
                SendStatus::Sent
            }
            SendPlan::Block => SendStatus::Transient,
            SendPlan::Fail => SendStatus::Failed("scripted send failure".to_string()),
        }
    }
}

/// Records everything handed to it and answers with a fixed reaction.
struct RecordingHandler {
    seen: Vec<String>,
    errors: Vec<String>,
    reply: Option<String>,
}

impl RecordingHandler {
    fn silent() -> RecordingHandler {
        RecordingHandler { seen: Vec::new(), errors: Vec::new(), reply: None }
    }
}

impl MessageHandler for RecordingHandler {
    fn handle(&mut self, _ctx: &MessageContext, event: Result<Message, SessionError>) -> Reaction {
        match event {
            Ok(m) => {
                self.seen.push(m.raw_text().to_string());
                match &self.reply {
                    Some(raw) => Reaction::RawMsg(parse_message(raw).unwrap()),
                    None => Reaction::Nothing,
                }
            }
            Err(SessionError::Recv(e)) => {
                self.errors.push(e);
                Reaction::Nothing
            }
            Err(SessionError::Parse(e)) => {
                self.errors.push(e);
                Reaction::Nothing
            }
        }
    }
}

fn msg(raw: &str) -> Message {
    parse_message(raw).unwrap()
}

#[test]
fn fifo_order_across_writable_events() {
    let mut e = SessionEntry::new(MockTransport::new());
    // Three messages forced onto the queue by transient failures.
    e.transport.send_plan = vec![SendPlan::Block, SendPlan::Block, SendPlan::Block];
    e.send(msg("PRIVMSG #c :one"));
    e.send(msg("PRIVMSG #c :two"));
    e.send(msg("PRIVMSG #c :three"));
    assert_eq!(e.output_queue.len(), 3);
    assert!(!e.is_writable);
    // First writable event: one goes out, then the transport blocks again.
    e.is_writable = true;
    e.transport.send_plan = vec![SendPlan::Accept, SendPlan::Block];
    e.process_writable();
    assert_eq!(e.transport.sent, vec!["PRIVMSG #c :one"]);
    assert_eq!(e.output_queue.len(), 2);
    assert!(!e.is_writable);
    // Next writable event drains the rest, still in order.
    e.is_writable = true;
    e.transport.send_plan = vec![SendPlan::Accept, SendPlan::Accept];
    e.process_writable();
    assert_eq!(
        e.transport.sent,
        vec!["PRIVMSG #c :one", "PRIVMSG #c :two", "PRIVMSG #c :three"]
    );
    assert_eq!(e.output_queue.len(), 0);
    assert!(e.is_writable);
}

#[test]
fn draining_empty_queue_only_sets_writable() {
    let mut e = SessionEntry::new(MockTransport::new());
    let mut h = RecordingHandler::silent();
    assert!(!e.is_writable);
    let done = e.process_session_event(false, true, SessionId::from_index(0), &mut h, 16).0;
    assert!(done);
    assert!(e.is_writable);
    assert!(e.transport.sent.is_empty());
    assert!(e.output_queue.is_empty());
}

#[test]
fn failed_send_drops_only_that_message() {
    let mut e = SessionEntry::new(MockTransport::new());
    e.transport.send_plan = vec![SendPlan::Block, SendPlan::Block];
    e.send(msg("PRIVMSG #c :doomed"));
    e.send(msg("PRIVMSG #c :fine"));
    e.is_writable = true;
    e.transport.send_plan = vec![SendPlan::Fail, SendPlan::Accept];
    let log = e.process_writable();
    assert_eq!(log.len(), 2);
    assert_eq!(e.transport.sent, vec!["PRIVMSG #c :fine"]);
    assert!(e.output_queue.is_empty());
    assert!(e.is_writable);
}

#[test]
fn transient_then_direct_send_queues_in_order() {
    let mut e = SessionEntry::new(MockTransport::new());
    e.transport.send_plan = vec![SendPlan::Block, SendPlan::Block];
    e.send(msg("PRIVMSG #c :m1"));
    e.send(msg("PRIVMSG #c :m2"));
    let queued: Vec<&str> = e.output_queue.iter().map(|m| m.raw_text()).collect();
    assert_eq!(queued, vec!["PRIVMSG #c :m1", "PRIVMSG #c :m2"]);
    assert!(!e.is_writable);
    assert!(e.transport.sent.is_empty());
}

#[test]
fn reaction_multi_sends_in_order_like_sequential() {
    let reactions = || {
        vec![
            Reaction::RawMsg(msg("PRIVMSG #c :r1")),
            Reaction::Multi(vec![
                Reaction::RawMsg(msg("PRIVMSG #c :r2")),
                Reaction::Nothing,
                Reaction::Multi(vec![Reaction::RawMsg(msg("PRIVMSG #c :r3"))]),
            ]),
            Reaction::RawMsg(msg("PRIVMSG #c :r4")),
        ]
    };
    // One nested Multi...
    let mut together = SessionEntry::new(MockTransport::new());
    together.process_reaction(Reaction::Multi(reactions()));
    // ...against the same reactions applied one after the other.
    let mut separate = SessionEntry::new(MockTransport::new());
    for r in reactions() {
        separate.process_reaction(r);
    }
    let expected = vec![
        "PRIVMSG #c :r1",
        "PRIVMSG #c :r2",
        "PRIVMSG #c :r3",
        "PRIVMSG #c :r4",
    ];
    assert_eq!(together.transport.sent, expected);
    assert_eq!(separate.transport.sent, expected);
}

#[test]
fn readable_answers_ping_without_handler() {
    let mut e = SessionEntry::new(MockTransport::new());
    let mut h = RecordingHandler::silent();
    e.transport.inbound = vec!["PING :serverhost".to_string()];
    let done = e.process_readable(SessionId::from_index(0), &mut h, 16).0;
    assert!(done);
    assert!(h.seen.is_empty());
    assert!(h.errors.is_empty());
    assert_eq!(e.transport.sent, vec!["PONG :serverhost"]);
}

#[test]
fn lowercase_ping_is_not_special_cased() {
    let mut e = SessionEntry::new(MockTransport::new());
    let mut h = RecordingHandler::silent();
    // The keep-alive check is on the exact command token.
    e.transport.inbound = vec!["ping :serverhost".to_string()];
    e.process_readable(SessionId::from_index(0), &mut h, 16);
    assert_eq!(h.seen, vec!["ping :serverhost"]);
    assert!(e.transport.sent.is_empty());
}

#[test]
fn readable_hands_other_messages_to_handler() {
    let mut e = SessionEntry::new(MockTransport::new());
    let mut h = RecordingHandler::silent();
    h.reply = Some("PRIVMSG #c :ack".to_string());
    e.transport.inbound =
        vec!["PRIVMSG #c :hello".to_string(), "NOTICE #c :psst".to_string()];
    e.process_readable(SessionId::from_index(0), &mut h, 16);
    assert_eq!(h.seen, vec!["PRIVMSG #c :hello", "NOTICE #c :psst"]);
    // The handler's reaction was sent once per inbound message.
    assert_eq!(e.transport.sent, vec!["PRIVMSG #c :ack", "PRIVMSG #c :ack"]);
}

#[test]
fn readable_budget_reports_unfinished_drain() {
    let mut e = SessionEntry::new(MockTransport::new());
    let mut h = RecordingHandler::silent();
    e.transport.inbound = vec!["PRIVMSG #c :a".to_string(), "PRIVMSG #c :b".to_string()];
    let done = e.process_readable(SessionId::from_index(0), &mut h, 1).0;
    assert!(!done);
    assert_eq!(h.seen, vec!["PRIVMSG #c :a"]);
}

#[test]
fn receive_errors_reach_the_handler() {
    let mut e = SessionEntry::new(MockTransport::new());
    let mut h = RecordingHandler::silent();
    // An empty line is refused by the parser, so the transport reports a
    // receive failure, which must reach the handler rather than vanish.
    e.transport.inbound = vec!["".to_string(), "PRIVMSG #c :after".to_string()];
    let done = e.process_readable(SessionId::from_index(0), &mut h, 16).0;
    assert!(done);
    assert_eq!(h.errors.len(), 1);
    assert_eq!(h.seen, vec!["PRIVMSG #c :after"]);
}

#[test]
fn session_ids_count_up_and_stay_valid() {
    let mut client: Client<MockTransport> = Client::new();
    let a = client.add_session(MockTransport::new()).unwrap();
    let b = client.add_session(MockTransport::new()).unwrap();
    let c = client.add_session(MockTransport::new()).unwrap();
    assert_eq!(a.index(), 0);
    assert_eq!(b.index(), 1);
    assert_eq!(c.index(), 2);
    assert_eq!(client.session_count(), 3);
    // The first id still addresses the first session after later growth.
    let st = client.process_action(Action::RawMsg { session: a.clone(), message: msg("PRIVMSG #c :to-a") });
    assert!(matches!(st, Some(SendStatus::Sent)));
    assert_eq!(client.sessions[0].transport.sent, vec!["PRIVMSG #c :to-a"]);
    assert!(client.sessions[1].transport.sent.is_empty());
    assert!(client.sessions[2].transport.sent.is_empty());
}

#[test]
fn two_handle_clones_reach_two_sessions_in_one_wake() {
    let mut client: Client<MockTransport> = Client::new();
    let a = client.add_session(MockTransport::new()).unwrap();
    let b = client.add_session(MockTransport::new()).unwrap();
    let mut h1 = client.handle();
    let mut h2 = h1.clone();
    h1.try_send(a, msg("PRIVMSG #c :for-a")).unwrap();
    h2.try_send(b, msg("PRIVMSG #c :for-b")).unwrap();
    // One wake drains the whole queue.
    let (done, _) = client.dispatch_event(MPSC_QUEUE_TOKEN, true, false, &mut RecordingHandler::silent(), 64);
    assert!(done);
    assert_eq!(client.sessions[0].transport.sent, vec!["PRIVMSG #c :for-a"]);
    assert_eq!(client.sessions[1].transport.sent, vec!["PRIVMSG #c :for-b"]);
}

#[test]
fn injected_sends_get_backpressure_treatment() {
    let mut client: Client<MockTransport> = Client::new();
    let a = client.add_session(MockTransport::new()).unwrap();
    client.sessions[0].transport.send_plan = vec![SendPlan::Block];
    let mut h = client.handle();
    h.try_send(a, msg("PRIVMSG #c :later")).unwrap();
    client.process_mpsc_queue(64);
    // The transient failure queued the message instead of dropping it.
    assert_eq!(client.sessions[0].output_queue.len(), 1);
    assert!(!client.sessions[0].is_writable);
    // The next writable event delivers it.
    client.dispatch_event(0, false, true, &mut RecordingHandler::silent(), 64);
    assert_eq!(client.sessions[0].transport.sent, vec!["PRIVMSG #c :later"]);
}

#[test]
fn unknown_token_changes_nothing() {
    let mut client: Client<MockTransport> = Client::new();
    client.add_session(MockTransport::new()).unwrap();
    let (done, send_log) = client.dispatch_event(17, true, true, &mut RecordingHandler::silent(), 64);
    assert!(done);
    assert!(send_log.is_empty());
    assert!(client.sessions[0].transport.sent.is_empty());
}

#[test]
fn dispatch_surfaces_failed_queued_sends() {
    let mut client: Client<MockTransport> = Client::new();
    client.add_session(MockTransport::new()).unwrap();
    client.sessions[0].transport.send_plan = vec![SendPlan::Block];
    client.process_action(Action::RawMsg {
        session: SessionId::from_index(0),
        message: msg("PRIVMSG #c :doomed"),
    });
    client.sessions[0].transport.send_plan = vec![SendPlan::Fail];
    let (done, send_log) = client.dispatch_event(0, false, true, &mut RecordingHandler::silent(), 64);
    assert!(done);
    assert!(matches!(send_log.as_slice(), [SendStatus::Failed(_)]));
    assert!(client.sessions[0].output_queue.is_empty());
}

#[test]
fn handle_reports_queue_full() {
    let client: Client<MockTransport> = Client::new();
    let mut h = client.handle();
    let id = SessionId::from_index(0);
    for _ in 0..1024 {
        h.try_send(id.clone(), msg("PING :x")).unwrap();
    }
    let r = h.try_send(id, msg("PING :x"));
    assert!(matches!(r, Err(irc_bot::client::HandleSendError::QueueFull)));
}

#[test]
fn handle_reports_disconnected_reactor() {
    let client: Client<MockTransport> = Client::new();
    let mut h = client.handle();
    drop(client);
    let r = h.try_send(SessionId::from_index(0), msg("PING :x"));
    assert!(matches!(r, Err(irc_bot::client::HandleSendError::Disconnected)));
}
