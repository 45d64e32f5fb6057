use ud3tn_aap::message::{BundleIdentifier, Message};
use ud3tn_aap::{AapStream, Agent, BaseAgent, Error, ReadOutcome, RegisteredAgent};

/// A stream that hands out a fixed script of read outcomes and records
/// everything written to it in a log the test can keep a handle on.
struct ScriptStream {
    script: Vec<ReadOutcome>,
    written: std::rc::Rc<std::cell::RefCell<Vec<u8>>>,
}

impl ScriptStream {
    fn new(script: Vec<ReadOutcome>) -> ScriptStream {
        ScriptStream { script, written: std::rc::Rc::new(std::cell::RefCell::new(Vec::new())) }
    }

    fn write_log(&self) -> std::rc::Rc<std::cell::RefCell<Vec<u8>>> {
        self.written.clone()
    }
}

impl AapStream for ScriptStream {
    fn read_chunk(&mut self) -> ReadOutcome {
        if self.script.is_empty() {
            ReadOutcome::End
        } else {
            self.script.remove(0)
        }
    }

    fn write_all_bytes(&mut self, bytes: &[u8]) -> Result<(), std::io::Error> {
        self.written.borrow_mut().extend_from_slice(bytes);
        Ok(())
    }
}

fn welcomed_stream(mut extra: Vec<ReadOutcome>) -> ScriptStream {
    let mut script = vec![ReadOutcome::Data(
        Message::Welcome("dtn://node.dtn/".into()).to_bytes(),
    )];
    script.append(&mut extra);
    ScriptStream::new(script)
}

fn registered(extra: Vec<ReadOutcome>) -> RegisteredAgent<ScriptStream> {
    let mut script = vec![ReadOutcome::Data(Message::Ack.to_bytes())];
    script.extend(extra);
    let agent = Agent::new(welcomed_stream(script)).unwrap();
    match agent.register("test-agent".into()) {
        Ok(registered) => registered,
        Err((e, _)) => panic!("registration failed: {:?}", e),
    }
}

#[test]
fn handshake_learns_node_eid() {
    let agent = Agent::new(welcomed_stream(vec![])).unwrap();
    assert_eq!(agent.node_id(), "dtn://node.dtn/");
}

#[test]
fn handshake_rejects_other_first_message_and_writes_nothing() {
    let stream = ScriptStream::new(vec![ReadOutcome::Data(Message::Ack.to_bytes())]);
    let log = stream.write_log();
    match Agent::new(stream) {
        Err(Error::UnexpectedMessage) => {},
        other => panic!("expected a protocol violation, got {:?}", other.map(|_| ())),
    }
    // The connect path performs no writes at all, before or after the
    // violation.
    assert!(log.borrow().is_empty());
}

#[test]
fn handshake_survives_single_byte_fragmentation() {
    // Feeding the welcome message one byte at a time through the
    // incremental buffer yields the same session as feeding it whole.
    let bytes = Message::Welcome("dtn://node.dtn/".into()).to_bytes();
    let script: Vec<ReadOutcome> = bytes
        .iter()
        .map(|b| ReadOutcome::Data(vec![*b]))
        .collect();
    let agent = Agent::new(ScriptStream::new(script)).unwrap();
    assert_eq!(agent.node_id(), "dtn://node.dtn/");
}

#[test]
fn handshake_survives_every_two_piece_split() {
    let bytes = Message::Welcome("dtn://node.dtn/".into()).to_bytes();
    for cut in 0..bytes.len() {
        let script = vec![
            ReadOutcome::Data(bytes[..cut].to_vec()),
            ReadOutcome::Data(bytes[cut..].to_vec()),
        ];
        let agent = Agent::new(ScriptStream::new(script)).unwrap();
        assert_eq!(agent.node_id(), "dtn://node.dtn/");
    }
}

#[test]
fn register_sends_request_and_reports_identity() {
    let agent = registered(vec![]);
    assert_eq!(agent.agent_id(), "test-agent");
    assert_eq!(agent.node_id(), "dtn://node.dtn/");
}

#[test]
fn register_rejected_with_nack_keeps_session_for_retry() {
    // The node rejects the first registration and accepts the second: the
    // session comes back beside the rejection and stays usable.
    let agent = Agent::new(welcomed_stream(vec![
        ReadOutcome::Data(Message::Nack.to_bytes()),
        ReadOutcome::Data(Message::Ack.to_bytes()),
    ]))
    .unwrap();
    let agent = match agent.register("test-agent".into()) {
        Err((Error::FailedOperation, kept)) => kept,
        other => panic!("expected a rejection, got {:?}", other.map(|_| ()).map_err(|(e, _)| e)),
    };
    assert_eq!(agent.node_id(), "dtn://node.dtn/");
    let registered = agent.register("test-agent".into());
    assert!(registered.is_ok());
}

#[test]
fn ping_acknowledged() {
    let mut agent = Agent::new(welcomed_stream(vec![ReadOutcome::Data(
        Message::Ack.to_bytes(),
    )]))
    .unwrap();
    assert!(agent.ping().is_ok());
}

#[test]
fn ping_wrong_reply_is_unexpected_message() {
    let mut agent = Agent::new(welcomed_stream(vec![ReadOutcome::Data(
        Message::Ping.to_bytes(),
    )]))
    .unwrap();
    assert!(matches!(agent.ping(), Err(Error::UnexpectedMessage)));
}

#[test]
fn send_bundle_returns_confirmed_identifier() {
    let confirm = Message::SendConfirm(BundleIdentifier([0, 0, 0, 0, 0, 0, 0, 42]));
    let mut agent = registered(vec![ReadOutcome::Data(confirm.to_bytes())]);
    let id = agent
        .send_bundle("dtn://dest.dtn/app".into(), b"hello")
        .unwrap();
    assert_eq!(id, BundleIdentifier([0, 0, 0, 0, 0, 0, 0, 42]));
}

#[test]
fn recv_bundle_returns_source_and_payload() {
    let incoming = Message::RecvBundle("dtn://peer.dtn/app".into(), vec![1, 2, 3]);
    let mut agent = registered(vec![ReadOutcome::Data(incoming.to_bytes())]);
    let bundle = agent.recv_bundle().unwrap();
    assert_eq!(bundle.source.as_deref(), Some("dtn://peer.dtn/app"));
    assert_eq!(bundle.payload, vec![1, 2, 3]);
}

#[test]
fn try_recv_bundle_returns_no_message_without_blocking() {
    let mut agent = registered(vec![ReadOutcome::NoData]);
    assert!(matches!(agent.try_recv_bundle(), Err(Error::NoMessage)));
}

#[test]
fn try_recv_bundle_keeps_partial_data_for_later() {
    // A partial message followed by "no data ready" yields NoMessage, and
    // the buffered half is not lost: the next poll completes the message.
    let incoming = Message::RecvBundle("dtn://peer.dtn/app".into(), vec![7, 7]);
    let bytes = incoming.to_bytes();
    let half = bytes.len() / 2;
    let mut agent = registered(vec![
        ReadOutcome::Data(bytes[..half].to_vec()),
        ReadOutcome::NoData,
        ReadOutcome::Data(bytes[half..].to_vec()),
    ]);
    assert!(matches!(agent.try_recv_bundle(), Err(Error::NoMessage)));
    let bundle = agent.try_recv_bundle().unwrap();
    assert_eq!(bundle.source.as_deref(), Some("dtn://peer.dtn/app"));
    assert_eq!(bundle.payload, vec![7, 7]);
}

#[test]
fn recv_bundle_wrong_message_is_unexpected() {
    let mut agent = registered(vec![ReadOutcome::Data(Message::Ack.to_bytes())]);
    assert!(matches!(agent.recv_bundle(), Err(Error::UnexpectedMessage)));
}

#[test]
fn stream_end_mid_message_is_unexpected_end() {
    let welcome = Message::Welcome("dtn://node.dtn/".into()).to_bytes();
    let stream = ScriptStream::new(vec![ReadOutcome::Data(welcome[..3].to_vec())]);
    assert!(matches!(Agent::new(stream), Err(Error::UnexpectedEnd)));
}

#[test]
fn desynchronized_stream_is_malformed_message() {
    // A header with the wrong version nibble is fatal.
    let stream = ScriptStream::new(vec![ReadOutcome::Data(vec![0x20])]);
    assert!(matches!(
        Agent::new(stream),
        Err(Error::MalformedMessage(_))
    ));
}

#[test]
fn stream_failure_surfaces_as_io_error() {
    let broken = std::io::Error::new(std::io::ErrorKind::BrokenPipe, "gone");
    let stream = ScriptStream::new(vec![ReadOutcome::Failed(broken)]);
    assert!(matches!(Agent::new(stream), Err(Error::IOError(_))));
}

#[test]
fn send_config_targets_admin_endpoint() {
    let confirm = Message::SendConfirm(BundleIdentifier([0; 8]));
    let mut agent = registered(vec![ReadOutcome::Data(confirm.to_bytes())]);
    let config = ud3tn_aap::config::ConfigBundle::DeleteContact("dtn://gone.dtn/".into());
    agent.send_config(config).unwrap();
}

#[test]
fn two_messages_in_one_chunk_arrive_in_order() {
    let first = Message::RecvBundle("dtn://peer.dtn/a".into(), vec![1]);
    let second = Message::RecvBundle("dtn://peer.dtn/b".into(), vec![2]);
    let mut chunk = first.to_bytes();
    chunk.extend_from_slice(&second.to_bytes());
    let mut agent = registered(vec![ReadOutcome::Data(chunk), ReadOutcome::NoData]);
    assert_eq!(agent.recv_bundle().unwrap().payload, vec![1]);
    assert_eq!(agent.recv_bundle().unwrap().payload, vec![2]);
}
