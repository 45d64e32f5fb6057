//! Client-side implementation of the AAP ("application agent protocol") used
//! to exchange bundles and administrative commands with a delay-tolerant
//! networking daemon over a byte stream.
//!
//! The crate is organised around three pieces: the wire codec in [`message`],
//! the configuration-bundle text encoder in [`config`], and the session layer
//! in this root module, which drives the connect / register / operate
//! handshake over any byte stream implementing [`AapStream`].
//!
//! A session is strictly synchronous: every request-issuing operation writes
//! its message and then blocks reading until it can classify the reply, so at
//! most one request is in flight at a time. Request replies and unsolicited
//! incoming bundles arrive interleaved on the same stream, so a caller must
//! not issue requests concurrently with blocking receives on one session;
//! [`RegisteredAgent::try_recv_bundle`] exists so a caller can poll for
//! bundles without blocking the request path.

use vstd::prelude::*;
use vstd::slice::slice_to_vec;

pub mod config;
pub mod message;

use crate::config::{wf_config, ConfigBundle};
use crate::message::{
    spec_parse, BundleIdentifier, Message, MessageModel, ParseError, ReceivedBundle,
};

verus! {

#[verifier::external_type_specification]
#[verifier::external_body]
pub struct ExIoError(std::io::Error);

/// An error during communication with the node.
#[derive(Debug)]
pub enum Error {
    /// I/O failure on the underlying stream, surfaced verbatim.
    IOError(std::io::Error),
    /// A syntactically valid message of the wrong kind arrived where a
    /// specific reply was expected.
    UnexpectedMessage,
    /// The node answered the in-flight request with a negative
    /// acknowledgment; the session remains usable.
    FailedOperation,
    /// Decoding the stream failed fatally; the buffered bytes were
    /// discarded and the session is desynchronized.
    MalformedMessage(ParseError),
    /// The stream ended before a message was complete.
    UnexpectedEnd,
    /// No message is available right now (non-blocking receive only).
    NoMessage,
}

/// What one read attempt on a stream produced.
pub enum ReadOutcome {
    /// Some bytes arrived.
    Data(Vec<u8>),
    /// The stream ended cleanly; no further bytes will come.
    End,
    /// No data is ready right now (where a blocking stream would wait).
    NoData,
    /// The read failed.
    Failed(std::io::Error),
}

/// A byte stream that can carry a session: a socket, usually.
///
/// The library promises nothing about what a stream's methods return;
/// every session contract holds whatever the implementation does.
/// Implementations live outside the library and adapt real sockets to
/// these two calls.
pub trait AapStream {
    /// Read whatever bytes are available, blocking or not as the underlying
    /// stream does.
    fn read_chunk(&mut self) -> ReadOutcome;

    /// Write all of `bytes` to the stream.
    fn write_all_bytes(&mut self, bytes: &[u8]) -> Result<(), std::io::Error>;
}

/// `post` carries `pre` unchanged at its front: what a receive buffer looks
/// like after bytes were appended and none consumed.
pub open spec fn buffer_extends(pre: Seq<u8>, post: Seq<u8>) -> bool {
    post.len() >= pre.len() && post.subrange(0, pre.len() as int) == pre
}

/// Between the buffer states `pre` and `post`, exactly one message with
/// model `m` was taken off the stream: some bytes were appended to `pre`,
/// the front of the result parsed as `m`, and `post` is what remains after
/// dropping the consumed prefix.
pub open spec fn received_from(pre: Seq<u8>, post: Seq<u8>, m: MessageModel) -> bool {
    exists|acc: Seq<u8>|
        {
            &&& buffer_extends(pre, acc)
            &&& (#[trigger] spec_parse(acc)) matches Ok(p)
            &&& p.0 == m
            &&& post == acc.subrange(p.1, acc.len() as int)
        }
}

/// Every consumed-byte count that parsing reports lies within the buffer.
proof fn lemma_parse_consumed_bounds(b: Seq<u8>)
    ensures
        spec_parse(b) matches Ok(p) ==> 1 <= p.1 <= b.len(),
{
}

/// Decide the handshake step: the first message of a session must be
/// [`Message::Welcome`], whose EID becomes the session's node identifier;
/// any other message is a protocol violation.
pub fn welcome_eid(m: Message) -> (r: Result<String, Error>)
    ensures
        m@ matches MessageModel::Welcome(e) ==> (r matches Ok(s) && s@ == e),
        !(m@ is Welcome) ==> r matches Err(Error::UnexpectedMessage),
{
    match m {
        Message::Welcome(eid) => Ok(eid),
        _ => Err(Error::UnexpectedMessage),
    }
}

/// Decide a request's fate from its reply: [`Message::Ack`] is success,
/// [`Message::Nack`] is an explicit rejection, anything else is a protocol
/// violation.
pub fn ack_result(m: Message) -> (r: Result<(), Error>)
    ensures
        m@ is Ack ==> r is Ok,
        m@ is Nack ==> r matches Err(Error::FailedOperation),
        !(m@ is Ack) && !(m@ is Nack) ==> r matches Err(Error::UnexpectedMessage),
{
    match m {
        Message::Ack => Ok(()),
        Message::Nack => Err(Error::FailedOperation),
        _ => Err(Error::UnexpectedMessage),
    }
}

/// Decide a bundle transmission's fate from its reply: only
/// [`Message::SendConfirm`] carries the bundle identifier back.
pub fn confirm_result(m: Message) -> (r: Result<BundleIdentifier, Error>)
    ensures
        m@ matches MessageModel::SendConfirm(id) ==> (r matches Ok(b) && b@ == id),
        !(m@ is SendConfirm) ==> r matches Err(Error::UnexpectedMessage),
{
    match m {
        Message::SendConfirm(id) => Ok(id),
        _ => Err(Error::UnexpectedMessage),
    }
}

/// Decide a receive's outcome: only [`Message::RecvBundle`] carries a
/// bundle for this agent.
pub fn bundle_result(m: Message) -> (r: Result<ReceivedBundle, Error>)
    ensures
        m@ matches MessageModel::RecvBundle(src, p) ==> (r matches Ok(rb) && rb.source matches Some(
            s,
        ) && s@ == src && rb.payload@ == p),
        !(m@ is RecvBundle) ==> r matches Err(Error::UnexpectedMessage),
{
    match m {
        Message::RecvBundle(source, payload) => Ok(
            ReceivedBundle { source: Some(source), payload },
        ),
        _ => Err(Error::UnexpectedMessage),
    }
}

/// Drop the first `n` bytes of `v`, keeping the rest in order.
fn drop_prefix(v: &mut Vec<u8>, n: usize)
    requires
        n <= old(v)@.len(),
    ensures
        final(v)@ == old(v)@.subrange(n as int, old(v)@.len() as int),
{
    let mut out: Vec<u8> = Vec::new();
    let mut i: usize = n;
    while i < v.len()
        invariant
            n <= i <= v@.len(),
            v@ == old(v)@,
            out@ == v@.subrange(n as int, i as int),
        decreases v@.len() - i,
    {
        let b = v[i];
        out.push(b);
        proof {
            assert(out@ =~= v@.subrange(n as int, i + 1));
        }
        i = i + 1;
    }
    proof {
        assert(out@ =~= v@.subrange(n as int, v@.len() as int));
    }
    *v = out;
}

/// Generic operations available on any agent, registered or not.
pub trait BaseAgent<S: AapStream> {
    /// The node EID this agent learned in the handshake, as a model value.
    spec fn spec_node_id(&self) -> Seq<char>;

    /// The bytes currently held in the receive buffer, as a model value.
    spec fn spec_buffer(&self) -> Seq<u8>;

    /// Send a single [`Message::Ping`] and await an acknowledgment.
    fn ping(&mut self) -> (r: Result<(), Error>)
        ensures
            final(self).spec_node_id() == old(self).spec_node_id(),
            r is Ok ==> received_from(
                old(self).spec_buffer(),
                final(self).spec_buffer(),
                MessageModel::Ack,
            ),
            r matches Err(Error::FailedOperation) ==> received_from(
                old(self).spec_buffer(),
                final(self).spec_buffer(),
                MessageModel::Nack,
            ),
            r matches Err(Error::UnexpectedMessage) ==> exists|m: MessageModel|
                (#[trigger] received_from(old(self).spec_buffer(), final(self).spec_buffer(), m))
                    && !(m is Ack) && !(m is Nack),
            (r matches Err(Error::IOError(_)) || r matches Err(Error::UnexpectedEnd) || r matches
                Err(Error::NoMessage)) ==> buffer_extends(
                old(self).spec_buffer(),
                final(self).spec_buffer(),
            ),
    ;

    /// The node EID this agent is connected to.
    fn node_id(&self) -> (r: &str)
        ensures
            r@ == self.spec_node_id(),
    ;
}

/// An unregistered agent: a session that has completed the welcome
/// handshake over its stream.
pub struct Agent<S: AapStream> {
    /// Stream used for communication with the node.
    stream: S,
    /// EID of the currently connected node, learned from the handshake.
    node_eid: String,
    /// Bytes read off the stream but not yet consumed by the parser.
    recv_buffer: Vec<u8>,
}

impl<S: AapStream> Agent<S> {
    /// Establish a session over `stream`: block until the first message
    /// arrives, which must be [`Message::Welcome`]; its EID becomes the
    /// session's node identifier. Any other first message is a protocol
    /// violation, after which nothing further is written.
    pub fn new(stream: S) -> (r: Result<Agent<S>, Error>)
        ensures
            r matches Ok(a) ==> received_from(
                Seq::<u8>::empty(),
                a.spec_buffer(),
                MessageModel::Welcome(a.spec_node_id()),
            ),
    {
        let mut agent = Agent { stream, node_eid: String::new(), recv_buffer: Vec::new() };
        match agent.recv_message() {
            Ok(m) => match welcome_eid(m) {
                Ok(eid) => {
                    agent.node_eid = eid;
                    Ok(agent)
                },
                Err(e) => Err(e),
            },
            Err(e) => Err(e),
        }
    }

    /// Register this agent under `agent_id` so it can send and receive
    /// bundles. On success the session becomes registered; on failure the
    /// error comes back beside the unregistered session, which stays open —
    /// a rejection ([`Error::FailedOperation`]) in particular leaves the
    /// stream usable for another attempt.
    pub fn register(self, agent_id: String) -> (r: Result<
        RegisteredAgent<S>,
        (Error, Agent<S>),
    >)
        ensures
            r matches Ok(ra) ==> ra.spec_agent_id() == agent_id@ && ra.spec_node_id()
                == self.spec_node_id() && received_from(
                self.spec_buffer(),
                ra.spec_buffer(),
                MessageModel::Ack,
            ),
            r matches Err(p) ==> p.1.spec_node_id() == self.spec_node_id(),
            r matches Err(p) ==> (p.0 is FailedOperation ==> received_from(
                self.spec_buffer(),
                p.1.spec_buffer(),
                MessageModel::Nack,
            )),
            r matches Err(p) ==> (p.0 is UnexpectedMessage ==> exists|m: MessageModel|
                (#[trigger] received_from(self.spec_buffer(), p.1.spec_buffer(), m)) && !(m is Ack)
                    && !(m is Nack)),
            r matches Err(p) ==> ((p.0 is IOError || p.0 is UnexpectedEnd || p.0 is NoMessage)
                ==> buffer_extends(self.spec_buffer(), p.1.spec_buffer())),
    {
        let mut inner = self;
        let outcome = inner.send_request(&Message::Register(agent_id.clone()));
        proof {
            assert(self.spec_buffer() == self.recv_buffer@);
            assert(inner.spec_buffer() == inner.recv_buffer@);
            assert(inner.spec_node_id() == inner.node_eid@);
        }
        let ghost kept = inner;
        let r: Result<RegisteredAgent<S>, (Error, Agent<S>)> = match outcome {
            Ok(()) => Ok(RegisteredAgent { inner, agent_id }),
            Err(e) => Err((e, inner)),
        };
        proof {
            if r is Err {
                let p = r->Err_0;
                assert(p.1 == kept);
                assert(p.1.spec_buffer() == kept.recv_buffer@);
                assert(p.1.spec_node_id() == kept.node_eid@);
                if p.0 is UnexpectedMessage {
                    assert(exists|m: MessageModel|
                        (#[trigger] received_from(self.spec_buffer(), p.1.spec_buffer(), m)) && !(m
                            is Ack) && !(m is Nack));
                }
            }
        }
        r
    }

    /// Write a request message, then block until its reply arrives and
    /// classify it through [`ack_result`].
    fn send_request(&mut self, request_msg: &Message) -> (r: Result<(), Error>)
        ensures
            final(self).node_eid@ == old(self).node_eid@,
            r is Ok ==> received_from(
                old(self).recv_buffer@,
                final(self).recv_buffer@,
                MessageModel::Ack,
            ),
            r matches Err(Error::FailedOperation) ==> received_from(
                old(self).recv_buffer@,
                final(self).recv_buffer@,
                MessageModel::Nack,
            ),
            r matches Err(Error::UnexpectedMessage) ==> exists|m: MessageModel|
                (#[trigger] received_from(old(self).recv_buffer@, final(self).recv_buffer@, m))
                    && !(m is Ack) && !(m is Nack),
            (r matches Err(Error::IOError(_)) || r matches Err(Error::UnexpectedEnd) || r matches
                Err(Error::NoMessage)) ==> buffer_extends(
                old(self).recv_buffer@,
                final(self).recv_buffer@,
            ),
    {
        let bytes = request_msg.to_bytes();
        match self.stream.write_all_bytes(bytes.as_slice()) {
            Ok(_) => {},
            Err(e) => {
                proof {
                    assert(old(self).recv_buffer@.subrange(
                        0,
                        old(self).recv_buffer@.len() as int,
                    ) =~= old(self).recv_buffer@);
                }
                return Err(Error::IOError(e));
            },
        }
        match self.recv_message() {
            Ok(m) => ack_result(m),
            Err(e) => Err(e),
        }
    }

    /// Receive a single message: read chunks off the stream into the
    /// buffer, and after each read try to parse one message from the
    /// buffer's front. An incomplete message keeps every byte and reads
    /// on; a fatal parse error discards the buffer, since the stream is
    /// unrecoverable at the old offset. Retries are bounded, so a stream
    /// that forever hands over nothing ends in an error rather than a spin.
    fn recv_message(&mut self) -> (r: Result<Message, Error>)
        ensures
            final(self).node_eid@ == old(self).node_eid@,
            r matches Ok(m) ==> received_from(
                old(self).recv_buffer@,
                final(self).recv_buffer@,
                m@,
            ),
            r matches Err(Error::MalformedMessage(pe)) ==> (pe != ParseError::UnexpectedEnd
                && final(self).recv_buffer@.len() == 0 && exists|acc: Seq<u8>|
                buffer_extends(old(self).recv_buffer@, acc) && #[trigger] spec_parse(acc) == Err::<
                    (MessageModel, int),
                    ParseError,
                >(pe)),
            r matches Err(Error::UnexpectedEnd) ==> (buffer_extends(
                old(self).recv_buffer@,
                final(self).recv_buffer@,
            ) && spec_parse(final(self).recv_buffer@) == Err::<(MessageModel, int), ParseError>(
                ParseError::UnexpectedEnd,
            )),
            r matches Err(Error::NoMessage) ==> (buffer_extends(
                old(self).recv_buffer@,
                final(self).recv_buffer@,
            ) && spec_parse(final(self).recv_buffer@) == Err::<(MessageModel, int), ParseError>(
                ParseError::UnexpectedEnd,
            )),
            r matches Err(Error::IOError(_)) ==> buffer_extends(
                old(self).recv_buffer@,
                final(self).recv_buffer@,
            ),
            !(r matches Err(Error::FailedOperation)),
            !(r matches Err(Error::UnexpectedMessage)),
    {
        let mut attempts: u64 = u64::MAX;
        proof {
            assert(old(self).recv_buffer@.subrange(0, old(self).recv_buffer@.len() as int)
                =~= old(self).recv_buffer@);
        }
        loop
            invariant
                buffer_extends(old(self).recv_buffer@, self.recv_buffer@),
                self.node_eid@ == old(self).node_eid@,
            decreases attempts,
        {
            let outcome = self.stream.read_chunk();
            let mut at_end = false;
            let mut no_data = false;
            match outcome {
                ReadOutcome::Data(mut d) => {
                    proof {
                        assert((self.recv_buffer@ + d@).subrange(
                            0,
                            old(self).recv_buffer@.len() as int,
                        ) =~= old(self).recv_buffer@);
                    }
                    self.recv_buffer.append(&mut d);
                },
                ReadOutcome::End => {
                    at_end = true;
                },
                ReadOutcome::NoData => {
                    no_data = true;
                },
                ReadOutcome::Failed(e) => {
                    return Err(Error::IOError(e));
                },
            }
            match Message::parse_buffer(self.recv_buffer.as_slice()) {
                Ok((m, n)) => {
                    proof {
                        lemma_parse_consumed_bounds(self.recv_buffer@);
                    }
                    let ghost acc = self.recv_buffer@;
                    drop_prefix(&mut self.recv_buffer, n);
                    proof {
                        assert({
                            &&& buffer_extends(old(self).recv_buffer@, acc)
                            &&& spec_parse(acc) matches Ok(p)
                            &&& p.0 == m@
                            &&& self.recv_buffer@ == acc.subrange(p.1, acc.len() as int)
                        });
                    }
                    return Ok(m);
                },
                Err(ParseError::UnexpectedEnd) => {
                    if at_end {
                        return Err(Error::UnexpectedEnd);
                    }
                    if no_data {
                        return Err(Error::NoMessage);
                    }
                    if attempts == 0 {
                        return Err(Error::UnexpectedEnd);
                    }
                    attempts = attempts - 1;
                },
                Err(e) => {
                    self.recv_buffer.clear();
                    return Err(Error::MalformedMessage(e));
                },
            }
        }
    }
}

impl<S: AapStream> BaseAgent<S> for Agent<S> {
    closed spec fn spec_node_id(&self) -> Seq<char> {
        self.node_eid@
    }

    closed spec fn spec_buffer(&self) -> Seq<u8> {
        self.recv_buffer@
    }

    fn ping(&mut self) -> (r: Result<(), Error>) {
        let r = self.send_request(&Message::Ping);
        proof {
            assert(old(self).spec_buffer() == old(self).recv_buffer@);
            assert(self.spec_buffer() == self.recv_buffer@);
        }
        r
    }

    fn node_id(&self) -> (r: &str) {
        self.node_eid.as_str()
    }
}

/// An agent that was registered with the node and can send and receive
/// bundles.
pub struct RegisteredAgent<S: AapStream> {
    inner: Agent<S>,
    agent_id: String,
}

impl<S: AapStream> RegisteredAgent<S> {
    /// The agent identifier this agent registered under, as a model value.
    pub closed spec fn spec_agent_id(&self) -> Seq<char> {
        self.agent_id@
    }

    /// The currently registered agent identifier.
    pub fn agent_id(&self) -> (r: &str)
        ensures
            r@ == self.spec_agent_id(),
    {
        self.agent_id.as_str()
    }

    /// Send a bundle for the node to route, with this agent as source.
    /// The reply must be [`Message::SendConfirm`], whose bundle identifier
    /// is returned.
    pub fn send_bundle(&mut self, destination_eid: String, payload: &[u8]) -> (r: Result<
        BundleIdentifier,
        Error,
    >)
        ensures
            final(self).spec_node_id() == old(self).spec_node_id(),
            final(self).spec_agent_id() == old(self).spec_agent_id(),
            r matches Ok(id) ==> received_from(
                old(self).spec_buffer(),
                final(self).spec_buffer(),
                MessageModel::SendConfirm(id@),
            ),
            r matches Err(Error::UnexpectedMessage) ==> exists|m: MessageModel|
                (#[trigger] received_from(old(self).spec_buffer(), final(self).spec_buffer(), m))
                    && !(m is SendConfirm),
            (r matches Err(Error::IOError(_)) || r matches Err(Error::UnexpectedEnd) || r matches
                Err(Error::NoMessage)) ==> buffer_extends(
                old(self).spec_buffer(),
                final(self).spec_buffer(),
            ),
    {
        let message = Message::SendBundle(destination_eid, slice_to_vec(payload));
        let bytes = message.to_bytes();
        match self.inner.stream.write_all_bytes(bytes.as_slice()) {
            Ok(_) => {},
            Err(e) => {
                proof {
                    assert(old(self).spec_buffer() == old(self).inner.recv_buffer@);
                    assert(self.spec_buffer() == self.inner.recv_buffer@);
                    assert(old(self).inner.recv_buffer@.subrange(
                        0,
                        old(self).inner.recv_buffer@.len() as int,
                    ) =~= old(self).inner.recv_buffer@);
                }
                return Err(Error::IOError(e));
            },
        }
        let r = match self.inner.recv_message() {
            Ok(m) => confirm_result(m),
            Err(e) => Err(e),
        };
        proof {
            assert(old(self).spec_buffer() == old(self).inner.recv_buffer@);
            assert(self.spec_buffer() == self.inner.recv_buffer@);
        }
        r
    }

    /// Block until a bundle addressed to this agent arrives. Anything other
    /// than [`Message::RecvBundle`] is a protocol violation.
    pub fn recv_bundle(&mut self) -> (r: Result<ReceivedBundle, Error>)
        ensures
            final(self).spec_node_id() == old(self).spec_node_id(),
            final(self).spec_agent_id() == old(self).spec_agent_id(),
            r matches Ok(rb) ==> (rb.source matches Some(s) && received_from(
                old(self).spec_buffer(),
                final(self).spec_buffer(),
                MessageModel::RecvBundle(s@, rb.payload@),
            )),
            r matches Err(Error::UnexpectedMessage) ==> exists|m: MessageModel|
                (#[trigger] received_from(old(self).spec_buffer(), final(self).spec_buffer(), m))
                    && !(m is RecvBundle),
            (r matches Err(Error::IOError(_)) || r matches Err(Error::UnexpectedEnd) || r matches
                Err(Error::NoMessage)) ==> buffer_extends(
                old(self).spec_buffer(),
                final(self).spec_buffer(),
            ),
    {
        let r = match self.inner.recv_message() {
            Ok(m) => bundle_result(m),
            Err(e) => Err(e),
        };
        proof {
            assert(old(self).spec_buffer() == old(self).inner.recv_buffer@);
            assert(self.spec_buffer() == self.inner.recv_buffer@);
        }
        r
    }

    /// Try to receive a bundle without waiting: meant for a stream in
    /// non-blocking mode. When the stream reports no data ready and the
    /// buffer does not yet hold a whole message, returns
    /// [`Error::NoMessage`] at once, consuming nothing.
    pub fn try_recv_bundle(&mut self) -> (r: Result<ReceivedBundle, Error>)
        ensures
            final(self).spec_node_id() == old(self).spec_node_id(),
            final(self).spec_agent_id() == old(self).spec_agent_id(),
            r matches Ok(rb) ==> (rb.source matches Some(s) && received_from(
                old(self).spec_buffer(),
                final(self).spec_buffer(),
                MessageModel::RecvBundle(s@, rb.payload@),
            )),
            r matches Err(Error::NoMessage) ==> (buffer_extends(
                old(self).spec_buffer(),
                final(self).spec_buffer(),
            ) && spec_parse(final(self).spec_buffer()) == Err::<(MessageModel, int), ParseError>(
                ParseError::UnexpectedEnd,
            )),
            r matches Err(Error::UnexpectedMessage) ==> exists|m: MessageModel|
                (#[trigger] received_from(old(self).spec_buffer(), final(self).spec_buffer(), m))
                    && !(m is RecvBundle),
            (r matches Err(Error::IOError(_)) || r matches Err(Error::UnexpectedEnd) || r matches
                Err(Error::NoMessage)) ==> buffer_extends(
                old(self).spec_buffer(),
                final(self).spec_buffer(),
            ),
    {
        let r = match self.inner.recv_message() {
            Ok(m) => bundle_result(m),
            Err(e) => Err(e),
        };
        proof {
            assert(old(self).spec_buffer() == old(self).inner.recv_buffer@);
            assert(self.spec_buffer() == self.inner.recv_buffer@);
        }
        r
    }

    /// Encode a configuration bundle and send it to the node's
    /// administrative endpoint (`<node-eid>config`).
    pub fn send_config(&mut self, config: ConfigBundle) -> (r: Result<(), Error>)
        requires
            wf_config(config@),
        ensures
            final(self).spec_node_id() == old(self).spec_node_id(),
            final(self).spec_agent_id() == old(self).spec_agent_id(),
            r is Ok ==> exists|id: Seq<u8>|
                #[trigger] received_from(
                    old(self).spec_buffer(),
                    final(self).spec_buffer(),
                    MessageModel::SendConfirm(id),
                ),
            (r matches Err(Error::IOError(_)) || r matches Err(Error::UnexpectedEnd) || r matches
                Err(Error::NoMessage)) ==> buffer_extends(
                old(self).spec_buffer(),
                final(self).spec_buffer(),
            ),
    {
        let destination = self.inner.node_eid.clone().concat("config");
        let payload = config.to_bytes();
        match self.send_bundle(destination, payload.as_slice()) {
            Ok(_) => Ok(()),
            Err(e) => Err(e),
        }
    }
}

impl<S: AapStream> BaseAgent<S> for RegisteredAgent<S> {
    closed spec fn spec_node_id(&self) -> Seq<char> {
        self.inner.node_eid@
    }

    closed spec fn spec_buffer(&self) -> Seq<u8> {
        self.inner.recv_buffer@
    }

    fn ping(&mut self) -> (r: Result<(), Error>) {
        let r = self.inner.send_request(&Message::Ping);
        proof {
            assert(old(self).spec_buffer() == old(self).inner.recv_buffer@);
            assert(self.spec_buffer() == self.inner.recv_buffer@);
        }
        r
    }

    fn node_id(&self) -> (r: &str) {
        self.inner.node_eid.as_str()
    }
}

} // verus!
