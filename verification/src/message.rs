//! The AAP wire codec: typed protocol messages, their serialization to bytes,
//! and an incremental parser that tolerates truncated input.
//!
//! Wire format, all integers big-endian: each message starts with a header
//! byte whose high nibble is the protocol version (always 1) and whose low
//! nibble is the message type. Text fields are a 16-bit byte count followed
//! by UTF-8 bytes; payload fields are a 64-bit byte count followed by raw
//! bytes; bundle identifiers are exactly 8 bytes.

use vstd::prelude::*;
use vstd::slice::{slice_subrange, slice_to_vec};
use vstd::utf8::{encode_utf8, decode_utf8, valid_utf8};

verus! {

/// A timestamp counted in milliseconds since the DTN epoch
/// (2000-01-01T00:00:00 UTC), which lies exactly 946,684,800 seconds after
/// the Unix epoch. Comparison and ordering are by the raw count.
#[derive(Debug, Clone, Copy, PartialEq, Eq, PartialOrd, Ord)]
pub struct DtnTime(pub u64);

/// Identifier of a previously sent bundle: an opaque 8-byte value with two
/// overlapping decodings distinguished by the high bit of byte 0.
#[derive(Debug, PartialEq, Eq, Clone, Copy)]
pub struct BundleIdentifier(pub [u8; 8]);

impl View for BundleIdentifier {
    type V = Seq<u8>;

    open spec fn view(&self) -> Seq<u8> {
        self.0@
    }
}

/// Milliseconds between the Unix epoch (1970-01-01T00:00:00 UTC) and the DTN
/// epoch (2000-01-01T00:00:00 UTC): exactly 946,684,800 seconds.
pub const DTN_EPOCH_OFFSET_MILLIS: u64 = 946684800000;

/// The versioned bundle-identifier layout is marked by the high bit of
/// byte 0.
pub open spec fn id_is_versioned(id: Seq<u8>) -> bool
    recommends
        id.len() == 8,
{
    id[0] / 128 == 1
}

/// A versioned identifier embeds a creation timestamp when the second
/// highest bit of byte 0 is also set.
pub open spec fn id_has_creation_time(id: Seq<u8>) -> bool
    recommends
        id.len() == 8,
{
    id_is_versioned(id) && (id[0] / 64) % 2 == 1
}

/// The 48-bit creation timestamp embedded in a versioned identifier that
/// carries one: the low 6 bits of byte 0 followed by bytes 1 through 5.
pub open spec fn id_creation_time(id: Seq<u8>) -> int
    recommends
        id.len() == 8,
        id_has_creation_time(id),
{
    (((((id[0] % 64) * 0x100 + id[1]) * 0x100 + id[2]) * 0x100 + id[3]) * 0x100 + id[4]) * 0x100
        + id[5]
}

/// The sequence number of a bundle identifier, by layout: the whole 8 bytes
/// for a legacy identifier, the 16-bit tail for a versioned identifier with
/// an embedded timestamp, and the 62 remaining bits for a versioned
/// identifier without one.
pub open spec fn id_sequence_number(id: Seq<u8>) -> int
    recommends
        id.len() == 8,
{
    if !id_is_versioned(id) {
        be64_at(id, 0)
    } else if id_has_creation_time(id) {
        be16_at(id, 6)
    } else {
        (((((((id[0] % 64) * 0x100 + id[1]) * 0x100 + id[2]) * 0x100 + id[3]) * 0x100 + id[4])
            * 0x100 + id[5]) * 0x100 + id[6]) * 0x100 + id[7]
    }
}

impl BundleIdentifier {
    /// Whether this identifier uses the versioned layout (high bit of byte 0
    /// set) rather than the legacy plain-counter layout.
    fn is_v2_format(&self) -> (r: bool)
        ensures
            r == id_is_versioned(self@),
    {
        self.0[0] / 128 == 1
    }

    /// Whether this identifier embeds a creation timestamp: versioned, with
    /// the next flag bit also set.
    fn contains_creation_time(&self) -> (r: bool)
        ensures
            r == id_has_creation_time(self@),
    {
        self.is_v2_format() && (self.0[0] / 64) % 2 == 1
    }

    /// The bundle's creation time.
    ///
    /// `None` when the identifier is in the legacy format or does not embed
    /// a timestamp; otherwise the 48-bit millisecond count formed by the low
    /// 6 bits of byte 0 and bytes 1 through 5.
    pub fn creation_time(&self) -> (r: Option<DtnTime>)
        ensures
            r is Some <==> id_has_creation_time(self@),
            r matches Some(t) ==> t.0 == id_creation_time(self@),
    {
        if !self.contains_creation_time() {
            return None;
        }
        let time: u64 = (((((((self.0[0] % 64) as u64) * 0x100 + self.0[1] as u64) * 0x100
            + self.0[2] as u64) * 0x100 + self.0[3] as u64) * 0x100 + self.0[4] as u64) * 0x100
            + self.0[5] as u64);
        Some(DtnTime(time))
    }

    /// The bundle's sequence number.
    ///
    /// Every layout carries one: a legacy identifier is one big 64-bit
    /// counter, a versioned identifier with an embedded timestamp keeps a
    /// 16-bit sequence in bytes 6 and 7, and a versioned identifier without
    /// one spreads a 62-bit sequence over its remaining bits.
    pub fn sequence_number(&self) -> (r: Option<u64>)
        ensures
            r matches Some(n) && n == id_sequence_number(self@),
    {
        if !self.is_v2_format() {
            let seq: u64 = (((((((self.0[0] as u64) * 0x100 + self.0[1] as u64) * 0x100
                + self.0[2] as u64) * 0x100 + self.0[3] as u64) * 0x100 + self.0[4] as u64) * 0x100
                + self.0[5] as u64) * 0x100 + self.0[6] as u64) * 0x100 + self.0[7] as u64;
            Some(seq)
        } else if self.contains_creation_time() {
            let seq: u64 = (self.0[6] as u64) * 0x100 + self.0[7] as u64;
            Some(seq)
        } else {
            let seq: u64 = ((((((((self.0[0] % 64) as u64) * 0x100 + self.0[1] as u64) * 0x100
                + self.0[2] as u64) * 0x100 + self.0[3] as u64) * 0x100 + self.0[4] as u64) * 0x100
                + self.0[5] as u64) * 0x100 + self.0[6] as u64) * 0x100 + self.0[7] as u64;
            Some(seq)
        }
    }
}

#[verifier::external_type_specification]
#[verifier::external_body]
pub struct ExSystemTime(std::time::SystemTime);

#[verifier::external_type_specification]
#[verifier::external_body]
pub struct ExNaiveDateTime(chrono::NaiveDateTime);

/// The duration that `Duration::from_millis` builds for `ms`: a fixed
/// value of the argument alone, the same on every machine.
pub uninterp spec fn duration_of_millis(ms: u64) -> core::time::Duration;

/// Relies on `Duration::from_millis`: the duration of `ms` milliseconds,
/// a function of the argument alone.
#[verifier::external_body]
fn duration_from_millis(ms: u64) -> (r: core::time::Duration)
    ensures
        r == duration_of_millis(ms),
{
    core::time::Duration::from_millis(ms)
}

/// Relies on `SystemTime::checked_add`: the Unix epoch shifted forward by
/// `d`, or `None` when that instant is outside the platform's range.
#[verifier::external_body]
fn unix_epoch_plus(d: core::time::Duration) -> Option<std::time::SystemTime> {
    std::time::SystemTime::UNIX_EPOCH.checked_add(d)
}

/// The calendar date-time that chrono assigns to a count of milliseconds
/// since the Unix epoch: a fixed value of the argument alone.
pub uninterp spec fn naive_datetime_of_unix_millis(ms: i64) -> chrono::NaiveDateTime;

/// The largest count of Unix milliseconds that chrono's `NaiveDateTime` can
/// represent: the last millisecond of its maximum date, 262142-12-31.
pub const MAX_NAIVE_DATETIME_UNIX_MILLIS: i64 = 8210266876799999;

/// Relies on chrono's `NaiveDateTime::from_timestamp_millis`: the calendar
/// date-time standing `ms` milliseconds after the Unix epoch, a function of
/// the argument alone. It returns `None` only outside `NaiveDateTime`'s
/// range, which upward ends with the last millisecond of 262142-12-31.
#[verifier::external_body]
#[allow(deprecated)]
fn naive_datetime_from_unix_millis(ms: i64) -> (r: Option<chrono::NaiveDateTime>)
    ensures
        r matches Some(d) ==> d == naive_datetime_of_unix_millis(ms),
        0 <= ms <= MAX_NAIVE_DATETIME_UNIX_MILLIS ==> r is Some,
{
    chrono::NaiveDateTime::from_timestamp_millis(ms)
}

impl DtnTime {
    /// Milliseconds between the Unix epoch and this DTN time, or `None`
    /// when adding the epoch offset overflows the 64-bit count.
    pub fn unix_millis(&self) -> (r: Option<u64>)
        ensures
            r matches Some(ms) ==> ms == self.0 + DTN_EPOCH_OFFSET_MILLIS,
            r is Some <==> self.0 + DTN_EPOCH_OFFSET_MILLIS <= u64::MAX,
    {
        if self.0 <= u64::MAX - DTN_EPOCH_OFFSET_MILLIS {
            Some(self.0 + DTN_EPOCH_OFFSET_MILLIS)
        } else {
            None
        }
    }

    /// The wall-clock instant this DTN time denotes, or `None` when the
    /// instant cannot be represented (the millisecond count overflows, or
    /// the platform's `SystemTime` range ends sooner).
    pub fn as_system_time(&self) -> (r: Option<std::time::SystemTime>)
        ensures
            self.0 + DTN_EPOCH_OFFSET_MILLIS > u64::MAX ==> r is None,
    {
        match self.unix_millis() {
            Some(ms) => unix_epoch_plus(duration_from_millis(ms)),
            None => None,
        }
    }

    /// The calendar form of this DTN time, or `None` when it lies outside
    /// chrono's representable range.
    pub fn as_datetime(&self) -> (r: Option<chrono::NaiveDateTime>)
        ensures
            self.0 + DTN_EPOCH_OFFSET_MILLIS <= MAX_NAIVE_DATETIME_UNIX_MILLIS ==> (r matches Some(
                d,
            ) && d == naive_datetime_of_unix_millis((self.0 + DTN_EPOCH_OFFSET_MILLIS) as i64)),
            self.0 + DTN_EPOCH_OFFSET_MILLIS > i64::MAX ==> r is None,
    {
        match self.unix_millis() {
            Some(ms) => {
                if ms <= i64::MAX as u64 {
                    naive_datetime_from_unix_millis(ms as i64)
                } else {
                    None
                }
            },
            None => None,
        }
    }
}

/// Why a byte buffer failed to parse as a message.
#[derive(Debug, Clone, Copy, PartialEq, Eq, Structural)]
pub enum ParseError {
    /// The header's version nibble is not the supported protocol version.
    VersionNotSupported,
    /// The header's type nibble is outside the known set (the offending
    /// nibble is carried along).
    UnknownType(u8),
    /// The buffer ended before the message was complete. Not fatal: the
    /// caller may append more bytes and retry from the same offset.
    UnexpectedEnd,
    /// A text field does not hold valid UTF-8.
    Utf8Error,
}

/// A bundle received from the node.
#[derive(Debug)]
pub struct ReceivedBundle {
    /// Source endpoint ID of this bundle.
    pub source: Option<String>,
    /// Content of this bundle.
    pub payload: Vec<u8>,
}

/// An AAP message received from or sent to the node.
#[derive(Debug, Clone, PartialEq, Eq)]
pub enum Message {
    /// Positive acknowledgment.
    Ack,
    /// Negative acknowledgment.
    Nack,
    /// Agent registration request (agent identifier).
    Register(String),
    /// Connection establishment notice (node EID).
    Welcome(String),
    /// Bundle transmission request (destination EID, payload).
    SendBundle(String, Vec<u8>),
    /// Bundle reception notice (source EID, payload).
    RecvBundle(String, Vec<u8>),
    /// Bundle transmission confirmation.
    SendConfirm(BundleIdentifier),
    /// Bundle cancellation request.
    CancelBundle(BundleIdentifier),
    /// Connection liveliness check.
    Ping,
}

/// The mathematical model of a [`Message`]: text fields as character
/// sequences, payloads and identifiers as byte sequences.
pub enum MessageModel {
    /// Positive acknowledgment.
    Ack,
    /// Negative acknowledgment.
    Nack,
    /// Agent registration request.
    Register(Seq<char>),
    /// Connection establishment notice.
    Welcome(Seq<char>),
    /// Bundle transmission request.
    SendBundle(Seq<char>, Seq<u8>),
    /// Bundle reception notice.
    RecvBundle(Seq<char>, Seq<u8>),
    /// Bundle transmission confirmation.
    SendConfirm(Seq<u8>),
    /// Bundle cancellation request.
    CancelBundle(Seq<u8>),
    /// Connection liveliness check.
    Ping,
}

impl View for Message {
    type V = MessageModel;

    open spec fn view(&self) -> MessageModel {
        match self {
            Message::Ack => MessageModel::Ack,
            Message::Nack => MessageModel::Nack,
            Message::Register(a) => MessageModel::Register(a@),
            Message::Welcome(a) => MessageModel::Welcome(a@),
            Message::SendBundle(e, p) => MessageModel::SendBundle(e@, p@),
            Message::RecvBundle(e, p) => MessageModel::RecvBundle(e@, p@),
            Message::SendConfirm(id) => MessageModel::SendConfirm(id@),
            Message::CancelBundle(id) => MessageModel::CancelBundle(id@),
            Message::Ping => MessageModel::Ping,
        }
    }
}

/// The protocol version carried in every header's high nibble.
pub const PROTOCOL_VERSION: u8 = 1;

/// The two big-endian bytes of `n`, for `0 <= n < 0x10000`.
pub open spec fn be16_bytes(n: int) -> Seq<u8>
    recommends
        0 <= n < 0x10000,
{
    seq![(n / 0x100) as u8, (n % 0x100) as u8]
}

/// The eight big-endian bytes of `n`, for `0 <= n <= u64::MAX`.
pub open spec fn be64_bytes(n: int) -> Seq<u8>
    recommends
        0 <= n <= u64::MAX,
{
    seq![
        ((n / 0x100000000000000) % 0x100) as u8,
        ((n / 0x1000000000000) % 0x100) as u8,
        ((n / 0x10000000000) % 0x100) as u8,
        ((n / 0x100000000) % 0x100) as u8,
        ((n / 0x1000000) % 0x100) as u8,
        ((n / 0x10000) % 0x100) as u8,
        ((n / 0x100) % 0x100) as u8,
        (n % 0x100) as u8,
    ]
}

/// The 16-bit big-endian integer standing at offset `i` of `b`.
pub open spec fn be16_at(b: Seq<u8>, i: int) -> int
    recommends
        0 <= i,
        i + 2 <= b.len(),
{
    b[i] * 0x100 + b[i + 1]
}

/// The 64-bit big-endian integer standing at offset `i` of `b`.
pub open spec fn be64_at(b: Seq<u8>, i: int) -> int
    recommends
        0 <= i,
        i + 8 <= b.len(),
{
    ((((((b[i] * 0x100 + b[i + 1]) * 0x100 + b[i + 2]) * 0x100 + b[i + 3]) * 0x100 + b[i + 4])
        * 0x100 + b[i + 5]) * 0x100 + b[i + 6]) * 0x100 + b[i + 7]
}

/// A text field as it stands on the wire: a 16-bit byte count (reduced
/// modulo 2^16, as the encoder truncates it) followed by the UTF-8 bytes.
pub open spec fn text_field(a: Seq<char>) -> Seq<u8> {
    be16_bytes(encode_utf8(a).len() as int % 0x10000) + encode_utf8(a)
}

/// A payload field as it stands on the wire: a 64-bit byte count followed by
/// the raw bytes.
pub open spec fn payload_field(p: Seq<u8>) -> Seq<u8> {
    be64_bytes(p.len() as int) + p
}

/// The exact byte sequence that serializing a message produces.
pub open spec fn spec_encode(m: MessageModel) -> Seq<u8> {
    match m {
        MessageModel::Ack => seq![0x10u8],
        MessageModel::Nack => seq![0x11u8],
        MessageModel::Register(a) => seq![0x12u8] + text_field(a),
        MessageModel::SendBundle(e, p) => seq![0x13u8] + text_field(e) + payload_field(p),
        MessageModel::RecvBundle(e, p) => seq![0x14u8] + text_field(e) + payload_field(p),
        MessageModel::SendConfirm(id) => seq![0x15u8] + id,
        MessageModel::CancelBundle(id) => seq![0x16u8] + id,
        MessageModel::Welcome(a) => seq![0x17u8] + text_field(a),
        MessageModel::Ping => seq![0x18u8],
    }
}

/// Well-formedness of a message: every text field fits its 16-bit length
/// prefix, every payload fits its 64-bit length prefix, and identifiers are
/// 8 bytes. Encoding is total regardless, but only well-formed messages
/// round-trip through the codec.
pub open spec fn wf_message(m: MessageModel) -> bool {
    match m {
        MessageModel::Ack => true,
        MessageModel::Nack => true,
        MessageModel::Register(a) => encode_utf8(a).len() <= 0xFFFF,
        MessageModel::Welcome(a) => encode_utf8(a).len() <= 0xFFFF,
        MessageModel::SendBundle(e, p) => encode_utf8(e).len() <= 0xFFFF && p.len() <= u64::MAX,
        MessageModel::RecvBundle(e, p) => encode_utf8(e).len() <= 0xFFFF && p.len() <= u64::MAX,
        MessageModel::SendConfirm(id) => id.len() == 8,
        MessageModel::CancelBundle(id) => id.len() == 8,
        MessageModel::Ping => true,
    }
}

/// The eight big-endian digit bytes of `n` recompose to `n`.
proof fn lemma_be64_recompose(n: int)
    requires
        0 <= n <= u64::MAX,
    ensures
        be64_at(be64_bytes(n), 0) == n,
{
    let q7 = n / 0x100000000000000;
    let q6 = n / 0x1000000000000;
    let q5 = n / 0x10000000000;
    let q4 = n / 0x100000000;
    let q3 = n / 0x1000000;
    let q2 = n / 0x10000;
    let q1 = n / 0x100;
    assert(q7 < 0x100);
    assert(q6 / 0x100 == q7) by {
        vstd::arithmetic::div_mod::lemma_div_denominator(n, 0x1000000000000, 0x100);
    }
    assert(q5 / 0x100 == q6) by {
        vstd::arithmetic::div_mod::lemma_div_denominator(n, 0x10000000000, 0x100);
    }
    assert(q4 / 0x100 == q5) by {
        vstd::arithmetic::div_mod::lemma_div_denominator(n, 0x100000000, 0x100);
    }
    assert(q3 / 0x100 == q4) by {
        vstd::arithmetic::div_mod::lemma_div_denominator(n, 0x1000000, 0x100);
    }
    assert(q2 / 0x100 == q3) by {
        vstd::arithmetic::div_mod::lemma_div_denominator(n, 0x10000, 0x100);
    }
    assert(q1 / 0x100 == q2) by {
        vstd::arithmetic::div_mod::lemma_div_denominator(n, 0x100, 0x100);
    }
    assert(q7 * 0x100 + q6 % 0x100 == q6);
    assert(q6 * 0x100 + q5 % 0x100 == q5);
    assert(q5 * 0x100 + q4 % 0x100 == q4);
    assert(q4 * 0x100 + q3 % 0x100 == q3);
    assert(q3 * 0x100 + q2 % 0x100 == q2);
    assert(q2 * 0x100 + q1 % 0x100 == q1);
    assert(q1 * 0x100 + n % 0x100 == n);
}

/// Round trip: parsing the encoding of a well-formed message yields that
/// message back and consumes exactly the encoding's length.
#[verifier::spinoff_prover]
#[verifier::rlimit(50)]
pub proof fn lemma_round_trip(m: MessageModel)
    requires
        wf_message(m),
    ensures
        spec_parse(spec_encode(m)) matches Ok(p) && p.0 == m && p.1 == spec_encode(m).len(),
{
    broadcast use vstd::utf8::encode_utf8_valid_utf8, vstd::utf8::encode_utf8_decode_utf8;

    let b = spec_encode(m);
    match m {
        MessageModel::Ack => {},
        MessageModel::Nack => {},
        MessageModel::Ping => {},
        MessageModel::Register(a) => {
            assert(b.subrange(1, 3 + encode_utf8(a).len() as int) =~= text_field(a));
            lemma_text_round_trip(b, a);
        },
        MessageModel::Welcome(a) => {
            assert(b.subrange(1, 3 + encode_utf8(a).len() as int) =~= text_field(a));
            lemma_text_round_trip(b, a);
        },
        MessageModel::SendBundle(e, p) => {
            assert(b.subrange(1, 3 + encode_utf8(e).len() as int) =~= text_field(e));
            assert(b.subrange(3 + encode_utf8(e).len() as int, b.len() as int) =~= payload_field(
                p,
            ));
            lemma_text_round_trip(b, e);
            lemma_payload_round_trip(b, e, p);
        },
        MessageModel::RecvBundle(e, p) => {
            assert(b.subrange(1, 3 + encode_utf8(e).len() as int) =~= text_field(e));
            assert(b.subrange(3 + encode_utf8(e).len() as int, b.len() as int) =~= payload_field(
                p,
            ));
            lemma_text_round_trip(b, e);
            lemma_payload_round_trip(b, e, p);
        },
        MessageModel::SendConfirm(id) => {
            assert(b.subrange(1, 9) =~= id);
        },
        MessageModel::CancelBundle(id) => {
            assert(b.subrange(1, 9) =~= id);
        },
    }
}

/// The text field of a header-plus-text-field buffer parses back to the
/// characters it was encoded from.
proof fn lemma_text_round_trip(b: Seq<u8>, a: Seq<char>)
    requires
        encode_utf8(a).len() <= 0xFFFF,
        b.len() >= 3 + encode_utf8(a).len(),
        b.subrange(1, 3 + encode_utf8(a).len() as int) == text_field(a),
    ensures
        spec_parse_text(b) == Ok::<(Seq<char>, int), ParseError>(
            (a, 3 + encode_utf8(a).len() as int),
        ),
{
    broadcast use vstd::utf8::encode_utf8_valid_utf8, vstd::utf8::encode_utf8_decode_utf8;

    let eb = encode_utf8(a);
    let len = eb.len() as int;
    let tf = text_field(a);
    assert(len % 0x10000 == len);
    assert(b[1] == tf[0] && b[2] == tf[1]) by {
        assert(b.subrange(1, 3 + len)[0] == b[1]);
        assert(b.subrange(1, 3 + len)[1] == b[2]);
    }
    assert(be16_at(b, 1) == (len / 0x100) * 0x100 + len % 0x100);
    assert(be16_at(b, 1) == len);
    assert forall|i: int| 0 <= i < len implies b.subrange(3, 3 + len)[i] == #[trigger] eb[i] by {
        assert(b.subrange(1, 3 + len)[2 + i] == b[3 + i]);
        assert(tf[2 + i] == eb[i]);
    }
    assert(b.subrange(3, 3 + len) =~= eb);
}

/// The payload field standing after the text field parses back to the bytes
/// it was encoded from.
proof fn lemma_payload_round_trip(b: Seq<u8>, e: Seq<char>, p: Seq<u8>)
    requires
        encode_utf8(e).len() <= 0xFFFF,
        p.len() <= u64::MAX,
        b.len() == 3 + encode_utf8(e).len() + 8 + p.len(),
        b.subrange(
            3 + encode_utf8(e).len() as int,
            b.len() as int,
        ) == payload_field(p),
    ensures
        spec_parse_payload(b, 3 + encode_utf8(e).len() as int) == Ok::<(Seq<u8>, int), ParseError>(
            (p, b.len() as int),
        ),
{
    let off = 3 + encode_utf8(e).len() as int;
    let pf = payload_field(p);
    let plen = p.len() as int;
    assert forall|i: int| 0 <= i < 8 implies b[off + i] == #[trigger] be64_bytes(plen)[i] by {
        assert(b.subrange(off, b.len() as int)[i] == b[off + i]);
        assert(pf[i] == be64_bytes(plen)[i]);
    }
    lemma_be64_recompose(plen);
    assert(be64_at(b, off) == be64_at(be64_bytes(plen), 0)) by {
        assert(b[off + 0] == be64_bytes(plen)[0]);
        assert(b[off + 1] == be64_bytes(plen)[1]);
        assert(b[off + 2] == be64_bytes(plen)[2]);
        assert(b[off + 3] == be64_bytes(plen)[3]);
        assert(b[off + 4] == be64_bytes(plen)[4]);
        assert(b[off + 5] == be64_bytes(plen)[5]);
        assert(b[off + 6] == be64_bytes(plen)[6]);
        assert(b[off + 7] == be64_bytes(plen)[7]);
    }
    assert forall|i: int| 0 <= i < plen implies b.subrange(off + 8, off + 8 + plen)[i]
        == #[trigger] p[i] by {
        assert(b.subrange(off, b.len() as int)[8 + i] == b[off + 8 + i]);
        assert(pf[8 + i] == p[i]);
    }
    assert(b.subrange(off + 8, off + 8 + plen) =~= p);
}

/// A buffer whose header carries the supported version but a type nibble
/// outside the known set is rejected as an unknown type outright — never
/// reported as incomplete, however short the buffer is.
pub proof fn lemma_unknown_type_fatal(b: Seq<u8>)
    requires
        b.len() >= 1,
        b[0] / 16 == PROTOCOL_VERSION,
        b[0] % 16 >= 9,
    ensures
        spec_parse(b) == Err::<(MessageModel, int), ParseError>(
            ParseError::UnknownType((b[0] % 16) as u8),
        ),
{
}

/// Parsing never misreads a truncated message: any strict prefix of a
/// buffer whose front parses as one whole message parses as incomplete,
/// never as some other message or a fatal error.
pub proof fn lemma_parse_prefix_incomplete(b: Seq<u8>, cut: int)
    requires
        spec_parse(b) is Ok,
        0 <= cut < spec_parse(b)->Ok_0.1,
    ensures
        spec_parse(b.take(cut)) == Err::<(MessageModel, int), ParseError>(
            ParseError::UnexpectedEnd,
        ),
{
    let pre = b.take(cut);
    if cut > 0 {
        assert(pre[0] == b[0]);
        let t = b[0] % 16;
        if t == 2 || t == 7 {
            lemma_parse_text_prefix(b, cut);
        } else if t == 3 || t == 4 {
            lemma_parse_text_prefix(b, cut);
            let off = spec_parse_text(b)->Ok_0.1;
            if cut >= off {
                lemma_parse_payload_prefix(b, off, cut);
            }
        }
    }
}

/// The text field after the header of a truncated buffer parses as
/// incomplete while the cut lies inside it, and identically once the cut
/// lies past it.
proof fn lemma_parse_text_prefix(b: Seq<u8>, cut: int)
    requires
        spec_parse_text(b) is Ok,
        0 < cut <= b.len(),
    ensures
        cut < spec_parse_text(b)->Ok_0.1 ==> spec_parse_text(b.take(cut)) == Err::<
            (Seq<char>, int),
            ParseError,
        >(ParseError::UnexpectedEnd),
        cut >= spec_parse_text(b)->Ok_0.1 ==> spec_parse_text(b.take(cut)) == spec_parse_text(b),
{
    let pre = b.take(cut);
    let n = be16_at(b, 1);
    if cut >= 3 {
        assert(pre[1] == b[1] && pre[2] == b[2]);
        assert(be16_at(pre, 1) == n);
        if cut >= 3 + n {
            assert(pre.subrange(3, 3 + n) =~= b.subrange(3, 3 + n));
        }
    }
}

/// The payload field at offset `off` of a truncated buffer parses as
/// incomplete while the cut lies inside it.
proof fn lemma_parse_payload_prefix(b: Seq<u8>, off: int, cut: int)
    requires
        0 <= off,
        spec_parse_payload(b, off) is Ok,
        off <= cut <= b.len(),
        cut < spec_parse_payload(b, off)->Ok_0.1,
    ensures
        spec_parse_payload(b.take(cut), off) == Err::<(Seq<u8>, int), ParseError>(
            ParseError::UnexpectedEnd,
        ),
{
    let pre = b.take(cut);
    if cut >= off + 8 {
        assert(pre[off] == b[off]);
        assert(pre[off + 1] == b[off + 1]);
        assert(pre[off + 2] == b[off + 2]);
        assert(pre[off + 3] == b[off + 3]);
        assert(pre[off + 4] == b[off + 4]);
        assert(pre[off + 5] == b[off + 5]);
        assert(pre[off + 6] == b[off + 6]);
        assert(pre[off + 7] == b[off + 7]);
        assert(be64_at(pre, off) == be64_at(b, off));
    }
}

/// Fragmentation invariance: any strict prefix of a well-formed message's
/// encoding parses as incomplete (so an incremental reader keeps the bytes
/// and waits), and the prefix completed by the remainder parses as the whole
/// message again. Splitting an encoding at any byte boundary therefore
/// yields, piece by piece, the same message as feeding it whole.
pub proof fn lemma_fragmentation(m: MessageModel, cut: int)
    requires
        wf_message(m),
        0 <= cut < spec_encode(m).len(),
    ensures
        spec_parse(spec_encode(m).take(cut)) == Err::<(MessageModel, int), ParseError>(
            ParseError::UnexpectedEnd,
        ),
        spec_parse(spec_encode(m).take(cut) + spec_encode(m).skip(cut)) matches Ok(p) && p.0 == m
            && p.1 == spec_encode(m).len(),
{
    let b = spec_encode(m);
    assert(b.take(cut) + b.skip(cut) =~= b);
    lemma_round_trip(m);
    lemma_parse_prefix_incomplete(b, cut);
}

/// Append a text field (16-bit byte count, then the UTF-8 bytes) to `out`.
fn append_string(out: &mut Vec<u8>, s: &str)
    ensures
        final(out)@ == old(out)@ + text_field(s@),
{
    let bytes = s.as_bytes();
    let len_mod: usize = bytes.len() % 0x10000;
    out.push((len_mod / 0x100) as u8);
    out.push((len_mod % 0x100) as u8);
    out.extend_from_slice(bytes);
    proof {
        assert(final(out)@ =~= old(out)@ + text_field(s@));
    }
}

/// Append a payload field (64-bit byte count, then the raw bytes) to `out`.
fn append_bytes(out: &mut Vec<u8>, bytes: &[u8])
    ensures
        final(out)@ == old(out)@ + payload_field(bytes@),
{
    let n = bytes.len() as u64;
    out.push(((n / 0x100000000000000) % 0x100) as u8);
    out.push(((n / 0x1000000000000) % 0x100) as u8);
    out.push(((n / 0x10000000000) % 0x100) as u8);
    out.push(((n / 0x100000000) % 0x100) as u8);
    out.push(((n / 0x1000000) % 0x100) as u8);
    out.push(((n / 0x10000) % 0x100) as u8);
    out.push(((n / 0x100) % 0x100) as u8);
    out.push((n % 0x100) as u8);
    out.extend_from_slice(bytes);
    proof {
        assert(final(out)@ =~= old(out)@ + payload_field(bytes@));
    }
}

/// What parsing the given bytes yields: the message standing at the front of
/// the buffer together with the count of bytes it occupies, or the reason the
/// buffer does not (yet) hold one.
pub open spec fn spec_parse(b: Seq<u8>) -> Result<(MessageModel, int), ParseError> {
    if b.len() < 1 {
        Err(ParseError::UnexpectedEnd)
    } else if b[0] / 16 != PROTOCOL_VERSION {
        Err(ParseError::VersionNotSupported)
    } else {
        let t = b[0] % 16;
        if t == 0 {
            Ok((MessageModel::Ack, 1))
        } else if t == 1 {
            Ok((MessageModel::Nack, 1))
        } else if t == 8 {
            Ok((MessageModel::Ping, 1))
        } else if t == 2 || t == 7 {
            match spec_parse_text(b) {
                Ok(p) => Ok(
                    (
                        if t == 2 {
                            MessageModel::Register(p.0)
                        } else {
                            MessageModel::Welcome(p.0)
                        },
                        p.1,
                    ),
                ),
                Err(e) => Err(e),
            }
        } else if t == 3 || t == 4 {
            match spec_parse_text(b) {
                Ok(p) => match spec_parse_payload(b, p.1) {
                    Ok(q) => Ok(
                        (
                            if t == 3 {
                                MessageModel::SendBundle(p.0, q.0)
                            } else {
                                MessageModel::RecvBundle(p.0, q.0)
                            },
                            q.1,
                        ),
                    ),
                    Err(e) => Err(e),
                },
                Err(e) => Err(e),
            }
        } else if t == 5 || t == 6 {
            if b.len() < 9 {
                Err(ParseError::UnexpectedEnd)
            } else {
                Ok(
                    (
                        if t == 5 {
                            MessageModel::SendConfirm(b.subrange(1, 9))
                        } else {
                            MessageModel::CancelBundle(b.subrange(1, 9))
                        },
                        9,
                    ),
                )
            }
        } else {
            Err(ParseError::UnknownType((b[0] % 16) as u8))
        }
    }
}

/// Parse the text field standing right after the header byte: a 16-bit byte
/// count, then that many UTF-8 bytes. Yields the characters and the offset
/// just past the field.
pub open spec fn spec_parse_text(b: Seq<u8>) -> Result<(Seq<char>, int), ParseError>
    recommends
        b.len() >= 1,
{
    if b.len() < 3 {
        Err(ParseError::UnexpectedEnd)
    } else {
        let n = be16_at(b, 1);
        if b.len() < 3 + n {
            Err(ParseError::UnexpectedEnd)
        } else {
            let tb = b.subrange(3, 3 + n);
            if valid_utf8(tb) {
                Ok((decode_utf8(tb), 3 + n))
            } else {
                Err(ParseError::Utf8Error)
            }
        }
    }
}

/// Parse the payload field standing at offset `off`: a 64-bit byte count,
/// then that many raw bytes. Yields the bytes and the offset just past them.
pub open spec fn spec_parse_payload(b: Seq<u8>, off: int) -> Result<(Seq<u8>, int), ParseError>
    recommends
        0 <= off <= b.len(),
{
    if b.len() < off + 8 {
        Err(ParseError::UnexpectedEnd)
    } else {
        let n = be64_at(b, off);
        if b.len() < off + 8 + n {
            Err(ParseError::UnexpectedEnd)
        } else {
            Ok((b.subrange(off + 8, off + 8 + n), off + 8 + n))
        }
    }
}

/// Relies on `String::from_utf8`: it succeeds exactly when the bytes are
/// valid UTF-8, and then returns the string whose characters those bytes
/// encode.
#[verifier::external_body]
fn string_from_utf8(bytes: Vec<u8>) -> (r: Option<String>)
    ensures
        r matches Some(s) ==> valid_utf8(bytes@) && encode_utf8(s@) == bytes@ && s@ == decode_utf8(
            bytes@,
        ),
        r is None ==> !valid_utf8(bytes@),
{
    String::from_utf8(bytes).ok()
}

/// Parse the text field after the header byte of `bytes`.
fn parse_text(bytes: &[u8]) -> (r: Result<(String, usize), ParseError>)
    requires
        bytes@.len() >= 1,
    ensures
        r matches Ok(p) ==> spec_parse_text(bytes@) == Ok::<(Seq<char>, int), ParseError>(
            (p.0@, p.1 as int),
        ),
        r matches Err(e) ==> spec_parse_text(bytes@) == Err::<(Seq<char>, int), ParseError>(e),
{
    if bytes.len() < 3 {
        return Err(ParseError::UnexpectedEnd);
    }
    let n: usize = (bytes[1] as usize) * 0x100 + (bytes[2] as usize);
    if bytes.len() - 3 < n {
        return Err(ParseError::UnexpectedEnd);
    }
    let text_bytes = slice_subrange(bytes, 3, 3 + n);
    match string_from_utf8(slice_to_vec(text_bytes)) {
        Some(s) => Ok((s, 3 + n)),
        None => Err(ParseError::Utf8Error),
    }
}

/// Parse the payload field standing at offset `off` of `bytes`.
fn parse_payload(bytes: &[u8], off: usize) -> (r: Result<(Vec<u8>, usize), ParseError>)
    requires
        off <= bytes@.len(),
    ensures
        r matches Ok(p) ==> spec_parse_payload(bytes@, off as int) == Ok::<
            (Seq<u8>, int),
            ParseError,
        >((p.0@, p.1 as int)),
        r matches Err(e) ==> spec_parse_payload(bytes@, off as int) == Err::<
            (Seq<u8>, int),
            ParseError,
        >(e),
{
    if bytes.len() - off < 8 {
        return Err(ParseError::UnexpectedEnd);
    }
    let n: u64 = (((((((bytes[off] as u64) * 0x100 + (bytes[off + 1] as u64)) * 0x100 + (bytes[off
        + 2] as u64)) * 0x100 + (bytes[off + 3] as u64)) * 0x100 + (bytes[off + 4] as u64)) * 0x100
        + (bytes[off + 5] as u64)) * 0x100 + (bytes[off + 6] as u64)) * 0x100 + (bytes[off
        + 7] as u64);
    let rem = bytes.len() - (off + 8);
    if n > rem as u64 {
        return Err(ParseError::UnexpectedEnd);
    }
    let payload_len = n as usize;
    let payload_bytes = slice_subrange(bytes, off + 8, off + 8 + payload_len);
    Ok((slice_to_vec(payload_bytes), off + 8 + payload_len))
}

impl Message {
    /// Serialize this message to the bytes that go on the wire.
    ///
    /// Serialization is total; a text field longer than 65535 bytes has its
    /// length prefix truncated to 16 bits (such a message is not well-formed
    /// and does not round-trip).
    pub fn to_bytes(&self) -> (r: Vec<u8>)
        ensures
            r@ == spec_encode(self@),
    {
        let mut out: Vec<u8> = Vec::new();
        match self {
            Message::Ack => {
                out.push(0x10);
            },
            Message::Nack => {
                out.push(0x11);
            },
            Message::Register(agent_id) => {
                out.push(0x12);
                append_string(&mut out, agent_id.as_str());
            },
            Message::SendBundle(destination_eid, payload) => {
                out.push(0x13);
                append_string(&mut out, destination_eid.as_str());
                append_bytes(&mut out, payload.as_slice());
            },
            Message::RecvBundle(source_eid, payload) => {
                out.push(0x14);
                append_string(&mut out, source_eid.as_str());
                append_bytes(&mut out, payload.as_slice());
            },
            Message::SendConfirm(bundle_id) => {
                out.push(0x15);
                out.extend_from_slice(&bundle_id.0);
            },
            Message::CancelBundle(bundle_id) => {
                out.push(0x16);
                out.extend_from_slice(&bundle_id.0);
            },
            Message::Welcome(node_eid) => {
                out.push(0x17);
                append_string(&mut out, node_eid.as_str());
            },
            Message::Ping => {
                out.push(0x18);
            },
        }
        proof {
            assert(out@ =~= spec_encode(self@));
        }
        out
    }

    /// Parse one message from the front of `bytes`.
    ///
    /// See [`Message::parse_buffer`]; this drops the consumed-byte count.
    pub fn parse(bytes: &[u8]) -> (r: Result<Message, ParseError>)
        ensures
            r matches Ok(m) ==> (spec_parse(bytes@) matches Ok(p) && p.0 == m@),
            r matches Err(e) ==> spec_parse(bytes@) == Err::<(MessageModel, int), ParseError>(e),
    {
        match Self::parse_buffer(bytes) {
            Ok(p) => Ok(p.0),
            Err(e) => Err(e),
        }
    }

    /// Parse one message from the front of `bytes` and say how many bytes it
    /// occupied, so that a caller holding a growing buffer can drop exactly
    /// the consumed prefix.
    ///
    /// Never panics on short input: a buffer holding a valid prefix of a
    /// message yields [`ParseError::UnexpectedEnd`], after which the caller
    /// may append more bytes and retry from the same offset. A wrong version
    /// nibble, an unknown type nibble or a non-UTF-8 text field is fatal.
    pub fn parse_buffer(bytes: &[u8]) -> (r: Result<(Message, usize), ParseError>)
        ensures
            r matches Ok(p) ==> spec_parse(bytes@) == Ok::<(MessageModel, int), ParseError>(
                (p.0@, p.1 as int),
            ),
            r matches Err(e) ==> spec_parse(bytes@) == Err::<(MessageModel, int), ParseError>(e),
    {
        if bytes.len() < 1 {
            return Err(ParseError::UnexpectedEnd);
        }
        let header = bytes[0];
        if header / 16 != PROTOCOL_VERSION {
            return Err(ParseError::VersionNotSupported);
        }
        let t = header % 16;
        if t == 0 {
            Ok((Message::Ack, 1))
        } else if t == 1 {
            Ok((Message::Nack, 1))
        } else if t == 8 {
            Ok((Message::Ping, 1))
        } else if t == 2 || t == 7 {
            match parse_text(bytes) {
                Ok((s, n)) => Ok(
                    (
                        if t == 2 {
                            Message::Register(s)
                        } else {
                            Message::Welcome(s)
                        },
                        n,
                    ),
                ),
                Err(e) => Err(e),
            }
        } else if t == 3 || t == 4 {
            match parse_text(bytes) {
                Ok((s, n)) => match parse_payload(bytes, n) {
                    Ok((p, n2)) => Ok(
                        (
                            if t == 3 {
                                Message::SendBundle(s, p)
                            } else {
                                Message::RecvBundle(s, p)
                            },
                            n2,
                        ),
                    ),
                    Err(e) => Err(e),
                },
                Err(e) => Err(e),
            }
        } else if t == 5 || t == 6 {
            if bytes.len() < 9 {
                return Err(ParseError::UnexpectedEnd);
            }
            let id: [u8; 8] = [
                bytes[1],
                bytes[2],
                bytes[3],
                bytes[4],
                bytes[5],
                bytes[6],
                bytes[7],
                bytes[8],
            ];
            proof {
                assert(id@ =~= bytes@.subrange(1, 9));
            }
            Ok(
                (
                    if t == 5 {
                        Message::SendConfirm(BundleIdentifier(id))
                    } else {
                        Message::CancelBundle(BundleIdentifier(id))
                    },
                    9,
                ),
            )
        } else {
            Err(ParseError::UnknownType(t))
        }
    }
}

} // verus!
