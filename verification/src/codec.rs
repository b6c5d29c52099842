//! Stateless codec for the wire protocol: frames with a fixed 16-byte
//! big-endian header followed by a body that is either a raw payload or a
//! zlib stream of further concatenated frames, which decode flattens
//! recursively.
use vstd::prelude::*;

verus! {

/// Operation code of a keep-alive frame sent by the client.
pub const OP_HEARTBEAT: u32 = 2;

/// Operation code of the server's keep-alive acknowledgment.
pub const OP_HEARTBEAT_REPLY: u32 = 3;

/// Operation code of a frame carrying a structured message record.
pub const OP_MESSAGE: u32 = 5;

/// Operation code of the authentication frame sent after connecting.
pub const OP_AUTH: u32 = 7;

/// Operation code of the server's authentication acknowledgment.
pub const OP_AUTH_REPLY: u32 = 8;

/// Protocol version of a frame whose body is the raw payload.
pub const VERSION_PLAIN: u16 = 0;

/// Protocol version of a frame whose body is a zlib stream of frames.
pub const VERSION_ZLIB: u16 = 2;

/// Every header of this protocol generation is exactly 16 bytes.
pub const HEADER_LENGTH: u16 = 16;

/// Sequence field value emitted on every outbound frame.
pub const SEQUENCE_ALWAYS_ONE: u32 = 1;

/// How many levels of nested zlib bodies decode is willing to open.
pub const MAX_NESTING: u32 = 16;

/// The two big-endian bytes of a 16-bit integer.
pub open spec fn spec_be16(n: u16) -> Seq<u8> {
    seq![((n >> 8) & 0xff) as u8, (n & 0xff) as u8]
}

/// The four big-endian bytes of a 32-bit integer.
pub open spec fn spec_be32(n: u32) -> Seq<u8> {
    seq![
        ((n >> 24) & 0xff) as u8,
        ((n >> 16) & 0xff) as u8,
        ((n >> 8) & 0xff) as u8,
        (n & 0xff) as u8,
    ]
}

/// The 16-bit integer stored big-endian at `off`.
pub open spec fn spec_read_be16(s: Seq<u8>, off: int) -> u16
    recommends
        0 <= off,
        off + 2 <= s.len(),
{
    ((s[off] as u16) << 8) | (s[off + 1] as u16)
}

/// The 32-bit integer stored big-endian at `off`.
pub open spec fn spec_read_be32(s: Seq<u8>, off: int) -> u32
    recommends
        0 <= off,
        off + 4 <= s.len(),
{
    ((s[off] as u32) << 24) | ((s[off + 1] as u32) << 16) | ((s[off + 2] as u32) << 8)
        | (s[off + 3] as u32)
}

/// Reading back the two big-endian bytes of `n` yields `n`.
pub proof fn lemma_be16_round_trip(n: u16)
    ensures
        spec_read_be16(spec_be16(n), 0) == n,
{
    assert(((((n >> 8) & 0xff) as u8 as u16) << 8) | ((n & 0xff) as u8 as u16) == n)
        by (bit_vector);
}

/// Reading back the four big-endian bytes of `n` yields `n`.
pub proof fn lemma_be32_round_trip(n: u32)
    ensures
        spec_read_be32(spec_be32(n), 0) == n,
{
    assert(((((n >> 24) & 0xff) as u8 as u32) << 24) | ((((n >> 16) & 0xff) as u8 as u32) << 16)
        | ((((n >> 8) & 0xff) as u8 as u32) << 8) | ((n & 0xff) as u8 as u32) == n)
        by (bit_vector);
}

/// Appends the two big-endian bytes of `n`.
pub fn push_be16(out: &mut Vec<u8>, n: u16)
    ensures
        final(out)@ == old(out)@ + spec_be16(n),
{
    out.push(((n >> 8) & 0xff) as u8);
    out.push((n & 0xff) as u8);
    proof {
        assert(out@ =~= old(out)@ + spec_be16(n));
    }
}

/// Appends the four big-endian bytes of `n`.
pub fn push_be32(out: &mut Vec<u8>, n: u32)
    ensures
        final(out)@ == old(out)@ + spec_be32(n),
{
    out.push(((n >> 24) & 0xff) as u8);
    out.push(((n >> 16) & 0xff) as u8);
    out.push(((n >> 8) & 0xff) as u8);
    out.push((n & 0xff) as u8);
    proof {
        assert(out@ =~= old(out)@ + spec_be32(n));
    }
}

/// Reads the 16-bit big-endian integer at `off`.
pub fn read_be16(data: &[u8], off: usize) -> (n: u16)
    requires
        off + 2 <= data@.len(),
    ensures
        n == spec_read_be16(data@, off as int),
{
    ((data[off] as u16) << 8) | (data[off + 1] as u16)
}

/// Reads the 32-bit big-endian integer at `off`.
pub fn read_be32(data: &[u8], off: usize) -> (n: u32)
    requires
        off + 4 <= data@.len(),
    ensures
        n == spec_read_be32(data@, off as int),
{
    ((data[off] as u32) << 24) | ((data[off + 1] as u32) << 16) | ((data[off + 2] as u32) << 8)
        | (data[off + 3] as u32)
}

/// Purpose tag of a frame; codes this client does not know are carried
/// through unchanged rather than rejected.
#[derive(Clone, Copy, Debug, PartialEq, Eq, Structural)]
pub enum OperationCode {
    Heartbeat,
    HeartbeatReply,
    Message,
    Auth,
    AuthReply,
    Unknown(u32),
}

/// The operation code named by a wire code.
pub open spec fn spec_op(code: u32) -> OperationCode {
    if code == OP_HEARTBEAT {
        OperationCode::Heartbeat
    } else if code == OP_HEARTBEAT_REPLY {
        OperationCode::HeartbeatReply
    } else if code == OP_MESSAGE {
        OperationCode::Message
    } else if code == OP_AUTH {
        OperationCode::Auth
    } else if code == OP_AUTH_REPLY {
        OperationCode::AuthReply
    } else {
        OperationCode::Unknown(code)
    }
}

impl OperationCode {
    /// The wire code of this operation.
    pub open spec fn spec_code(self) -> u32 {
        match self {
            OperationCode::Heartbeat => OP_HEARTBEAT,
            OperationCode::HeartbeatReply => OP_HEARTBEAT_REPLY,
            OperationCode::Message => OP_MESSAGE,
            OperationCode::Auth => OP_AUTH,
            OperationCode::AuthReply => OP_AUTH_REPLY,
            OperationCode::Unknown(code) => code,
        }
    }

    /// The operation code named by a wire code.
    pub fn from_code(code: u32) -> (r: OperationCode)
        ensures
            r == spec_op(code),
    {
        if code == OP_HEARTBEAT {
            OperationCode::Heartbeat
        } else if code == OP_HEARTBEAT_REPLY {
            OperationCode::HeartbeatReply
        } else if code == OP_MESSAGE {
            OperationCode::Message
        } else if code == OP_AUTH {
            OperationCode::Auth
        } else if code == OP_AUTH_REPLY {
            OperationCode::AuthReply
        } else {
            OperationCode::Unknown(code)
        }
    }

    /// The wire code of this operation.
    pub fn code(&self) -> (r: u32)
        ensures
            r == self.spec_code(),
    {
        match self {
            OperationCode::Heartbeat => OP_HEARTBEAT,
            OperationCode::HeartbeatReply => OP_HEARTBEAT_REPLY,
            OperationCode::Message => OP_MESSAGE,
            OperationCode::Auth => OP_AUTH,
            OperationCode::AuthReply => OP_AUTH_REPLY,
            OperationCode::Unknown(code) => *code,
        }
    }
}

/// Why a whole decode invocation was aborted; no partial results survive.
#[derive(Clone, Copy, Debug, PartialEq, Eq, Structural)]
pub enum CodecError {
    /// Fewer than 16 bytes remained where a header was expected.
    TruncatedHeader,
    /// Fewer bytes remained than the header's length fields claim, or the
    /// claimed total length is smaller than the header itself.
    TruncatedBody,
    /// A compressed body was not a well-formed zlib stream.
    DecompressionFailed,
    /// Compressed bodies were nested more than `MAX_NESTING` levels deep.
    NestingTooDeep,
}

/// The bytes of one frame: a 16-byte big-endian header, then the body.
pub open spec fn spec_frame(op: u32, version: u16, body: Seq<u8>) -> Seq<u8>
    recommends
        16 + body.len() <= u32::MAX,
{
    spec_be32((16 + body.len()) as u32) + spec_be16(HEADER_LENGTH) + spec_be16(version)
        + spec_be32(op) + spec_be32(SEQUENCE_ALWAYS_ONE) + body
}

/// The bytes of one plain frame, as `encode` emits them.
pub open spec fn spec_encode(op: u32, body: Seq<u8>) -> Seq<u8>
    recommends
        16 + body.len() <= u32::MAX,
{
    spec_frame(op, VERSION_PLAIN, body)
}

/// Encodes one plain frame: total length, header length 16, version 0,
/// the operation code, sequence 1, then the body bytes.
pub fn encode(operation: u32, body: &[u8]) -> (r: Vec<u8>)
    requires
        16 + body@.len() <= u32::MAX,
    ensures
        r@ == spec_encode(operation, body@),
{
    let mut packet: Vec<u8> = Vec::new();
    push_be32(&mut packet, 16 + body.len() as u32);
    push_be16(&mut packet, HEADER_LENGTH);
    push_be16(&mut packet, VERSION_PLAIN);
    push_be32(&mut packet, operation);
    push_be32(&mut packet, SEQUENCE_ALWAYS_ONE);
    let mut tail = vstd::slice::slice_to_vec(body);
    packet.append(&mut tail);
    proof {
        assert(packet@ =~= spec_encode(operation, body@));
    }
    packet
}

/// Encodes one plain frame for the given operation.
pub fn encode_op(operation: &OperationCode, body: &[u8]) -> (r: Vec<u8>)
    requires
        16 + body@.len() <= u32::MAX,
    ensures
        r@ == spec_encode(operation.spec_code(), body@),
{
    let code = operation.code();
    encode(code, body)
}

/// What the zlib stream `s` inflates to, or `None` where `s` is not a
/// well-formed zlib stream.
pub uninterp spec fn zlib_inflate(s: Seq<u8>) -> Option<Seq<u8>>;

/// Relies on flate2::read::ZlibDecoder driven by io::Read::read_to_end:
/// what a zlib stream inflates to depends on its bytes alone, and a
/// corrupt stream is reported as an error instead.
#[verifier::external_body]
fn inflate(body: &[u8]) -> (r: Result<Vec<u8>, ()>)
    ensures
        match r {
            Ok(out) => zlib_inflate(body@) == Some(out@),
            Err(_) => zlib_inflate(body@) is None,
        },
{
    let mut decoder = flate2::read::ZlibDecoder::new(body);
    let mut out: Vec<u8> = Vec::new();
    match std::io::Read::read_to_end(&mut decoder, &mut out) {
        Ok(_) => Ok(out),
        Err(_) => Err(()),
    }
}

/// What decoding `s` yields with `depth` levels of nesting still open:
/// `(operation, body)` pairs of every plain frame, in order, with each
/// compressed frame replaced by the frames its body inflates to.
pub open spec fn spec_decode(s: Seq<u8>, depth: nat) -> Result<Seq<(u32, Seq<u8>)>, CodecError>
    decreases depth, s.len(),
{
    if s.len() == 0 {
        Ok(Seq::empty())
    } else if s.len() < 16 {
        Err(CodecError::TruncatedHeader)
    } else {
        let total = spec_read_be32(s, 0);
        let header_len = spec_read_be16(s, 4);
        let version = spec_read_be16(s, 6);
        let op = spec_read_be32(s, 8);
        if total < header_len {
            Err(CodecError::TruncatedBody)
        } else if s.len() < 16 + (total - header_len) {
            Err(CodecError::TruncatedBody)
        } else {
            let body_len = total - header_len;
            let body = s.subrange(16, 16 + body_len);
            let rest = s.subrange(16 + body_len, s.len() as int);
            let head = if version == VERSION_ZLIB {
                match zlib_inflate(body) {
                    Option::None => Err(CodecError::DecompressionFailed),
                    Option::Some(inner) => if depth == 0 {
                        Err(CodecError::NestingTooDeep)
                    } else {
                        spec_decode(inner, (depth - 1) as nat)
                    },
                }
            } else {
                Ok(seq![(op, body)])
            };
            match head {
                Err(e) => Err(e),
                Ok(head_items) => match spec_decode(rest, depth) {
                    Err(e) => Err(e),
                    Ok(tail_items) => Ok(head_items + tail_items),
                },
            }
        }
    }
}

/// Whether the decoded items `r` carry exactly the pairs of `outcome`,
/// each wire code replaced by the operation it names.
pub open spec fn decode_matches(
    r: Result<Vec<(OperationCode, Vec<u8>)>, CodecError>,
    outcome: Result<Seq<(u32, Seq<u8>)>, CodecError>,
) -> bool {
    match r {
        Ok(items) => {
            &&& outcome matches Ok(pairs)
            &&& items@.len() == pairs.len()
            &&& (forall|i: int|
                0 <= i < pairs.len() ==> #[trigger] items@[i].0 == spec_op(pairs[i].0)
                    && items@[i].1@ == pairs[i].1)
        },
        Err(e) => outcome == Err::<Seq<(u32, Seq<u8>)>, CodecError>(e),
    }
}

/// Decodes a buffer of concatenated frames with `depth` nesting levels
/// still open; see `spec_decode` for the exact outcome.
fn decode_frames(data: &[u8], depth: u32) -> (r: Result<
    Vec<(OperationCode, Vec<u8>)>,
    CodecError,
>)
    ensures
        decode_matches(r, spec_decode(data@, depth as nat)),
    decreases depth, data@.len(),
{
    if data.len() == 0 {
        return Ok(Vec::new());
    }
    if data.len() < 16 {
        return Err(CodecError::TruncatedHeader);
    }
    let total = read_be32(data, 0);
    let header_len = read_be16(data, 4);
    let version = read_be16(data, 6);
    let op = read_be32(data, 8);
    if total < header_len as u32 {
        return Err(CodecError::TruncatedBody);
    }
    let body_len_32 = total - header_len as u32;
    if ((data.len() - 16) as u64) < body_len_32 as u64 {
        return Err(CodecError::TruncatedBody);
    }
    let body_len = body_len_32 as usize;
    let body = vstd::slice::slice_subrange(data, 16, 16 + body_len);
    let rest = vstd::slice::slice_subrange(data, 16 + body_len, data.len());
    let mut items: Vec<(OperationCode, Vec<u8>)>;
    if version == VERSION_ZLIB {
        match inflate(body) {
            Err(_) => {
                return Err(CodecError::DecompressionFailed);
            },
            Ok(inner) => {
                if depth == 0 {
                    return Err(CodecError::NestingTooDeep);
                }
                match decode_frames(inner.as_slice(), depth - 1) {
                    Err(e) => {
                        return Err(e);
                    },
                    Ok(inner_items) => {
                        items = inner_items;
                    },
                }
            },
        }
    } else {
        items = Vec::new();
        items.push((OperationCode::from_code(op), vstd::slice::slice_to_vec(body)));
    }
    match decode_frames(rest, depth) {
        Err(e) => Err(e),
        Ok(mut tail_items) => {
            items.append(&mut tail_items);
            proof {
                let outcome = spec_decode(data@, depth as nat);
                let pairs = outcome->Ok_0;
                assert(forall|i: int|
                    0 <= i < pairs.len() ==> #[trigger] items@[i].0 == spec_op(pairs[i].0)
                        && items@[i].1@ == pairs[i].1);
            }
            Ok(items)
        },
    }
}

/// Decodes a buffer of concatenated frames into `(operation, body)`
/// pairs, inflating and flattening compressed bodies recursively; any
/// malformed header, length or zlib stream aborts the whole decode with
/// the matching error.
pub fn decode(data: &[u8]) -> (r: Result<Vec<(OperationCode, Vec<u8>)>, CodecError>)
    ensures
        decode_matches(r, spec_decode(data@, MAX_NESTING as nat)),
{
    decode_frames(data, MAX_NESTING)
}

/// Any buffer that begins with the 16 header bytes of
/// `spec_frame(op, version, body)` reads back those header fields.
proof fn lemma_header_reads(s: Seq<u8>, op: u32, version: u16, body: Seq<u8>)
    requires
        16 + body.len() <= u32::MAX,
        s.len() >= 16,
        forall|i: int| 0 <= i < 16 ==> s[i] == #[trigger] spec_frame(op, version, body)[i],
    ensures
        spec_read_be32(s, 0) == (16 + body.len()) as u32,
        spec_read_be16(s, 4) == HEADER_LENGTH,
        spec_read_be16(s, 6) == version,
        spec_read_be32(s, 8) == op,
{
    let total = (16 + body.len()) as u32;
    let frame = spec_frame(op, version, body);
    assert(s[0] == frame[0] && s[1] == frame[1] && s[2] == frame[2] && s[3] == frame[3]);
    assert(s[4] == frame[4] && s[5] == frame[5] && s[6] == frame[6] && s[7] == frame[7]);
    assert(s[8] == frame[8] && s[9] == frame[9] && s[10] == frame[10] && s[11] == frame[11]);
    assert(frame[0] == spec_be32(total)[0] && frame[1] == spec_be32(total)[1] && frame[2]
        == spec_be32(total)[2] && frame[3] == spec_be32(total)[3]);
    assert(frame[4] == spec_be16(HEADER_LENGTH)[0] && frame[5] == spec_be16(HEADER_LENGTH)[1]);
    assert(frame[6] == spec_be16(version)[0] && frame[7] == spec_be16(version)[1]);
    assert(frame[8] == spec_be32(op)[0] && frame[9] == spec_be32(op)[1] && frame[10] == spec_be32(
        op,
    )[2] && frame[11] == spec_be32(op)[3]);
    lemma_be32_round_trip(total);
    lemma_be16_round_trip(HEADER_LENGTH);
    lemma_be16_round_trip(version);
    lemma_be32_round_trip(op);
    assert(spec_read_be32(s, 0) == spec_read_be32(spec_be32(total), 0));
    assert(spec_read_be16(s, 4) == spec_read_be16(spec_be16(HEADER_LENGTH), 0));
    assert(spec_read_be16(s, 6) == spec_read_be16(spec_be16(version), 0));
    assert(spec_read_be32(s, 8) == spec_read_be32(spec_be32(op), 0));
}

/// Decoding a frame followed by further bytes decodes the frame and
/// continues with the rest: the step case of the stream grammar.
proof fn lemma_decode_step(op: u32, version: u16, body: Seq<u8>, rest: Seq<u8>, depth: nat)
    requires
        16 + body.len() <= u32::MAX,
    ensures
        ({
            let head = if version == VERSION_ZLIB {
                match zlib_inflate(body) {
                    Option::None => Err(CodecError::DecompressionFailed),
                    Option::Some(inner) => if depth == 0 {
                        Err(CodecError::NestingTooDeep)
                    } else {
                        spec_decode(inner, (depth - 1) as nat)
                    },
                }
            } else {
                Ok(seq![(op, body)])
            };
            spec_decode(spec_frame(op, version, body) + rest, depth) == match head {
                Err(e) => Err::<Seq<(u32, Seq<u8>)>, CodecError>(e),
                Ok(head_items) => match spec_decode(rest, depth) {
                    Err(e) => Err(e),
                    Ok(tail_items) => Ok(head_items + tail_items),
                },
            }
        }),
{
    let s = spec_frame(op, version, body) + rest;
    let frame = spec_frame(op, version, body);
    assert(frame.len() == 16 + body.len());
    assert(forall|i: int| 0 <= i < 16 ==> s[i] == #[trigger] frame[i]);
    lemma_header_reads(s, op, version, body);
    let total = (16 + body.len()) as u32;
    assert(total - HEADER_LENGTH == body.len());
    assert(s.subrange(16, 16 + body.len() as int) =~= body);
    assert(s.subrange(16 + body.len() as int, s.len() as int) =~= rest);
}

/// Round trip: decoding an encoded plain frame yields exactly that one
/// `(operation, body)` pair, at any nesting allowance.
pub proof fn lemma_round_trip(op: u32, body: Seq<u8>, depth: nat)
    requires
        16 + body.len() <= u32::MAX,
    ensures
        spec_decode(spec_encode(op, body), depth) == Ok::<_, CodecError>(seq![(op, body)]),
{
    lemma_decode_step(op, VERSION_PLAIN, body, Seq::empty(), depth);
    assert(spec_encode(op, body) + Seq::<u8>::empty() =~= spec_encode(op, body));
    assert(seq![(op, body)] + Seq::<(u32, Seq<u8>)>::empty() =~= seq![(op, body)]);
}

/// The concatenated encodings of a sequence of `(operation, body)` pairs,
/// each as one plain frame.
pub open spec fn spec_encode_all(pairs: Seq<(u32, Seq<u8>)>) -> Seq<u8>
    decreases pairs.len(),
{
    if pairs.len() == 0 {
        Seq::empty()
    } else {
        spec_encode(pairs[0].0, pairs[0].1) + spec_encode_all(pairs.drop_first())
    }
}

/// Whether every body in `pairs` fits a frame's 32-bit total length.
pub open spec fn spec_bodies_fit(pairs: Seq<(u32, Seq<u8>)>) -> bool {
    forall|i: int| 0 <= i < pairs.len() ==> 16 + (#[trigger] pairs[i]).1.len() <= u32::MAX
}

/// Decoding the concatenation of plainly encoded frames yields exactly
/// the original pairs, in order.
pub proof fn lemma_decode_concat(pairs: Seq<(u32, Seq<u8>)>, depth: nat)
    requires
        spec_bodies_fit(pairs),
    ensures
        spec_decode(spec_encode_all(pairs), depth) == Ok::<_, CodecError>(pairs),
    decreases pairs.len(),
{
    if pairs.len() == 0 {
        assert(spec_decode(spec_encode_all(pairs), depth) == Ok::<_, CodecError>(Seq::<(
            u32,
            Seq<u8>,
        )>::empty()));
        assert(pairs =~= Seq::<(u32, Seq<u8>)>::empty());
    } else {
        let rest = pairs.drop_first();
        assert(16 + pairs[0].1.len() <= u32::MAX);
        assert(spec_bodies_fit(rest)) by {
            assert(forall|i: int|
                0 <= i < rest.len() ==> #[trigger] rest[i] == pairs[i + 1]);
        }
        lemma_decode_concat(rest, depth);
        lemma_decode_step(pairs[0].0, VERSION_PLAIN, pairs[0].1, spec_encode_all(rest), depth);
        assert(seq![(pairs[0].0, pairs[0].1)] + rest =~= pairs);
    }
}

/// Flattening: a single compressed frame whose body inflates to the
/// concatenation of plainly encoded frames decodes to exactly those
/// pairs, in order, whatever operation code the wrapper frame carries.
pub proof fn lemma_flatten(
    wrapper_op: u32,
    z: Seq<u8>,
    pairs: Seq<(u32, Seq<u8>)>,
    depth: nat,
)
    requires
        16 + z.len() <= u32::MAX,
        zlib_inflate(z) == Some(spec_encode_all(pairs)),
        spec_bodies_fit(pairs),
        depth >= 1,
    ensures
        spec_decode(spec_frame(wrapper_op, VERSION_ZLIB, z), depth) == Ok::<_, CodecError>(pairs),
{
    lemma_decode_concat(pairs, (depth - 1) as nat);
    lemma_decode_step(wrapper_op, VERSION_ZLIB, z, Seq::empty(), depth);
    assert(spec_frame(wrapper_op, VERSION_ZLIB, z) + Seq::<u8>::empty() =~= spec_frame(
        wrapper_op,
        VERSION_ZLIB,
        z,
    ));
    assert(pairs + Seq::<(u32, Seq<u8>)>::empty() =~= pairs);
}

/// The error a decode owes when the stream of plainly encoded `pairs` is
/// cut after `k` bytes: `TruncatedHeader` where the cut falls inside a
/// frame's header, `TruncatedBody` inside a body, and `None` where it
/// falls on a frame boundary (so nothing is truncated at all).
pub open spec fn spec_cut_error(pairs: Seq<(u32, Seq<u8>)>, k: int) -> Option<CodecError>
    decreases pairs.len(),
{
    if pairs.len() == 0 || k <= 0 {
        Option::None
    } else if k < 16 {
        Option::Some(CodecError::TruncatedHeader)
    } else if k < 16 + pairs[0].1.len() {
        Option::Some(CodecError::TruncatedBody)
    } else {
        spec_cut_error(pairs.drop_first(), k - (16 + pairs[0].1.len()))
    }
}

/// Truncation safety: cutting the concatenation of plainly encoded
/// frames at any byte boundary strictly inside a header or a body makes
/// decode fail with the error variant matching the truncation point.
pub proof fn lemma_truncation(pairs: Seq<(u32, Seq<u8>)>, k: int, e: CodecError, depth: nat)
    requires
        spec_bodies_fit(pairs),
        0 <= k < spec_encode_all(pairs).len(),
        spec_cut_error(pairs, k) == Some(e),
    ensures
        spec_decode(spec_encode_all(pairs).subrange(0, k), depth) == Err::<
            Seq<(u32, Seq<u8>)>,
            CodecError,
        >(e),
    decreases pairs.len(),
{
    let s = spec_encode_all(pairs);
    let t = s.subrange(0, k);
    let body0 = pairs[0].1;
    let frame0 = spec_encode(pairs[0].0, body0);
    let frame0_len = 16 + body0.len() as int;
    assert(16 + body0.len() <= u32::MAX);
    assert(frame0.len() == frame0_len);
    let rest_all = spec_encode_all(pairs.drop_first());
    assert(s == frame0 + rest_all);
    if k < 16 {
        assert(t.len() == k);
        assert(0 < t.len() < 16);
    } else if k < frame0_len {
        assert(forall|i: int| 0 <= i < 16 ==> t[i] == #[trigger] frame0[i]);
        assert(forall|i: int|
            0 <= i < 16 ==> frame0[i] == #[trigger] spec_frame(
                pairs[0].0,
                VERSION_PLAIN,
                body0,
            )[i]);
        lemma_header_reads(t, pairs[0].0, VERSION_PLAIN, body0);
        let total = (16 + body0.len()) as u32;
        assert(total - HEADER_LENGTH == body0.len());
        assert(t.len() < 16 + body0.len());
    } else {
        let rest = pairs.drop_first();
        let k2 = k - frame0_len;
        assert(spec_bodies_fit(rest)) by {
            assert(forall|i: int| 0 <= i < rest.len() ==> #[trigger] rest[i] == pairs[i + 1]);
        }
        assert(spec_cut_error(rest, k2) == Some(e));
        assert(0 < k2) by {
            if k2 == 0 {
                assert(spec_cut_error(rest, 0) is None);
            }
        }
        assert(k2 < rest_all.len());
        lemma_truncation(rest, k2, e, depth);
        let rest_cut = rest_all.subrange(0, k2);
        assert(t =~= frame0 + rest_cut);
        lemma_decode_step(pairs[0].0, VERSION_PLAIN, body0, rest_cut, depth);
    }
}

} // verus!
