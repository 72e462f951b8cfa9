//! The byte frames of the two probes: the variable-length numbers and the
//! packets of the status ping, and the packets of the remote console.
use vstd::prelude::*;

verus! {

/// The variable-length encoding of a number: seven bits to a byte, the low
/// bits first, every byte but the last with its high bit set.
pub open spec fn varint(n: nat) -> Seq<u8>
    decreases n,
{
    if n < 128 {
        seq![n as u8]
    } else {
        seq![(n % 128 + 128) as u8] + varint(n / 128)
    }
}

/// The number of bytes of the variable-length number that `b` starts with:
/// up to and with the first byte whose high bit is clear. `None` where `b`
/// ends before such a byte, or holds none among its first five.
pub open spec fn varint_len(b: Seq<u8>) -> Option<nat>
    decreases b.len(),
{
    varint_len_within(b, 5)
}

/// As `varint_len`, with at most `limit` bytes to the number.
pub open spec fn varint_len_within(b: Seq<u8>, limit: nat) -> Option<nat>
    decreases limit,
{
    if limit == 0 || b.len() == 0 {
        None
    } else if b[0] < 128 {
        Some(1)
    } else {
        match varint_len_within(b.drop_first(), (limit - 1) as nat) {
            Some(n) => Some(n + 1),
            None => None,
        }
    }
}

/// The number that the first `len` bytes of `b` spell.
pub open spec fn varint_value(b: Seq<u8>, len: nat) -> nat
    decreases len,
{
    if len == 0 || b.len() == 0 {
        0
    } else {
        (b[0] % 128) as nat + 128 * varint_value(b.drop_first(), (len - 1) as nat)
    }
}

/// What reading a variable-length number from the start of `b` gives: the
/// number and how many bytes spelled it. `None` where `b` starts with no
/// such number, or with one beyond 32 bits.
pub open spec fn varint_read(b: Seq<u8>) -> Option<(u32, nat)> {
    match varint_len(b) {
        Some(len) => if varint_value(b, len) <= u32::MAX {
            Some((varint_value(b, len) as u32, len))
        } else {
            None
        },
        None => None,
    }
}

/// Appends the variable-length encoding of `n` to `out`.
pub fn push_varint(out: &mut Vec<u8>, n: u32)
    ensures
        final(out)@ == old(out)@ + varint(n as nat),
{
    let mut m: u32 = n;
    while m >= 128
        invariant
            out@ + varint(m as nat) == old(out)@ + varint(n as nat),
        decreases m,
    {
        let low: u8 = (m % 128 + 128) as u8;
        out.push(low);
        m = m / 128;
    }
    out.push(m as u8);
}

/// The `i`th power of 128.
pub open spec fn pow128(i: nat) -> nat
    decreases i,
{
    if i == 0 {
        1
    } else {
        128 * pow128((i - 1) as nat)
    }
}

/// One more byte adds its low seven bits at the next power of 128.
proof fn lemma_varint_value_step(b: Seq<u8>, i: nat)
    requires
        i < b.len(),
    ensures
        varint_value(b, i + 1) == varint_value(b, i) + pow128(i) * ((b[i as int] % 128) as nat),
    decreases i,
{
    if i > 0 {
        let t = b.drop_first();
        lemma_varint_value_step(t, (i - 1) as nat);
        let d = (b[i as int] % 128) as nat;
        let p = pow128((i - 1) as nat);
        assert(varint_value(b, i) == (b[0] % 128) as nat + 128 * varint_value(
            t,
            (i - 1) as nat,
        ));
        assert(128 * (varint_value(t, (i - 1) as nat) + p * d) == 128 * varint_value(
            t,
            (i - 1) as nat,
        ) + (128 * p) * d) by (nonlinear_arith);
    } else {
        assert(varint_value(b, 1) == (b[0] % 128) as nat + 128 * varint_value(b.drop_first(), 0));
        assert(pow128(0) * ((b[0] % 128) as nat) == (b[0] % 128) as nat) by (nonlinear_arith)
            requires
                pow128(0) == 1,
        ;
    }
}

/// Where the first `k` bytes have their high bit set, the number's length is
/// decided by what follows them.
proof fn lemma_varint_len_after(b: Seq<u8>, limit: nat, k: nat)
    requires
        k <= b.len(),
        k <= limit,
        forall|j: int| 0 <= j < k ==> b[j] >= 128,
    ensures
        varint_len_within(b, limit) == match varint_len_within(
            b.skip(k as int),
            (limit - k) as nat,
        ) {
            Some(n) => Some(n + k),
            None => None,
        },
    decreases k,
{
    if k == 0 {
        assert(b.skip(0) =~= b);
    } else {
        let t = b.drop_first();
        lemma_varint_len_after(t, (limit - 1) as nat, (k - 1) as nat);
        assert(t.skip(k - 1) =~= b.skip(k as int));
    }
}

/// Reads a variable-length number at `from`.
pub fn read_varint(bytes: &Vec<u8>, from: usize) -> (r: Option<(u32, usize)>)
    requires
        from <= bytes.len(),
    ensures
        match r {
            Some((n, used)) => varint_read(bytes@.skip(from as int)) == Some((n, used as nat))
                && from + used <= bytes.len(),
            None => varint_read(bytes@.skip(from as int)) is None,
        },
{
    let ghost b = bytes@.skip(from as int);
    let mut value: u64 = 0;
    let mut scale: u64 = 1;
    let mut i: usize = 0;
    while i < 5 && i < bytes.len() - from
        invariant
            i <= 5,
            from + i <= bytes.len(),
            b == bytes@.skip(from as int),
            scale == pow128(i as nat),
            value == varint_value(b, i as nat),
            value < scale,
            forall|j: int| 0 <= j < i ==> b[j] >= 128,
        decreases 5 - i,
    {
        let byte = bytes[from + i];
        let ghost old_value = value;
        let ghost old_scale = scale;
        proof {
            reveal_with_fuel(pow128, 7);
            lemma_varint_value_step(b, i as nat);
            assert(old_value + old_scale * ((byte % 128) as nat) < old_scale * 128) by (nonlinear_arith)
                requires
                    old_value < old_scale,
                    (byte % 128) < 128,
            ;
        }
        value = value + scale * ((byte % 128) as u64);
        scale = scale * 128;
        if byte < 128 {
            proof {
                lemma_varint_len_after(b, 5, i as nat);
            }
            if value > 0xffff_ffff {
                return None;
            }
            return Some((value as u32, i + 1));
        }
        i += 1;
    }
    proof {
        lemma_varint_len_after(b, 5, i as nat);
    }
    None
}

/// A number below the `limit`th power of 128 is written in at most `limit`
/// bytes and read back as it was, whatever follows it.
proof fn lemma_varint_within(n: nat, rest: Seq<u8>, limit: nat)
    requires
        limit >= 1,
        n < pow128(limit),
    ensures
        varint(n).len() <= limit,
        varint_len_within(varint(n) + rest, limit) == Some(varint(n).len()),
        varint_value(varint(n) + rest, varint(n).len()) == n,
    decreases n,
{
    let b = varint(n) + rest;
    if n < 128 {
        assert(varint_value(b.drop_first(), 0) == 0);
    } else {
        assert(limit > 1) by {
            reveal_with_fuel(pow128, 2);
        }
        let m = n / 128;
        lemma_varint_within(m, rest, (limit - 1) as nat);
        assert(b.drop_first() =~= varint(m) + rest);
    }
}

/// Reading is the inverse of writing: a 32-bit number that was written is
/// read back as it was, with the bytes that follow it left over.
pub proof fn lemma_varint_round_trip(n: u32, rest: Seq<u8>)
    ensures
        varint_read(varint(n as nat) + rest) == Some((n, varint(n as nat).len())),
        1 <= varint(n as nat).len() <= 5,
{
    reveal_with_fuel(pow128, 6);
    lemma_varint_within(n as nat, rest, 5);
}

/// The longest host name that a handshake carries, in bytes.
pub const MAX_HOST_BYTES: usize = 255;

/// The longest payload of a console packet, in bytes.
pub const MAX_PAYLOAD_BYTES: usize = 4096;

/// The kind of the console packet that signs in.
pub const KIND_AUTH: u32 = 3;

/// The kind of the console packet that carries a command, and of the one
/// that answers a sign-in.
pub const KIND_COMMAND: u32 = 2;

/// The kind of the console packet that answers a command.
pub const KIND_REPLY: u32 = 0;

/// A packet body behind its length.
pub open spec fn framed(body: Seq<u8>) -> Seq<u8> {
    varint(body.len()) + body
}

/// The two bytes of a port, the high one first.
pub open spec fn port_bytes(port: u16) -> Seq<u8> {
    seq![(port / 256) as u8, (port % 256) as u8]
}

/// The handshake that opens a status ping: packet number zero, the protocol
/// version, the host name behind its length, the port, and the wish for the
/// status.
pub open spec fn handshake(protocol: u32, host: Seq<u8>, port: u16) -> Seq<u8> {
    framed(
        seq![0u8] + varint(protocol as nat) + framed(host) + port_bytes(port) + varint(1),
    )
}

/// The request that follows the handshake: an empty packet number zero.
pub open spec fn status_request() -> Seq<u8> {
    seq![1u8, 0u8]
}

fn push_bytes(out: &mut Vec<u8>, bytes: &Vec<u8>)
    ensures
        final(out)@ == old(out)@ + bytes@,
{
    let mut i: usize = 0;
    while i < bytes.len()
        invariant
            i <= bytes.len(),
            out@ == old(out)@ + bytes@.take(i as int),
        decreases bytes.len() - i,
    {
        out.push(bytes[i]);
        i += 1;
    }
}

/// The bytes that open a status ping of `host` at `port`: the handshake and
/// the status request. `None` where the host name is longer than a handshake
/// carries.
pub fn ping_request(protocol: u32, host: &Vec<u8>, port: u16) -> (r: Option<Vec<u8>>)
    ensures
        r is Some <==> host.len() <= MAX_HOST_BYTES,
        r is Some ==> r->0@ == handshake(protocol, host@, port) + status_request(),
{
    if host.len() > MAX_HOST_BYTES {
        return None;
    }
    let mut body: Vec<u8> = Vec::new();
    body.push(0u8);
    push_varint(&mut body, protocol);
    push_varint(&mut body, host.len() as u32);
    push_bytes(&mut body, host);
    body.push((port / 256) as u8);
    body.push((port % 256) as u8);
    push_varint(&mut body, 1);
    assert(body@ =~= seq![0u8] + varint(protocol as nat) + framed(host@) + port_bytes(port)
        + varint(1));
    proof {
        lemma_varint_round_trip(protocol, Seq::empty());
        lemma_varint_round_trip(host.len() as u32, Seq::empty());
        lemma_varint_round_trip(1, Seq::empty());
    }
    let mut out: Vec<u8> = Vec::new();
    push_varint(&mut out, body.len() as u32);
    push_bytes(&mut out, &body);
    out.push(1u8);
    out.push(0u8);
    Some(out)
}

/// Where the status text lies in the body of a status reply: behind packet
/// number zero and the text's length. `None` where the body is no such
/// reply, or ends before the text does.
pub open spec fn status_span(body: Seq<u8>) -> Option<(nat, nat)> {
    match varint_read(body) {
        Some((number, a)) => match varint_read(body.skip(a as int)) {
            Some((len, b)) => if number == 0 && a + b + len <= body.len() {
                Some((a + b, (a + b + len) as nat))
            } else {
                None
            },
            None => None,
        },
        None => None,
    }
}

/// Where the status text lies in the body of a status reply.
pub fn status_text_span(body: &Vec<u8>) -> (r: Option<(usize, usize)>)
    ensures
        match r {
            Some((from, to)) => status_span(body@) == Some((from as nat, to as nat)) && from <= to
                <= body.len(),
            None => status_span(body@) is None,
        },
{
    assert(body@.skip(0) =~= body@);
    let (number, a) = match read_varint(body, 0) {
        Some(pair) => pair,
        None => {
            return None;
        },
    };
    let (len, b) = match read_varint(body, a) {
        Some(pair) => pair,
        None => {
            return None;
        },
    };
    if number != 0 {
        return None;
    }
    let start: usize = a + b;
    if len as usize > body.len() - start {
        return None;
    }
    Some((start, start + len as usize))
}

/// The four bytes of a 32-bit number, the low one first.
pub open spec fn le32(n: u32) -> Seq<u8> {
    seq![
        (n % 256) as u8,
        (n / 256 % 256) as u8,
        (n / 65536 % 256) as u8,
        (n / 16777216) as u8,
    ]
}

/// The number that four bytes spell, the low one first.
pub open spec fn le32_value(b: Seq<u8>) -> nat {
    (b[0] + 256 * b[1] + 65536 * b[2] + 16777216 * b[3]) as nat
}

/// Four bytes spell the number that they were written from.
pub proof fn lemma_le32_round_trip(n: u32)
    ensures
        le32(n).len() == 4,
        le32_value(le32(n)) == n,
{
}

/// A console packet: its size, its number, its kind, its payload and two
/// zero bytes. The size counts all that follows it.
pub open spec fn console_packet(id: u32, kind: u32, payload: Seq<u8>) -> Seq<u8> {
    le32((payload.len() + 10) as u32) + le32(id) + le32(kind) + payload + seq![0u8, 0u8]
}

fn push_le32(out: &mut Vec<u8>, n: u32)
    ensures
        final(out)@ == old(out)@ + le32(n),
{
    out.push((n % 256) as u8);
    out.push((n / 256 % 256) as u8);
    out.push((n / 65536 % 256) as u8);
    out.push((n / 16777216) as u8);
}

fn read_le32(bytes: &Vec<u8>, from: usize) -> (r: u32)
    requires
        from + 4 <= bytes.len(),
    ensures
        r == le32_value(bytes@.subrange(from as int, from + 4)),
{
    let a = bytes[from] as u32;
    let b = bytes[from + 1] as u32;
    let c = bytes[from + 2] as u32;
    let d = bytes[from + 3] as u32;
    a + 256 * b + 65536 * c + 16777216 * d
}

/// The bytes of a console packet. `None` where the payload is longer than a
/// packet carries.
pub fn build_console_packet(id: u32, kind: u32, payload: &Vec<u8>) -> (r: Option<Vec<u8>>)
    ensures
        r is Some <==> payload.len() <= MAX_PAYLOAD_BYTES,
        r is Some ==> r->0@ == console_packet(id, kind, payload@),
{
    if payload.len() > MAX_PAYLOAD_BYTES {
        return None;
    }
    let mut out: Vec<u8> = Vec::new();
    push_le32(&mut out, (payload.len() + 10) as u32);
    push_le32(&mut out, id);
    push_le32(&mut out, kind);
    push_bytes(&mut out, payload);
    out.push(0u8);
    out.push(0u8);
    Some(out)
}

/// What follows the size of a console packet is at least its number, its
/// kind and the two zero bytes, and at most a full payload more.
pub open spec fn frame_size_of(header: Seq<u8>) -> Option<nat> {
    if header.len() == 4 && 10 <= le32_value(header) <= MAX_PAYLOAD_BYTES + 10 {
        Some(le32_value(header))
    } else {
        None
    }
}

/// How many bytes follow the four bytes of a console packet's size. `None`
/// where these are not four bytes, or spell a size that no packet has.
pub fn frame_size(header: &Vec<u8>) -> (r: Option<usize>)
    ensures
        match r {
            Some(n) => frame_size_of(header@) == Some(n as nat),
            None => frame_size_of(header@) is None,
        },
{
    if header.len() != 4 {
        return None;
    }
    let n = read_le32(header, 0);
    if n < 10 || n as usize > MAX_PAYLOAD_BYTES + 10 {
        return None;
    }
    Some(n as usize)
}

/// What a console packet says, its size set aside.
#[derive(Debug)]
pub struct ConsoleReply {
    pub id: u32,
    pub kind: u32,
    pub body: Vec<u8>,
}

pub struct ConsoleReplyView {
    pub id: u32,
    pub kind: u32,
    pub body: Seq<u8>,
}

impl View for ConsoleReply {
    type V = ConsoleReplyView;

    open spec fn view(&self) -> ConsoleReplyView {
        ConsoleReplyView { id: self.id, kind: self.kind, body: self.body@ }
    }
}

/// What the bytes behind a console packet's size say: number, kind, and the
/// payload up to the two zero bytes that must end it.
pub open spec fn frame_told(frame: Seq<u8>) -> Option<ConsoleReplyView> {
    if frame.len() >= 10 && frame[frame.len() - 2] == 0 && frame[frame.len() - 1] == 0 {
        Some(
            ConsoleReplyView {
                id: le32_value(frame.subrange(0, 4)) as u32,
                kind: le32_value(frame.subrange(4, 8)) as u32,
                body: frame.subrange(8, frame.len() - 2),
            },
        )
    } else {
        None
    }
}

/// Reads the bytes behind a console packet's size.
pub fn parse_frame(frame: &Vec<u8>) -> (r: Option<ConsoleReply>)
    ensures
        match r {
            Some(reply) => frame_told(frame@) == Some(reply@),
            None => frame_told(frame@) is None,
        },
{
    let n = frame.len();
    if n < 10 || frame[n - 2] != 0 || frame[n - 1] != 0 {
        return None;
    }
    let id = read_le32(frame, 0);
    let kind = read_le32(frame, 4);
    let mut body: Vec<u8> = Vec::new();
    let mut i: usize = 8;
    while i < n - 2
        invariant
            8 <= i <= n - 2,
            n == frame.len(),
            body@ == frame@.subrange(8, i as int),
        decreases n - i,
    {
        body.push(frame[i]);
        i += 1;
    }
    Some(ConsoleReply { id, kind, body })
}

/// A packet is read back as it was written: its first four bytes tell the
/// size of the rest, and the rest tells number, kind and payload.
pub proof fn lemma_console_round_trip(id: u32, kind: u32, payload: Seq<u8>)
    requires
        payload.len() <= MAX_PAYLOAD_BYTES,
    ensures
        frame_size_of(console_packet(id, kind, payload).take(4)) == Some(payload.len() + 10),
        console_packet(id, kind, payload).skip(4).len() == payload.len() + 10,
        frame_told(console_packet(id, kind, payload).skip(4)) == Some(
            ConsoleReplyView { id: id, kind: kind, body: payload },
        ),
{
    let p = console_packet(id, kind, payload);
    let f = p.skip(4);
    lemma_le32_round_trip((payload.len() + 10) as u32);
    lemma_le32_round_trip(id);
    lemma_le32_round_trip(kind);
    assert(f.subrange(8, f.len() - 2) =~= payload);
}

/// Whether a sign-in was accepted: the answer is of the answering kind and
/// bears the number of the request. A refusal bears another number.
pub open spec fn accepted(reply: ConsoleReplyView, request_id: u32) -> bool {
    reply.kind == KIND_COMMAND && reply.id == request_id
}

/// Whether a sign-in was accepted.
pub fn auth_accepted(reply: &ConsoleReply, request_id: u32) -> (r: bool)
    ensures
        r == accepted(reply@, request_id),
{
    reply.kind == KIND_COMMAND && reply.id == request_id
}

} // verus!
