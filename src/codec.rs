//! Binary framing: a 24-byte header followed by the payload.
//!
//! Header layout: magic (4, big-endian), command (12, NUL-padded),
//! payload length (4, little-endian), checksum (4).
use vstd::prelude::*;
use vstd::utf8::{encode_utf8, is_ascii_chars, is_ascii_chars_encode_utf8, is_ascii_chars_nat_bound};
use crate::bytes::{lemma_be_u32_round_trip, be_u32, le_u32, push_all, push_be_u32, push_le_u32, read_be_u32, read_le_u32, u32_from_be, u32_from_le};
use crate::checksum::{calculate_checksum, checksum_of};
use crate::error::HandshakeError;
use crate::{Message, MessageView, TESTNET_MAGIC};

verus! {

/// Length of the fixed frame header.
pub const HEADER_LEN: usize = 24;

/// Width of the command field.
pub const COMMAND_LEN: usize = 12;

/// `b` cut or NUL-padded to exactly twelve bytes.
pub open spec fn pad_command(b: Seq<u8>) -> Seq<u8> {
    if b.len() >= 12 {
        b.subrange(0, 12)
    } else {
        b + Seq::new((12 - b.len()) as nat, |i: int| 0u8)
    }
}

/// `b` without its trailing NUL bytes.
pub open spec fn trim_nul(b: Seq<u8>) -> Seq<u8>
    decreases b.len(),
{
    if b.len() > 0 && b.last() == 0 {
        trim_nul(b.drop_last())
    } else {
        b
    }
}

/// The wire bytes of a message.
pub open spec fn encode(m: MessageView) -> Seq<u8> {
    be_u32(m.magic) + pad_command(encode_utf8(m.command)) + le_u32(m.payload.len() as u32)
        + m.checksum + m.payload
}

/// Payload length announced by a header.
pub open spec fn header_payload_len(f: Seq<u8>) -> nat {
    u32_from_le(f[16], f[17], f[18], f[19]) as nat
}

/// Network identifier announced by a header.
pub open spec fn header_magic(f: Seq<u8>) -> u32 {
    u32_from_be(f[0], f[1], f[2], f[3])
}

/// Whether `f` holds a whole header and the whole payload it announces.
pub open spec fn frame_complete(f: Seq<u8>) -> bool {
    f.len() >= 24 && f.len() - 24 >= header_payload_len(f)
}

/// The payload of a complete frame.
pub open spec fn frame_payload(f: Seq<u8>) -> Seq<u8> {
    f.subrange(24, 24 + header_payload_len(f) as int)
}

/// Whether every byte of `b` is ASCII.
pub open spec fn all_ascii(b: Seq<u8>) -> bool {
    forall|i: int| 0 <= i < b.len() ==> b[i] < 128
}

/// ASCII bytes read as characters, one each.
pub open spec fn ascii_text(b: Seq<u8>) -> Seq<char> {
    Seq::new(b.len(), |i: int| b[i] as char)
}

/// Text of the bytes `b`: ASCII is read as it is, anything else goes through
/// lossy UTF-8 decoding.
pub open spec fn text_of(b: Seq<u8>) -> Seq<char> {
    if all_ascii(b) {
        ascii_text(b)
    } else {
        utf8_lossy_of(b)
    }
}

/// The text of the command field of a frame, without its NUL padding.
pub open spec fn frame_command(f: Seq<u8>) -> Seq<char> {
    text_of(trim_nul(f.subrange(4, 16)))
}

/// What decoding the bytes `f` yields: read failures first, then the magic,
/// then the checksum.
pub open spec fn decoded(f: Seq<u8>) -> Result<MessageView, HandshakeError> {
    if !frame_complete(f) {
        Err(HandshakeError::ShortRead)
    } else if header_magic(f) != TESTNET_MAGIC {
        Err(HandshakeError::BadMagic)
    } else if f.subrange(20, 24) != checksum_of(frame_payload(f)) {
        Err(HandshakeError::ChecksumMismatch)
    } else {
        Ok(
            MessageView {
                magic: header_magic(f),
                command: frame_command(f),
                payload: frame_payload(f),
                checksum: f.subrange(20, 24),
            },
        )
    }
}

/// The text that lossy UTF-8 decoding makes of `b`.
pub uninterp spec fn utf8_lossy_of(b: Seq<u8>) -> Seq<char>;

/// Relies on `String::from_utf8_lossy`: the text depends on the bytes alone,
/// and valid UTF-8, ASCII in particular, is kept as it is.
#[verifier::external_body]
fn utf8_lossy(b: &[u8]) -> (r: String)
    ensures
        r@ == utf8_lossy_of(b@),
        all_ascii(b@) ==> r@ == ascii_text(b@),
{
    String::from_utf8_lossy(b).into_owned()
}

/// Serializes a message into its wire frame.
pub fn send_message(msg: &Message) -> (r: Vec<u8>)
    ensures
        r@ == encode(msg@),
{
    let mut buf: Vec<u8> = Vec::new();
    push_be_u32(&mut buf, msg.magic);
    let cb = msg.command.as_str().as_bytes();
    let ghost field = pad_command(encode_utf8(msg.command@));
    let mut i: usize = 0;
    while i < COMMAND_LEN
        invariant
            0 <= i <= 12,
            cb@ == encode_utf8(msg.command@),
            field == pad_command(cb@),
            buf@ == be_u32(msg.magic) + field.subrange(0, i as int),
        decreases 12 - i,
    {
        if i < cb.len() {
            buf.push(cb[i]);
        } else {
            buf.push(0u8);
        }
        i = i + 1;
        assert(buf@ =~= be_u32(msg.magic) + field.subrange(0, i as int));
    }
    assert(field.subrange(0, 12) =~= field);
    push_le_u32(&mut buf, msg.payload.len() as u32);
    let mut k: usize = 0;
    while k < 4
        invariant
            0 <= k <= 4,
            buf@ == be_u32(msg.magic) + field + le_u32(msg.payload@.len() as u32)
                + msg.checksum@.subrange(0, k as int),
        decreases 4 - k,
    {
        buf.push(msg.checksum[k]);
        k = k + 1;
        assert(buf@ =~= be_u32(msg.magic) + field + le_u32(msg.payload@.len() as u32)
            + msg.checksum@.subrange(0, k as int));
    }
    assert(msg.checksum@.subrange(0, 4) =~= msg.checksum@);
    push_all(&mut buf, msg.payload.as_slice());
    buf
}

/// Payload length announced by a frame header.
pub fn payload_length(header: &[u8]) -> (r: u32)
    requires
        header@.len() >= 24,
    ensures
        r as nat == header_payload_len(header@),
{
    read_le_u32(header[16], header[17], header[18], header[19])
}

/// Decodes one frame from `frame`: the 24-byte header, then the payload it
/// announces. Bytes past the payload are not read.
pub fn decode_message(frame: &[u8]) -> (r: Result<Message, HandshakeError>)
    ensures
        match r {
            Ok(m) => decoded(frame@) == Ok::<MessageView, HandshakeError>(m@),
            Err(e) => decoded(frame@) == Err::<MessageView, HandshakeError>(e),
        },
{
    if frame.len() < HEADER_LEN {
        return Err(HandshakeError::ShortRead);
    }
    let len = payload_length(frame);
    if frame.len() - HEADER_LEN < len as usize {
        return Err(HandshakeError::ShortRead);
    }
    let magic = read_be_u32(frame[0], frame[1], frame[2], frame[3]);
    if magic != TESTNET_MAGIC {
        return Err(HandshakeError::BadMagic);
    }
    let end = HEADER_LEN + len as usize;
    let mut payload: Vec<u8> = Vec::new();
    let mut i: usize = HEADER_LEN;
    while i < end
        invariant
            HEADER_LEN <= i <= end <= frame@.len(),
            end == 24 + header_payload_len(frame@),
            payload@ == frame@.subrange(24, i as int),
        decreases end - i,
    {
        payload.push(frame[i]);
        i = i + 1;
        assert(payload@ =~= frame@.subrange(24, i as int));
    }
    let sum = calculate_checksum(payload.as_slice());
    let header_sum = [frame[20], frame[21], frame[22], frame[23]];
    assert(header_sum@ =~= frame@.subrange(20, 24));
    if header_sum[0] != sum[0] || header_sum[1] != sum[1] || header_sum[2] != sum[2]
        || header_sum[3] != sum[3] {
        assert(header_sum@ != sum@) by {
            if header_sum@ == sum@ {
                assert(header_sum@[0] == sum@[0] && header_sum@[1] == sum@[1]);
                assert(header_sum@[2] == sum@[2] && header_sum@[3] == sum@[3]);
            }
        }
        return Err(HandshakeError::ChecksumMismatch);
    }
    assert(header_sum@ =~= sum@);
    let ghost field = frame@.subrange(4, 16);
    let mut cut: usize = COMMAND_LEN;
    assert(field.subrange(0, 12) =~= field);
    while cut > 0 && frame[3 + cut] == 0
        invariant
            0 <= cut <= 12,
            frame@.len() >= 24,
            field == frame@.subrange(4, 16),
            trim_nul(field) == trim_nul(field.subrange(0, cut as int)),
        decreases cut,
    {
        assert(field.subrange(0, cut as int).drop_last() =~= field.subrange(0, cut - 1));
        cut = cut - 1;
    }
    let mut name: Vec<u8> = Vec::new();
    let mut j: usize = 0;
    while j < cut
        invariant
            0 <= j <= cut <= 12,
            frame@.len() >= 24,
            field == frame@.subrange(4, 16),
            name@ == field.subrange(0, j as int),
        decreases cut - j,
    {
        name.push(frame[4 + j]);
        j = j + 1;
        assert(name@ =~= field.subrange(0, j as int));
    }
    assert(trim_nul(field) == name@);
    let command = utf8_lossy(name.as_slice());
    Ok(Message { magic, command, payload, checksum: header_sum })
}

/// A frame built from `magic`, `command`, `payload` and a four-byte `sum`.
pub open spec fn message_of(magic: u32, command: Seq<char>, payload: Seq<u8>, sum: Seq<u8>) -> MessageView {
    MessageView { magic, command, payload, checksum: sum }
}

proof fn lemma_trim_padding(b: Seq<u8>, n: nat)
    requires
        b.len() == 0 || b.last() != 0,
    ensures
        trim_nul(b + Seq::new(n, |i: int| 0u8)) == b,
    decreases n,
{
    let z = Seq::new(n, |i: int| 0u8);
    if n == 0 {
        assert(b + z =~= b);
    } else {
        let z1 = Seq::new((n - 1) as nat, |i: int| 0u8);
        assert((b + z).drop_last() =~= b + z1);
        lemma_trim_padding(b, (n - 1) as nat);
    }
}

proof fn lemma_header_fields(m: MessageView)
    requires
        m.payload.len() <= u32::MAX,
        m.checksum.len() == 4,
    ensures
        encode(m).len() == 24 + m.payload.len(),
        frame_complete(encode(m)),
        header_magic(encode(m)) == m.magic,
        header_payload_len(encode(m)) == m.payload.len(),
        frame_payload(encode(m)) == m.payload,
        encode(m).subrange(20, 24) == m.checksum,
        encode(m).subrange(4, 16) == pad_command(encode_utf8(m.command)),
{
    let f = encode(m);
    let n = m.payload.len() as u32;
    let field = pad_command(encode_utf8(m.command));
    assert(field.len() == 12);
    lemma_be_u32_round_trip(m.magic);
    lemma_be_u32_round_trip(n);
    assert(f[0] == be_u32(m.magic)[0] && f[1] == be_u32(m.magic)[1]);
    assert(f[2] == be_u32(m.magic)[2] && f[3] == be_u32(m.magic)[3]);
    assert(f[16] == le_u32(n)[0] && f[17] == le_u32(n)[1]);
    assert(f[18] == le_u32(n)[2] && f[19] == le_u32(n)[3]);
    assert(f.subrange(24, 24 + m.payload.len() as int) =~= m.payload);
    assert(f.subrange(20, 24) =~= m.checksum);
    assert(f.subrange(4, 16) =~= field);
}

proof fn lemma_command_round_trip(c: Seq<char>)
    requires
        is_ascii_chars(c),
        c.len() <= 12,
        c.len() == 0 || c.last() != '\0',
    ensures
        text_of(trim_nul(pad_command(encode_utf8(c)))) == c,
{
    is_ascii_chars_encode_utf8(c);
    is_ascii_chars_nat_bound(c);
    let b = encode_utf8(c);
    assert(b.len() == c.len());
    assert(forall|i: int| 0 <= i < b.len() ==> b[i] == c[i] as u8);
    if b.len() > 0 {
        assert(c.last() as u32 != 0);
        assert(b.last() != 0);
    }
    lemma_trim_padding(b, (12 - b.len()) as nat);
    assert(pad_command(b) == b + Seq::new((12 - b.len()) as nat, |i: int| 0u8));
    assert(forall|i: int| 0 <= i < b.len() ==> b[i] < 128);
    assert(forall|i: int| 0 <= i < b.len() ==> b[i] as u32 == c[i] as u32);
    assert(ascii_text(b) =~= c);
}

/// Round trip: the frame of a message with our network identifier, an ASCII
/// command of at most twelve characters that does not end in NUL, and a
/// four-byte checksum decodes to that same message when the checksum is the
/// one of the payload, and to a checksum mismatch otherwise.
pub proof fn lemma_round_trip(command: Seq<char>, payload: Seq<u8>, sum: Seq<u8>)
    requires
        is_ascii_chars(command),
        command.len() <= 12,
        command.len() == 0 || command.last() != '\0',
        payload.len() <= u32::MAX,
        sum.len() == 4,
    ensures
        sum == checksum_of(payload) ==> decoded(encode(message_of(TESTNET_MAGIC, command, payload, sum)))
            == Ok::<MessageView, HandshakeError>(message_of(TESTNET_MAGIC, command, payload, sum)),
        sum != checksum_of(payload) ==> decoded(encode(message_of(TESTNET_MAGIC, command, payload, sum)))
            == Err::<MessageView, HandshakeError>(HandshakeError::ChecksumMismatch),
{
    let m = message_of(TESTNET_MAGIC, command, payload, sum);
    lemma_header_fields(m);
    lemma_command_round_trip(command);
}

/// A frame whose network identifier is not ours is rejected as such, whatever
/// its command, payload and checksum.
pub proof fn lemma_bad_magic_rejected(magic: u32, command: Seq<char>, payload: Seq<u8>, sum: Seq<u8>)
    requires
        magic != TESTNET_MAGIC,
        payload.len() <= u32::MAX,
        sum.len() == 4,
    ensures
        decoded(encode(message_of(magic, command, payload, sum))) == Err::<MessageView, HandshakeError>(
            HandshakeError::BadMagic,
        ),
{
    lemma_header_fields(message_of(magic, command, payload, sum));
}

/// Flipping one bit of a transmitted payload, and leaving the header as it
/// was, yields the frame of a different payload under the old checksum; it is
/// rejected with a checksum mismatch unless that checksum also fits the
/// altered payload.
pub proof fn lemma_flipped_bit_rejected(command: Seq<char>, payload: Seq<u8>, sum: Seq<u8>, i: int, bit: u8)
    requires
        payload.len() <= u32::MAX,
        sum.len() == 4,
        0 <= i < payload.len(),
        bit < 8,
    ensures
        ({
            let f = encode(message_of(TESTNET_MAGIC, command, payload, sum));
            let flipped = f.update(24 + i, f[24 + i] ^ (1u8 << bit));
            let altered = payload.update(i, payload[i] ^ (1u8 << bit));
            &&& altered != payload
            &&& flipped == encode(message_of(TESTNET_MAGIC, command, altered, sum))
            &&& sum != checksum_of(altered) ==> decoded(flipped) == Err::<MessageView, HandshakeError>(
                HandshakeError::ChecksumMismatch,
            )
        }),
{
    let m = message_of(TESTNET_MAGIC, command, payload, sum);
    let f = encode(m);
    let x = payload[i];
    let altered = payload.update(i, x ^ (1u8 << bit));
    let m2 = message_of(TESTNET_MAGIC, command, altered, sum);
    assert(x ^ (1u8 << bit) != x) by (bit_vector)
        requires
            bit < 8,
    ;
    assert(altered[i] != payload[i]);
    lemma_header_fields(m);
    lemma_header_fields(m2);
    let field = pad_command(encode_utf8(command));
    assert(f =~= be_u32(TESTNET_MAGIC) + field + le_u32(payload.len() as u32) + sum + payload);
    assert(f[24 + i] == x);
    assert(f.update(24 + i, f[24 + i] ^ (1u8 << bit)) =~= encode(m2));
}

} // verus!
