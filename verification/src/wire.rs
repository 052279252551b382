//! The wire format shared by clients and the controller: an eight-byte
//! big-endian size prefix in front of a body, and the case-insensitive
//! comparison a client uses to accept an echoed reply.

use vstd::prelude::*;

verus! {

/// Number of bytes of the size prefix.
pub const PREFIX_LEN: usize = 8;

/// The value of eight bytes read as a big-endian unsigned number.
pub open spec fn be_value(b: Seq<u8>) -> int
    recommends
        b.len() == 8,
{
    b[0] * 0x100000000000000 + b[1] * 0x1000000000000 + b[2] * 0x10000000000 + b[3] * 0x100000000
        + b[4] * 0x1000000 + b[5] * 0x10000 + b[6] * 0x100 + b[7]
}

/// The eight big-endian bytes of `n`, most significant first.
pub open spec fn be_bytes(n: u64) -> Seq<u8> {
    seq![
        (n / 0x100000000000000 % 0x100) as u8,
        (n / 0x1000000000000 % 0x100) as u8,
        (n / 0x10000000000 % 0x100) as u8,
        (n / 0x100000000 % 0x100) as u8,
        (n / 0x1000000 % 0x100) as u8,
        (n / 0x10000 % 0x100) as u8,
        (n / 0x100 % 0x100) as u8,
        (n % 0x100) as u8,
    ]
}

/// A body preceded by the size prefix of `size`.
pub open spec fn framed(size: u64, body: Seq<u8>) -> Seq<u8> {
    be_bytes(size) + body
}

/// The size prefix and the rest of a message, when it holds a whole prefix.
pub open spec fn split_spec(msg: Seq<u8>) -> Option<(int, Seq<u8>)> {
    if msg.len() < 8 {
        None
    } else {
        Some((be_value(msg.take(8)), msg.skip(8)))
    }
}

/// The ASCII lower-case form of a byte; other bytes are left alone.
pub open spec fn ascii_lower(b: u8) -> u8 {
    if 65 <= b <= 90 {
        (b + 32) as u8
    } else {
        b
    }
}

/// Two byte strings that differ at most in the case of ASCII letters.
pub open spec fn eq_ignore_case_spec(a: Seq<u8>, b: Seq<u8>) -> bool {
    &&& a.len() == b.len()
    &&& forall|i: int| 0 <= i < a.len() ==> ascii_lower(#[trigger] a[i]) == ascii_lower(b[i])
}

proof fn lemma_bytes_value(n: u64)
    ensures
        be_value(be_bytes(n)) == n,
{
    let b = be_bytes(n);
    assert(b[0] * 0x100000000000000 + b[1] * 0x1000000000000 + b[2] * 0x10000000000 + b[3]
        * 0x100000000 + b[4] * 0x1000000 + b[5] * 0x10000 + b[6] * 0x100 + b[7] == n) by {
        assert(((n / 0x100000000000000 % 0x100) as u8) * 0x100000000000000 + ((n / 0x1000000000000
            % 0x100) as u8) * 0x1000000000000 + ((n / 0x10000000000 % 0x100) as u8) * 0x10000000000
            + ((n / 0x100000000 % 0x100) as u8) * 0x100000000 + ((n / 0x1000000 % 0x100) as u8)
            * 0x1000000 + ((n / 0x10000 % 0x100) as u8) * 0x10000 + ((n / 0x100 % 0x100) as u8)
            * 0x100 + ((n % 0x100) as u8) == n) by (bit_vector);
    }
}

/// The size prefix of `n` reads back as `n`.
pub proof fn lemma_prefix_roundtrip(n: u64)
    ensures
        be_value(be_bytes(n)) == n,
        be_bytes(n).len() == 8,
{
    lemma_bytes_value(n);
}

/// Eight bytes read as a size and written back give the same eight bytes.
pub proof fn lemma_value_roundtrip(b: Seq<u8>)
    requires
        b.len() == 8,
    ensures
        0 <= be_value(b) <= u64::MAX,
        be_bytes(be_value(b) as u64) == b,
{
    let (b0, b1, b2, b3, b4, b5, b6, b7) = (b[0], b[1], b[2], b[3], b[4], b[5], b[6], b[7]);
    assert(b0 * 0x100000000000000 + b1 * 0x1000000000000 + b2 * 0x10000000000 + b3 * 0x100000000
        + b4 * 0x1000000 + b5 * 0x10000 + b6 * 0x100 + b7 <= 0xffffffffffffffff) by (bit_vector);
    let n: u64 = be_value(b) as u64;
    assert(n == b0 * 0x100000000000000 + b1 * 0x1000000000000 + b2 * 0x10000000000 + b3
        * 0x100000000 + b4 * 0x1000000 + b5 * 0x10000 + b6 * 0x100 + b7);
    assert((n / 0x100000000000000 % 0x100) as u8 == b0 && (n / 0x1000000000000 % 0x100) as u8 == b1
        && (n / 0x10000000000 % 0x100) as u8 == b2 && (n / 0x100000000 % 0x100) as u8 == b3 && (n
        / 0x1000000 % 0x100) as u8 == b4 && (n / 0x10000 % 0x100) as u8 == b5 && (n / 0x100
        % 0x100) as u8 == b6 && (n % 0x100) as u8 == b7) by (bit_vector)
        requires
            n == b0 * 0x100000000000000 + b1 * 0x1000000000000 + b2 * 0x10000000000 + b3
                * 0x100000000 + b4 * 0x1000000 + b5 * 0x10000 + b6 * 0x100 + b7,
    ;
    assert(be_bytes(n) =~= b);
}

/// Encodes `n` as the eight-byte big-endian size prefix.
pub fn encode_size(n: u64) -> (out: [u8; 8])
    ensures
        out@ == be_bytes(n),
{
    let out: [u8; 8] = [
        (n >> 56u64) as u8,
        (n >> 48u64) as u8,
        (n >> 40u64) as u8,
        (n >> 32u64) as u8,
        (n >> 24u64) as u8,
        (n >> 16u64) as u8,
        (n >> 8u64) as u8,
        n as u8,
    ];
    assert((n >> 56u64) as u8 == (n / 0x100000000000000 % 0x100) as u8) by (bit_vector);
    assert((n >> 48u64) as u8 == (n / 0x1000000000000 % 0x100) as u8) by (bit_vector);
    assert((n >> 40u64) as u8 == (n / 0x10000000000 % 0x100) as u8) by (bit_vector);
    assert((n >> 32u64) as u8 == (n / 0x100000000 % 0x100) as u8) by (bit_vector);
    assert((n >> 24u64) as u8 == (n / 0x1000000 % 0x100) as u8) by (bit_vector);
    assert((n >> 16u64) as u8 == (n / 0x10000 % 0x100) as u8) by (bit_vector);
    assert((n >> 8u64) as u8 == (n / 0x100 % 0x100) as u8) by (bit_vector);
    assert(n as u8 == (n % 0x100) as u8) by (bit_vector);
    assert(out@ =~= be_bytes(n));
    out
}

/// Reads eight bytes as a big-endian number: the task size that opens a message.
pub fn decode_size(bytes: [u8; 8]) -> (n: u64)
    ensures
        n == be_value(bytes@),
{
    let b0 = bytes[0];
    let b1 = bytes[1];
    let b2 = bytes[2];
    let b3 = bytes[3];
    let b4 = bytes[4];
    let b5 = bytes[5];
    let b6 = bytes[6];
    let b7 = bytes[7];
    let n: u64 = ((b0 as u64) << 56u64) | ((b1 as u64) << 48u64) | ((b2 as u64) << 40u64) | ((
    b3 as u64) << 32u64) | ((b4 as u64) << 24u64) | ((b5 as u64) << 16u64) | ((b6 as u64) << 8u64)
        | (b7 as u64);
    assert(((b0 as u64) << 56u64) | ((b1 as u64) << 48u64) | ((b2 as u64) << 40u64) | ((b3 as u64)
        << 32u64) | ((b4 as u64) << 24u64) | ((b5 as u64) << 16u64) | ((b6 as u64) << 8u64) | (
    b7 as u64) == b0 * 0x100000000000000 + b1 * 0x1000000000000 + b2 * 0x10000000000 + b3
        * 0x100000000 + b4 * 0x1000000 + b5 * 0x10000 + b6 * 0x100 + b7) by (bit_vector);
    n
}

/// A body preceded by the size prefix of `size`: what a client sends to the
/// controller (a task, or a report naming the server that served it).
pub fn frame_message(size: u64, body: &[u8]) -> (out: Vec<u8>)
    ensures
        out@ == framed(size, body@),
{
    let prefix = encode_size(size);
    let mut out: Vec<u8> = Vec::new();
    let mut i: usize = 0;
    while i < 8
        invariant
            0 <= i <= 8,
            prefix@ == be_bytes(size),
            out@ == prefix@.take(i as int),
        decreases 8 - i,
    {
        out.push(prefix[i]);
        i = i + 1;
        assert(out@ =~= prefix@.take(i as int));
    }
    let mut j: usize = 0;
    while j < body.len()
        invariant
            0 <= j <= body@.len(),
            out@ == be_bytes(size) + body@.take(j as int),
        decreases body@.len() - j,
    {
        out.push(body[j]);
        j = j + 1;
        assert(out@ =~= be_bytes(size) + body@.take(j as int));
    }
    assert(body@.take(body@.len() as int) =~= body@);
    out
}

/// Splits a message into the size its prefix holds and the bytes after it;
/// `None` when the message is shorter than the prefix.
pub fn split_size_prefix(msg: &[u8]) -> (res: Option<(u64, Vec<u8>)>)
    ensures
        match res {
            Some((n, rest)) => split_spec(msg@) == Some((n as int, rest@)),
            None => split_spec(msg@) is None,
        },
{
    if msg.len() < 8 {
        return None;
    }
    let prefix: [u8; 8] = [msg[0], msg[1], msg[2], msg[3], msg[4], msg[5], msg[6], msg[7]];
    assert(prefix@ =~= msg@.take(8));
    let n = decode_size(prefix);
    let mut rest: Vec<u8> = Vec::new();
    let mut i: usize = 8;
    while i < msg.len()
        invariant
            8 <= i <= msg@.len(),
            rest@ == msg@.subrange(8, i as int),
        decreases msg@.len() - i,
    {
        rest.push(msg[i]);
        i = i + 1;
        assert(rest@ =~= msg@.subrange(8, i as int));
    }
    assert(rest@ =~= msg@.skip(8));
    Some((n, rest))
}

/// What the controller reads of a framed message is the size and the body
/// the client put in it.
pub proof fn lemma_split_framed(size: u64, body: Seq<u8>)
    ensures
        split_spec(framed(size, body)) == Some((size as int, body)),
{
    lemma_prefix_roundtrip(size);
    assert(framed(size, body).take(8) =~= be_bytes(size));
    assert(framed(size, body).skip(8) =~= body);
}

/// The ASCII lower-case form of a byte.
pub fn to_ascii_lower(b: u8) -> (r: u8)
    ensures
        r == ascii_lower(b),
        65 <= b <= 90 ==> r == b + 32,
        !(65 <= b <= 90) ==> r == b,
{
    proof {
        lemma_ascii_lower(b);
    }
    if 65 <= b && b <= 90 {
        b + 32
    } else {
        b
    }
}

/// Two bytes are the same letter up to case: equal, or an ASCII capital and
/// its small letter.
pub open spec fn same_up_to_case(x: u8, y: u8) -> bool {
    ||| x == y
    ||| 65 <= x <= 90 && y == x + 32
    ||| 65 <= y <= 90 && x == y + 32
}

/// Lower-casing turns every ASCII capital into its small letter and leaves
/// every other byte as it is.
pub proof fn lemma_ascii_lower(b: u8)
    ensures
        65 <= b <= 90 ==> ascii_lower(b) == b + 32,
        !(65 <= b <= 90) ==> ascii_lower(b) == b,
{
}

/// Two bytes lower-case alike exactly when they are the same letter up to
/// case: no other pair of bytes (two different digits, say) is confused.
pub proof fn lemma_ascii_lower_eq(x: u8, y: u8)
    ensures
        (ascii_lower(x) == ascii_lower(y)) == same_up_to_case(x, y),
{
}

/// A reply is accepted exactly when it has the text's length and every byte
/// is the text's byte up to the case of an ASCII letter.
pub proof fn lemma_eq_ignore_case_bytes(a: Seq<u8>, b: Seq<u8>)
    ensures
        eq_ignore_case_spec(a, b) == (a.len() == b.len() && forall|i: int|
            0 <= i < a.len() ==> same_up_to_case(#[trigger] a[i], b[i])),
{
    assert forall|i: int| 0 <= i < a.len() implies (ascii_lower(#[trigger] a[i]) == ascii_lower(b[i]))
        == same_up_to_case(a[i], b[i]) by {
        lemma_ascii_lower_eq(a[i], b[i]);
    }
}

/// A text is accepted against any copy whose ASCII letters are changed in
/// case.
pub proof fn lemma_case_changed_copy_accepted(a: Seq<u8>, b: Seq<u8>)
    requires
        a.len() == b.len(),
        forall|i: int| 0 <= i < a.len() ==> same_up_to_case(#[trigger] a[i], b[i]),
    ensures
        eq_ignore_case_spec(a, b),
{
    lemma_eq_ignore_case_bytes(a, b);
}

/// Whether two byte strings are equal up to the case of ASCII letters: the
/// test a client applies to the echo it gets back.
pub fn eq_ignore_ascii_case(a: &[u8], b: &[u8]) -> (r: bool)
    ensures
        r == eq_ignore_case_spec(a@, b@),
        r == (a@.len() == b@.len() && forall|i: int|
            0 <= i < a@.len() ==> same_up_to_case(#[trigger] a@[i], b@[i])),
{
    proof {
        lemma_eq_ignore_case_bytes(a@, b@);
    }
    if a.len() != b.len() {
        return false;
    }
    let mut i: usize = 0;
    while i < a.len()
        invariant
            a@.len() == b@.len(),
            0 <= i <= a@.len(),
            forall|k: int| 0 <= k < i ==> ascii_lower(#[trigger] a@[k]) == ascii_lower(b@[k]),
        decreases a@.len() - i,
    {
        if to_ascii_lower(a[i]) != to_ascii_lower(b[i]) {
            return false;
        }
        i = i + 1;
    }
    true
}

/// Every message matches itself, so a faithful echo is always accepted.
pub proof fn lemma_echo_accepted(a: Seq<u8>)
    ensures
        eq_ignore_case_spec(a, a),
{
}

/// The comparison does not depend on which side is the reply.
pub proof fn lemma_eq_ignore_case_symmetric(a: Seq<u8>, b: Seq<u8>)
    ensures
        eq_ignore_case_spec(a, b) == eq_ignore_case_spec(b, a),
{
}

} // verus!
