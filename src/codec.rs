//! Length-prefixed framing: every message on the wire is an 8-byte
//! little-endian length followed by that many payload bytes.
use vstd::prelude::*;

verus! {

/// Number of bytes in the length prefix of a frame.
pub const PREFIX_LEN: usize = 8;

/// The unsigned value of `s[i..]` read as little-endian bytes.
pub open spec fn le_from(s: Seq<u8>, i: int) -> nat
    decreases s.len() - i,
{
    if i < 0 || i >= s.len() {
        0
    } else {
        s[i] as nat + 256 * le_from(s, i + 1)
    }
}

/// The value of a whole byte sequence read as a little-endian number.
pub open spec fn le_value(s: Seq<u8>) -> nat {
    le_from(s, 0)
}

/// The eight little-endian bytes of `n` (only the low 64 bits are kept).
pub open spec fn le_bytes(n: nat) -> Seq<u8> {
    seq![
        (n % 256) as u8,
        (n / 256 % 256) as u8,
        (n / 256 / 256 % 256) as u8,
        (n / 256 / 256 / 256 % 256) as u8,
        (n / 256 / 256 / 256 / 256 % 256) as u8,
        (n / 256 / 256 / 256 / 256 / 256 % 256) as u8,
        (n / 256 / 256 / 256 / 256 / 256 / 256 % 256) as u8,
        (n / 256 / 256 / 256 / 256 / 256 / 256 / 256 % 256) as u8,
    ]
}

/// The frame that carries `payload`: its length as eight little-endian bytes,
/// then the payload itself.
pub open spec fn frame_of(payload: Seq<u8>) -> Seq<u8> {
    le_bytes(payload.len()) + payload
}

/// What a reader makes of the bytes received so far.
pub enum FrameSplit {
    /// Fewer bytes than the prefix announces have arrived.
    Incomplete,
    /// A whole frame is at the front: its payload, and how many bytes it took.
    Complete { payload: Vec<u8>, consumed: usize },
}

/// The spec-level meaning of splitting one frame off the front of `buf`:
/// `None` while incomplete, else the payload and the number of bytes used.
pub open spec fn split_spec(buf: Seq<u8>) -> Option<(Seq<u8>, nat)> {
    if buf.len() < 8 {
        None
    } else {
        let n = le_value(buf.subrange(0, 8));
        if buf.len() - 8 < n {
            None
        } else {
            Some((buf.subrange(8, 8 + n as int), (8 + n) as nat))
        }
    }
}

/// Reading back the eight bytes of a number below 2^64 gives the number.
pub proof fn lemma_le_round_trip(n: nat)
    requires
        n <= u64::MAX,
    ensures
        le_bytes(n).len() == 8,
        le_value(le_bytes(n)) == n,
{
    let s = le_bytes(n);
    reveal_with_fuel(le_from, 9);
    let q1 = n / 256;
    let q2 = q1 / 256;
    let q3 = q2 / 256;
    let q4 = q3 / 256;
    let q5 = q4 / 256;
    let q6 = q5 / 256;
    let q7 = q6 / 256;
    let q8 = q7 / 256;
    assert(q8 == 0);
    assert(s[0] == n % 256);
    assert(s[1] == q1 % 256);
    assert(s[2] == q2 % 256);
    assert(s[3] == q3 % 256);
    assert(s[4] == q4 % 256);
    assert(s[5] == q5 % 256);
    assert(s[6] == q6 % 256);
    assert(s[7] == q7 % 256);
}

/// The eight little-endian bytes of `n`.
pub fn encode_length(n: u64) -> (r: Vec<u8>)
    ensures
        r@ == le_bytes(n as nat),
        le_value(r@) == n,
{
    let q1: u64 = n / 256;
    let q2: u64 = q1 / 256;
    let q3: u64 = q2 / 256;
    let q4: u64 = q3 / 256;
    let q5: u64 = q4 / 256;
    let q6: u64 = q5 / 256;
    let q7: u64 = q6 / 256;
    let r = vec![
        (n % 256) as u8,
        (q1 % 256) as u8,
        (q2 % 256) as u8,
        (q3 % 256) as u8,
        (q4 % 256) as u8,
        (q5 % 256) as u8,
        (q6 % 256) as u8,
        (q7 % 256) as u8,
    ];
    proof {
        lemma_le_round_trip(n as nat);
        assert(r@ =~= le_bytes(n as nat));
    }
    r
}

/// The number held by an 8-byte little-endian length prefix.
pub fn decode_length(b: &[u8]) -> (r: u64)
    requires
        b@.len() == 8,
    ensures
        r == le_value(b@),
{
    reveal_with_fuel(le_from, 9);
    let t7: u64 = b[7] as u64;
    let t6: u64 = b[6] as u64 + 256 * t7;
    let t5: u64 = b[5] as u64 + 256 * t6;
    let t4: u64 = b[4] as u64 + 256 * t5;
    let t3: u64 = b[3] as u64 + 256 * t4;
    let t2: u64 = b[2] as u64 + 256 * t3;
    let t1: u64 = b[1] as u64 + 256 * t2;
    b[0] as u64 + 256 * t1
}

/// Wraps `payload` in a frame: its length as an 8-byte little-endian prefix,
/// then the payload.
pub fn encode_frame(payload: &[u8]) -> (r: Vec<u8>)
    ensures
        r@ == frame_of(payload@),
{
    let mut r = encode_length(payload.len() as u64);
    let mut i: usize = 0;
    while i < payload.len()
        invariant
            i <= payload@.len(),
            r@ == le_bytes(payload@.len()) + payload@.subrange(0, i as int),
        decreases payload@.len() - i,
    {
        r.push(payload[i]);
        i = i + 1;
        assert(payload@.subrange(0, i as int) =~= payload@.subrange(0, i - 1).push(payload@[i - 1]));
    }
    assert(payload@.subrange(0, i as int) =~= payload@);
    r
}

/// Splits the first frame off the bytes received so far, or reports that more
/// bytes are needed.
pub fn split_frame(buf: &[u8]) -> (r: FrameSplit)
    ensures
        match r {
            FrameSplit::Incomplete => split_spec(buf@).is_none(),
            FrameSplit::Complete { payload, consumed } => split_spec(buf@) == Some(
                (payload@, consumed as nat),
            ),
        },
{
    if buf.len() < PREFIX_LEN {
        return FrameSplit::Incomplete;
    }
    let mut head: Vec<u8> = Vec::new();
    let mut i: usize = 0;
    while i < PREFIX_LEN
        invariant
            i <= 8 <= buf@.len(),
            head@ == buf@.subrange(0, i as int),
        decreases 8 - i,
    {
        head.push(buf[i]);
        i = i + 1;
        assert(head@ =~= buf@.subrange(0, i as int));
    }
    let n = decode_length(head.as_slice());
    let avail: usize = buf.len() - PREFIX_LEN;
    if (avail as u64) < n {
        return FrameSplit::Incomplete;
    }
    let end: usize = PREFIX_LEN + n as usize;
    let mut payload: Vec<u8> = Vec::new();
    let mut j: usize = PREFIX_LEN;
    while j < end
        invariant
            8 <= j <= end <= buf@.len(),
            end == 8 + n,
            payload@ == buf@.subrange(8, j as int),
        decreases end - j,
    {
        payload.push(buf[j]);
        j = j + 1;
        assert(payload@ =~= buf@.subrange(8, j as int));
    }
    FrameSplit::Complete { payload, consumed: end }
}

/// A frame read back yields exactly the payload it was made from, whatever
/// bytes follow it on the stream.
pub proof fn lemma_frame_round_trip(payload: Seq<u8>, rest: Seq<u8>)
    requires
        payload.len() <= u64::MAX,
    ensures
        split_spec(frame_of(payload) + rest) == Some((payload, (8 + payload.len()) as nat)),
{
    let buf = frame_of(payload) + rest;
    lemma_le_round_trip(payload.len());
    assert(buf.subrange(0, 8) =~= le_bytes(payload.len()));
    assert(buf.subrange(8, 8 + payload.len() as int) =~= payload);
}

} // verus!
