//! Binary framing of the events pushed over live connections: one leading
//! discriminator byte, then a fixed-layout payload for that kind.
use vstd::prelude::*;
use vstd::arithmetic::div_mod::{lemma_fundamental_div_mod_converse, lemma_mod_breakdown};

verus! {

/// Discriminator of the "avatar changed" event on the wire.
pub const EVENT_TAG: u8 = 2;

/// Length of an encoded user identifier (big-endian).
pub const ID_LEN: usize = 16;

/// Length of a whole encoded "avatar changed" frame.
pub const EVENT_FRAME_LEN: usize = 17;

/// A notification that the avatar of `subject` changed.
#[derive(Clone, Copy, Debug, PartialEq, Eq, Structural)]
pub enum ChangeEvent {
    AvatarChanged { subject: u128 },
}

/// Why a received frame is not a valid event.
#[derive(Clone, Copy, Debug, PartialEq, Eq, Structural)]
pub enum FormatError {
    /// The frame holds no discriminator at all.
    Empty,
    /// The discriminator names no known event kind.
    UnknownKind { tag: u8 },
    /// The discriminator is known but the payload has the wrong length.
    BadLength { expected: usize, found: usize },
}

/// `256` to the power `n`.
pub open spec fn pow256(n: nat) -> nat
    decreases n,
{
    if n == 0 {
        1
    } else {
        256 * pow256((n - 1) as nat)
    }
}

/// The `n` low bytes of `v`, most significant first.
pub open spec fn be_bytes(v: nat, n: nat) -> Seq<u8>
    decreases n,
{
    if n == 0 {
        Seq::empty()
    } else {
        be_bytes(v / 256, (n - 1) as nat).push((v % 256) as u8)
    }
}

/// The number whose big-endian bytes are `s`.
pub open spec fn be_value(s: Seq<u8>) -> nat
    decreases s.len(),
{
    if s.len() == 0 {
        0
    } else {
        be_value(s.drop_last()) * 256 + s.last() as nat
    }
}

impl ChangeEvent {
    pub open spec fn subject_of(self) -> u128 {
        match self {
            ChangeEvent::AvatarChanged { subject } => subject,
        }
    }
}

/// The frame that carries `e`.
pub open spec fn frame_of(e: ChangeEvent) -> Seq<u8> {
    seq![EVENT_TAG].add(be_bytes(e.subject_of() as nat, ID_LEN as nat))
}

/// What a received frame decodes to.
pub open spec fn parse_frame(b: Seq<u8>) -> Result<ChangeEvent, FormatError> {
    if b.len() == 0 {
        Err(FormatError::Empty)
    } else if b[0] != EVENT_TAG {
        Err(FormatError::UnknownKind { tag: b[0] })
    } else if b.len() != EVENT_FRAME_LEN {
        Err(FormatError::BadLength { expected: EVENT_FRAME_LEN, found: b.len() as usize })
    } else {
        Ok(ChangeEvent::AvatarChanged { subject: be_value(b.subrange(1, EVENT_FRAME_LEN as int)) as u128 })
    }
}

/// A number read from `n` bytes is below `256` to the power `n`.
pub proof fn lemma_be_value_bound(s: Seq<u8>)
    ensures
        be_value(s) < pow256(s.len()),
    decreases s.len(),
{
    if s.len() > 0 {
        let init = s.drop_last();
        lemma_be_value_bound(init);
        let a = be_value(init);
        let p = pow256(init.len());
        let l = s.last() as nat;
        assert(a * 256 + l < 256 * p) by (nonlinear_arith)
            requires a < p, l < 256;
    }
}

/// Writing a number in `n` bytes gives `n` bytes.
pub proof fn lemma_be_bytes_len(v: nat, n: nat)
    ensures
        be_bytes(v, n).len() == n,
    decreases n,
{
    if n > 0 {
        lemma_be_bytes_len(v / 256, (n - 1) as nat);
    }
}

/// Reading the bytes back gives the number modulo the width.
pub proof fn lemma_be_value_of_bytes(v: nat, n: nat)
    ensures
        be_value(be_bytes(v, n)) == v % pow256(n),
    decreases n,
{
    if n == 0 {
        assert(v % 1 == 0) by (nonlinear_arith);
    } else {
        let m = (n - 1) as nat;
        lemma_be_value_of_bytes(v / 256, m);
        let s = be_bytes(v, n);
        assert(s.drop_last() =~= be_bytes(v / 256, m));
        lemma_pow256_pos(m);
        lemma_mod_breakdown(v as int, 256, pow256(m) as int);
        assert(((v / 256) % pow256(m)) * 256 == 256 * ((v / 256) % pow256(m)));
    }
}

/// Writing out the value of `s` in `s.len()` bytes gives `s` back.
pub proof fn lemma_be_bytes_of_value(s: Seq<u8>)
    ensures
        be_bytes(be_value(s), s.len()) == s,
    decreases s.len(),
{
    if s.len() > 0 {
        let init = s.drop_last();
        lemma_be_bytes_of_value(init);
        let v = be_value(s);
        lemma_fundamental_div_mod_converse(v as int, 256, be_value(init) as int, s.last() as int);
        assert(be_bytes(v, s.len()) =~= s);
    }
}

proof fn lemma_pow256_id_len()
    ensures
        pow256(ID_LEN as nat) == u128::MAX as nat + 1,
{
    reveal_with_fuel(pow256, 17);
}

/// Decoding an encoded event gives the event back.
pub proof fn lemma_decode_encode(e: ChangeEvent)
    ensures
        parse_frame(frame_of(e)) == Ok::<ChangeEvent, FormatError>(e),
{
    let v = e.subject_of() as nat;
    let f = frame_of(e);
    lemma_be_bytes_len(v, ID_LEN as nat);
    lemma_be_value_of_bytes(v, ID_LEN as nat);
    lemma_pow256_id_len();
    assert(f.subrange(1, EVENT_FRAME_LEN as int) =~= be_bytes(v, ID_LEN as nat));
    assert(v % pow256(ID_LEN as nat) == v) by {
        vstd::arithmetic::div_mod::lemma_small_mod(v, pow256(ID_LEN as nat));
    }
}

/// A frame that decodes is exactly the encoding of what it decodes to.
pub proof fn lemma_encode_decode(b: Seq<u8>)
    requires
        parse_frame(b) is Ok,
    ensures
        frame_of(parse_frame(b)->Ok_0) == b,
{
    let p = b.subrange(1, EVENT_FRAME_LEN as int);
    lemma_be_value_bound(p);
    lemma_pow256_id_len();
    lemma_be_bytes_of_value(p);
    assert(frame_of(parse_frame(b)->Ok_0) =~= b);
}

impl ChangeEvent {
    /// The identifier of the user whose avatar changed.
    pub fn subject(&self) -> (r: u128)
        ensures
            r == self.subject_of(),
    {
        match self {
            ChangeEvent::AvatarChanged { subject } => *subject,
        }
    }

    /// The wire frame of this event. Encoding always succeeds.
    pub fn encode(&self) -> (r: Vec<u8>)
        ensures
            r@ == frame_of(*self),
    {
        let subject = self.subject();
        let mut tail: Vec<u8> = Vec::new();
        let mut k: usize = 0;
        while k < ID_LEN
            invariant
                k <= ID_LEN,
                tail@.len() == k,
            decreases ID_LEN - k,
        {
            tail.push(0);
            k = k + 1;
        }
        let mut v: u128 = subject;
        let mut i: usize = ID_LEN;
        while i > 0
            invariant
                i <= ID_LEN,
                tail@.len() == ID_LEN,
                be_bytes(subject as nat, ID_LEN as nat) == be_bytes(v as nat, i as nat) + tail@.subrange(i as int, ID_LEN as int),
            decreases i,
        {
            let ghost old_tail = tail@;
            let ghost old_v = v;
            i = i - 1;
            tail.set(i, (v % 256) as u8);
            v = v / 256;
            assert(be_bytes(old_v as nat, (i + 1) as nat) + old_tail.subrange(i + 1, ID_LEN as int)
                =~= be_bytes(v as nat, i as nat) + tail@.subrange(i as int, ID_LEN as int));
        }
        assert(tail@ =~= be_bytes(subject as nat, ID_LEN as nat));
        let mut out: Vec<u8> = Vec::new();
        out.push(EVENT_TAG);
        out.append(&mut tail);
        assert(out@ =~= frame_of(*self));
        out
    }

    /// Reads an event out of a received frame.
    pub fn decode(b: &[u8]) -> (r: Result<ChangeEvent, FormatError>)
        ensures
            r == parse_frame(b@),
    {
        if b.len() == 0 {
            return Err(FormatError::Empty);
        }
        if b[0] != EVENT_TAG {
            return Err(FormatError::UnknownKind { tag: b[0] });
        }
        if b.len() != EVENT_FRAME_LEN {
            return Err(FormatError::BadLength { expected: EVENT_FRAME_LEN, found: b.len() });
        }
        let mut acc: u128 = 0;
        let mut i: usize = 1;
        while i < EVENT_FRAME_LEN
            invariant
                b@.len() == EVENT_FRAME_LEN,
                1 <= i <= EVENT_FRAME_LEN,
                acc as nat == be_value(b@.subrange(1, i as int)),
            decreases EVENT_FRAME_LEN - i,
        {
            let ghost pre = b@.subrange(1, i as int);
            let ghost cur = b@.subrange(1, i + 1);
            proof {
                lemma_be_value_bound(pre);
                lemma_be_value_bound(cur);
                assert(cur.drop_last() =~= pre);
                assert(pow256(cur.len()) <= u128::MAX as nat + 1) by {
                    lemma_pow256_id_len();
                    lemma_pow256_mono(cur.len(), ID_LEN as nat);
                }
            }
            acc = acc * 256 + b[i] as u128;
            i = i + 1;
        }
        Ok(ChangeEvent::AvatarChanged { subject: acc })
    }
}

proof fn lemma_pow256_pos(n: nat)
    ensures
        pow256(n) > 0,
    decreases n,
{
    if n > 0 {
        lemma_pow256_pos((n - 1) as nat);
    }
}

proof fn lemma_pow256_mono(a: nat, b: nat)
    requires
        a <= b,
    ensures
        pow256(a) <= pow256(b),
    decreases b,
{
    if a < b {
        lemma_pow256_mono(a, (b - 1) as nat);
    }
}

} // verus!
