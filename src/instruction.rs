use vstd::prelude::*;

use crate::account::AccountRequirement;
use crate::error::DispatchError;

verus! {

/// Tag byte of [`Instruction::Noop`].
pub const TAG_NOOP: u8 = 0;

/// Tag byte of [`Instruction::Initialize`].
pub const TAG_INITIALIZE: u8 = 1;

/// Tag byte of [`Instruction::Transfer`].
pub const TAG_TRANSFER: u8 = 2;

/// The little-endian bytes of `v`.
pub open spec fn le_bytes(v: u64) -> Seq<u8> {
    seq![
        (v & 0xff) as u8,
        ((v >> 8) & 0xff) as u8,
        ((v >> 16) & 0xff) as u8,
        ((v >> 24) & 0xff) as u8,
        ((v >> 32) & 0xff) as u8,
        ((v >> 40) & 0xff) as u8,
        ((v >> 48) & 0xff) as u8,
        ((v >> 56) & 0xff) as u8,
    ]
}

/// The number whose little-endian bytes are the first eight of `s`.
pub open spec fn from_le(s: Seq<u8>) -> u64
    recommends
        s.len() >= 8,
{
    (s[0] as u64) | ((s[1] as u64) << 8) | ((s[2] as u64) << 16) | ((s[3] as u64) << 24) | ((
    s[4] as u64) << 32) | ((s[5] as u64) << 40) | ((s[6] as u64) << 48) | ((s[7] as u64) << 56)
}

/// Reading back the bytes of a number gives the number.
pub proof fn lemma_from_le_bytes(v: u64)
    ensures
        le_bytes(v).len() == 8,
        from_le(le_bytes(v)) == v,
{
    let s = le_bytes(v);
    assert(v == ((v & 0xff) | (((v >> 8) & 0xff) << 8) | (((v >> 16) & 0xff) << 16) | (((v >> 24)
        & 0xff) << 24) | (((v >> 32) & 0xff) << 32) | (((v >> 40) & 0xff) << 40) | (((v >> 48)
        & 0xff) << 48) | (((v >> 56) & 0xff) << 56))) by (bit_vector);
    assert((v & 0xff) < 256 && ((v >> 8) & 0xff) < 256 && ((v >> 16) & 0xff) < 256 && ((v >> 24)
        & 0xff) < 256 && ((v >> 32) & 0xff) < 256 && ((v >> 40) & 0xff) < 256 && ((v >> 48)
        & 0xff) < 256 && ((v >> 56) & 0xff) < 256) by (bit_vector);
}

/// Eight bytes are the bytes of the number they encode.
pub proof fn lemma_le_bytes_from(s: Seq<u8>)
    requires
        s.len() == 8,
    ensures
        le_bytes(from_le(s)) == s,
{
    let x = from_le(s);
    let b0 = s[0] as u64;
    let b1 = s[1] as u64;
    let b2 = s[2] as u64;
    let b3 = s[3] as u64;
    let b4 = s[4] as u64;
    let b5 = s[5] as u64;
    let b6 = s[6] as u64;
    let b7 = s[7] as u64;
    assert(b0 < 256 && b1 < 256 && b2 < 256 && b3 < 256 && b4 < 256 && b5 < 256 && b6 < 256 && b7
        < 256 && x == b0 | (b1 << 8) | (b2 << 16) | (b3 << 24) | (b4 << 32) | (b5 << 40) | (b6
        << 48) | (b7 << 56) ==> b0 == x & 0xff && b1 == (x >> 8) & 0xff && b2 == (x >> 16) & 0xff
        && b3 == (x >> 24) & 0xff && b4 == (x >> 32) & 0xff && b5 == (x >> 40) & 0xff && b6 == (x
        >> 48) & 0xff && b7 == (x >> 56) & 0xff) by (bit_vector);
    assert(le_bytes(from_le(s)) =~= s);
}

/// The operations this program understands.
///
/// The wire form of each is one tag byte followed by its fields, each
/// unsigned integer as eight little-endian bytes; nothing may follow.
#[derive(Debug, Clone, Copy, PartialEq, Eq, Structural)]
pub enum Instruction {
    /// Does nothing; needs no account.
    Noop,
    /// Stores `value` as the counter of a state account.
    Initialize { value: u64 },
    /// Moves `amount` from the counter of one state account to another's.
    Transfer { amount: u64 },
}

impl Instruction {
    /// The wire form of the instruction.
    pub open spec fn encoding(self) -> Seq<u8> {
        match self {
            Instruction::Noop => seq![TAG_NOOP],
            Instruction::Initialize { value } => seq![TAG_INITIALIZE] + le_bytes(value),
            Instruction::Transfer { amount } => seq![TAG_TRANSFER] + le_bytes(amount),
        }
    }

    /// The instruction that `s` is the wire form of, if any.
    pub open spec fn decoding(s: Seq<u8>) -> Option<Instruction> {
        if s.len() == 1 && s[0] == TAG_NOOP {
            Some(Instruction::Noop)
        } else if s.len() == 9 && s[0] == TAG_INITIALIZE {
            Some(Instruction::Initialize { value: from_le(s.subrange(1, 9)) })
        } else if s.len() == 9 && s[0] == TAG_TRANSFER {
            Some(Instruction::Transfer { amount: from_le(s.subrange(1, 9)) })
        } else {
            None
        }
    }

    /// The accounts the instruction expects, in order.
    pub open spec fn account_requirements(self) -> Seq<AccountRequirement> {
        match self {
            Instruction::Noop => seq![],
            Instruction::Initialize { .. } => seq![
                (AccountRequirement { signer: true, writable: true, owned: true }),
            ],
            Instruction::Transfer { .. } => seq![
                (AccountRequirement { signer: true, writable: true, owned: true }),
                (AccountRequirement { signer: false, writable: true, owned: true }),
            ],
        }
    }

    /// How many of the leading accounts must be pairwise distinct.
    pub open spec fn distinct_count(self) -> nat {
        match self {
            Instruction::Transfer { .. } => 2,
            _ => 0,
        }
    }

    /// The accounts the instruction expects, in order.
    pub fn requirements(&self) -> (r: Vec<AccountRequirement>)
        ensures
            r@ == self.account_requirements(),
    {
        let mut reqs: Vec<AccountRequirement> = Vec::new();
        match *self {
            Instruction::Noop => {},
            Instruction::Initialize { .. } => {
                reqs.push(AccountRequirement { signer: true, writable: true, owned: true });
            },
            Instruction::Transfer { .. } => {
                reqs.push(AccountRequirement { signer: true, writable: true, owned: true });
                reqs.push(AccountRequirement { signer: false, writable: true, owned: true });
            },
        }
        assert(reqs@ =~= self.account_requirements());
        reqs
    }

    /// How many of the leading accounts must be pairwise distinct.
    pub fn distinct_accounts(&self) -> (r: usize)
        ensures
            r == self.distinct_count(),
    {
        match *self {
            Instruction::Transfer { .. } => 2,
            _ => 0,
        }
    }

    /// Serializes the instruction into its wire form.
    pub fn pack(&self) -> (r: Vec<u8>)
        ensures
            r@ == self.encoding(),
    {
        let mut out: Vec<u8> = Vec::new();
        match *self {
            Instruction::Noop => {
                out.push(TAG_NOOP);
            },
            Instruction::Initialize { value } => {
                out.push(TAG_INITIALIZE);
                push_le(&mut out, value);
            },
            Instruction::Transfer { amount } => {
                out.push(TAG_TRANSFER);
                push_le(&mut out, amount);
            },
        }
        assert(out@ =~= self.encoding());
        out
    }

    /// Decodes a payload; anything that is not exactly the wire form of an
    /// instruction (unknown tag, truncated, trailing bytes) is malformed.
    pub fn unpack(data: &[u8]) -> (r: Result<Instruction, DispatchError>)
        ensures
            r == match Self::decoding(data@) {
                Some(ix) => Ok(ix),
                None => Err(DispatchError::MalformedInstruction),
            },
    {
        if data.len() == 1 && data[0] == TAG_NOOP {
            Ok(Instruction::Noop)
        } else if data.len() == 9 && data[0] == TAG_INITIALIZE {
            Ok(Instruction::Initialize { value: read_le(data, 1) })
        } else if data.len() == 9 && data[0] == TAG_TRANSFER {
            Ok(Instruction::Transfer { amount: read_le(data, 1) })
        } else {
            Err(DispatchError::MalformedInstruction)
        }
    }
}

/// Appends the little-endian bytes of `v`.
pub fn push_le(out: &mut Vec<u8>, v: u64)
    ensures
        final(out)@ == old(out)@ + le_bytes(v),
{
    proof {
        lemma_from_le_bytes(v);
    }
    out.push((v & 0xff) as u8);
    out.push(((v >> 8) & 0xff) as u8);
    out.push(((v >> 16) & 0xff) as u8);
    out.push(((v >> 24) & 0xff) as u8);
    out.push(((v >> 32) & 0xff) as u8);
    out.push(((v >> 40) & 0xff) as u8);
    out.push(((v >> 48) & 0xff) as u8);
    out.push(((v >> 56) & 0xff) as u8);
    assert(out@ =~= old(out)@ + le_bytes(v));
}

/// Reads the number stored little-endian in the eight bytes from `start`.
pub fn read_le(data: &[u8], start: usize) -> (r: u64)
    requires
        start + 8 <= data@.len(),
    ensures
        r == from_le(data@.subrange(start as int, start + 8)),
{
    let s = Ghost(data@.subrange(start as int, start + 8));
    assert(s@[0] == data@[start as int] && s@[7] == data@[start + 7]);
    (data[start] as u64) | ((data[start + 1] as u64) << 8) | ((data[start + 2] as u64) << 16) | ((
    data[start + 3] as u64) << 24) | ((data[start + 4] as u64) << 32) | ((data[start + 5] as u64)
        << 40) | ((data[start + 6] as u64) << 48) | ((data[start + 7] as u64) << 56)
}

/// A payload decodes to an instruction only when it is exactly that
/// instruction's wire form.
pub proof fn lemma_decoding_is_encoding(s: Seq<u8>)
    ensures
        Instruction::decoding(s) matches Some(ix) ==> ix.encoding() == s,
{
    if s.len() == 9 && (s[0] == TAG_INITIALIZE || s[0] == TAG_TRANSFER) {
        lemma_le_bytes_from(s.subrange(1, 9));
        assert(s =~= seq![s[0]] + s.subrange(1, 9));
    } else if s.len() == 1 && s[0] == TAG_NOOP {
        assert(s =~= seq![TAG_NOOP]);
    }
}

/// Decoding the wire form of an instruction gives that instruction back.
pub proof fn lemma_encoding_decodes(ix: Instruction)
    ensures
        Instruction::decoding(ix.encoding()) == Some(ix),
{
    match ix {
        Instruction::Noop => {},
        Instruction::Initialize { value } => {
            lemma_from_le_bytes(value);
            assert(ix.encoding().subrange(1, 9) =~= le_bytes(value));
        },
        Instruction::Transfer { amount } => {
            lemma_from_le_bytes(amount);
            assert(ix.encoding().subrange(1, 9) =~= le_bytes(amount));
        },
    }
}

} // verus!
