//! What the programs read of the runtime: account headers, instruction bytes, and the
//! errors they answer with.
use vstd::prelude::*;
use vstd::bytes::{spec_u64_from_le_bytes, spec_u16_from_le_bytes, u64_from_le_bytes, u16_from_le_bytes};

verus! {

/// The fields of an account that the programs' checks read.
#[derive(Clone, Copy)]
pub struct AccountHeader {
    pub key: [u8; 32],
    pub owner: [u8; 32],
    pub lamports: u64,
    pub is_signer: bool,
    pub is_writable: bool,
    pub executable: bool,
}

/// The runtime errors the programs return.
#[derive(Clone, Copy, PartialEq, Eq, Structural, Debug)]
pub enum ProgramFailure {
    Custom(u32),
    MissingRequiredSignature,
    InvalidAccountData,
    IncorrectProgramId,
    InvalidArgument,
    NotEnoughAccountKeys,
    AccountDataTooSmall,
}

/// The system program's address (all zero bytes).
pub open spec fn system_program_id() -> Seq<u8> {
    Seq::new(32, |i: int| 0u8)
}

/// Whether `key` is the system program.
pub fn is_system_program(key: &[u8; 32]) -> (b: bool)
    ensures
        b == (key@ == system_program_id()),
{
    let mut k: usize = 0;
    while k < 32
        invariant
            k <= 32,
            forall|i: int| 0 <= i < k ==> #[trigger] key@[i] == 0,
        decreases 32 - k,
    {
        if key[k] != 0 {
            assert(key@[k as int] != system_program_id()[k as int]);
            return false;
        }
        k += 1;
    }
    assert(key@ =~= system_program_id());
    true
}

/// Byte-wise equality.
pub fn bytes_eq(a: &[u8], b: &[u8]) -> (r: bool)
    ensures
        r == (a@ == b@),
{
    if a.len() != b.len() {
        return false;
    }
    let mut k: usize = 0;
    while k < a.len()
        invariant
            a@.len() == b@.len(),
            k <= a@.len(),
            forall|i: int| 0 <= i < k ==> #[trigger] a@[i] == b@[i],
        decreases a@.len() - k,
    {
        if a[k] != b[k] {
            return false;
        }
        k += 1;
    }
    assert(a@ =~= b@);
    true
}

/// Equality of two 32-byte keys.
pub fn keys_eq(a: &[u8; 32], b: &[u8; 32]) -> (r: bool)
    ensures
        r == (a@ == b@),
{
    bytes_eq(a.as_slice(), b.as_slice())
}

/// The `len` bytes at `offset`, if `data` holds them.
pub fn read_array<'a>(data: &'a [u8], offset: usize, len: usize) -> (r: Option<&'a [u8]>)
    ensures
        match r {
            Some(s) => offset + len <= data@.len() && s@ == data@.subrange(offset as int, offset + len),
            None => offset + len > data@.len(),
        },
{
    if offset > data.len() || len > data.len() - offset {
        return None;
    }
    Some(&data[offset..offset + len])
}

/// The little-endian `u64` at `offset`, if `data` holds it.
pub fn read_u64(data: &[u8], offset: usize) -> (r: Option<u64>)
    ensures
        match r {
            Some(v) => offset + 8 <= data@.len() && v == spec_u64_from_le_bytes(data@.subrange(offset as int, offset + 8)),
            None => offset + 8 > data@.len(),
        },
{
    match read_array(data, offset, 8) {
        Some(s) => Some(u64_from_le_bytes(s)),
        None => None,
    }
}

/// The little-endian `u16` at `offset`, if `data` holds it.
pub fn read_u16(data: &[u8], offset: usize) -> (r: Option<u16>)
    ensures
        match r {
            Some(v) => offset + 2 <= data@.len() && v == spec_u16_from_le_bytes(data@.subrange(offset as int, offset + 2)),
            None => offset + 2 > data@.len(),
        },
{
    match read_array(data, offset, 2) {
        Some(s) => Some(u16_from_le_bytes(s)),
        None => None,
    }
}

/// `dst` with `src` written at `at`.
pub open spec fn spliced(dst: Seq<u8>, at: int, src: Seq<u8>) -> Seq<u8> {
    dst.subrange(0, at) + src + dst.subrange(at + src.len(), dst.len() as int)
}

/// Copies `src` into `dst` at `at`.
pub fn write_bytes(dst: &mut [u8], at: usize, src: &[u8])
    requires
        at + src@.len() <= old(dst)@.len(),
    ensures
        final(dst)@ == spliced(old(dst)@, at as int, src@),
{
    let dlen = dst.len();
    let mut k: usize = 0;
    while k < src.len()
        invariant
            dlen == dst@.len(),
            dst@.len() == old(dst)@.len(),
            at + src@.len() <= dst@.len(),
            k <= src@.len(),
            forall|i: int| 0 <= i < dst@.len() && !(at <= i < at + src@.len()) ==> #[trigger] dst@[i] == old(dst)@[i],
            forall|i: int| at + k <= i < at + src@.len() ==> #[trigger] dst@[i] == old(dst)@[i],
            forall|i: int| 0 <= i < k ==> dst@[at + i] == #[trigger] src@[i],
        decreases src@.len() - k,
    {
        dst[at + k] = src[k];
        k += 1;
    }
    assert(dst@ =~= spliced(old(dst)@, at as int, src@)) by {
        assert forall|i: int| 0 <= i < dst@.len() implies #[trigger] dst@[i] == spliced(old(dst)@, at as int, src@)[i] by {
            if at <= i < at + src@.len() {
                assert(dst@[at + (i - at)] == src@[i - at]);
            }
        }
    }
}

/// Sets `len` bytes at `at` to `value`.
pub fn fill_bytes(dst: &mut [u8], at: usize, len: usize, value: u8)
    requires
        at + len <= old(dst)@.len(),
    ensures
        final(dst)@ == spliced(old(dst)@, at as int, Seq::new(len as nat, |i: int| value)),
{
    let dlen = dst.len();
    let mut k: usize = 0;
    while k < len
        invariant
            dlen == dst@.len(),
            dst@.len() == old(dst)@.len(),
            at + len <= dst@.len(),
            k <= len,
            forall|i: int| 0 <= i < dst@.len() && !(at <= i < at + k) ==> #[trigger] dst@[i] == old(dst)@[i],
            forall|i: int| at <= i < at + k ==> #[trigger] dst@[i] == value,
        decreases len - k,
    {
        dst[at + k] = value;
        k += 1;
    }
    assert(dst@ =~= spliced(old(dst)@, at as int, Seq::new(len as nat, |i: int| value)));
}

} // verus!
