//! Little-endian integers on the wire.
//!
//! Every multi-byte integer of the protocol is little-endian. This module
//! gives the mathematical meaning of a little-endian byte string, the lemmas
//! that relate reading and writing, and the executable readers and writers
//! the codecs are built from.

use byteorder::ByteOrder;
use byteorder::LittleEndian;
use vstd::prelude::*;
use vstd::slice::slice_subrange;

verus! {

/// `256^n`: the number of values that fit in `n` bytes.
pub open spec fn pow256(n: nat) -> nat
    decreases n,
{
    if n == 0 {
        1
    } else {
        256 * pow256((n - 1) as nat)
    }
}

/// The natural number that the bytes `s` spell in little-endian order.
pub open spec fn le_nat(s: Seq<u8>) -> nat
    decreases s.len(),
{
    if s.len() == 0 {
        0
    } else {
        s[0] as nat + 256 * le_nat(s.drop_first())
    }
}

/// The integer that the bytes `s` spell in little-endian two's complement.
pub open spec fn le_int(s: Seq<u8>) -> int {
    if 2 * le_nat(s) >= pow256(s.len()) {
        le_nat(s) - pow256(s.len())
    } else {
        le_nat(s) as int
    }
}

/// The `n` low-order bytes of `v`, least significant first.
pub open spec fn le_bytes(v: nat, n: nat) -> Seq<u8>
    decreases n,
{
    if n == 0 {
        Seq::empty()
    } else {
        seq![(v % 256) as u8] + le_bytes(v / 256, (n - 1) as nat)
    }
}

/// The `n`-byte little-endian two's complement of `v`.
pub open spec fn le_bytes_signed(v: int, n: nat) -> Seq<u8> {
    if v < 0 {
        le_bytes((v + pow256(n)) as nat, n)
    } else {
        le_bytes(v as nat, n)
    }
}

/// `n` zero bytes.
pub open spec fn zeros(n: nat) -> Seq<u8> {
    Seq::new(n, |i: int| 0u8)
}

pub proof fn lemma_pow256_values()
    ensures
        pow256(0) == 1,
        pow256(1) == 0x100,
        pow256(2) == 0x1_0000,
        pow256(3) == 0x100_0000,
        pow256(4) == 0x1_0000_0000,
        pow256(8) == 0x1_0000_0000_0000_0000,
{
    reveal_with_fuel(pow256, 9);
}

pub proof fn lemma_le_bytes_len(v: nat, n: nat)
    ensures
        le_bytes(v, n).len() == n,
    decreases n,
{
    if n > 0 {
        lemma_le_bytes_len(v / 256, (n - 1) as nat);
    }
}

pub proof fn lemma_le_bytes_signed_len(v: int, n: nat)
    ensures
        le_bytes_signed(v, n).len() == n,
{
    if v < 0 {
        lemma_le_bytes_len((v + pow256(n)) as nat, n);
    } else {
        lemma_le_bytes_len(v as nat, n);
    }
}

pub proof fn lemma_le_nat_bound(s: Seq<u8>)
    ensures
        le_nat(s) < pow256(s.len()),
    decreases s.len(),
{
    if s.len() > 0 {
        lemma_le_nat_bound(s.drop_first());
    }
}

/// Reading back what was written gives the value, when it fits in `n` bytes.
pub proof fn lemma_le_nat_of_le_bytes(v: nat, n: nat)
    requires
        v < pow256(n),
    ensures
        le_nat(le_bytes(v, n)) == v,
    decreases n,
{
    if n > 0 {
        let rest = le_bytes(v / 256, (n - 1) as nat);
        let s = le_bytes(v, n);
        assert(s.drop_first() =~= rest);
        lemma_le_nat_of_le_bytes(v / 256, (n - 1) as nat);
    }
}

/// Reading back a signed value that was written gives the value, when it
/// fits in `n` bytes.
pub proof fn lemma_le_int_of_le_bytes_signed(v: int, n: nat)
    requires
        n > 0,
        -(pow256(n) as int) <= 2 * v < pow256(n),
    ensures
        le_int(le_bytes_signed(v, n)) == v,
{
    lemma_le_bytes_len(if v < 0 {
        (v + pow256(n)) as nat
    } else {
        v as nat
    }, n);
    if v < 0 {
        lemma_le_nat_of_le_bytes((v + pow256(n)) as nat, n);
    } else {
        lemma_le_nat_of_le_bytes(v as nat, n);
    }
}

/// `byteorder::LittleEndian::read_uint`: the unsigned value of the first
/// `nbytes` bytes of `buf`, least significant byte first. The outside function
/// panics unless `1 <= nbytes <= 8` and `buf` holds that many bytes.
#[verifier::external_body]
fn le_read_uint(buf: &[u8], nbytes: usize) -> (v: u64)
    requires
        1 <= nbytes <= 8,
        nbytes <= buf@.len(),
    ensures
        v as nat == le_nat(buf@.take(nbytes as int)),
{
    LittleEndian::read_uint(buf, nbytes)
}

/// `byteorder::LittleEndian::read_int`: the first `nbytes` bytes of `buf`
/// read as a little-endian two's complement number and sign-extended. The
/// outside function panics unless `1 <= nbytes <= 8` and `buf` holds that
/// many bytes.
#[verifier::external_body]
fn le_read_int(buf: &[u8], nbytes: usize) -> (v: i64)
    requires
        1 <= nbytes <= 8,
        nbytes <= buf@.len(),
    ensures
        v as int == le_int(buf@.take(nbytes as int)),
{
    LittleEndian::read_int(buf, nbytes)
}

/// `byteorder::LittleEndian::write_uint`, on a fresh buffer of `nbytes`
/// bytes: the `nbytes` low-order bytes of `n`, least significant first. The
/// outside function panics if `n` does not fit in `nbytes` bytes or
/// `nbytes > 8`.
#[verifier::external_body]
fn le_write_uint(n: u64, nbytes: usize) -> (out: Vec<u8>)
    requires
        1 <= nbytes <= 8,
        (n as nat) < pow256(nbytes as nat),
    ensures
        out@ == le_bytes(n as nat, nbytes as nat),
{
    let mut out = vec![0u8; nbytes];
    LittleEndian::write_uint(&mut out, n, nbytes);
    out
}

/// `byteorder::LittleEndian::write_int`, on a fresh buffer of `nbytes`
/// bytes: the `nbytes`-byte two's complement of `n`, least significant byte
/// first. The outside function panics if `n` is not representable in
/// `nbytes` bytes or `nbytes > 8`.
#[verifier::external_body]
fn le_write_int(n: i64, nbytes: usize) -> (out: Vec<u8>)
    requires
        1 <= nbytes <= 8,
        -(pow256(nbytes as nat) as int) <= 2 * n < pow256(nbytes as nat),
    ensures
        out@ == le_bytes_signed(n as int, nbytes as nat),
{
    let mut out = vec![0u8; nbytes];
    LittleEndian::write_int(&mut out, n, nbytes);
    out
}

/// The `u16` at `data[pos..pos + 2]`.
pub fn get_u16(data: &[u8], pos: usize) -> (v: u16)
    requires
        pos + 2 <= data.len(),
    ensures
        v as nat == le_nat(data@.subrange(pos as int, pos + 2)),
{
    let part = slice_subrange(data, pos, pos + 2);
    let v = le_read_uint(part, 2);
    proof {
        assert(part@.take(2) =~= part@);
        lemma_le_nat_bound(part@);
        lemma_pow256_values();
    }
    v as u16
}

/// The `u32` at `data[pos..pos + 4]`.
pub fn get_u32(data: &[u8], pos: usize) -> (v: u32)
    requires
        pos + 4 <= data.len(),
    ensures
        v as nat == le_nat(data@.subrange(pos as int, pos + 4)),
{
    let part = slice_subrange(data, pos, pos + 4);
    let v = le_read_uint(part, 4);
    proof {
        assert(part@.take(4) =~= part@);
        lemma_le_nat_bound(part@);
        lemma_pow256_values();
    }
    v as u32
}

/// The `u64` at `data[pos..pos + 8]`.
pub fn get_u64(data: &[u8], pos: usize) -> (v: u64)
    requires
        pos + 8 <= data.len(),
    ensures
        v as nat == le_nat(data@.subrange(pos as int, pos + 8)),
{
    let part = slice_subrange(data, pos, pos + 8);
    let v = le_read_uint(part, 8);
    proof {
        assert(part@.take(8) =~= part@);
    }
    v
}

/// The `i8` at `data[pos]`.
pub fn get_i8(data: &[u8], pos: usize) -> (v: i8)
    requires
        pos + 1 <= data.len(),
    ensures
        v as int == le_int(data@.subrange(pos as int, pos + 1)),
{
    let part = slice_subrange(data, pos, pos + 1);
    let v = le_read_int(part, 1);
    proof {
        assert(part@.take(1) =~= part@);
        lemma_le_nat_bound(part@);
        lemma_pow256_values();
    }
    v as i8
}

/// The `i16` at `data[pos..pos + 2]`.
pub fn get_i16(data: &[u8], pos: usize) -> (v: i16)
    requires
        pos + 2 <= data.len(),
    ensures
        v as int == le_int(data@.subrange(pos as int, pos + 2)),
{
    let part = slice_subrange(data, pos, pos + 2);
    let v = le_read_int(part, 2);
    proof {
        assert(part@.take(2) =~= part@);
        lemma_le_nat_bound(part@);
        lemma_pow256_values();
    }
    v as i16
}

/// The `i32` at `data[pos..pos + 4]`.
pub fn get_i32(data: &[u8], pos: usize) -> (v: i32)
    requires
        pos + 4 <= data.len(),
    ensures
        v as int == le_int(data@.subrange(pos as int, pos + 4)),
{
    let part = slice_subrange(data, pos, pos + 4);
    let v = le_read_int(part, 4);
    proof {
        assert(part@.take(4) =~= part@);
        lemma_le_nat_bound(part@);
        lemma_pow256_values();
    }
    v as i32
}

/// The `i64` at `data[pos..pos + 8]`.
pub fn get_i64(data: &[u8], pos: usize) -> (v: i64)
    requires
        pos + 8 <= data.len(),
    ensures
        v as int == le_int(data@.subrange(pos as int, pos + 8)),
{
    let part = slice_subrange(data, pos, pos + 8);
    let v = le_read_int(part, 8);
    proof {
        assert(part@.take(8) =~= part@);
    }
    v
}

/// The two bytes of `v`.
pub fn u16_bytes(v: u16) -> (out: Vec<u8>)
    ensures
        out@ == le_bytes(v as nat, 2),
{
    proof {
        lemma_pow256_values();
    }
    le_write_uint(v as u64, 2)
}

/// The four bytes of `v`.
pub fn u32_bytes(v: u32) -> (out: Vec<u8>)
    ensures
        out@ == le_bytes(v as nat, 4),
{
    proof {
        lemma_pow256_values();
    }
    le_write_uint(v as u64, 4)
}

/// The eight bytes of `v`.
pub fn u64_bytes(v: u64) -> (out: Vec<u8>)
    ensures
        out@ == le_bytes(v as nat, 8),
{
    proof {
        lemma_pow256_values();
    }
    le_write_uint(v, 8)
}

/// The byte of `v` in two's complement.
pub fn i8_bytes(v: i8) -> (out: Vec<u8>)
    ensures
        out@ == le_bytes_signed(v as int, 1),
{
    proof {
        lemma_pow256_values();
    }
    le_write_int(v as i64, 1)
}

/// The two bytes of `v` in two's complement.
pub fn i16_bytes(v: i16) -> (out: Vec<u8>)
    ensures
        out@ == le_bytes_signed(v as int, 2),
{
    proof {
        lemma_pow256_values();
    }
    le_write_int(v as i64, 2)
}

/// The four bytes of `v` in two's complement.
pub fn i32_bytes(v: i32) -> (out: Vec<u8>)
    ensures
        out@ == le_bytes_signed(v as int, 4),
{
    proof {
        lemma_pow256_values();
    }
    le_write_int(v as i64, 4)
}

/// The eight bytes of `v` in two's complement.
pub fn i64_bytes(v: i64) -> (out: Vec<u8>)
    ensures
        out@ == le_bytes_signed(v as int, 8),
{
    proof {
        lemma_pow256_values();
    }
    le_write_int(v, 8)
}

/// Appends `src` to `out`.
pub fn append(out: &mut Vec<u8>, src: &[u8])
    ensures
        final(out)@ == old(out)@ + src@,
{
    let mut i: usize = 0;
    while i < src.len()
        invariant
            i <= src@.len(),
            out@ == old(out)@ + src@.take(i as int),
        decreases src@.len() - i,
    {
        out.push(src[i]);
        i = i + 1;
        proof {
            assert(src@.take(i as int) =~= src@.take(i - 1).push(src@[i - 1]));
        }
    }
    proof {
        assert(src@.take(src@.len() as int) =~= src@);
    }
}

/// Writes `src` over `buf[pos..pos + src.len()]`.
pub fn copy_into(buf: &mut Vec<u8>, pos: usize, src: &[u8])
    requires
        pos + src.len() <= old(buf).len(),
    ensures
        final(buf)@ == old(buf)@.take(pos as int) + src@ + old(buf)@.skip(pos + src@.len()),
{
    let mut i: usize = 0;
    proof {
        assert(buf@ =~= old(buf)@.take(pos as int) + src@.take(0) + old(buf)@.skip(pos as int));
    }
    while i < src.len()
        invariant
            i <= src.len(),
            pos + src.len() <= buf.len(),
            buf.len() == old(buf).len(),
            buf@ == old(buf)@.take(pos as int) + src@.take(i as int) + old(buf)@.skip(pos + i),
        decreases src.len() - i,
    {
        buf.set(pos + i, src[i]);
        i = i + 1;
        proof {
            assert(buf@ =~= old(buf)@.take(pos as int) + src@.take(i as int) + old(buf)@.skip(
                pos + i,
            ));
        }
    }
    proof {
        assert(src@.take(src@.len() as int) =~= src@);
    }
}

} // verus!
