//! CRC-32 as PNG and zlib use it: reflected, polynomial `0xEDB88320`, with the
//! accumulator complemented on the way in and on the way out.

use vstd::prelude::*;

verus! {

/// Divides `c` by the polynomial for one bit.
pub open spec fn shift_step(c: u32) -> u32 {
    if c & 1 != 0 {
        0xedb88320u32 ^ (c >> 1)
    } else {
        c >> 1
    }
}

/// `k` applications of [`shift_step`] to `c`.
pub open spec fn shift_steps(c: u32, k: nat) -> u32
    decreases k,
{
    if k == 0 {
        c
    } else {
        shift_step(shift_steps(c, (k - 1) as nat))
    }
}

/// The table entry for the byte value `n`: `n` divided for eight bits.
pub open spec fn table_entry(n: u32) -> u32 {
    shift_steps(n, 8)
}

/// The 256-entry lookup table.
pub open spec fn standard_table() -> Seq<u32> {
    Seq::new(256, |n: int| table_entry(n as u32))
}

/// The accumulator after the byte `b` has been fed into `acc` through `table`.
pub open spec fn feed_byte(acc: u32, b: u8, table: Seq<u32>) -> u32 {
    table[((acc ^ (b as u32)) & 0xff) as int] ^ (acc >> 8)
}

/// The accumulator after every byte of `data`, first to last, has been fed
/// into `acc` through `table`.
pub open spec fn feed_bytes(acc: u32, data: Seq<u8>, table: Seq<u32>) -> u32
    decreases data.len(),
{
    if data.len() == 0 {
        acc
    } else {
        feed_byte(feed_bytes(acc, data.drop_last(), table), data.last(), table)
    }
}

/// The checksum of `data` computed through `table`.
pub open spec fn checksum_with(data: Seq<u8>, table: Seq<u32>) -> u32 {
    feed_bytes(0xFFFF_FFFFu32, data, table) ^ 0xFFFF_FFFFu32
}

/// The CRC-32 of `data`.
pub open spec fn crc32(data: Seq<u8>) -> u32 {
    checksum_with(data, standard_table())
}

/// Eight applications of [`shift_step`] to `c`, written out.
pub open spec fn shift_byte(c: u32) -> u32 {
    shift_step(
        shift_step(
            shift_step(shift_step(shift_step(shift_step(shift_step(shift_step(c)))))),
        ),
    )
}

/// The checksum of nothing is 0.
pub proof fn lemma_crc32_of_nothing()
    ensures
        crc32(Seq::<u8>::empty()) == 0,
{
    assert(0xFFFF_FFFFu32 ^ 0xFFFF_FFFFu32 == 0) by (bit_vector);
}

/// Feeding a byte through the table is the division written out bit by bit:
/// the byte is added into the low end of the accumulator, and the accumulator
/// is divided for eight bits.
pub proof fn lemma_feed_byte_is_division(acc: u32, b: u8)
    ensures
        feed_byte(acc, b, standard_table()) == shift_steps(acc ^ (b as u32), 8),
        shift_steps(acc ^ (b as u32), 8) == shift_byte(acc ^ (b as u32)),
{
    let x: u32 = acc ^ (b as u32);
    let low: u32 = x & 0xff;
    assert(low < 256) by (bit_vector)
        requires
            low == x & 0xff,
    ;
    assert(x >> 8 == acc >> 8) by (bit_vector)
        requires
            x == acc ^ (b as u32),
    ;
    lemma_shift_steps_written_out(x);
    lemma_shift_steps_written_out(low);
    assert(shift_byte(x) == shift_byte(low) ^ (x >> 8)) by (bit_vector)
        requires
            low == x & 0xff,
    ;
    assert(standard_table()[low as int] == table_entry(low));
}

/// Eight steps of the division are the eight steps written out.
pub proof fn lemma_shift_steps_written_out(c: u32)
    ensures
        shift_steps(c, 8) == shift_byte(c),
{
    reveal_with_fuel(shift_steps, 9);
}

/// Feeding two runs of bytes one after the other is feeding them joined.
pub proof fn lemma_feed_bytes_joined(acc: u32, first: Seq<u8>, second: Seq<u8>, table: Seq<u32>)
    ensures
        feed_bytes(acc, first + second, table) == feed_bytes(
            feed_bytes(acc, first, table),
            second,
            table,
        ),
    decreases second.len(),
{
    if second.len() == 0 {
        assert(first + second =~= first);
    } else {
        lemma_feed_bytes_joined(acc, first, second.drop_last(), table);
        assert((first + second).drop_last() =~= first + second.drop_last());
        assert((first + second).last() == second.last());
    }
}

/// The checksum of the four bytes `IEND`, which is the checksum of every
/// closing chunk, is `0xAE426082`.
pub proof fn lemma_crc32_of_iend()
    ensures
        crc32(seq![0x49u8, 0x45u8, 0x4Eu8, 0x44u8]) == 0xAE42_6082u32,
{
    let t = standard_table();
    let s4 = seq![0x49u8, 0x45u8, 0x4Eu8, 0x44u8];
    let s3 = seq![0x49u8, 0x45u8, 0x4Eu8];
    let s2 = seq![0x49u8, 0x45u8];
    let s1 = seq![0x49u8];
    let s0 = Seq::<u8>::empty();
    assert(s4.drop_last() =~= s3);
    assert(s3.drop_last() =~= s2);
    assert(s2.drop_last() =~= s1);
    assert(s1.drop_last() =~= s0);
    let a0: u32 = 0xFFFF_FFFFu32;
    let a1 = feed_bytes(a0, s1, t);
    let a2 = feed_bytes(a0, s2, t);
    let a3 = feed_bytes(a0, s3, t);
    let a4 = feed_bytes(a0, s4, t);
    assert(feed_bytes(a0, s0, t) == a0);
    assert(a1 == feed_byte(a0, 0x49u8, t));
    assert(a2 == feed_byte(a1, 0x45u8, t));
    assert(a3 == feed_byte(a2, 0x4Eu8, t));
    assert(a4 == feed_byte(a3, 0x44u8, t));
    lemma_feed_byte_is_division(a0, 0x49u8);
    lemma_feed_byte_is_division(a1, 0x45u8);
    lemma_feed_byte_is_division(a2, 0x4Eu8);
    lemma_feed_byte_is_division(a3, 0x44u8);
    let x1: u32 = a0 ^ (0x49u8 as u32);
    let x2: u32 = a1 ^ (0x45u8 as u32);
    let x3: u32 = a2 ^ (0x4Eu8 as u32);
    let x4: u32 = a3 ^ (0x44u8 as u32);
    assert(a4 ^ 0xFFFF_FFFFu32 == 0xAE42_6082u32) by (bit_vector)
        requires
            x1 == 0xFFFF_FFFFu32 ^ (0x49u8 as u32),
            a1 == shift_byte(x1),
            x2 == a1 ^ (0x45u8 as u32),
            a2 == shift_byte(x2),
            x3 == a2 ^ (0x4Eu8 as u32),
            a3 == shift_byte(x3),
            x4 == a3 ^ (0x44u8 as u32),
            a4 == shift_byte(x4),
    ;
}

/// Builds the lookup table.
pub fn make_crc_table() -> (table: Vec<u32>)
    ensures
        table@ == standard_table(),
{
    let mut table: Vec<u32> = Vec::new();
    let mut n: u32 = 0;
    while n < 256
        invariant
            n <= 256,
            table@.len() == n,
            forall|i: int| 0 <= i < n ==> table@[i] == table_entry(i as u32),
        decreases 256 - n,
    {
        let mut c: u32 = n;
        let mut k: u32 = 0;
        while k < 8
            invariant
                k <= 8,
                c == shift_steps(n, k as nat),
            decreases 8 - k,
        {
            if c & 1 != 0 {
                c = 0xedb88320u32 ^ (c >> 1);
            } else {
                c = c >> 1;
            }
            k = k + 1;
        }
        table.push(c);
        n = n + 1;
    }
    assert(table@ =~= standard_table());
    table
}

/// Feeds `buf` into the running accumulator `crc` and returns the new
/// accumulator. Neither end is complemented here. The table has an entry for
/// every byte value; entries past the first 256 are never read.
pub fn update_crc(crc: u32, buf: &[u8], crc_table: Vec<u32>) -> (acc: u32)
    requires
        crc_table@.len() >= 256,
    ensures
        acc == feed_bytes(crc, buf@, crc_table@),
{
    let mut acc: u32 = crc;
    let mut n: usize = 0;
    while n < buf.len()
        invariant
            n <= buf.len(),
            crc_table@.len() >= 256,
            acc == feed_bytes(crc, buf@.take(n as int), crc_table@),
        decreases buf.len() - n,
    {
        let b: u8 = buf[n];
        let x: u32 = (acc ^ (b as u32)) & 0xff;
        assert(x < 256) by (bit_vector)
            requires
                x == (acc ^ (b as u32)) & 0xff,
        ;
        proof {
            let next = buf@.take(n + 1);
            assert(next.drop_last() =~= buf@.take(n as int));
            assert(next.last() == b);
        }
        acc = crc_table[x as usize] ^ (acc >> 8);
        n = n + 1;
    }
    assert(buf@.take(n as int) =~= buf@);
    acc
}

/// The checksum of `buf` computed through `crc_table`, which has an entry for
/// every byte value.
pub fn crc(buf: &[u8], crc_table: Vec<u32>) -> (sum: u32)
    requires
        crc_table@.len() >= 256,
    ensures
        sum == checksum_with(buf@, crc_table@),
        crc_table@ == standard_table() ==> sum == crc32(buf@),
{
    update_crc(0xFFFF_FFFFu32, buf, crc_table) ^ 0xFFFF_FFFFu32
}

} // verus!
