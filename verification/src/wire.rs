//! The byte-level model of fixed-width numbers: what a number looks like as
//! a run of bytes in either byte order, and the verified routines that move
//! between the two forms.
use vstd::prelude::*;

verus! {

/// The two orders in which the bytes of a number can travel.
#[derive(Clone, Copy, Debug, PartialEq, Eq)]
pub enum ByteOrder {
    /// Most significant byte first.
    Big,
    /// Least significant byte first.
    Little,
}

/// `256` raised to the power `n`: the number of values that fit in `n` bytes.
pub open spec fn pow256(n: nat) -> nat
    decreases n,
{
    if n == 0 {
        1
    } else {
        256 * pow256((n - 1) as nat)
    }
}

/// The number that `bytes` spell when the first byte is the least significant.
pub open spec fn le_value(bytes: Seq<u8>) -> nat
    decreases bytes.len(),
{
    if bytes.len() == 0 {
        0
    } else {
        bytes[0] as nat + 256 * le_value(bytes.skip(1))
    }
}

/// The `len` low bytes of `value`, least significant first.
pub open spec fn le_bytes(value: nat, len: nat) -> Seq<u8>
    decreases len,
{
    if len == 0 {
        Seq::empty()
    } else {
        seq![(value % 256) as u8] + le_bytes(value / 256, (len - 1) as nat)
    }
}

/// `bytes` rearranged so that the least significant byte comes first.
pub open spec fn least_first(bytes: Seq<u8>, order: ByteOrder) -> Seq<u8> {
    match order {
        ByteOrder::Little => bytes,
        ByteOrder::Big => bytes.reverse(),
    }
}

/// The number that `bytes` spell in the given order.
pub open spec fn ordered_value(bytes: Seq<u8>, order: ByteOrder) -> nat {
    le_value(least_first(bytes, order))
}

/// The `len` low bytes of `value`, laid out in the given order.
pub open spec fn ordered_bytes(value: nat, len: nat, order: ByteOrder) -> Seq<u8> {
    least_first(le_bytes(value, len), order)
}

/// The two's-complement image of `value` in `len` bytes.
pub open spec fn to_unsigned(value: int, len: nat) -> nat {
    if value < 0 {
        (value + pow256(len)) as nat
    } else {
        value as nat
    }
}

/// The signed number whose two's-complement image in `len` bytes is `raw`.
pub open spec fn to_signed(raw: nat, len: nat) -> int {
    if 2 * raw >= pow256(len) {
        raw - pow256(len)
    } else {
        raw as int
    }
}

/// True when `value` fits a signed number of `len` bytes.
pub open spec fn fits_signed(value: int, len: nat) -> bool {
    -(pow256(len) as int) <= 2 * value < pow256(len)
}

/// The number of values that fit in the widths that the numeric kinds have.
pub proof fn lemma_pow256_values()
    ensures
        pow256(0) == 1,
        pow256(1) == 0x100,
        pow256(2) == 0x1_0000,
        pow256(4) == 0x1_0000_0000,
        pow256(8) == 0x1_0000_0000_0000_0000,
        pow256(16) == 0x1_0000_0000_0000_0000_0000_0000_0000_0000,
{
    reveal_with_fuel(pow256, 17);
}

/// More bytes hold at least as many values, and even no byte holds one.
pub proof fn lemma_pow256_monotonic(a: nat, b: nat)
    requires
        a <= b,
    ensures
        0 < pow256(a) <= pow256(b),
    decreases b,
{
    if b == 0 {
    } else if a == b {
        lemma_pow256_monotonic((a - 1) as nat, (b - 1) as nat);
    } else {
        lemma_pow256_monotonic(a, (b - 1) as nat);
    }
}

/// Reversing a run of bytes twice gives the run back.
pub proof fn lemma_reverse_twice(bytes: Seq<u8>)
    ensures
        bytes.reverse().reverse() =~= bytes,
        bytes.reverse().len() == bytes.len(),
{
}

/// The `len` low bytes of a number are `len` bytes.
pub proof fn lemma_le_bytes_len(value: nat, len: nat)
    ensures
        le_bytes(value, len).len() == len,
    decreases len,
{
    if len > 0 {
        lemma_le_bytes_len(value / 256, (len - 1) as nat);
    }
}

/// The number that bytes spell fits in as many bytes.
pub proof fn lemma_le_value_bound(bytes: Seq<u8>)
    ensures
        le_value(bytes) < pow256(bytes.len()),
    decreases bytes.len(),
{
    if bytes.len() > 0 {
        lemma_le_value_bound(bytes.skip(1));
    }
}

/// Spelling a number that fits `len` bytes and reading it back gives the number.
pub proof fn lemma_le_value_of_le_bytes(value: nat, len: nat)
    requires
        value < pow256(len),
    ensures
        le_value(le_bytes(value, len)) == value,
    decreases len,
{
    if len > 0 {
        let rest = le_bytes(value / 256, (len - 1) as nat);
        lemma_le_value_of_le_bytes(value / 256, (len - 1) as nat);
        assert(le_bytes(value, len).skip(1) =~= rest);
    }
}

/// Reading bytes as a number and spelling it in as many bytes gives the bytes.
pub proof fn lemma_le_bytes_of_le_value(bytes: Seq<u8>)
    ensures
        le_bytes(le_value(bytes), bytes.len()) =~= bytes,
    decreases bytes.len(),
{
    if bytes.len() > 0 {
        lemma_le_bytes_of_le_value(bytes.skip(1));
        let tail = le_value(bytes.skip(1));
        let value = le_value(bytes);
        assert(value % 256 == bytes[0] as nat && value / 256 == tail) by {
            assert(value == bytes[0] as nat + 256 * tail);
        }
        assert((seq![bytes[0]] + bytes.skip(1)) =~= bytes);
    }
}

/// In either order, a number that fits `len` bytes survives being spelled and read back.
pub proof fn lemma_ordered_value_of_bytes(value: nat, len: nat, order: ByteOrder)
    requires
        value < pow256(len),
    ensures
        ordered_bytes(value, len, order).len() == len,
        ordered_value(ordered_bytes(value, len, order), order) == value,
{
    lemma_le_bytes_len(value, len);
    lemma_le_value_of_le_bytes(value, len);
    lemma_reverse_twice(le_bytes(value, len));
}

/// In either order, bytes survive being read as a number and spelled again.
pub proof fn lemma_ordered_bytes_of_value(bytes: Seq<u8>, order: ByteOrder)
    ensures
        ordered_value(bytes, order) < pow256(bytes.len()),
        ordered_bytes(ordered_value(bytes, order), bytes.len(), order) =~= bytes,
{
    let canonical = least_first(bytes, order);
    lemma_reverse_twice(bytes);
    lemma_le_value_bound(canonical);
    lemma_le_bytes_of_le_value(canonical);
}

/// A signed number that fits `len` bytes survives the passage through its
/// two's-complement image.
pub proof fn lemma_signed_round_trip(value: int, len: nat)
    requires
        fits_signed(value, len),
    ensures
        to_unsigned(value, len) < pow256(len),
        to_signed(to_unsigned(value, len), len) == value,
{
}

/// Every image of `len` bytes stands for a signed number that fits `len` bytes.
pub proof fn lemma_unsigned_round_trip(raw: nat, len: nat)
    requires
        raw < pow256(len),
    ensures
        fits_signed(to_signed(raw, len), len),
        to_unsigned(to_signed(raw, len), len) == raw,
{
}

/// Reads the bytes of `buf` as an unsigned number in the given order.
pub fn decode_unsigned(buf: &[u8], order: ByteOrder) -> (value: u128)
    requires
        buf@.len() <= 16,
    ensures
        value == ordered_value(buf@, order),
        value < pow256(buf@.len()),
{
    let n = buf.len();
    let ghost canonical = least_first(buf@, order);
    let mut value: u128 = 0;
    let mut k: usize = 0;
    proof {
        lemma_reverse_twice(buf@);
        assert(canonical.skip(n as int) =~= Seq::<u8>::empty());
    }
    while k < n
        invariant
            k <= n,
            n == buf@.len(),
            n <= 16,
            canonical == least_first(buf@, order),
            canonical.len() == n,
            value == le_value(canonical.skip(n - k)),
        decreases n - k,
    {
        let idx = match order {
            ByteOrder::Little => n - 1 - k,
            ByteOrder::Big => k,
        };
        let byte = buf[idx];
        proof {
            let rest = canonical.skip(n - k);
            let next = canonical.skip(n - k - 1);
            assert(next.skip(1) =~= rest);
            assert(next[0] == byte);
            lemma_le_value_bound(rest);
            lemma_le_value_bound(next);
            lemma_pow256_monotonic(next.len(), 16);
            lemma_pow256_values();
        }
        value = value * 256 + byte as u128;
        k += 1;
    }
    proof {
        assert(canonical.skip(0) =~= canonical);
        lemma_le_value_bound(canonical);
    }
    value
}

/// Fills `buf` with the low bytes of `value` in the given order, as many as
/// `buf` has room for.
pub fn encode_unsigned(value: u128, buf: &mut [u8], order: ByteOrder)
    ensures
        final(buf)@ == ordered_bytes(value as nat, old(buf)@.len(), order),
        final(buf)@.len() == old(buf)@.len(),
{
    let n = buf.len();
    let ghost target = le_bytes(value as nat, n as nat);
    let mut rest: u128 = value;
    let mut k: usize = 0;
    proof {
        lemma_le_bytes_len(value as nat, n as nat);
        assert(target.skip(0) =~= target);
    }
    while k < n
        invariant
            k <= n,
            n == buf@.len(),
            target == le_bytes(value as nat, n as nat),
            target.len() == n,
            target.skip(k as int) == le_bytes(rest as nat, (n - k) as nat),
            forall|j: int| 0 <= j < k ==> #[trigger] least_first(buf@, order)[j] == target[j],
        decreases n - k,
    {
        let idx = match order {
            ByteOrder::Little => k,
            ByteOrder::Big => n - 1 - k,
        };
        let ghost before = buf@;
        proof {
            let tail = le_bytes(rest as nat / 256, (n - k - 1) as nat);
            assert(target.skip(k as int)[0] == (rest % 256) as u8);
            assert(target.skip(k as int + 1) =~= target.skip(k as int).skip(1));
            assert(target.skip(k as int).skip(1) =~= tail);
        }
        buf[idx] = (rest % 256) as u8;
        rest = rest / 256;
        proof {
            assert forall|j: int| 0 <= j < k + 1 implies #[trigger] least_first(buf@, order)[j]
                == target[j] by {
                if j < k {
                    assert(least_first(before, order)[j] == target[j]);
                }
            }
        }
        k += 1;
    }
    proof {
        lemma_reverse_twice(buf@);
        assert(least_first(buf@, order) =~= target);
        assert(buf@ =~= least_first(target, order));
    }
}

/// The number of values that fit in `len` bytes, for fewer than sixteen bytes.
pub fn modulus(len: usize) -> (m: u128)
    requires
        len < 16,
    ensures
        m == pow256(len as nat),
        m <= 0x1_0000_0000_0000_0000_0000_0000_0000_00,
{
    let mut m: u128 = 1;
    let mut k: usize = 0;
    while k < len
        invariant
            k <= len,
            len < 16,
            m == pow256(k as nat),
        decreases len - k,
    {
        proof {
            lemma_pow256_monotonic((k + 1) as nat, 15);
            reveal_with_fuel(pow256, 16);
        }
        m = m * 256;
        k += 1;
    }
    proof {
        lemma_pow256_monotonic(len as nat, 15);
        reveal_with_fuel(pow256, 16);
    }
    m
}

/// The signed number that the image `raw` of `len` bytes stands for.
pub fn signed_of(raw: u128, len: usize) -> (value: i128)
    requires
        len <= 16,
        raw < pow256(len as nat),
    ensures
        value == to_signed(raw as nat, len as nat),
        fits_signed(value as int, len as nat),
{
    proof {
        lemma_pow256_values();
    }
    if len == 16 {
        if raw >= 0x8000_0000_0000_0000_0000_0000_0000_0000 {
            (raw - 0x8000_0000_0000_0000_0000_0000_0000_0000) as i128 + i128::MIN
        } else {
            raw as i128
        }
    } else {
        let m = modulus(len);
        if raw >= m - raw {
            raw as i128 - m as i128
        } else {
            raw as i128
        }
    }
}

/// The two's-complement image of `value` in `len` bytes.
pub fn unsigned_of(value: i128, len: usize) -> (raw: u128)
    requires
        len <= 16,
        fits_signed(value as int, len as nat),
    ensures
        raw == to_unsigned(value as int, len as nat),
        raw < pow256(len as nat),
{
    proof {
        lemma_pow256_values();
    }
    if value >= 0 {
        value as u128
    } else if len == 16 {
        (value - i128::MIN) as u128 + 0x8000_0000_0000_0000_0000_0000_0000_0000
    } else {
        let m = modulus(len);
        (value + m as i128) as u128
    }
}

} // verus!
