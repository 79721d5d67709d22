//! Pointer widths, byte orders and the value of a pointer-sized window of bytes.
use vstd::prelude::*;

verus! {

/// Width of a pointer in the analysed binary, fixed by the target's bitness.
#[derive(Clone, Copy, Debug, PartialEq, Eq, Structural)]
pub enum PointerWidth {
    /// 32-bit target: four bytes per pointer.
    Four,
    /// 64-bit target: eight bytes per pointer.
    Eight,
}

impl PointerWidth {
    /// Number of bytes in one pointer.
    pub open spec fn bytes(self) -> nat {
        match self {
            PointerWidth::Four => 4,
            PointerWidth::Eight => 8,
        }
    }

    /// The width that has `size` bytes, if there is one.
    pub open spec fn of_size(size: nat) -> Option<PointerWidth> {
        if size == 4 {
            Some(PointerWidth::Four)
        } else if size == 8 {
            Some(PointerWidth::Eight)
        } else {
            None
        }
    }

    /// Number of bytes in one pointer.
    pub fn size(self) -> (n: usize)
        ensures
            n == self.bytes(),
    {
        match self {
            PointerWidth::Four => 4,
            PointerWidth::Eight => 8,
        }
    }

    /// The width of `size` bytes; only 4 and 8 are pointer widths.
    pub fn from_size(size: usize) -> (width: Option<PointerWidth>)
        ensures
            width == PointerWidth::of_size(size as nat),
    {
        if size == 4 {
            Some(PointerWidth::Four)
        } else if size == 8 {
            Some(PointerWidth::Eight)
        } else {
            None
        }
    }

    /// The width of a target: eight bytes if it is a 64-bit one, four otherwise.
    pub fn from_bitness(is_64: bool) -> (width: PointerWidth)
        ensures
            width == if is_64 {
                PointerWidth::Eight
            } else {
                PointerWidth::Four
            },
    {
        if is_64 {
            PointerWidth::Eight
        } else {
            PointerWidth::Four
        }
    }
}

/// Order in which the bytes of an integer lie in memory.
#[derive(Clone, Copy, Debug, PartialEq, Eq, Structural)]
pub enum ByteOrder {
    /// Least significant byte first.
    Little,
    /// Most significant byte first.
    Big,
}

/// The number that `bytes` spell in base 256, most significant byte first.
pub open spec fn big_endian_value(bytes: Seq<u8>) -> nat
    decreases bytes.len(),
{
    if bytes.len() == 0 {
        0
    } else {
        big_endian_value(bytes.drop_last()) * 256 + bytes.last() as nat
    }
}

/// The bytes in the order from most to least significant.
pub open spec fn most_significant_first(bytes: Seq<u8>, order: ByteOrder) -> Seq<u8> {
    match order {
        ByteOrder::Big => bytes,
        ByteOrder::Little => bytes.reverse(),
    }
}

/// The unsigned integer that `bytes` hold when read in the given byte order.
pub open spec fn pointer_value(bytes: Seq<u8>, order: ByteOrder) -> nat {
    big_endian_value(most_significant_first(bytes, order))
}

/// 256 to the power `n`: the number of values that `n` bytes can hold.
pub open spec fn byte_values(n: nat) -> nat
    decreases n,
{
    if n == 0 {
        1
    } else {
        256 * byte_values((n - 1) as nat)
    }
}

/// A value of `n` bytes is below 256 to the power `n`.
pub proof fn lemma_value_below_limit(bytes: Seq<u8>)
    ensures
        big_endian_value(bytes) < byte_values(bytes.len()),
    decreases bytes.len(),
{
    if bytes.len() > 0 {
        lemma_value_below_limit(bytes.drop_last());
    }
}

/// Up to eight bytes hold a value that fits in 64 bits.
pub proof fn lemma_eight_bytes_fit(n: nat)
    requires
        n <= 8,
    ensures
        byte_values(n) <= 0x1_0000_0000_0000_0000,
{
    reveal_with_fuel(byte_values, 10);
}

/// Reads `window` as an unsigned integer in the given byte order.
pub fn decode_pointer(window: &[u8], order: ByteOrder) -> (value: u64)
    requires
        window@.len() <= 8,
    ensures
        value == pointer_value(window@, order),
{
    let n = window.len();
    let ghost digits = most_significant_first(window@, order);
    let mut value: u64 = 0;
    let mut i: usize = 0;
    while i < n
        invariant
            n == window@.len(),
            n <= 8,
            i <= n,
            digits == most_significant_first(window@, order),
            value == big_endian_value(digits.take(i as int)),
        decreases n - i,
    {
        let byte = match order {
            ByteOrder::Big => window[i],
            ByteOrder::Little => window[n - 1 - i],
        };
        proof {
            let next = digits.take(i + 1);
            assert(next.drop_last() =~= digits.take(i as int));
            assert(next.last() == byte);
            lemma_value_below_limit(next);
            lemma_eight_bytes_fit(next.len());
        }
        value = value * 256 + byte as u64;
        i += 1;
    }
    assert(digits.take(n as int) =~= digits);
    value
}

/// `u16::from_ne_bytes` of std: the integer whose representation in this
/// machine's memory is `bytes`. std documents it as `from_le_bytes` on a
/// little-endian target and `from_be_bytes` on a big-endian one, so the result
/// is the value of the bytes in one of the two orders.
#[verifier::external_body]
fn u16_from_native_bytes(bytes: [u8; 2]) -> (value: u16)
    ensures
        value == pointer_value(bytes@, ByteOrder::Little) || value == pointer_value(
            bytes@,
            ByteOrder::Big,
        ),
{
    u16::from_ne_bytes(bytes)
}

/// The byte order of the machine this code runs on.
///
/// It is found by reading the bytes `01 00` as a native 16-bit integer, which
/// gives 1 on a little-endian machine and 256 on a big-endian one.
pub fn native_byte_order() -> (order: ByteOrder) {
    let probe = u16_from_native_bytes([1, 0]);
    byte_order_that_reads(probe)
}

/// The two bytes `01 00`, which spell another number in each byte order.
pub open spec fn probe_bytes() -> Seq<u8> {
    seq![1u8, 0u8]
}

/// The byte order in which a machine works that reads the bytes `01 00` as
/// `value`: little-endian for 1, big-endian for any other value.
pub open spec fn order_that_reads(value: u16) -> ByteOrder {
    if value == 1 {
        ByteOrder::Little
    } else {
        ByteOrder::Big
    }
}

/// The bytes `01 00` spell 1 with the least significant byte first, and 256
/// with the most significant byte first.
pub proof fn lemma_probe_values()
    ensures
        pointer_value(probe_bytes(), ByteOrder::Little) == 1,
        pointer_value(probe_bytes(), ByteOrder::Big) == 256,
{
    let big = probe_bytes();
    let little = probe_bytes().reverse();
    reveal_with_fuel(big_endian_value, 3);
    assert(big.len() == 2 && big[0] == 1 && big[1] == 0);
    assert(little.len() == 2 && little[0] == 0 && little[1] == 1);
    assert(big.drop_last().len() == 1 && big.drop_last()[0] == 1);
    assert(little.drop_last().len() == 1 && little.drop_last()[0] == 0);
    assert(big.drop_last().drop_last().len() == 0);
    assert(little.drop_last().drop_last().len() == 0);
}

/// The byte order of a machine on which the bytes `01 00`, read as a native
/// 16-bit integer, give `value`. Where `value` is what the bytes spell in one of
/// the two orders, the result is that order.
pub fn byte_order_that_reads(value: u16) -> (order: ByteOrder)
    ensures
        order == order_that_reads(value),
        value == pointer_value(probe_bytes(), ByteOrder::Little) || value == pointer_value(
            probe_bytes(),
            ByteOrder::Big,
        ) ==> pointer_value(probe_bytes(), order) == value,
{
    proof {
        lemma_probe_values();
    }
    if value == 1 {
        ByteOrder::Little
    } else {
        ByteOrder::Big
    }
}

} // verus!
