//! Reading the numbers of a network from its bytes.

use vstd::prelude::*;

verus! {

/// The 16-bit number, low byte first, at place `at` of `bytes`.
pub open spec fn le16(bytes: Seq<u8>, at: int) -> i16 {
    let v = bytes[at] + 256 * bytes[at + 1];
    if v >= 32768 {
        (v - 65536) as i16
    } else {
        v as i16
    }
}

/// The 8-bit number at place `at` of `bytes`.
pub open spec fn le8(bytes: Seq<u8>, at: int) -> i8 {
    if bytes[at] >= 128 {
        (bytes[at] - 256) as i8
    } else {
        bytes[at] as i8
    }
}

/// The `count` 16-bit numbers that stand in `bytes` from place `at` on.
pub fn read_i16s(bytes: &[u8], at: usize, count: usize) -> (v: Vec<i16>)
    requires
        at + 2 * count <= bytes@.len(),
    ensures
        v@.len() == count,
        forall|i: int| 0 <= i < count ==> #[trigger] v@[i] == le16(bytes@, at + 2 * i),
{
    let mut v: Vec<i16> = Vec::new();
    let mut i: usize = 0;
    let len = bytes.len();
    while i < count
        invariant
            i <= count,
            len == bytes@.len(),
            at + 2 * count <= bytes@.len(),
            v@.len() == i,
            forall|j: int| 0 <= j < i ==> #[trigger] v@[j] == le16(bytes@, at + 2 * j),
        decreases count - i,
    {
        let lo = bytes[at + 2 * i] as i32;
        let hi = bytes[at + 2 * i + 1] as i32;
        let raw = lo + 256 * hi;
        let x: i16 = if raw >= 32768 { (raw - 65536) as i16 } else { raw as i16 };
        v.push(x);
        i += 1;
    }
    v
}

/// The `count` 8-bit numbers that stand in `bytes` from place `at` on.
pub fn read_i8s(bytes: &[u8], at: usize, count: usize) -> (v: Vec<i8>)
    requires
        at + count <= bytes@.len(),
    ensures
        v@.len() == count,
        forall|i: int| 0 <= i < count ==> #[trigger] v@[i] == le8(bytes@, at + i),
{
    let mut v: Vec<i8> = Vec::new();
    let mut i: usize = 0;
    let len = bytes.len();
    while i < count
        invariant
            i <= count,
            len == bytes@.len(),
            at + count <= bytes@.len(),
            v@.len() == i,
            forall|j: int| 0 <= j < i ==> #[trigger] v@[j] == le8(bytes@, at + j),
        decreases count - i,
    {
        let raw = bytes[at + i] as i16;
        let x: i8 = if raw >= 128 { (raw - 256) as i8 } else { raw as i8 };
        v.push(x);
        i += 1;
    }
    v
}

} // verus!
