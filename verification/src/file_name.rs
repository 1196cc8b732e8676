//! The names of the files that chunks are saved in.

use vstd::prelude::*;
use crate::geometry::Point3;

verus! {

/// The decimal digits of `n` as ASCII, the highest first.
pub open spec fn digits(n: nat) -> Seq<u8>
    decreases n,
{
    if n < 10 {
        seq![(48 + n) as u8]
    } else {
        digits(n / 10).push((48 + n % 10) as u8)
    }
}

/// `v` in decimal as ASCII, with a minus sign in front where it is negative.
pub open spec fn decimal(v: int) -> Seq<u8> {
    if v < 0 {
        seq![45u8] + digits((-v) as nat)
    } else {
        digits(v as nat)
    }
}

/// The ASCII letters of `chunk_`.
pub open spec fn prefix() -> Seq<u8> {
    seq![99u8, 104u8, 117u8, 110u8, 107u8, 95u8]
}

/// The name of the file of the chunk at `pos`: `chunk_`, the `x` coordinate,
/// an underscore and the `z` coordinate, as ASCII.
pub open spec fn spec_chunk_file_name(pos: Point3) -> Seq<u8> {
    prefix() + decimal(pos.x as int) + seq![95u8] + decimal(pos.z as int)
}

fn push_digits(out: &mut Vec<u8>, n: u64)
    ensures
        final(out)@ == old(out)@ + digits(n as nat),
    decreases n,
{
    if n < 10 {
        out.push((48 + n) as u8);
        assert(out@ =~= old(out)@ + digits(n as nat));
    } else {
        push_digits(out, n / 10);
        out.push((48 + n % 10) as u8);
        assert(out@ =~= old(out)@ + digits(n as nat));
    }
}

fn push_decimal(out: &mut Vec<u8>, v: i32)
    ensures
        final(out)@ == old(out)@ + decimal(v as int),
{
    if v < 0 {
        out.push(45);
        push_digits(out, (-(v as i64)) as u64);
        assert(out@ =~= old(out)@ + decimal(v as int));
    } else {
        push_digits(out, v as u64);
    }
}

/// The name of the file of the chunk at `pos`, within the directory that
/// chunks are saved in.
pub fn chunk_file_name(pos: Point3) -> (name: Vec<u8>)
    ensures
        name@ == spec_chunk_file_name(pos),
{
    let mut name: Vec<u8> = Vec::new();
    name.push(99);
    name.push(104);
    name.push(117);
    name.push(110);
    name.push(107);
    name.push(95);
    assert(name@ =~= prefix());
    push_decimal(&mut name, pos.x);
    name.push(95);
    push_decimal(&mut name, pos.z);
    assert(name@ =~= spec_chunk_file_name(pos));
    name
}

} // verus!
