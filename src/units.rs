//! Byte counts as people read them, and the names of scratch artifacts.

use vstd::prelude::*;
use crate::text::{decimal, digit_char, numbered, push_decimal};

verus! {

pub const KIB: u64 = 1024;

pub const MIB: u64 = 1024 * 1024;

pub const GIB: u64 = 1024 * 1024 * 1024;

/// `bytes / unit` in hundredths, rounded to the nearest, ties to even.
pub open spec fn hundredths(bytes: nat, unit: nat) -> nat
    recommends
        unit > 0,
{
    let q = bytes * 100 / unit;
    let r = bytes * 100 % unit;
    if 2 * r > unit || (2 * r == unit && q % 2 == 1) {
        q + 1
    } else {
        q
    }
}

/// A count of hundredths written with two decimal places.
pub open spec fn two_places(h: nat) -> Seq<char> {
    decimal(h / 100) + seq!['.', digit_char((h / 10) % 10), digit_char(h % 10)]
}

/// A byte count in the largest binary unit it reaches, with two decimals;
/// plain bytes below one KiB.
pub open spec fn bytes_text(bytes: nat) -> Seq<char> {
    if bytes >= GIB {
        two_places(hundredths(bytes, GIB as nat)) + " GiB"@
    } else if bytes >= MIB {
        two_places(hundredths(bytes, MIB as nat)) + " MiB"@
    } else if bytes >= KIB {
        two_places(hundredths(bytes, KIB as nat)) + " KiB"@
    } else {
        decimal(bytes) + " B"@
    }
}

fn in_unit(bytes: u64, unit: u64, name: &str) -> (r: String)
    requires
        unit >= 1024,
    ensures
        r@ == two_places(hundredths(bytes as nat, unit as nat)) + name@,
{
    let scaled: u128 = bytes as u128 * 100;
    let q = scaled / (unit as u128);
    let rem = scaled % (unit as u128);
    let h: u128 = if 2 * rem > unit as u128 || (2 * rem == unit as u128 && q % 2 == 1) {
        q + 1
    } else {
        q
    };
    assert(h == hundredths(bytes as nat, unit as nat));
    let mut r = String::new();
    push_decimal(&mut r, h / 100);
    r.append(".");
    push_decimal(&mut r, (h / 10) % 10);
    push_decimal(&mut r, h % 10);
    r.append(name);
    proof {
        reveal_strlit(".");
        assert(decimal(((h / 10) % 10) as nat) == seq![digit_char(((h / 10) % 10) as nat)]);
        assert(decimal((h % 10) as nat) == seq![digit_char((h % 10) as nat)]);
    }
    assert(r@ =~= two_places(h as nat) + name@);
    r
}

pub fn format_bytes(bytes: u64) -> (r: String)
    ensures
        r@ == bytes_text(bytes as nat),
{
    if bytes >= GIB {
        in_unit(bytes, GIB, " GiB")
    } else if bytes >= MIB {
        in_unit(bytes, MIB, " MiB")
    } else if bytes >= KIB {
        in_unit(bytes, KIB, " KiB")
    } else {
        proof {
            reveal_strlit("");
        }
        let r = numbered("", bytes as u128, " B");
        assert(r@ =~= decimal(bytes as nat) + " B"@);
        r
    }
}

/// The scratch directory of the process `pid`.
pub fn scratch_dir_name(pid: u32) -> (r: String)
    ensures
        r@ == "mwdh_"@ + decimal(pid as nat),
{
    proof {
        reveal_strlit("");
    }
    let r = numbered("mwdh_", pid as u128, "");
    assert(r@ =~= "mwdh_"@ + decimal(pid as nat));
    r
}

/// The scratch ZIP that holds the single compressed entry of unit `index`.
pub fn scratch_zip_name(index: usize) -> (r: String)
    ensures
        r@ == "file_"@ + decimal(index as nat) + ".zip"@,
{
    numbered("file_", index as u128, ".zip")
}

/// The scratch file that holds the frame of batch `index`.
pub fn scratch_batch_name(index: usize) -> (r: String)
    ensures
        r@ == "batch_"@ + decimal(index as nat) + ".zst"@,
{
    numbered("batch_", index as u128, ".zst")
}

/// The label under which batch `index` is reported.
pub fn batch_label(index: usize) -> (r: String)
    ensures
        r@ == "Batch "@ + decimal(index as nat),
{
    proof {
        reveal_strlit("");
    }
    let r = numbered("Batch ", index as u128, "");
    assert(r@ =~= "Batch "@ + decimal(index as nat));
    r
}

} // verus!
