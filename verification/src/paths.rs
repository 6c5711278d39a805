//! Trimming and object-path cleaning, performed on the code units of a
//! decoded wire string: NUL and space are trimmed at both ends, and a path
//! is shortened to its unqualified tail. `.` and `/` and the `Default__`
//! prefix are ASCII, so these scans act on narrow bytes and wide units
//! alike, before the units are decoded to text.

use vstd::prelude::*;

verus! {

/// `s` without leading `pad` units.
pub open spec fn trim_front16(s: Seq<u16>, pad: u16) -> Seq<u16>
    decreases s.len(),
{
    if s.len() == 0 {
        s
    } else if s[0] == pad {
        trim_front16(s.drop_first(), pad)
    } else {
        s
    }
}

/// `s` without trailing `pad` units.
pub open spec fn trim_back16(s: Seq<u16>, pad: u16) -> Seq<u16>
    decreases s.len(),
{
    if s.len() == 0 {
        s
    } else if s[s.len() - 1] == pad {
        trim_back16(s.drop_last(), pad)
    } else {
        s
    }
}

/// `s` with NUL units trimmed at both ends, then space units: the two
/// passes run in that order, as the decoder has always trimmed.
pub open spec fn trim16(s: Seq<u16>) -> Seq<u16> {
    trim_back16(trim_front16(trim_back16(trim_front16(s, 0x00), 0x00), 0x20), 0x20)
}

/// `s` without leading `pad` bytes.
pub open spec fn trim_front8(s: Seq<u8>, pad: u8) -> Seq<u8>
    decreases s.len(),
{
    if s.len() == 0 {
        s
    } else if s[0] == pad {
        trim_front8(s.drop_first(), pad)
    } else {
        s
    }
}

/// `s` without trailing `pad` bytes.
pub open spec fn trim_back8(s: Seq<u8>, pad: u8) -> Seq<u8>
    decreases s.len(),
{
    if s.len() == 0 {
        s
    } else if s[s.len() - 1] == pad {
        trim_back8(s.drop_last(), pad)
    } else {
        s
    }
}

/// `s` with NUL bytes trimmed at both ends, then space bytes.
pub open spec fn trim8(s: Seq<u8>) -> Seq<u8> {
    trim_back8(trim_front8(trim_back8(trim_front8(s, 0x00), 0x00), 0x20), 0x20)
}

/// The nine bytes of the `Default__` class prefix.
pub open spec fn default_prefix() -> Seq<u8> {
    seq![0x44u8, 0x65u8, 0x66u8, 0x61u8, 0x75u8, 0x6Cu8, 0x74u8, 0x5Fu8, 0x5Fu8]
}

/// `s` without a leading `Default__`, if it carries one.
pub open spec fn strip_default8(s: Seq<u8>) -> Seq<u8> {
    if s.len() >= 9 && s.subrange(0, 9) == default_prefix() {
        s.subrange(9, s.len() as int)
    } else {
        s
    }
}

/// The right-to-left scan of path cleaning, about to look at index `k`:
/// the first `.` from the right splits off the tail after it, a `/` halts
/// the scan unchanged, and a fully scanned path loses a `Default__` prefix.
pub open spec fn clean_path8_rec(s: Seq<u8>, k: int) -> Seq<u8>
    decreases k + 1,
{
    if k < 0 || k >= s.len() {
        strip_default8(s)
    } else if s[k] == 0x2E {
        s.subrange(k + 1, s.len() as int)
    } else if s[k] == 0x2F {
        s
    } else {
        clean_path8_rec(s, k - 1)
    }
}

/// The unqualified tail of an object path, as narrow bytes.
pub open spec fn clean_path8(s: Seq<u8>) -> Seq<u8> {
    clean_path8_rec(s, s.len() - 1)
}

/// The wide form of the `Default__` prefix.
pub open spec fn default_prefix16() -> Seq<u16> {
    seq![0x44u16, 0x65u16, 0x66u16, 0x61u16, 0x75u16, 0x6Cu16, 0x74u16, 0x5Fu16, 0x5Fu16]
}

/// `s` without a leading `Default__`, if it carries one.
pub open spec fn strip_default16(s: Seq<u16>) -> Seq<u16> {
    if s.len() >= 9 && s.subrange(0, 9) == default_prefix16() {
        s.subrange(9, s.len() as int)
    } else {
        s
    }
}

/// The right-to-left path-cleaning scan over wide units.
pub open spec fn clean_path16_rec(s: Seq<u16>, k: int) -> Seq<u16>
    decreases k + 1,
{
    if k < 0 || k >= s.len() {
        strip_default16(s)
    } else if s[k] == 0x2E {
        s.subrange(k + 1, s.len() as int)
    } else if s[k] == 0x2F {
        s
    } else {
        clean_path16_rec(s, k - 1)
    }
}

/// The unqualified tail of an object path, as wide units.
pub open spec fn clean_path16(s: Seq<u16>) -> Seq<u16> {
    clean_path16_rec(s, s.len() - 1)
}

/// Copies `v[i..j]` into a fresh vector.
pub fn sub_vec8(v: &Vec<u8>, i: usize, j: usize) -> (r: Vec<u8>)
    requires
        i <= j <= v@.len(),
    ensures
        r@ == v@.subrange(i as int, j as int),
{
    let s = vstd::slice::slice_subrange(v.as_slice(), i, j);
    vstd::slice::slice_to_vec(s)
}

/// Copies `v[i..j]` into a fresh vector.
pub fn sub_vec16(v: &Vec<u16>, i: usize, j: usize) -> (r: Vec<u16>)
    requires
        i <= j <= v@.len(),
    ensures
        r@ == v@.subrange(i as int, j as int),
{
    let s = vstd::slice::slice_subrange(v.as_slice(), i, j);
    vstd::slice::slice_to_vec(s)
}

/// Trims `pad` bytes from both ends.
fn trim_bytes_pad(v: &Vec<u8>, pad: u8) -> (r: Vec<u8>)
    ensures
        r@ == trim_back8(trim_front8(v@, pad), pad),
{
    let mut start: usize = 0;
    proof {
        assert(v@.subrange(0, v@.len() as int) =~= v@);
    }
    while start < v.len() && v[start] == pad
        invariant
            start <= v@.len(),
            trim_front8(v@, pad) == trim_front8(v@.subrange(start as int, v@.len() as int), pad),
        decreases v@.len() - start,
    {
        proof {
            assert(v@.subrange(start as int, v@.len() as int).drop_first() =~= v@.subrange(
                start + 1,
                v@.len() as int,
            ));
        }
        start = start + 1;
    }
    proof {
        assert(trim_front8(v@, pad) =~= v@.subrange(start as int, v@.len() as int));
    }
    let mut end: usize = v.len();
    while end > start && v[end - 1] == pad
        invariant
            start <= end <= v@.len(),
            trim_front8(v@, pad) == v@.subrange(start as int, v@.len() as int),
            trim_back8(v@.subrange(start as int, v@.len() as int), pad) == trim_back8(
                v@.subrange(start as int, end as int),
                pad,
            ),
        decreases end,
    {
        proof {
            assert(v@.subrange(start as int, end as int).drop_last() =~= v@.subrange(
                start as int,
                end - 1,
            ));
        }
        end = end - 1;
    }
    proof {
        assert(trim_back8(trim_front8(v@, pad), pad) =~= v@.subrange(start as int, end as int));
    }
    sub_vec8(v, start, end)
}

/// Trims NUL bytes from both ends, then space bytes.
pub fn trim_bytes(v: &Vec<u8>) -> (r: Vec<u8>)
    ensures
        r@ == trim8(v@),
{
    let pass1 = trim_bytes_pad(v, 0x00);
    trim_bytes_pad(&pass1, 0x20)
}

/// Trims `pad` units from both ends.
fn trim_units_pad(v: &Vec<u16>, pad: u16) -> (r: Vec<u16>)
    ensures
        r@ == trim_back16(trim_front16(v@, pad), pad),
{
    let mut start: usize = 0;
    proof {
        assert(v@.subrange(0, v@.len() as int) =~= v@);
    }
    while start < v.len() && v[start] == pad
        invariant
            start <= v@.len(),
            trim_front16(v@, pad) == trim_front16(v@.subrange(start as int, v@.len() as int), pad),
        decreases v@.len() - start,
    {
        proof {
            assert(v@.subrange(start as int, v@.len() as int).drop_first() =~= v@.subrange(
                start + 1,
                v@.len() as int,
            ));
        }
        start = start + 1;
    }
    proof {
        assert(trim_front16(v@, pad) =~= v@.subrange(start as int, v@.len() as int));
    }
    let mut end: usize = v.len();
    while end > start && v[end - 1] == pad
        invariant
            start <= end <= v@.len(),
            trim_front16(v@, pad) == v@.subrange(start as int, v@.len() as int),
            trim_back16(v@.subrange(start as int, v@.len() as int), pad) == trim_back16(
                v@.subrange(start as int, end as int),
                pad,
            ),
        decreases end,
    {
        proof {
            assert(v@.subrange(start as int, end as int).drop_last() =~= v@.subrange(
                start as int,
                end - 1,
            ));
        }
        end = end - 1;
    }
    proof {
        assert(trim_back16(trim_front16(v@, pad), pad) =~= v@.subrange(start as int, end as int));
    }
    sub_vec16(v, start, end)
}

/// Trims NUL units from both ends, then space units.
pub fn trim_units(v: &Vec<u16>) -> (r: Vec<u16>)
    ensures
        r@ == trim16(v@),
{
    let pass1 = trim_units_pad(v, 0x00);
    trim_units_pad(&pass1, 0x20)
}

/// Strips a `Default__` prefix from narrow bytes, if present.
fn strip_default_bytes(v: Vec<u8>) -> (r: Vec<u8>)
    ensures
        r@ == strip_default8(v@),
{
    if v.len() >= 9 && v[0] == 0x44 && v[1] == 0x65 && v[2] == 0x66 && v[3] == 0x61 && v[4] == 0x75
        && v[5] == 0x6C && v[6] == 0x74 && v[7] == 0x5F && v[8] == 0x5F {
        proof {
            assert(v@.subrange(0, 9) =~= default_prefix());
        }
        sub_vec8(&v, 9, v.len())
    } else {
        proof {
            if v@.len() >= 9 && v@.subrange(0, 9) == default_prefix() {
                assert(v@[0] == 0x44 && v@[1] == 0x65 && v@[2] == 0x66 && v@[3] == 0x61 && v@[4]
                    == 0x75 && v@[5] == 0x6C && v@[6] == 0x74 && v@[7] == 0x5F && v@[8] == 0x5F);
            }
        }
        v
    }
}

/// Strips a `Default__` prefix from wide units, if present.
fn strip_default_units(v: Vec<u16>) -> (r: Vec<u16>)
    ensures
        r@ == strip_default16(v@),
{
    if v.len() >= 9 && v[0] == 0x44 && v[1] == 0x65 && v[2] == 0x66 && v[3] == 0x61 && v[4] == 0x75
        && v[5] == 0x6C && v[6] == 0x74 && v[7] == 0x5F && v[8] == 0x5F {
        proof {
            assert(v@.subrange(0, 9) =~= default_prefix16());
        }
        sub_vec16(&v, 9, v.len())
    } else {
        proof {
            if v@.len() >= 9 && v@.subrange(0, 9) == default_prefix16() {
                assert(v@[0] == 0x44 && v@[1] == 0x65 && v@[2] == 0x66 && v@[3] == 0x61 && v@[4]
                    == 0x75 && v@[5] == 0x6C && v@[6] == 0x74 && v@[7] == 0x5F && v@[8] == 0x5F);
            }
        }
        v
    }
}

/// Scans an object path right to left: the tail after the first `.` found,
/// the path unchanged on a `/`, else the path without a `Default__` prefix.
pub fn remove_all_path_prefixes(v: Vec<u8>) -> (r: Vec<u8>)
    ensures
        r@ == clean_path8(v@),
{
    let mut k: usize = v.len();
    while k > 0
        invariant
            k <= v@.len(),
            clean_path8(v@) == clean_path8_rec(v@, k - 1),
        decreases k,
    {
        let c = v[k - 1];
        if c == 0x2E {
            return sub_vec8(&v, k, v.len());
        }
        if c == 0x2F {
            return v;
        }
        k = k - 1;
    }
    strip_default_bytes(v)
}

/// The wide-unit form of the right-to-left path scan.
pub fn remove_all_path_prefixes_wide(v: Vec<u16>) -> (r: Vec<u16>)
    ensures
        r@ == clean_path16(v@),
{
    let mut k: usize = v.len();
    while k > 0
        invariant
            k <= v@.len(),
            clean_path16(v@) == clean_path16_rec(v@, k - 1),
        decreases k,
    {
        let c = v[k - 1];
        if c == 0x2E {
            return sub_vec16(&v, k, v.len());
        }
        if c == 0x2F {
            return v;
        }
        k = k - 1;
    }
    strip_default_units(v)
}

} // verus!
