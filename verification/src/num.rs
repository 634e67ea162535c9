//! Centralized numeric conversion utilities.

use vstd::prelude::*;
use vstd::string::StringSliceAdditionalSpecFns;

verus! {

/// Convert an `i32` scroll delta to `isize` for viewport scrolling.
pub fn scroll_delta_to_isize(val: i32) -> (r: isize)
    ensures
        r == val,
{
    val as isize
}

/// Logical pixels `logical` at scale `scale_120 / 120`, rounded to nearest
/// (halves round up).
pub open spec fn spec_phys_from_scale(logical: u32, scale_120: u32) -> int {
    (logical * scale_120 + 60) / 120
}

/// Convert a logical pixel value to physical (buffer) pixels at the given scale.
///
/// `scale_120` uses wp-fractional-scale-v1 convention: 120 = 1.0x, 240 = 2.0x, etc.
/// Rounds to nearest via `(logical * scale_120 + 60) / 120`.
pub fn phys_from_scale(logical: u32, scale_120: u32) -> (r: u32)
    requires
        spec_phys_from_scale(logical, scale_120) <= u32::MAX,
    ensures
        r == spec_phys_from_scale(logical, scale_120),
{
    assert((logical as u64) * (scale_120 as u64) <= 0xffff_fffe_0000_0001u64) by (nonlinear_arith)
        requires
            logical <= 0xffff_ffffu32,
            scale_120 <= 0xffff_ffffu32,
    ;
    let prod: u64 = (logical as u64) * (scale_120 as u64);
    let v: u64 = (prod + 60) / 120;
    v as u32
}

/// Narrow a `u32` FFI constant to `i32`; the value must fit.
pub fn u32_to_i32(val: u32) -> (r: i32)
    requires
        val <= i32::MAX,
    ensures
        r == val,
{
    val as i32
}

/// Saturate a `u64` into `u32` range.
pub fn u32_from_u64_saturating(value: u64) -> (r: u32)
    ensures
        r == if value > u32::MAX { u32::MAX as u64 } else { value },
{
    if value > u32::MAX as u64 {
        u32::MAX
    } else {
        value as u32
    }
}

/// The ASCII decimal digits of `n`, most significant first, no leading zero.
pub open spec fn decimal_digits(n: nat) -> Seq<u8>
    decreases n,
{
    if n < 10 {
        seq![(48 + n) as u8]
    } else {
        decimal_digits(n / 10).push((48 + n % 10) as u8)
    }
}

/// Ten to the power `k`.
pub open spec fn pow10(k: nat) -> nat
    decreases k,
{
    if k == 0 {
        1
    } else {
        10 * pow10((k - 1) as nat)
    }
}

proof fn lemma_decimal_digits_len(x: nat, k: nat)
    requires
        k >= 1,
        x < pow10(k),
    ensures
        1 <= decimal_digits(x).len() <= k,
        forall|i: int| 0 <= i < decimal_digits(x).len() ==> 48 <= #[trigger] decimal_digits(x)[i] <= 57,
    decreases x,
{
    if x >= 10 {
        assert(k >= 2) by {
            if k == 1 {
                assert(pow10(1) == 10) by {
                    reveal_with_fuel(pow10, 2);
                }
            }
        }
        assert(pow10(k) == 10 * pow10((k - 1) as nat));
        lemma_decimal_digits_len(x / 10, (k - 1) as nat);
    }
}

#[verifier::external_type_specification]
#[verifier::external_body]
pub struct ExUtf8Error(std::str::Utf8Error);

/// Calls `std::str::from_utf8`: succeeds exactly on valid UTF-8, and then
/// the string's bytes are the given bytes.
#[verifier::external_body]
fn str_from_utf8(b: &[u8]) -> (r: Result<&str, std::str::Utf8Error>)
    ensures
        r is Ok <==> vstd::utf8::valid_utf8(b@),
        r matches Ok(s) ==> s.spec_bytes() == b@,
{
    std::str::from_utf8(b)
}

/// Format a `usize` into a stack buffer, returning the resulting `&str`.
/// The digits are written right-aligned at the end of `buf`; the bytes in
/// front of them are left as they were.
pub fn format_usize(n: usize, buf: &mut [u8; 20]) -> (r: &str)
    ensures
        r.spec_bytes() == decimal_digits(n as nat),
        final(buf)@.subrange(20 - decimal_digits(n as nat).len(), 20) == decimal_digits(n as nat),
        final(buf)@.subrange(0, 20 - decimal_digits(n as nat).len()) == old(buf)@.subrange(
            0,
            20 - decimal_digits(n as nat).len(),
        ),
{
    let ghost orig = n as nat;
    proof {
        assert(pow10(20) == 100000000000000000000nat) by {
            reveal_with_fuel(pow10, 21);
        }
        lemma_decimal_digits_len(orig, 20);
    }
    let mut m: usize = n;
    let mut pos: usize = 20;
    if m == 0 {
        buf[19] = 48u8;
        pos = 19;
    } else {
        while m > 0
            invariant
                0 <= pos <= 20,
                decimal_digits(orig).len() <= 20,
                pow10(20) == 100000000000000000000nat,
                m > 0 ==> decimal_digits(orig) == decimal_digits(m as nat) + buf@.subrange(pos as int, 20),
                m > 0 ==> decimal_digits(m as nat).len() >= 1,
                m == 0 ==> decimal_digits(orig) == buf@.subrange(pos as int, 20),
                buf@.subrange(0, pos as int) == old(buf)@.subrange(0, pos as int),
            decreases m,
        {
            assert(pos > 0) by {
                assert(decimal_digits(orig).len() == decimal_digits(m as nat).len() + (20 - pos));
            }
            let ghost before = buf@;
            pos = pos - 1;
            let d: u8 = (m % 10) as u8;
            buf[pos] = 48u8 + d;
            let ghost suffix_old = before.subrange(pos + 1, 20);
            assert(buf@.subrange(pos as int, 20) =~= seq![(48 + d) as u8] + suffix_old);
            assert(buf@.subrange(0, pos as int) =~= before.subrange(0, pos as int));
            assert(before.subrange(0, pos as int) =~= before.subrange(0, pos + 1).subrange(0, pos as int));
            assert(old(buf)@.subrange(0, pos as int) =~= old(buf)@.subrange(0, pos + 1).subrange(0, pos as int));
            let ghost mm = m as nat;
            m = m / 10;
            proof {
                if mm >= 10 {
                    assert(decimal_digits(mm) == decimal_digits(mm / 10).push((48 + mm % 10) as u8));
                    lemma_decimal_digits_len(mm / 10, 20);
                    assert(decimal_digits(orig) =~= decimal_digits(m as nat) + buf@.subrange(pos as int, 20));
                } else {
                    assert(decimal_digits(mm) == seq![(48 + mm) as u8]);
                    assert(decimal_digits(orig) =~= buf@.subrange(pos as int, 20));
                }
            }
        }
    }
    proof {
        assert(buf@.subrange(pos as int, 20) == decimal_digits(orig));
        let b = buf@.subrange(pos as int, 20);
        assert forall|i: int| 0 <= 0 <= i < b.len() <= b.len() implies #[trigger] vstd::utf8::is_leading_byte_width_1(b[i]) by {
            assert(48 <= decimal_digits(orig)[i] <= 57);
        }
        assert(b.subrange(0, 0) =~= Seq::<u8>::empty());
        vstd::utf8::partial_valid_utf8_extend_ascii_block(b, 0, b.len() as int);
        assert(b.subrange(0, b.len() as int) =~= b);
    }
    let tail = vstd::slice::slice_subrange(buf.as_slice(), pos, 20);
    match str_from_utf8(tail) {
        Ok(s) => s,
        Err(_) => {
            proof {
                assert(false);
            }
            ""
        },
    }
}

} // verus!
