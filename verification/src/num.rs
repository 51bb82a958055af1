//! Verified decimal parsing and rendering.
//!
//! Process identifiers arrive as decimal text in process-table listings,
//! and timestamps leave as zero-padded decimal fields in file names and
//! log-filter arguments.

use vstd::prelude::*;
use vstd::string::*;

verus! {

/// Whether `c` is a decimal digit.
pub open spec fn is_digit_char(c: char) -> bool {
    '0' <= c && c <= '9'
}

/// The numeric value of a digit character.
pub open spec fn digit_val(c: char) -> nat {
    (c as nat - '0' as nat) as nat
}

/// Whether every character of `s` is a decimal digit.
pub open spec fn all_digits(s: Seq<char>) -> bool {
    forall|k: int| 0 <= k < s.len() ==> is_digit_char(#[trigger] s[k])
}

/// The value of a digit string, most significant digit first.
pub open spec fn dec_val(s: Seq<char>) -> nat
    decreases s.len(),
{
    if s.len() == 0 {
        0
    } else {
        dec_val(s.take(s.len() - 1)) * 10 + digit_val(s[s.len() - 1])
    }
}

/// Appending digits never lowers the value.
proof fn lemma_dec_val_prefix(s: Seq<char>, i: int)
    requires
        0 <= i <= s.len(),
    ensures
        dec_val(s) >= dec_val(s.take(i)),
    decreases s.len() - i,
{
    if i < s.len() {
        lemma_dec_val_prefix(s, i + 1);
        assert(s.take(i + 1).take(i) =~= s.take(i));
        assert(dec_val(s.take(i + 1)) == dec_val(s.take(i)) * 10 + digit_val(s.take(i + 1)[i]));
    } else {
        assert(s.take(i) =~= s);
    }
}

/// Parses a non-empty, all-digit string as an unsigned value.
/// Returns `None` on an empty string, a non-digit, or overflow,
/// as `str::parse` does for an unsigned target.
pub fn parse_u64(s: &str) -> (r: Option<u64>)
    ensures
        r is Some <==> s@.len() > 0 && all_digits(s@) && dec_val(s@) <= u64::MAX,
        r matches Some(v) ==> v == dec_val(s@),
{
    let n = s.unicode_len();
    if n == 0 {
        return None;
    }
    let mut acc: u64 = 0;
    let mut i: usize = 0;
    proof {
        assert(s@.take(0) =~= Seq::<char>::empty());
    }
    while i < n
        invariant
            0 <= i <= n == s@.len(),
            all_digits(s@.take(i as int)),
            acc == dec_val(s@.take(i as int)),
        decreases n - i,
    {
        let c = s.get_char(i);
        if c < '0' || c > '9' {
            proof {
                assert(!is_digit_char(s@[i as int]));
            }
            return None;
        }
        let d: u64 = (c as u32 - '0' as u32) as u64;
        let wide: u128 = acc as u128 * 10 + d as u128;
        proof {
            assert(s@.take(i + 1).take(i as int) =~= s@.take(i as int));
            assert(s@.take(i + 1)[i as int] == s@[i as int]);
            assert(dec_val(s@.take(i + 1)) == dec_val(s@.take(i as int)) * 10 + digit_val(
                s@[i as int],
            ));
        }
        if wide > u64::MAX as u128 {
            proof {
                lemma_dec_val_prefix(s@, i + 1);
            }
            return None;
        }
        acc = wide as u64;
        i = i + 1;
        proof {
            assert(forall|k: int|
                0 <= k < i ==> is_digit_char(#[trigger] s@.take(i as int)[k]));
        }
    }
    proof {
        assert(s@.take(n as int) =~= s@);
    }
    Some(acc)
}

/// The character for a digit value.
pub open spec fn digit_char(d: nat) -> char {
    if d == 0 {
        '0'
    } else if d == 1 {
        '1'
    } else if d == 2 {
        '2'
    } else if d == 3 {
        '3'
    } else if d == 4 {
        '4'
    } else if d == 5 {
        '5'
    } else if d == 6 {
        '6'
    } else if d == 7 {
        '7'
    } else if d == 8 {
        '8'
    } else {
        '9'
    }
}

/// The shortest decimal rendering of `n`.
pub open spec fn dec_str(n: nat) -> Seq<char>
    decreases n,
{
    if n < 10 {
        seq![digit_char(n)]
    } else {
        dec_str(n / 10).push(digit_char(n % 10))
    }
}

/// One digit as a string slice.
fn digit_str(d: u64) -> (r: &'static str)
    requires
        d < 10,
    ensures
        r@ =~= seq![digit_char(d as nat)],
{
    proof {
        reveal_strlit("0");
        reveal_strlit("1");
        reveal_strlit("2");
        reveal_strlit("3");
        reveal_strlit("4");
        reveal_strlit("5");
        reveal_strlit("6");
        reveal_strlit("7");
        reveal_strlit("8");
        reveal_strlit("9");
    }
    if d == 0 {
        "0"
    } else if d == 1 {
        "1"
    } else if d == 2 {
        "2"
    } else if d == 3 {
        "3"
    } else if d == 4 {
        "4"
    } else if d == 5 {
        "5"
    } else if d == 6 {
        "6"
    } else if d == 7 {
        "7"
    } else if d == 8 {
        "8"
    } else {
        "9"
    }
}

/// Renders `n` in decimal, shortest form.
pub fn u64_to_dec(n: u64) -> (r: String)
    ensures
        r@ == dec_str(n as nat),
    decreases n,
{
    if n < 10 {
        digit_str(n).to_owned()
    } else {
        let mut s = u64_to_dec(n / 10);
        s.append(digit_str(n % 10));
        proof {
            assert(dec_str((n / 10) as nat).push(digit_char((n % 10) as nat)) =~= dec_str(
                (n / 10) as nat,
            ) + seq![digit_char((n % 10) as nat)]);
        }
        s
    }
}

/// The decimal rendering of a signed value.
pub open spec fn int_dec_str(i: int) -> Seq<char> {
    if i < 0 {
        seq!['-'] + dec_str((-i) as nat)
    } else {
        dec_str(i as nat)
    }
}

/// Renders a signed value in decimal.
pub fn i32_to_dec(n: i32) -> (r: String)
    ensures
        r@ == int_dec_str(n as int),
{
    if n < 0 {
        proof {
            reveal_strlit("-");
        }
        let mut s = "-".to_owned();
        let m: u64 = (-(n as i64)) as u64;
        s.append(u64_to_dec(m).as_str());
        proof {
            assert(s@ =~= seq!['-'] + dec_str(m as nat));
        }
        s
    } else {
        u64_to_dec(n as u64)
    }
}

/// `w - len` zeros, or nothing when the text is already wide enough.
pub open spec fn zeros(k: int) -> Seq<char>
    decreases k,
{
    if k <= 0 {
        Seq::empty()
    } else {
        seq!['0'] + zeros(k - 1)
    }
}

/// `s` left-padded with zeros to width `w`.
pub open spec fn pad_zeros_spec(s: Seq<char>, w: int) -> Seq<char> {
    zeros(w - s.len()) + s
}

/// Left-pads `s` with zeros to width `w`.
pub fn pad_zeros(s: String, w: usize) -> (r: String)
    ensures
        r@ == pad_zeros_spec(s@, w as int),
{
    let ghost orig = s@;
    let mut t = s;
    proof {
        assert(zeros(0) + orig =~= orig);
    }
    while t.unicode_len() < w
        invariant
            orig.len() <= t@.len(),
            t@ == zeros(t@.len() - orig.len()) + orig,
            t@.len() <= w || t@.len() == orig.len(),
        decreases w - t@.len(),
    {
        proof {
            reveal_strlit("0");
        }
        let t2 = "0".to_owned().concat(t.as_str());
        proof {
            let d = t@.len() - orig.len();
            assert(t2@ =~= seq!['0'] + t@);
            assert(zeros(d + 1) =~= seq!['0'] + zeros(d));
            assert(t2@ =~= zeros(t2@.len() - orig.len()) + orig);
        }
        t = t2;
    }
    proof {
        if t@.len() == w {
        } else {
            assert(t@.len() == orig.len() && orig.len() >= w);
            assert(zeros(w - orig.len() as int) =~= Seq::<char>::empty());
        }
        assert(t@ =~= pad_zeros_spec(orig, w as int));
    }
    t
}

/// Renders `n` in decimal, zero-padded to width `w`.
pub fn u64_to_dec_pad(n: u64, w: usize) -> (r: String)
    ensures
        r@ == pad_zeros_spec(dec_str(n as nat), w as int),
{
    pad_zeros(u64_to_dec(n), w)
}

} // verus!
