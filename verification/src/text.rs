//! Character and string helpers: whitespace classification, decimal
//! rendering, and the sanitization rules used for pack names and identifiers.

use vstd::prelude::*;
use vstd::string::StrSliceExecFns;

verus! {

/// The Unicode `White_Space` characters, the set that `str::trim` removes.
pub open spec fn is_white(c: char) -> bool {
    let u = c as u32;
    (0x9 <= u && u <= 0xD) || u == 0x20 || u == 0x85 || u == 0xA0 || u == 0x1680 || (0x2000 <= u
        && u <= 0x200A) || u == 0x2028 || u == 0x2029 || u == 0x202F || u == 0x205F || u == 0x3000
}

/// A string is blank when every character is whitespace; the empty string is blank.
pub open spec fn is_blank(s: Seq<char>) -> bool {
    forall|i: int| 0 <= i < s.len() ==> is_white(#[trigger] s[i])
}

/// Whether `c` is Unicode whitespace.
pub fn white_char(c: char) -> (r: bool)
    ensures
        r == is_white(c),
{
    let u = c as u32;
    (0x9 <= u && u <= 0xD) || u == 0x20 || u == 0x85 || u == 0xA0 || u == 0x1680 || (0x2000 <= u
        && u <= 0x200A) || u == 0x2028 || u == 0x2029 || u == 0x202F || u == 0x205F || u == 0x3000
}

/// Whether `s` consists of whitespace only (or is empty).
pub fn blank_str(s: &str) -> (r: bool)
    ensures
        r == is_blank(s@),
{
    let n = s.unicode_len();
    let mut i: usize = 0;
    while i < n
        invariant
            n == s@.len(),
            0 <= i <= n,
            forall|j: int| 0 <= j < i ==> is_white(#[trigger] s@[j]),
        decreases n - i,
    {
        let c = s.get_char(i);
        if !white_char(c) {
            return false;
        }
        i = i + 1;
    }
    true
}

/// Relies on String::push: appends exactly the one character at the end.
#[verifier::external_body]
pub(crate) fn push_char(s: &mut String, c: char)
    ensures
        final(s)@ == old(s)@.push(c),
{
    s.push(c);
}

/// The character written for the decimal digit `d`.
pub open spec fn digit_char(d: int) -> char {
    if d == 0 {
        '0'
    } else if d == 1 {
        '1'
    } else if d == 2 {
        '2'
    } else if d == 3 {
        '3'
    } else if d == 4 {
        '4'
    } else if d == 5 {
        '5'
    } else if d == 6 {
        '6'
    } else if d == 7 {
        '7'
    } else if d == 8 {
        '8'
    } else {
        '9'
    }
}

/// The decimal rendering of `n`, most significant digit first, no sign and no
/// leading zeros (except for `0` itself).
pub open spec fn dec_digits(n: int) -> Seq<char>
    decreases n,
{
    if n < 10 {
        seq![digit_char(n)]
    } else {
        dec_digits(n / 10).push(digit_char(n % 10))
    }
}

/// The digit character for `d < 10`.
pub fn digit_of(d: u32) -> (c: char)
    requires
        d < 10,
    ensures
        c == digit_char(d as int),
{
    if d == 0 {
        '0'
    } else if d == 1 {
        '1'
    } else if d == 2 {
        '2'
    } else if d == 3 {
        '3'
    } else if d == 4 {
        '4'
    } else if d == 5 {
        '5'
    } else if d == 6 {
        '6'
    } else if d == 7 {
        '7'
    } else if d == 8 {
        '8'
    } else {
        '9'
    }
}

/// Append the decimal rendering of `n` to `out`.
pub fn push_decimal(out: &mut String, n: u32)
    ensures
        final(out)@ == old(out)@ + dec_digits(n as int),
    decreases n,
{
    if n < 10 {
        push_char(out, digit_of(n));
        proof {
            assert(out@ =~= old(out)@ + dec_digits(n as int));
        }
    } else {
        push_decimal(out, n / 10);
        push_char(out, digit_of(n % 10));
        proof {
            assert(out@ =~= old(out)@ + dec_digits(n as int));
        }
    }
}

/// The decimal rendering of `n` as a fresh string.
pub fn decimal_string(n: u32) -> (r: String)
    ensures
        r@ == dec_digits(n as int),
{
    let mut out = String::new();
    push_decimal(&mut out, n);
    proof {
        assert(out@ =~= dec_digits(n as int));
    }
    out
}

/// Space characters become underscores; everything else is kept.
pub open spec fn space_to_underscore(c: char) -> char {
    if c == ' ' {
        '_'
    } else {
        c
    }
}

/// `s` with every space replaced by an underscore.
pub open spec fn underscored(s: Seq<char>) -> Seq<char> {
    s.map_values(|c: char| space_to_underscore(c))
}

/// Replace every space in `s` with an underscore.
pub fn sanitize_spaces(s: &str) -> (r: String)
    ensures
        r@ == underscored(s@),
{
    let n = s.unicode_len();
    let mut out = String::new();
    let mut i: usize = 0;
    while i < n
        invariant
            n == s@.len(),
            0 <= i <= n,
            out@ == underscored(s@.take(i as int)),
        decreases n - i,
    {
        let c = s.get_char(i);
        if c == ' ' {
            push_char(&mut out, '_');
        } else {
            push_char(&mut out, c);
        }
        proof {
            assert(underscored(s@.take(i + 1 as int)) =~= underscored(s@.take(i as int)).push(
                space_to_underscore(s@[i as int]),
            ));
        }
        i = i + 1;
    }
    proof {
        assert(s@.take(n as int) =~= s@);
    }
    out
}

/// The characters a bundle identifier retains: lowercase ASCII letters,
/// digits, and underscore.
pub open spec fn keep_id_char(c: char) -> bool {
    let u = c as u32;
    (0x61 <= u && u <= 0x7A) || (0x30 <= u && u <= 0x39) || u == 0x5F
}

/// After lowercasing: spaces become underscores, then every character outside
/// the retained set is dropped.
pub open spec fn id_tail(s: Seq<char>) -> Seq<char>
    decreases s.len(),
{
    if s.len() == 0 {
        Seq::empty()
    } else {
        let prev = id_tail(s.drop_last());
        let c = space_to_underscore(s.last());
        if keep_id_char(c) {
            prev.push(c)
        } else {
            prev
        }
    }
}

/// The full identifier sanitization: lowercase, spaces to underscores, then
/// keep only lowercase ASCII letters, digits and underscore.
pub open spec fn sanitized_id(s: Seq<char>) -> Seq<char> {
    id_tail(lower_of(s))
}

pub uninterp spec fn lower_of(s: Seq<char>) -> Seq<char>;

/// Relies on str::to_lowercase: the result depends on the characters alone,
/// and lowercasing the empty string yields the empty string.
#[verifier::external_body]
fn lowercase(s: &str) -> (r: String)
    ensures
        r@ == lower_of(s@),
        s@.len() == 0 ==> r@.len() == 0,
{
    s.to_lowercase()
}

/// Sanitize a bundle identifier: lowercase it, replace spaces with
/// underscores, and drop every character that is not a lowercase ASCII
/// letter, a digit or an underscore.
pub fn sanitize_id(s: &str) -> (r: String)
    ensures
        r@ == sanitized_id(s@),
{
    let low = lowercase(s);
    let lows = low.as_str();
    let n = lows.unicode_len();
    let mut out = String::new();
    let mut i: usize = 0;
    while i < n
        invariant
            n == lows@.len(),
            lows@ == lower_of(s@),
            0 <= i <= n,
            out@ == id_tail(lows@.take(i as int)),
        decreases n - i,
    {
        let c = lows.get_char(i);
        let mapped = if c == ' ' {
            '_'
        } else {
            c
        };
        let u = mapped as u32;
        let keep = (0x61 <= u && u <= 0x7A) || (0x30 <= u && u <= 0x39) || u == 0x5F;
        if keep {
            push_char(&mut out, mapped);
        }
        proof {
            assert(lows@.take(i + 1 as int).drop_last() =~= lows@.take(i as int));
            assert(lows@.take(i + 1 as int).last() == lows@[i as int]);
        }
        i = i + 1;
    }
    proof {
        assert(lows@.take(n as int) =~= lows@);
    }
    out
}

} // verus!
