//! Decimal text handling: parsing a submitted token as an unsigned 64-bit
//! integer, and rendering integers and integer lists back into text.

use vstd::prelude::*;

verus! {

use vstd::arithmetic::div_mod::lemma_fundamental_div_mod;
use vstd::string::StrSliceExecFns;
use vstd::string::StringExecFns;

/// The character is a decimal digit `'0'..='9'`.
pub open spec fn is_digit_char(c: char) -> bool {
    48 <= c as u32 <= 57
}

/// The numeric value of a decimal digit character.
pub open spec fn digit_value(c: char) -> nat
    recommends
        is_digit_char(c),
{
    (c as u32 - 48) as nat
}

/// Every character of the sequence is a decimal digit.
pub open spec fn all_digit_chars(s: Seq<char>) -> bool {
    forall|i: int| 0 <= i < s.len() ==> is_digit_char(#[trigger] s[i])
}

/// The value of a sequence of decimal digits, most significant first.
pub open spec fn digits_value(s: Seq<char>) -> nat
    decreases s.len(),
{
    if s.len() == 0 {
        0
    } else {
        digits_value(s.drop_last()) * 10 + digit_value(s.last())
    }
}

/// The text is a decimal numeral that denotes a 64-bit unsigned integer:
/// non-empty, digits only (no sign, no whitespace), and within range.
pub open spec fn is_u64_numeral(s: Seq<char>) -> bool {
    &&& s.len() >= 1
    &&& all_digit_chars(s)
    &&& digits_value(s) <= u64::MAX
}

/// A digit string's value never drops when the string is extended.
proof fn lemma_digits_value_prefix(s: Seq<char>, j: int)
    requires
        0 <= j <= s.len(),
    ensures
        digits_value(s.take(j)) <= digits_value(s),
    decreases s.len() - j,
{
    if j == s.len() {
        assert(s.take(j) =~= s);
    } else {
        assert(s.take(j + 1).drop_last() =~= s.take(j));
        lemma_digits_value_prefix(s, j + 1);
    }
}

/// Parses the text as a base-10 unsigned 64-bit integer: no sign, no
/// whitespace, no leading `+`; digits only, and the value must fit.
pub fn parse_u64(s: &str) -> (r: Option<u64>)
    ensures
        is_u64_numeral(s@) ==> (r matches Some(v) && v as nat == digits_value(s@)),
        !is_u64_numeral(s@) ==> r is None,
{
    let len = s.unicode_len();
    if len == 0 {
        return None;
    }
    let mut value: u64 = 0;
    let mut i: usize = 0;
    while i < len
        invariant
            0 <= i <= len,
            len == s@.len(),
            all_digit_chars(s@.take(i as int)),
            value as nat == digits_value(s@.take(i as int)),
        decreases len - i,
    {
        let c = s.get_char(i);
        let code = c as u32;
        if code < 48 || code > 57 {
            proof {
                assert(!is_digit_char(s@[i as int]));
            }
            return None;
        }
        let d = (code - 48) as u64;
        proof {
            assert(d as nat == digit_value(s@[i as int]));
        }
        if value > (u64::MAX - d) / 10 {
            proof {
                lemma_fundamental_div_mod(u64::MAX - d, 10);
                assert(value * 10 + d > u64::MAX);
                assert(s@.take(i as int + 1).drop_last() =~= s@.take(i as int));
                assert(digits_value(s@.take(i as int + 1)) > u64::MAX);
                if is_u64_numeral(s@) {
                    lemma_digits_value_prefix(s@, i as int + 1);
                }
            }
            return None;
        }
        proof {
            lemma_fundamental_div_mod(u64::MAX - d, 10);
            assert(value * 10 + d <= u64::MAX);
            assert(s@.take(i as int + 1).drop_last() =~= s@.take(i as int));
        }
        value = value * 10 + d;
        i += 1;
    }
    proof {
        assert(s@.take(len as int) =~= s@);
    }
    Some(value)
}

/// The decimal digit character for a value below ten.
pub open spec fn spec_digit_char(d: nat) -> char {
    if d == 0 {
        '0'
    } else if d == 1 {
        '1'
    } else if d == 2 {
        '2'
    } else if d == 3 {
        '3'
    } else if d == 4 {
        '4'
    } else if d == 5 {
        '5'
    } else if d == 6 {
        '6'
    } else if d == 7 {
        '7'
    } else if d == 8 {
        '8'
    } else {
        '9'
    }
}

/// The decimal numeral of a natural number, without sign or padding.
pub open spec fn spec_u64_string(n: nat) -> Seq<char>
    decreases n,
{
    if n < 10 {
        seq![spec_digit_char(n)]
    } else {
        spec_u64_string(n / 10).push(spec_digit_char(n % 10))
    }
}

/// The one-character string for a single decimal digit.
fn digit_str(d: u64) -> (r: &'static str)
    requires
        d < 10,
    ensures
        r@ == seq![spec_digit_char(d as nat)],
{
    proof {
        reveal_strlit("0");
        reveal_strlit("1");
        reveal_strlit("2");
        reveal_strlit("3");
        reveal_strlit("4");
        reveal_strlit("5");
        reveal_strlit("6");
        reveal_strlit("7");
        reveal_strlit("8");
        reveal_strlit("9");
    }
    if d == 0 {
        "0"
    } else if d == 1 {
        "1"
    } else if d == 2 {
        "2"
    } else if d == 3 {
        "3"
    } else if d == 4 {
        "4"
    } else if d == 5 {
        "5"
    } else if d == 6 {
        "6"
    } else if d == 7 {
        "7"
    } else if d == 8 {
        "8"
    } else {
        "9"
    }
}

/// Renders an unsigned 64-bit integer as its plain decimal numeral.
pub fn u64_to_string(n: u64) -> (r: String)
    ensures
        r@ == spec_u64_string(n as nat),
    decreases n,
{
    if n < 10 {
        digit_str(n).to_owned()
    } else {
        let prefix = u64_to_string(n / 10);
        let r = prefix.concat(digit_str(n % 10));
        proof {
            assert(r@ =~= spec_u64_string((n / 10) as nat).push(spec_digit_char((n % 10) as nat)));
        }
        r
    }
}

/// The elements of a list rendered in order, separated by `", "`.
pub open spec fn spec_list_inner(s: Seq<u64>) -> Seq<char>
    decreases s.len(),
{
    if s.len() == 0 {
        Seq::empty()
    } else if s.len() == 1 {
        spec_u64_string(s[0] as nat)
    } else {
        spec_list_inner(s.drop_last()) + ", "@ + spec_u64_string(s.last() as nat)
    }
}

/// A list of integers rendered between brackets, e.g. `[14, 21]`.
pub open spec fn spec_number_list(s: Seq<u64>) -> Seq<char> {
    "["@ + spec_list_inner(s) + "]"@
}

/// Renders a list of integers as its literal sequence representation,
/// e.g. `[14, 21]`.
pub fn render_number_list(numbers: &Vec<u64>) -> (r: String)
    ensures
        r@ == spec_number_list(numbers@),
{
    let mut out = String::new();
    out.append("[");
    let mut i: usize = 0;
    while i < numbers.len()
        invariant
            0 <= i <= numbers@.len(),
            out@ == "["@ + spec_list_inner(numbers@.take(i as int)),
        decreases numbers@.len() - i,
    {
        if i > 0 {
            out.append(", ");
        }
        let rendered = u64_to_string(numbers[i]);
        out.append(rendered.as_str());
        proof {
            assert(numbers@.take(i as int + 1).drop_last() =~= numbers@.take(i as int));
            assert(numbers@.take(i as int + 1).last() == numbers@[i as int]);
            assert(out@ =~= "["@ + spec_list_inner(numbers@.take(i as int + 1)));
        }
        i += 1;
    }
    out.append("]");
    proof {
        assert(numbers@.take(numbers@.len() as int) =~= numbers@);
        assert(out@ =~= spec_number_list(numbers@));
    }
    out
}

} // verus!
