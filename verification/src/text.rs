//! Text helpers: whitespace trimming, comparison and decimal numerals.

use vstd::prelude::*;

verus! {

/// Whether a character has the Unicode property `White_Space`: the
/// controls from tab to carriage return, the space, next line, the
/// no-break space, the ogham space mark, the spaces from en quad to hair
/// space, the line and paragraph separators, the narrow no-break space, the
/// medium mathematical space and the ideographic space.
pub open spec fn is_white_space(c: char) -> bool {
    let n = c as u32;
    ||| 0x09 <= n <= 0x0D
    ||| n == 0x20
    ||| n == 0x85
    ||| n == 0xA0
    ||| n == 0x1680
    ||| 0x2000 <= n <= 0x200A
    ||| n == 0x2028
    ||| n == 0x2029
    ||| n == 0x202F
    ||| n == 0x205F
    ||| n == 0x3000
}

/// `s` without its leading whitespace.
pub open spec fn trim_start(s: Seq<char>) -> Seq<char>
    decreases s.len(),
{
    if s.len() > 0 && is_white_space(s.first()) {
        trim_start(s.drop_first())
    } else {
        s
    }
}

/// `s` without its trailing whitespace.
pub open spec fn trim_end(s: Seq<char>) -> Seq<char>
    decreases s.len(),
{
    if s.len() > 0 && is_white_space(s.last()) {
        trim_end(s.drop_last())
    } else {
        s
    }
}

/// `s` without its leading and trailing whitespace.
pub open spec fn trimmed(s: Seq<char>) -> Seq<char> {
    trim_end(trim_start(s))
}

/// Whether `s` holds nothing but whitespace.
pub open spec fn blank(s: Seq<char>) -> bool {
    trimmed(s).len() == 0
}

/// `str::trim` returns the slice with leading and trailing whitespace
/// removed, whitespace being the characters with the Unicode property
/// `White_Space`.
pub assume_specification[ str::trim ](s: &str) -> (r: &str)
    ensures
        r@ == trimmed(s@),
;

/// Whether `s` is empty once trimmed.
pub fn is_blank(s: &str) -> (r: bool)
    ensures
        r == blank(s@),
{
    s.trim().is_empty()
}

/// Whether two string slices hold the same characters.
pub fn str_eq(a: &str, b: &str) -> (r: bool)
    ensures
        r == (a@ == b@),
{
    // Compared as owned strings, of which `==` is known to compare the
    // characters.
    a.to_owned() == b.to_owned()
}

/// Whether two texts are equal once trimmed.
pub fn same_trimmed(a: &str, b: &str) -> (r: bool)
    ensures
        r == (trimmed(a@) == trimmed(b@)),
{
    str_eq(a.trim(), b.trim())
}

/// The characters of each text of a sequence.
pub open spec fn texts(items: Seq<String>) -> Seq<Seq<char>> {
    Seq::new(items.len(), |i: int| items[i]@)
}

/// What `str::to_lowercase` makes of a text: its lowercase equivalent by the
/// Unicode property `Lowercase`.
pub uninterp spec fn lowercase(s: Seq<char>) -> Seq<char>;

/// `str::to_lowercase` returns the lowercase equivalent of the slice as a
/// new string, a function of the slice's characters alone.
pub assume_specification[ str::to_lowercase ](s: &str) -> (r: String)
    ensures
        r@ == lowercase(s@),
;

/// Whether `s` ends with `suffix`.
pub open spec fn is_suffix(s: Seq<char>, suffix: Seq<char>) -> bool {
    suffix.len() <= s.len() && s.subrange(s.len() - suffix.len(), s.len() as int) == suffix
}

/// Whether `s` ends with `suffix`.
pub fn ends_with(s: &str, suffix: &str) -> (r: bool)
    ensures
        r == is_suffix(s@, suffix@),
{
    let n = s.unicode_len();
    let m = suffix.unicode_len();
    if m > n {
        false
    } else {
        str_eq(s.substring_char(n - m, n), suffix)
    }
}

/// Whether `items` holds the text `text`.
pub fn contains_text(items: &Vec<String>, text: &str) -> (r: bool)
    ensures
        r == texts(items@).contains(text@),
{
    let mut i: usize = 0;
    while i < items.len()
        invariant
            i <= items.len(),
            forall|j: int| 0 <= j < i ==> (#[trigger] texts(items@)[j]) != text@,
        decreases items.len() - i,
    {
        if str_eq(items[i].as_str(), text) {
            assert(texts(items@)[i as int] == text@);
            return true;
        }
        i += 1;
    }
    false
}

/// The character of a decimal digit.
pub open spec fn digit_char(d: int) -> char {
    if d == 0 {
        '0'
    } else if d == 1 {
        '1'
    } else if d == 2 {
        '2'
    } else if d == 3 {
        '3'
    } else if d == 4 {
        '4'
    } else if d == 5 {
        '5'
    } else if d == 6 {
        '6'
    } else if d == 7 {
        '7'
    } else if d == 8 {
        '8'
    } else {
        '9'
    }
}

/// The decimal digits of a natural number, most significant first.
pub open spec fn digits(n: nat) -> Seq<char>
    decreases n,
{
    if n < 10 {
        seq![digit_char(n as int)]
    } else {
        digits(n / 10).push(digit_char((n % 10) as int))
    }
}

/// The decimal numeral of an integer, with a leading `-` when negative.
pub open spec fn decimal(n: int) -> Seq<char> {
    if n < 0 {
        seq!['-'] + digits((-n) as nat)
    } else {
        digits(n as nat)
    }
}

fn digit_str(d: u64) -> (r: &'static str)
    requires
        d < 10,
    ensures
        r@ == seq![digit_char(d as int)],
{
    proof {
        reveal_strlit("0");
        reveal_strlit("1");
        reveal_strlit("2");
        reveal_strlit("3");
        reveal_strlit("4");
        reveal_strlit("5");
        reveal_strlit("6");
        reveal_strlit("7");
        reveal_strlit("8");
        reveal_strlit("9");
    }
    let r = if d == 0 {
        "0"
    } else if d == 1 {
        "1"
    } else if d == 2 {
        "2"
    } else if d == 3 {
        "3"
    } else if d == 4 {
        "4"
    } else if d == 5 {
        "5"
    } else if d == 6 {
        "6"
    } else if d == 7 {
        "7"
    } else if d == 8 {
        "8"
    } else {
        "9"
    };
    assert(r@ =~= seq![digit_char(d as int)]);
    r
}

fn magnitude_string(n: u64) -> (r: String)
    ensures
        r@ == digits(n as nat),
{
    let mut acc = String::from_str(digit_str(n % 10));
    let mut rest: u64 = n / 10;
    while rest > 0
        invariant
            digits(n as nat) == if rest == 0 {
                acc@
            } else {
                digits(rest as nat) + acc@
            },
        decreases rest,
    {
        let head = String::from_str(digit_str(rest % 10));
        proof {
            let d = seq![digit_char((rest % 10) as int)];
            if rest < 10 {
                assert(digits(rest as nat) == d);
            } else {
                assert(digits(rest as nat) == digits((rest / 10) as nat) + d);
                assert(digits((rest / 10) as nat) + d + acc@ == digits((rest / 10) as nat) + (d
                    + acc@));
            }
        }
        acc = head.concat(acc.as_str());
        rest = rest / 10;
    }
    acc
}

/// The decimal numeral of `n`.
pub fn decimal_string(n: i64) -> (r: String)
    ensures
        r@ == decimal(n as int),
{
    if n < 0 {
        let magnitude: u64 = if n == i64::MIN {
            9223372036854775808u64
        } else {
            (-n) as u64
        };
        proof {
            reveal_strlit("-");
        }
        String::from_str("-").concat(magnitude_string(magnitude).as_str())
    } else {
        magnitude_string(n as u64)
    }
}

} // verus!
