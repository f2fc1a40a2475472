//! Text: digits, joining, and comparing.

use vstd::prelude::*;
use vstd::string::*;

verus! {

/// The character for one decimal digit.
pub open spec fn digit(k: nat) -> char {
    (48 + k) as char
}

/// A whole number in decimal, without leading zeros.
pub open spec fn digits(n: nat) -> Seq<char>
    decreases n,
{
    if n < 10 {
        seq![digit(n)]
    } else {
        digits(n / 10).push(digit(n % 10))
    }
}

/// The last `width` decimal digits of a whole number, zeros in front.
pub open spec fn fixed_digits(n: nat, width: nat) -> Seq<char>
    decreases width,
{
    if width == 0 {
        Seq::empty()
    } else {
        fixed_digits(n / 10, (width - 1) as nat).push(digit(n % 10))
    }
}

/// Whether a character is an ASCII digit.
pub open spec fn is_digit(c: char) -> bool {
    '0' <= c <= '9'
}

fn digit_text(k: u64) -> (r: &'static str)
    requires
        k < 10,
    ensures
        r@ == seq![digit(k as nat)],
{
    proof {
        reveal_strlit("0");
        reveal_strlit("1");
        reveal_strlit("2");
        reveal_strlit("3");
        reveal_strlit("4");
        reveal_strlit("5");
        reveal_strlit("6");
        reveal_strlit("7");
        reveal_strlit("8");
        reveal_strlit("9");
    }
    let r: &'static str = match k {
        0 => "0",
        1 => "1",
        2 => "2",
        3 => "3",
        4 => "4",
        5 => "5",
        6 => "6",
        7 => "7",
        8 => "8",
        _ => "9",
    };
    assert(r@ =~= seq![digit(k as nat)]);
    r
}

/// A whole number in decimal.
pub fn number_text(n: u64) -> (r: String)
    ensures
        r@ == digits(n as nat),
    decreases n,
{
    if n < 10 {
        digit_text(n).to_owned()
    } else {
        let mut front = number_text(n / 10);
        front.append(digit_text(n % 10));
        assert(front@ =~= digits(n as nat));
        front
    }
}

/// A signed whole number in decimal.
pub open spec fn signed_digits(n: int) -> Seq<char> {
    if n < 0 {
        seq!['-'] + digits((-n) as nat)
    } else {
        digits(n as nat)
    }
}

/// A signed whole number in decimal.
pub fn signed_text(n: i64) -> (r: String)
    ensures
        r@ == signed_digits(n as int),
{
    if n < 0 {
        let magnitude: u64 = (-(n as i128)) as u64;
        proof {
            reveal_strlit("-");
            assert("-"@ =~= seq!['-']);
        }
        join2("-", number_text(magnitude).as_str())
    } else {
        number_text(n as u64)
    }
}

/// The last `width` digits of a whole number, zeros in front.
pub fn fixed_text(n: u64, width: u32) -> (r: String)
    ensures
        r@ == fixed_digits(n as nat, width as nat),
    decreases width,
{
    if width == 0 {
        let r = String::new();
        assert(r@ =~= fixed_digits(n as nat, 0));
        r
    } else {
        let mut front = fixed_text(n / 10, width - 1);
        front.append(digit_text(n % 10));
        assert(front@ =~= fixed_digits(n as nat, width as nat));
        front
    }
}

/// The character for one hexadecimal digit.
pub open spec fn hex_digit(k: nat) -> char {
    if k < 10 {
        (48 + k) as char
    } else {
        (87 + k) as char
    }
}

/// The last `width` hexadecimal digits of a whole number, zeros in front.
pub open spec fn fixed_hex(n: nat, width: nat) -> Seq<char>
    decreases width,
{
    if width == 0 {
        Seq::empty()
    } else {
        fixed_hex(n / 16, (width - 1) as nat).push(hex_digit(n % 16))
    }
}

fn hex_digit_text(k: u64) -> (r: &'static str)
    requires
        k < 16,
    ensures
        r@ == seq![hex_digit(k as nat)],
{
    if k < 10 {
        return digit_text(k);
    }
    proof {
        reveal_strlit("a");
        reveal_strlit("b");
        reveal_strlit("c");
        reveal_strlit("d");
        reveal_strlit("e");
        reveal_strlit("f");
    }
    let r: &'static str = match k {
        10 => "a",
        11 => "b",
        12 => "c",
        13 => "d",
        14 => "e",
        _ => "f",
    };
    assert(r@ =~= seq![hex_digit(k as nat)]);
    r
}

/// The last `width` hexadecimal digits of a whole number, zeros in front.
pub fn fixed_hex_text(n: u64, width: u32) -> (r: String)
    ensures
        r@ == fixed_hex(n as nat, width as nat),
    decreases width,
{
    if width == 0 {
        let r = String::new();
        assert(r@ =~= fixed_hex(n as nat, 0));
        r
    } else {
        let mut front = fixed_hex_text(n / 16, width - 1);
        front.append(hex_digit_text(n % 16));
        assert(front@ =~= fixed_hex(n as nat, width as nat));
        front
    }
}

/// Whether two texts are the same.
pub fn same(a: &str, b: &str) -> (r: bool)
    ensures
        r == (a@ == b@),
{
    let left: String = a.to_owned();
    let right: String = b.to_owned();
    left == right
}

/// Whether a text comes before another in the order of dictionaries, by code points.
pub open spec fn before(a: Seq<char>, b: Seq<char>) -> bool
    decreases a.len(),
{
    if b.len() == 0 {
        false
    } else if a.len() == 0 {
        true
    } else if a[0] != b[0] {
        a[0] < b[0]
    } else {
        before(a.drop_first(), b.drop_first())
    }
}

/// Of two different texts one comes before the other, and not both.
pub proof fn lemma_before_total(a: Seq<char>, b: Seq<char>)
    ensures
        !(before(a, b) && before(b, a)),
        a != b ==> before(a, b) || before(b, a),
        !before(a, a),
    decreases a.len(),
{
    if a.len() > 0 && b.len() > 0 && a[0] == b[0] {
        lemma_before_total(a.drop_first(), b.drop_first());
        if a.drop_first() == b.drop_first() {
            assert(a =~= seq![a[0]] + a.drop_first());
            assert(b =~= seq![b[0]] + b.drop_first());
        }
    } else if a.len() == 0 && b.len() == 0 {
        assert(a =~= b);
    }
    lemma_not_before_self(a);
}

proof fn lemma_not_before_self(a: Seq<char>)
    ensures
        !before(a, a),
    decreases a.len(),
{
    if a.len() > 0 {
        lemma_not_before_self(a.drop_first());
    }
}

/// The order of texts is transitive.
pub proof fn lemma_before_transitive(a: Seq<char>, b: Seq<char>, c: Seq<char>)
    requires
        before(a, b),
        before(b, c),
    ensures
        before(a, c),
    decreases a.len(),
{
    if a.len() > 0 && a[0] == b[0] && b[0] == c[0] {
        lemma_before_transitive(a.drop_first(), b.drop_first(), c.drop_first());
    }
}

/// Whether a text comes before another in the order of dictionaries.
pub fn comes_before(a: &str, b: &str) -> (r: bool)
    ensures
        r == before(a@, b@),
{
    let a_len: usize = a.unicode_len();
    let b_len: usize = b.unicode_len();
    let mut i: usize = 0;
    assert(a@.skip(0) =~= a@);
    assert(b@.skip(0) =~= b@);
    while i < a_len && i < b_len
        invariant
            a_len == a@.len(),
            b_len == b@.len(),
            i <= a_len,
            i <= b_len,
            before(a@, b@) == before(a@.skip(i as int), b@.skip(i as int)),
        decreases a_len - i,
    {
        let x = a.get_char(i);
        let y = b.get_char(i);
        proof {
            assert(a@.skip(i as int)[0] == x);
            assert(b@.skip(i as int)[0] == y);
            assert(a@.skip(i as int).drop_first() =~= a@.skip(i + 1));
            assert(b@.skip(i as int).drop_first() =~= b@.skip(i + 1));
        }
        if x != y {
            return x < y;
        }
        i += 1;
    }
    i < b_len
}

/// The texts of a list of strings.
pub open spec fn texts_of(strings: Seq<String>) -> Seq<Seq<char>> {
    Seq::new(strings.len(), |i: int| strings[i]@)
}

/// A text with spaces behind it up to a width.
pub open spec fn padded_right(s: Seq<char>, width: nat) -> Seq<char>
    decreases width,
{
    if s.len() >= width {
        s
    } else {
        padded_right(s, (width - 1) as nat).push(' ')
    }
}

/// A number of spaces.
pub open spec fn spaces(n: nat) -> Seq<char> {
    Seq::new(n, |i: int| ' ')
}

/// A text with spaces in front of it up to a width.
pub open spec fn padded_left(s: Seq<char>, width: nat) -> Seq<char> {
    if s.len() >= width {
        s
    } else {
        spaces((width - s.len()) as nat) + s
    }
}

/// A text with spaces behind it up to a width.
pub fn pad_right(s: &str, width: u32) -> (r: String)
    ensures
        r@ == padded_right(s@, width as nat),
    decreases width,
{
    if s.unicode_len() >= width as usize {
        s.to_owned()
    } else {
        let mut r = pad_right(s, width - 1);
        r.append(" ");
        proof {
            reveal_strlit(" ");
            assert(r@ =~= padded_right(s@, width as nat));
        }
        r
    }
}

/// A text with spaces in front of it up to a width.
pub fn pad_left(s: &str, width: u32) -> (r: String)
    ensures
        r@ == padded_left(s@, width as nat),
{
    let len: usize = s.unicode_len();
    let mut r = String::new();
    let mut i: usize = len;
    assert(r@ =~= spaces(0));
    while i < width as usize
        invariant
            len == s@.len(),
            len <= i,
            i <= len || i <= width,
            r@ == spaces((i - len) as nat),
        decreases width as usize - i,
    {
        r.append(" ");
        proof {
            reveal_strlit(" ");
            assert(r@ =~= spaces((i + 1 - len) as nat));
        }
        i += 1;
    }
    r.append(s);
    assert(r@ =~= padded_left(s@, width as nat));
    r
}

/// Two texts joined.
pub fn join2(a: &str, b: &str) -> (r: String)
    ensures
        r@ == a@ + b@,
{
    let mut r: String = a.to_owned();
    r.append(b);
    r
}

/// Three texts joined.
pub fn join3(a: &str, b: &str, c: &str) -> (r: String)
    ensures
        r@ == a@ + b@ + c@,
{
    let mut r = join2(a, b);
    r.append(c);
    r
}

/// Four texts joined.
pub fn join4(a: &str, b: &str, c: &str, d: &str) -> (r: String)
    ensures
        r@ == a@ + b@ + c@ + d@,
{
    let mut r = join3(a, b, c);
    r.append(d);
    r
}

/// Five texts joined.
pub fn join5(a: &str, b: &str, c: &str, d: &str, e: &str) -> (r: String)
    ensures
        r@ == a@ + b@ + c@ + d@ + e@,
{
    let mut r = join4(a, b, c, d);
    r.append(e);
    r
}

/// Whether a character has the `White_Space` property of Unicode.
pub open spec fn is_white(c: char) -> bool {
    let n = c as u32;
    9 <= n <= 13 || n == 0x20 || n == 0x85 || n == 0xa0 || n == 0x1680 || 0x2000 <= n <= 0x200a
        || n == 0x2028 || n == 0x2029 || n == 0x202f || n == 0x205f || n == 0x3000
}

/// The text without leading and trailing whitespace.
pub open spec fn trimmed(s: Seq<char>) -> Seq<char>
    decreases s.len(),
{
    if s.len() == 0 {
        s
    } else if is_white(s.first()) {
        trimmed(s.skip(1))
    } else if is_white(s.last()) {
        trimmed(s.drop_last())
    } else {
        s
    }
}

/// A trimmed text is a part of the text that neither begins nor ends with whitespace, and
/// what is cut off on either side is whitespace alone.
pub proof fn law_trimming_cuts_whitespace_alone(s: Seq<char>) -> (cut: (int, int))
    ensures
        0 <= cut.0 <= cut.1 <= s.len(),
        trimmed(s) == s.subrange(cut.0, cut.1),
        forall|i: int| 0 <= i < cut.0 || cut.1 <= i < s.len() ==> is_white(#[trigger] s[i]),
        trimmed(s).len() > 0 ==> !is_white(trimmed(s).first()) && !is_white(trimmed(s).last()),
        trimmed(trimmed(s)) == trimmed(s),
    decreases s.len(),
{
    if s.len() == 0 {
        assert(s =~= s.subrange(0, 0));
        (0, 0)
    } else if is_white(s.first()) {
        let rest = s.skip(1);
        let (a, b) = law_trimming_cuts_whitespace_alone(rest);
        assert(rest.subrange(a, b) =~= s.subrange(a + 1, b + 1));
        assert forall|i: int| 0 <= i < a + 1 || b + 1 <= i < s.len() implies is_white(
            #[trigger] s[i],
        ) by {
            if i > 0 {
                assert(s[i] == rest[i - 1]);
            }
        }
        (a + 1, b + 1)
    } else if is_white(s.last()) {
        let rest = s.drop_last();
        let (a, b) = law_trimming_cuts_whitespace_alone(rest);
        assert(rest.subrange(a, b) =~= s.subrange(a, b));
        assert forall|i: int| 0 <= i < a || b <= i < s.len() implies is_white(#[trigger] s[i]) by {
            if i < rest.len() {
                assert(s[i] == rest[i]);
            }
        }
        (a, b)
    } else {
        assert(s =~= s.subrange(0, s.len() as int));
        (0, s.len() as int)
    }
}

/// Whether a text is all ASCII.
pub open spec fn all_ascii(s: Seq<char>) -> bool {
    forall|i: int| 0 <= i < s.len() ==> (#[trigger] s[i]) as u32 <= 127
}

/// An ASCII character in upper case.
pub open spec fn ascii_upper(c: char) -> char {
    if 'a' <= c <= 'z' {
        (c as u32 - 32) as char
    } else {
        c
    }
}

/// An ASCII character in lower case.
pub open spec fn ascii_lower(c: char) -> char {
    if 'A' <= c <= 'Z' {
        (c as u32 + 32) as char
    } else {
        c
    }
}

/// A text with every ASCII letter in upper case.
pub open spec fn ascii_upper_all(s: Seq<char>) -> Seq<char> {
    Seq::new(s.len(), |i: int| ascii_upper(s[i]))
}

/// A text with every ASCII letter in lower case.
pub open spec fn ascii_lower_all(s: Seq<char>) -> Seq<char> {
    Seq::new(s.len(), |i: int| ascii_lower(s[i]))
}

/// The text in upper case.
pub uninterp spec fn uppercase(s: Seq<char>) -> Seq<char>;

/// The text in lower case.
pub uninterp spec fn lowercase(s: Seq<char>) -> Seq<char>;

/// `str::trim`. Claimed: the text without leading and trailing whitespace, as Unicode's
/// `White_Space` property has it.
#[verifier::external_body]
pub(crate) fn trim(s: &str) -> (r: &str)
    ensures
        r@ == trimmed(s@),
{
    s.trim()
}

/// `str::to_uppercase`: the text in upper case. Claimed: the result is a function of the
/// text, and on ASCII it maps letter by letter. Not claimed: what it is beyond ASCII, nor that
/// it is upper case already when taken again.
#[verifier::external_body]
pub(crate) fn to_upper(s: &str) -> (r: String)
    ensures
        r@ == uppercase(s@),
        all_ascii(s@) ==> r@ == ascii_upper_all(s@),
{
    s.to_uppercase()
}

/// `str::to_lowercase`: the text in lower case. Claimed: the result is a function of the
/// text, and on ASCII it maps letter by letter.
#[verifier::external_body]
pub(crate) fn to_lower(s: &str) -> (r: String)
    ensures
        r@ == lowercase(s@),
        all_ascii(s@) ==> r@ == ascii_lower_all(s@),
{
    s.to_lowercase()
}

/// What a row of digits stands for in base ten.
pub open spec fn read_in_base_ten(s: Seq<char>) -> int
    decreases s.len(),
{
    if s.len() == 0 {
        0
    } else {
        10 * read_in_base_ten(s.drop_last()) + (s.last() as int - '0' as int)
    }
}

/// A number is written with digits alone, none of them a zero in front, and reads as itself in
/// base ten. So no two numbers are written alike.
pub proof fn law_numbers_are_written_in_base_ten(n: nat)
    ensures
        read_in_base_ten(digits(n)) == n,
        digits(n).len() > 0,
        n > 0 ==> digits(n)[0] != '0',
        n < 10 ==> digits(n).len() == 1,
        forall|i: int| 0 <= i < digits(n).len() ==> '0' <= #[trigger] digits(n)[i] <= '9',
    decreases n,
{
    if n < 10 {
        let one = seq![digit(n)];
        assert(one.drop_last() =~= Seq::<char>::empty());
        assert(read_in_base_ten(one.drop_last()) == 0);
    } else {
        law_numbers_are_written_in_base_ten(n / 10);
        let front = digits(n / 10);
        let all = front.push(digit(n % 10));
        assert(all.drop_last() =~= front);
        assert(all[0] == front[0]);
    }
}

/// A number in a fixed width has that many digits, and reads as what is left of it by that
/// power of ten.
pub proof fn law_fixed_widths_keep_the_last_digits(n: nat, width: nat)
    ensures
        fixed_digits(n, width).len() == width,
        read_in_base_ten(fixed_digits(n, width)) == n as int % vstd::arithmetic::power::pow(
            10,
            width,
        ),
    decreases width,
{
    vstd::arithmetic::power::lemma_pow_positive(10, width);
    reveal(vstd::arithmetic::power::pow);
    if width == 0 {
        assert(n as int % 1 == 0);
    } else {
        let less = (width - 1) as nat;
        law_fixed_widths_keep_the_last_digits(n / 10, less);
        vstd::arithmetic::power::lemma_pow_positive(10, less);
        let front = fixed_digits(n / 10, less);
        let all = front.push(digit(n % 10));
        assert(all.drop_last() =~= front);
        let p = vstd::arithmetic::power::pow(10, less);
        let m = n as int;
        vstd::arithmetic::div_mod::lemma_mod_breakdown(m, 10, p);
        assert(vstd::arithmetic::power::pow(10, width) == 10 * p);
    }
}

/// Padding fills up with spaces on one side, to the width and no further, and keeps the text.
pub proof fn law_padding_fills_up_with_spaces(s: Seq<char>, width: nat)
    ensures
        padded_right(s, width).len() == if s.len() >= width {
            s.len()
        } else {
            width
        },
        padded_left(s, width).len() == padded_right(s, width).len(),
        padded_right(s, width).take(s.len() as int) == s,
        padded_left(s, width).skip(padded_left(s, width).len() - s.len()) == s,
        forall|i: int|
            s.len() <= i < padded_right(s, width).len() ==> #[trigger] padded_right(s, width)[i]
                == ' ',
        forall|i: int|
            0 <= i < padded_left(s, width).len() - s.len() ==> #[trigger] padded_left(s, width)[i]
                == ' ',
    decreases width,
{
    if s.len() < width {
        law_padding_fills_up_with_spaces(s, (width - 1) as nat);
        let less = padded_right(s, (width - 1) as nat);
        assert(padded_right(s, width).take(s.len() as int) =~= less.take(s.len() as int));
        assert(padded_left(s, width).skip(width - s.len()) =~= s);
    } else {
        assert(s.take(s.len() as int) =~= s);
        assert(s.skip(0) =~= s);
    }
}

/// A number with its sign: a minus in front of what it is without it.
pub proof fn law_negative_numbers_have_a_minus(n: int)
    ensures
        n >= 0 ==> signed_digits(n) == digits(n as nat),
        n < 0 ==> signed_digits(n) == seq!['-'] + digits((-n) as nat),
{
}

/// A number in hexadecimal has as many digits as asked for, the last one of `0` to `9` and `a` to
/// `f` for what is left of it by sixteen.
pub proof fn law_hexadecimal_has_its_width(n: nat, width: nat)
    ensures
        fixed_hex(n, width).len() == width,
        width > 0 ==> ({
            let k = n % 16;
            let c = fixed_hex(n, width).last();
            &&& k < 10 ==> c as int == '0' as int + k
            &&& k >= 10 ==> c as int == 'a' as int + k - 10
        }),
        width > 0 ==> fixed_hex(n, width).drop_last() == fixed_hex(n / 16, (width - 1) as nat),
    decreases width,
{
    if width > 0 {
        law_hexadecimal_has_its_width(n / 16, (width - 1) as nat);
        assert(fixed_hex(n, width).drop_last() =~= fixed_hex(n / 16, (width - 1) as nat));
    }
}

/// Of two texts the one that comes first has the smaller character where they first differ, or
/// ends there.
pub proof fn law_texts_are_ordered_by_their_first_difference(
    a: Seq<char>,
    b: Seq<char>,
    n: int,
)
    requires
        0 <= n <= a.len(),
        n <= b.len(),
        forall|i: int| 0 <= i < n ==> a[i] == b[i],
        n < a.len() && n < b.len() ==> a[n] != b[n],
    ensures
        n < a.len() && n < b.len() ==> (before(a, b) <==> a[n] < b[n]),
        n == a.len() && n < b.len() ==> before(a, b),
        n == b.len() ==> !before(a, b),
    decreases n,
{
    if n > 0 {
        let x = a.drop_first();
        let y = b.drop_first();
        assert forall|i: int| 0 <= i < n - 1 implies x[i] == y[i] by {
            assert(x[i] == a[i + 1] && y[i] == b[i + 1]);
        }
        law_texts_are_ordered_by_their_first_difference(x, y, n - 1);
        assert(a[0] == b[0]);
    }
}

} // verus!
