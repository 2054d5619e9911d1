//! Decimal rendering of integers and small helpers on strings.

use vstd::prelude::*;
use vstd::string::*;

verus! {

/// The character that stands for the decimal digit `d`.
pub open spec fn digit(d: int) -> char {
    if d == 0 {
        '0'
    } else if d == 1 {
        '1'
    } else if d == 2 {
        '2'
    } else if d == 3 {
        '3'
    } else if d == 4 {
        '4'
    } else if d == 5 {
        '5'
    } else if d == 6 {
        '6'
    } else if d == 7 {
        '7'
    } else if d == 8 {
        '8'
    } else {
        '9'
    }
}

/// The decimal digits of `n`, most significant first, without leading zeros.
pub open spec fn decimal(n: nat) -> Seq<char>
    decreases n,
{
    if n < 10 {
        seq![digit(n as int)]
    } else {
        decimal(n / 10).push(digit((n % 10) as int))
    }
}

/// The decimal text of `n`, with a leading minus sign below zero.
pub open spec fn signed_decimal(n: int) -> Seq<char> {
    if n < 0 {
        seq!['-'] + decimal((-n) as nat)
    } else {
        decimal(n as nat)
    }
}

fn digit_str(d: u64) -> (s: &'static str)
    requires
        d < 10,
    ensures
        s@ == seq![digit(d as int)],
{
    proof {
        reveal_strlit("0");
        reveal_strlit("1");
        reveal_strlit("2");
        reveal_strlit("3");
        reveal_strlit("4");
        reveal_strlit("5");
        reveal_strlit("6");
        reveal_strlit("7");
        reveal_strlit("8");
        reveal_strlit("9");
    }
    let s: &'static str = if d == 0 {
        "0"
    } else if d == 1 {
        "1"
    } else if d == 2 {
        "2"
    } else if d == 3 {
        "3"
    } else if d == 4 {
        "4"
    } else if d == 5 {
        "5"
    } else if d == 6 {
        "6"
    } else if d == 7 {
        "7"
    } else if d == 8 {
        "8"
    } else {
        "9"
    };
    assert(s@ =~= seq![digit(d as int)]);
    s
}

/// Renders `n` in decimal.
pub fn decimal_string(n: u64) -> (s: String)
    ensures
        s@ == decimal(n as nat),
    decreases n,
{
    if n < 10 {
        String::from_str(digit_str(n))
    } else {
        let mut s = decimal_string(n / 10);
        s.append(digit_str(n % 10));
        assert(s@ =~= decimal(n as nat));
        s
    }
}

/// Renders `n` in decimal, with a leading minus sign below zero.
pub fn signed_decimal_string(n: i64) -> (s: String)
    ensures
        s@ == signed_decimal(n as int),
{
    if n < 0 {
        proof {
            reveal_strlit("-");
        }
        let magnitude: u64 = if n == i64::MIN {
            9223372036854775808u64
        } else {
            (-n) as u64
        };
        let mut s = String::from_str("-");
        let digits = decimal_string(magnitude);
        s.append(digits.as_str());
        assert(s@ =~= signed_decimal(n as int));
        s
    } else {
        decimal_string(n as u64)
    }
}

/// The characters that count as white space.
pub open spec fn is_whitespace(c: char) -> bool {
    let u = c as u32;
    ||| 0x9 <= u <= 0xD
    ||| u == 0x20
    ||| u == 0x85
    ||| u == 0xA0
    ||| u == 0x1680
    ||| 0x2000 <= u <= 0x200A
    ||| u == 0x2028
    ||| u == 0x2029
    ||| u == 0x202F
    ||| u == 0x205F
    ||| u == 0x3000
}

/// A text of white space alone, the empty text among them.
pub open spec fn is_blank(s: Seq<char>) -> bool {
    forall|i: int| 0 <= i < s.len() ==> is_whitespace(#[trigger] s[i])
}

/// The place of the first line feed in `s`, or the length of `s`.
pub open spec fn first_newline(s: Seq<char>) -> int
    decreases s.len(),
{
    if s.len() == 0 {
        0
    } else if s[0] == '\n' {
        0
    } else {
        1 + first_newline(s.drop_first())
    }
}

/// `s` without the carriage return at its end, if it has one.
pub open spec fn without_cr(s: Seq<char>) -> Seq<char> {
    if s.len() > 0 && s.last() == '\r' {
        s.drop_last()
    } else {
        s
    }
}

/// The lines of `s` that are not blank. A line ends at a line feed; the line
/// feed, and a carriage return right before it, are not part of the line.
/// What follows the last line feed is a line too, unless it is empty.
pub open spec fn record_lines(s: Seq<char>) -> Seq<Seq<char>>
    decreases s.len(),
{
    if s.len() == 0 {
        Seq::empty()
    } else {
        let k = first_newline(s);
        if 0 <= k < s.len() {
            let line = without_cr(s.take(k));
            if is_blank(line) {
                record_lines(s.skip(k + 1))
            } else {
                seq![line] + record_lines(s.skip(k + 1))
            }
        } else if is_blank(s) {
            Seq::empty()
        } else {
            seq![s]
        }
    }
}

pub proof fn lemma_first_newline(s: Seq<char>, k: int)
    requires
        0 <= k <= s.len(),
        forall|i: int| 0 <= i < k ==> s[i] != '\n',
        k < s.len() ==> s[k] == '\n',
    ensures
        first_newline(s) == k,
    decreases s.len(),
{
    if s.len() > 0 && k > 0 {
        let rest = s.drop_first();
        assert forall|i: int| 0 <= i < k - 1 implies rest[i] != '\n' by {
            assert(rest[i] == s[i + 1]);
        }
        lemma_first_newline(rest, k - 1);
    }
}

/// Whether `c` is white space.
pub fn char_is_whitespace(c: char) -> (b: bool)
    ensures
        b == is_whitespace(c),
{
    let u: u32 = c as u32;
    (0x9 <= u && u <= 0xD) || u == 0x20 || u == 0x85 || u == 0xA0 || u == 0x1680 || (0x2000 <= u
        && u <= 0x200A) || u == 0x2028 || u == 0x2029 || u == 0x202F || u == 0x205F || u
        == 0x3000
}

/// The views of the strings of `v`.
pub open spec fn texts(v: Seq<String>) -> Seq<Seq<char>> {
    v.map_values(|s: String| s@)
}

/// Appends to `out` the lines of `body` that are not blank.
pub fn push_record_lines(body: &str, out: &mut Vec<String>)
    ensures
        texts(final(out)@) == texts(old(out)@) + record_lines(body@),
{
    let ghost s = body@;
    let ghost base = texts(out@);
    let total: usize = body.unicode_len();
    let mut start: usize = 0;
    let mut blank: bool = true;
    let mut last_cr: bool = false;
    let mut i: usize = 0;
    assert(s.skip(0) =~= s);
    for c in it: body.chars()
        invariant
            it.seq() == s,
            s == body@,
            total == s.len(),
            i == it.index(),
            start <= i <= s.len(),
            forall|k: int| start <= k < i ==> s[k] != '\n',
            blank == is_blank(s.subrange(start as int, i as int)),
            last_cr == (i > start && s[i - 1] == '\r'),
            texts(out@) + record_lines(s.skip(start as int)) == base + record_lines(s),
    {
        assert(c == s[i as int]);
        if c == '\n' {
            let ghost tail = s.skip(start as int);
            let ghost raw = s.subrange(start as int, i as int);
            proof {
                assert forall|k: int| 0 <= k < i - start implies tail[k] != '\n' by {
                    assert(tail[k] == s[start + k]);
                }
                lemma_first_newline(tail, i - start);
                assert(tail.take(i - start) =~= raw);
                assert(tail.skip(i - start + 1) =~= s.skip(i + 1));
                if last_cr {
                    assert(raw.last() == '\r');
                    assert(is_whitespace('\r'));
                    assert(is_blank(raw) == is_blank(raw.drop_last())) by {
                        if is_blank(raw.drop_last()) {
                            assert forall|k: int| 0 <= k < raw.len() implies is_whitespace(
                                #[trigger] raw[k],
                            ) by {
                                if k < raw.len() - 1 {
                                    assert(raw.drop_last()[k] == raw[k]);
                                }
                            }
                        } else {
                            let k = choose|k: int|
                                0 <= k < raw.drop_last().len() && !is_whitespace(
                                    #[trigger] raw.drop_last()[k],
                                );
                            assert(raw[k] == raw.drop_last()[k]);
                        }
                    }
                }
            }
            if !blank {
                let end: usize = if last_cr {
                    i - 1
                } else {
                    i
                };
                let line = String::from_str(body.substring_char(start, end));
                proof {
                    assert(line@ =~= without_cr(raw));
                    assert(texts(out@.push(line)) =~= texts(out@).push(line@));
                    assert(texts(out@).push(line@) + record_lines(s.skip(i + 1)) =~= texts(out@)
                        + (seq![line@] + record_lines(s.skip(i + 1))));
                }
                out.push(line);
            }
            start = i + 1;
            blank = true;
            last_cr = false;
            proof {
                assert(s.subrange(start as int, start as int) =~= Seq::<char>::empty());
            }
        } else {
            proof {
                let before = s.subrange(start as int, i as int);
                let now = s.subrange(start as int, i + 1);
                assert(now =~= before.push(c));
                if is_blank(before) && is_whitespace(c) {
                    assert forall|k: int| 0 <= k < now.len() implies is_whitespace(
                        #[trigger] now[k],
                    ) by {
                        if k < before.len() {
                            assert(now[k] == before[k]);
                        }
                    }
                } else if !is_blank(before) {
                    let k = choose|k: int|
                        0 <= k < before.len() && !is_whitespace(#[trigger] before[k]);
                    assert(now[k] == before[k]);
                } else {
                    assert(now[now.len() - 1] == c);
                }
            }
            blank = blank && char_is_whitespace(c);
            last_cr = c == '\r';
        }
        i = i + 1;
    }
    let ghost tail = s.skip(start as int);
    proof {
        assert(tail =~= s.subrange(start as int, i as int));
        if start < total {
            assert forall|k: int| 0 <= k < tail.len() implies tail[k] != '\n' by {
                assert(tail[k] == s[start + k]);
            }
            lemma_first_newline(tail, tail.len() as int);
        }
    }
    if start < total && !blank {
        let line = String::from_str(body.substring_char(start, total));
        proof {
            assert(line@ =~= tail);
            assert(texts(out@.push(line)) =~= texts(out@).push(line@));
            assert(texts(out@).push(line@) =~= texts(out@) + seq![line@]);
        }
        out.push(line);
    } else {
        proof {
            assert(record_lines(tail) =~= Seq::<Seq<char>>::empty());
            assert(texts(out@) + record_lines(tail) =~= texts(out@));
        }
    }
}

/// Whether `c` is one of the ten decimal digits.
pub open spec fn is_digit(c: char) -> bool {
    '0' <= c <= '9'
}

/// The number that the digit `c` stands for.
pub open spec fn digit_value(c: char) -> int {
    c as int - '0' as int
}

/// Whether `s` is made of decimal digits alone.
pub open spec fn all_digits(s: Seq<char>) -> bool {
    forall|i: int| 0 <= i < s.len() ==> is_digit(#[trigger] s[i])
}

/// The number that the digits `s` spell.
pub open spec fn digits_value(s: Seq<char>) -> int
    decreases s.len(),
{
    if s.len() == 0 {
        0
    } else {
        digits_value(s.drop_last()) * 10 + digit_value(s.last())
    }
}

/// The digits of a number text: the text without its sign.
pub open spec fn unsigned_part(s: Seq<char>) -> Seq<char> {
    if s.len() > 0 && (s[0] == '-' || s[0] == '+') {
        s.drop_first()
    } else {
        s
    }
}

/// The integer that `s` spells, where it spells one that an `i64` holds: an
/// optional `+` or `-`, then one decimal digit or more.
pub open spec fn integer_of(s: Seq<char>) -> Option<int> {
    let digits = unsigned_part(s);
    let value = if s.len() > 0 && s[0] == '-' {
        -digits_value(digits)
    } else {
        digits_value(digits)
    };
    if digits.len() > 0 && all_digits(digits) && i64::MIN <= value <= i64::MAX {
        Some(value)
    } else {
        None
    }
}

proof fn lemma_digits_value_grows(s: Seq<char>, k: int)
    requires
        all_digits(s),
        0 <= k <= s.len(),
    ensures
        0 <= digits_value(s.take(k)) <= digits_value(s),
    decreases s.len() - k,
{
    if k == s.len() {
        assert(s.take(k) =~= s);
        lemma_digits_value_nonnegative(s);
    } else {
        lemma_digits_value_grows(s, k + 1);
        assert(s.take(k + 1).drop_last() =~= s.take(k));
        assert(is_digit(s[k]));
        assert(s.take(k + 1).last() == s[k]);
        lemma_digits_value_nonnegative(s.take(k));
    }
}

proof fn lemma_digits_value_nonnegative(s: Seq<char>)
    requires
        all_digits(s),
    ensures
        0 <= digits_value(s),
    decreases s.len(),
{
    if s.len() > 0 {
        assert forall|i: int| 0 <= i < s.drop_last().len() implies is_digit(
            #[trigger] s.drop_last()[i],
        ) by {
            assert(s.drop_last()[i] == s[i]);
        }
        lemma_digits_value_nonnegative(s.drop_last());
        assert(is_digit(s.last()));
    }
}

/// Reads `s` as a decimal integer.
pub fn parse_i64(s: &str) -> (value: Option<i64>)
    ensures
        match value {
            Some(v) => integer_of(s@) == Some(v as int),
            None => integer_of(s@) is None,
        },
{
    let ghost text = s@;
    let ghost digits = unsigned_part(text);
    let mut negative: bool = false;
    let mut signed: bool = false;
    let mut count: usize = 0;
    let mut acc: i128 = 0;
    let mut i: usize = 0;
    let limit: i128 = 9223372036854775808;
    let total: usize = s.unicode_len();
    for c in it: s.chars()
        invariant
            it.seq() == text,
            text == s@,
            total == text.len(),
            digits == unsigned_part(text),
            i == it.index(),
            limit == 9223372036854775808,
            i > 0 ==> negative == (text[0] == '-'),
            i > 0 ==> signed == (text[0] == '-' || text[0] == '+'),
            i == 0 ==> !signed && !negative && count == 0,
            count == if signed {
                i - 1
            } else {
                i as int
            },
            all_digits(digits.take(count as int)),
            acc == digits_value(digits.take(count as int)),
            0 <= acc <= limit,
    {
        assert(c == text[i as int]);
        assert(i < total);
        if i == 0 && (c == '-' || c == '+') {
            signed = true;
            negative = c == '-';
            assert(digits.take(0) =~= Seq::<char>::empty());
        } else {
            let ghost k = count as int;
            assert(digits[k] == c);
            if !('0' <= c && c <= '9') {
                assert(!all_digits(digits));
                return None;
            }
            let d: i128 = (c as u32 - '0' as u32) as i128;
            proof {
                assert(digits.take(k + 1).drop_last() =~= digits.take(k));
                assert(digits.take(k + 1).last() == c);
                assert forall|j: int| 0 <= j < k + 1 implies is_digit(
                    #[trigger] digits.take(k + 1)[j],
                ) by {
                    if j < k {
                        assert(digits.take(k)[j] == digits.take(k + 1)[j]);
                    }
                }
            }
            acc = acc * 10 + d;
            if acc > limit {
                proof {
                    if all_digits(digits) {
                        lemma_digits_value_grows(digits, k + 1);
                    }
                }
                return None;
            }
            count = count + 1;
        }
        i = i + 1;
    }
    proof {
        assert(digits.take(count as int) =~= digits);
    }
    if count == 0 {
        None
    } else if negative {
        Some((-acc) as i64)
    } else if acc == limit {
        None
    } else {
        Some(acc as i64)
    }
}

/// `text` between double quotes, with the characters escaped that Rust
/// escapes when it prints a string for debugging.
pub uninterp spec fn quoted(text: Seq<char>) -> Seq<char>;

/// Formats `text` with `{:?}`, which is std's `Debug` for `str`. The result
/// depends on the text alone, which is what the contract says; which
/// characters are escaped, and how, is std's matter.
#[verifier::external_body]
pub(crate) fn quote(text: &str) -> (q: String)
    ensures
        q@ == quoted(text@),
{
    format!("{:?}", text)
}

/// Whether `a` comes before `b` in the order of strings: character by
/// character, and a text before every text that it begins.
pub open spec fn lex_less(a: Seq<char>, b: Seq<char>) -> bool
    decreases a.len(),
{
    if b.len() == 0 {
        false
    } else if a.len() == 0 {
        true
    } else if a[0] != b[0] {
        (a[0] as u32) < (b[0] as u32)
    } else {
        lex_less(a.drop_first(), b.drop_first())
    }
}

/// No text comes before itself.
pub proof fn lemma_lex_irreflexive(a: Seq<char>)
    ensures
        !lex_less(a, a),
    decreases a.len(),
{
    if a.len() > 0 {
        lemma_lex_irreflexive(a.drop_first());
    }
}

/// Of two different texts one comes before the other.
pub proof fn lemma_lex_total(a: Seq<char>, b: Seq<char>)
    ensures
        a == b || lex_less(a, b) || lex_less(b, a),
    decreases a.len(),
{
    if a.len() > 0 && b.len() > 0 {
        if a[0] == b[0] {
            lemma_lex_total(a.drop_first(), b.drop_first());
            if a.drop_first() == b.drop_first() {
                assert forall|i: int| 0 <= i < a.len() implies a[i] == b[i] by {
                    if i > 0 {
                        assert(a[i] == a.drop_first()[i - 1]);
                        assert(b[i] == b.drop_first()[i - 1]);
                    }
                }
                assert(a.len() == a.drop_first().len() + 1);
                assert(b.len() == b.drop_first().len() + 1);
                assert(a =~= b);
            }
        } else {
            vstd::utf8::char_u32_cast(a[0], a[0] as u32);
            vstd::utf8::char_u32_cast(b[0], b[0] as u32);
        }
    } else if a.len() == 0 && b.len() == 0 {
        assert(a =~= b);
    }
}

/// The order of strings is transitive.
pub proof fn lemma_lex_transitive(a: Seq<char>, b: Seq<char>, c: Seq<char>)
    requires
        lex_less(a, b),
        lex_less(b, c),
    ensures
        lex_less(a, c),
    decreases a.len(),
{
    if a.len() > 0 && b.len() > 0 && c.len() > 0 && a[0] == b[0] && b[0] == c[0] {
        lemma_lex_transitive(a.drop_first(), b.drop_first(), c.drop_first());
    }
}

/// Whether `a` comes before `b` in the order of strings.
pub fn text_less(a: &str, b: &str) -> (less: bool)
    ensures
        less == lex_less(a@, b@),
{
    let la: usize = a.unicode_len();
    let lb: usize = b.unicode_len();
    let mut i: usize = 0;
    assert(a@.skip(0) =~= a@ && b@.skip(0) =~= b@);
    while i < la && i < lb
        invariant
            la == a@.len(),
            lb == b@.len(),
            i <= la,
            i <= lb,
            lex_less(a@, b@) == lex_less(a@.skip(i as int), b@.skip(i as int)),
        decreases la - i,
    {
        let ca = a.get_char(i);
        let cb = b.get_char(i);
        proof {
            assert(a@.skip(i as int)[0] == ca);
            assert(b@.skip(i as int)[0] == cb);
            assert(a@.skip(i as int).drop_first() =~= a@.skip(i + 1));
            assert(b@.skip(i as int).drop_first() =~= b@.skip(i + 1));
        }
        if ca != cb {
            return (ca as u32) < (cb as u32);
        }
        i = i + 1;
    }
    i < lb
}

} // verus!
