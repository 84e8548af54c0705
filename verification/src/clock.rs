//! The `hh:mm:ss` notation of a flight time given in whole seconds.
//!
//! Writing splits the seconds with division that rounds toward zero and
//! writes each part in decimal, at least two characters wide. Reading takes
//! three decimal fields separated by colons and adds them up again.

use vstd::prelude::*;

verus! {

/// The last second of a day, `23:59:59`.
pub const LAST_SECOND_OF_DAY: i32 = 86_399;

/// The quotient of `n` by `d`, rounded toward zero, for a positive `d`.
pub open spec fn quotient(n: int, d: int) -> int {
    if n >= 0 {
        n / d
    } else {
        -((-n) / d)
    }
}

/// What is left of `n` once `d` times its quotient is taken away: it has the sign of `n`.
pub open spec fn remainder(n: int, d: int) -> int {
    n - d * quotient(n, d)
}

/// The hours part of `n` seconds.
pub open spec fn hours_part(n: int) -> int {
    quotient(n, 3600)
}

/// The minutes part of `n` seconds, strictly between -60 and 60.
pub open spec fn minutes_part(n: int) -> int {
    remainder(quotient(n, 60), 60)
}

/// The seconds part of `n` seconds, strictly between -60 and 60.
pub open spec fn seconds_part(n: int) -> int {
    remainder(n, 60)
}

/// The character that writes the digit `d`, for `d` from 0 to 9.
pub open spec fn digit_char(d: int) -> char {
    if d == 0 {
        '0'
    } else if d == 1 {
        '1'
    } else if d == 2 {
        '2'
    } else if d == 3 {
        '3'
    } else if d == 4 {
        '4'
    } else if d == 5 {
        '5'
    } else if d == 6 {
        '6'
    } else if d == 7 {
        '7'
    } else if d == 8 {
        '8'
    } else {
        '9'
    }
}

/// The decimal digits of `n`, most significant first, without leading zeros.
pub open spec fn decimal(n: nat) -> Seq<char>
    decreases n,
{
    if n < 10 {
        seq![digit_char(n as int)]
    } else {
        decimal(n / 10).push(digit_char((n % 10) as int))
    }
}

/// One part of a clock text: a minus sign and the digits of a negative `v`;
/// one digit after a zero for `v` below ten; the plain digits otherwise.
pub open spec fn clock_field(v: int) -> Seq<char> {
    if v < 0 {
        seq!['-'] + decimal((-v) as nat)
    } else if v < 10 {
        seq!['0'] + decimal(v as nat)
    } else {
        decimal(v as nat)
    }
}

/// The clock text of `n` seconds: hours, minutes and seconds, with a colon between them.
pub open spec fn clock_text(n: int) -> Seq<char> {
    clock_field(hours_part(n)) + seq![':'] + clock_field(minutes_part(n)) + seq![':']
        + clock_field(seconds_part(n))
}

/// The one-character text of the digit `d`.
fn digit_text(d: u32) -> (r: &'static str)
    requires
        d < 10,
    ensures
        r@ == seq![digit_char(d as int)],
{
    proof {
        reveal_strlit("0");
        reveal_strlit("1");
        reveal_strlit("2");
        reveal_strlit("3");
        reveal_strlit("4");
        reveal_strlit("5");
        reveal_strlit("6");
        reveal_strlit("7");
        reveal_strlit("8");
        reveal_strlit("9");
    }
    let r = if d == 0 {
        "0"
    } else if d == 1 {
        "1"
    } else if d == 2 {
        "2"
    } else if d == 3 {
        "3"
    } else if d == 4 {
        "4"
    } else if d == 5 {
        "5"
    } else if d == 6 {
        "6"
    } else if d == 7 {
        "7"
    } else if d == 8 {
        "8"
    } else {
        "9"
    };
    assert(r@ =~= seq![digit_char(d as int)]);
    r
}

/// Appends the decimal digits of `n` to `out`.
fn push_decimal(out: &mut String, n: u32)
    ensures
        final(out)@ == old(out)@ + decimal(n as nat),
    decreases n,
{
    if n >= 10 {
        push_decimal(out, n / 10);
    }
    out.append(digit_text(n % 10));
    assert(out@ =~= old(out)@ + decimal(n as nat));
}

/// Appends one part of a clock text to `out`.
fn push_clock_field(out: &mut String, v: i32)
    requires
        v > i32::MIN,
    ensures
        final(out)@ == old(out)@ + clock_field(v as int),
{
    if v < 0 {
        proof {
            reveal_strlit("-");
        }
        out.append("-");
        let magnitude: u32 = (-v) as u32;
        push_decimal(out, magnitude);
    } else {
        if v < 10 {
            proof {
                reveal_strlit("0");
            }
            out.append("0");
        }
        push_decimal(out, v as u32);
    }
    assert(out@ =~= old(out)@ + clock_field(v as int));
}

/// Writes `seconds` as a clock text, such as `01:02:03` for 3723. Hours take
/// as many digits as they need. Of a negative time each part that is not
/// zero carries the minus sign, as in `-1:-1:-1` for -3661.
pub fn format_flight_time(seconds: i32) -> (r: String)
    ensures
        r@ == clock_text(seconds as int),
{
    let hours: i32 = seconds / 3600;
    let minutes: i32 = (seconds / 60) % 60;
    let secs: i32 = seconds % 60;
    proof {
        reveal_strlit(":");
    }
    let mut out = String::new();
    push_clock_field(&mut out, hours);
    out.append(":");
    push_clock_field(&mut out, minutes);
    out.append(":");
    push_clock_field(&mut out, secs);
    assert(out@ =~= clock_text(seconds as int));
    out
}

/// The ASCII code of the colon.
const COLON: u8 = 58;

/// The ASCII code of the minus sign.
const MINUS: u8 = 45;

/// The ASCII code of the plus sign.
const PLUS: u8 = 43;

/// The ASCII code of the digit zero.
const DIGIT_ZERO: u8 = 48;

/// The ASCII code of the digit nine.
const DIGIT_NINE: u8 = 57;

/// Whether `c` is one of the ten decimal digits.
pub open spec fn is_digit(c: char) -> bool {
    '0' <= c && c <= '9'
}

/// Whether `s` holds decimal digits only.
pub open spec fn all_digits(s: Seq<char>) -> bool {
    forall|k: int| 0 <= k < s.len() ==> is_digit(#[trigger] s[k])
}

/// The number that the digits `s` write in decimal; zero for no digits.
pub open spec fn decimal_value(s: Seq<char>) -> int
    decreases s.len(),
{
    if s.len() == 0 {
        0
    } else {
        10 * decimal_value(s.drop_last()) + (s.last() as int - '0' as int)
    }
}

/// Whether `s` starts with a plus or a minus sign.
pub open spec fn has_sign(s: Seq<char>) -> bool {
    s.len() > 0 && (s[0] == '-' || s[0] == '+')
}

/// The number that one field writes: an optional sign, then at least one
/// digit and nothing else; `None` for any other text and for a number that
/// does not fit in 32 bits.
pub open spec fn field_value(s: Seq<char>) -> Option<int> {
    let digits = if has_sign(s) {
        s.drop_first()
    } else {
        s
    };
    let v = if has_sign(s) && s[0] == '-' {
        -decimal_value(digits)
    } else {
        decimal_value(digits)
    };
    if digits.len() > 0 && all_digits(digits) && i32::MIN <= v <= i32::MAX {
        Some(v)
    } else {
        None
    }
}

/// The place of the first colon in `s`, or the length of `s` if it holds none.
pub open spec fn first_colon(s: Seq<char>) -> int
    decreases s.len(),
{
    if s.len() == 0 || s[0] == ':' {
        0
    } else {
        1 + first_colon(s.drop_first())
    }
}

/// The seconds that a clock text stands for: the text is cut at its first
/// two colons, the three pieces are read as hours, minutes and seconds, and
/// the total is `3600 h + 60 m + s`. `None` where a colon is missing, where a
/// piece is not a number (a third colon makes the last piece none), and
/// where the total does not fit in 32 bits.
pub open spec fn clock_value(text: Seq<char>) -> Option<int> {
    let i = first_colon(text);
    if i >= text.len() {
        None
    } else {
        let rest = text.skip(i + 1);
        let j = first_colon(rest);
        if j >= rest.len() {
            None
        } else {
            match (field_value(text.take(i)), field_value(rest.take(j)), field_value(rest.skip(j + 1))) {
                (Some(h), Some(m), Some(s)) => {
                    let total = 3600 * h + 60 * m + s;
                    if i32::MIN <= total <= i32::MAX {
                        Some(total)
                    } else {
                        None
                    }
                },
                _ => None,
            }
        }
    }
}

/// The first colon is found by what stands before it.
pub proof fn lemma_first_colon_at(s: Seq<char>, i: int)
    requires
        0 <= i <= s.len(),
        forall|k: int| 0 <= k < i ==> s[k] != ':',
        i == s.len() || s[i] == ':',
    ensures
        first_colon(s) == i,
    decreases s.len(),
{
    if s.len() == 0 || s[0] == ':' {
    } else {
        let t = s.drop_first();
        assert forall|k: int| 0 <= k < i - 1 implies t[k] != ':' by {
            assert(t[k] == s[k + 1]);
        }
        lemma_first_colon_at(t, i - 1);
    }
}

/// The first colon lies within the text or at its end, and a colon stands there.
pub proof fn lemma_first_colon_bounds(s: Seq<char>)
    ensures
        0 <= first_colon(s) <= s.len(),
        first_colon(s) < s.len() ==> s[first_colon(s)] == ':',
    decreases s.len(),
{
    if s.len() == 0 || s[0] == ':' {
    } else {
        lemma_first_colon_bounds(s.drop_first());
    }
}

/// Digits never write a negative number, and more digits never write a smaller one.
pub proof fn lemma_decimal_value_grows(s: Seq<char>, k: int)
    requires
        0 <= k <= s.len(),
        all_digits(s),
    ensures
        0 <= decimal_value(s.take(k)) <= decimal_value(s),
    decreases s.len(),
{
    if k == s.len() {
        assert(s.take(k) =~= s);
        if s.len() > 0 {
            lemma_decimal_value_grows(s.drop_last(), k - 1);
            assert(is_digit(s[s.len() - 1]));
        }
    } else {
        let t = s.drop_last();
        assert(t.take(k) =~= s.take(k));
        lemma_decimal_value_grows(t, k);
        assert(is_digit(s[s.len() - 1]));
    }
}

/// A field that is a number holds signs and digits only.
proof fn lemma_field_is_ascii(s: Seq<char>)
    requires
        field_value(s) is Some,
    ensures
        forall|k: int| 0 <= k < s.len() ==> '\0' <= #[trigger] s[k] <= '\u{7f}',
{
    assert forall|k: int| 0 <= k < s.len() implies '\0' <= #[trigger] s[k] <= '\u{7f}' by {
        if has_sign(s) {
            if k > 0 {
                assert(s[k] == s.drop_first()[k - 1]);
                assert(is_digit(s.drop_first()[k - 1]));
            }
        } else {
            assert(is_digit(s[k]));
        }
    }
}

/// A text that stands for a time holds digits, signs and colons only.
pub proof fn lemma_clock_text_is_ascii(text: Seq<char>)
    requires
        clock_value(text) is Some,
    ensures
        vstd::utf8::is_ascii_chars(text),
{
    let i = first_colon(text);
    let rest = text.skip(i + 1);
    let j = first_colon(rest);
    lemma_first_colon_bounds(text);
    lemma_first_colon_bounds(rest);
    assert(i < text.len());
    assert(j < rest.len());
    assert(text[i] == ':');
    assert(rest[j] == ':');
    lemma_field_is_ascii(text.take(i));
    lemma_field_is_ascii(rest.take(j));
    lemma_field_is_ascii(rest.skip(j + 1));
    assert forall|k: int| 0 <= k < text.len() implies '\0' <= #[trigger] text[k] <= '\u{7f}' by {
        if k < i {
            assert(text[k] == text.take(i)[k]);
        } else if k == i {
        } else if k < i + 1 + j {
            assert(text[k] == rest.take(j)[k - i - 1]);
        } else if k == i + 1 + j {
            assert(text[k] == rest[j]);
        } else {
            assert(text[k] == rest.skip(j + 1)[k - i - j - 2]);
        }
    }
}

/// The place of the first colon at or after `from`, or `end` if there is none.
fn find_colon(text: &str, from: usize, end: usize) -> (r: usize)
    requires
        text.is_ascii(),
        from <= end,
        end == text@.len(),
    ensures
        from <= r <= end,
        r == from + first_colon(text@.skip(from as int)),
{
    let mut k: usize = from;
    while k < end && text.get_ascii(k) != COLON
        invariant
            text.is_ascii(),
            from <= k <= end,
            end == text@.len(),
            forall|x: int| from <= x < k ==> text@[x] != ':',
        decreases end - k,
    {
        k = k + 1;
    }
    proof {
        let tail = text@.skip(from as int);
        assert forall|x: int| 0 <= x < k - from implies tail[x] != ':' by {
            assert(tail[x] == text@[x + from]);
        }
        lemma_first_colon_at(tail, k - from);
    }
    k
}

/// Reads the field that `text` holds from `from` up to `to`.
fn parse_field(text: &str, from: usize, to: usize) -> (r: Option<i32>)
    requires
        text.is_ascii(),
        from <= to <= text@.len(),
    ensures
        match r {
            Some(v) => field_value(text@.subrange(from as int, to as int)) == Some(v as int),
            None => field_value(text@.subrange(from as int, to as int)) is None,
        },
{
    let ghost field = text@.subrange(from as int, to as int);
    if from == to {
        return None;
    }
    let first: u8 = text.get_ascii(from);
    assert(field[0] == text@[from as int]);
    let negative = first == MINUS;
    let start: usize = if first == MINUS || first == PLUS {
        from + 1
    } else {
        from
    };
    let ghost digits = text@.subrange(start as int, to as int);
    assert(has_sign(field) == (start == from + 1));
    assert(negative == (has_sign(field) && field[0] == '-'));
    assert(has_sign(field) ==> digits =~= field.drop_first());
    assert(!has_sign(field) ==> digits =~= field);
    if start == to {
        return None;
    }
    let mut acc: i64 = 0;
    let mut k: usize = start;
    while k < to
        invariant
            text.is_ascii(),
            start <= k <= to <= text@.len(),
            field == text@.subrange(from as int, to as int),
            digits == text@.subrange(start as int, to as int),
            digits == if has_sign(field) {
                field.drop_first()
            } else {
                field
            },
            negative == (has_sign(field) && field[0] == '-'),
            all_digits(digits.take(k - start)),
            acc == decimal_value(digits.take(k - start)),
            0 <= acc <= 2147483648,
        decreases to - k,
    {
        let b: u8 = text.get_ascii(k);
        assert(digits[k - start] == text@[k as int]);
        if b < DIGIT_ZERO || b > DIGIT_NINE {
            assert(!is_digit(digits[k - start]));
            return None;
        }
        let ghost before = digits.take(k - start);
        let ghost after = digits.take(k - start + 1);
        assert(after.drop_last() =~= before);
        assert(after.last() == digits[k - start]);
        assert forall|x: int| 0 <= x < after.len() implies is_digit(#[trigger] after[x]) by {
            if x < before.len() {
                assert(after[x] == before[x]);
            }
        }
        acc = acc * 10 + (b - DIGIT_ZERO) as i64;
        if acc > 2147483648 {
            proof {
                if all_digits(digits) {
                    lemma_decimal_value_grows(digits, k - start + 1);
                }
            }
            return None;
        }
        k = k + 1;
    }
    assert(digits.take(k - start) =~= digits);
    let v: i64 = if negative {
        -acc
    } else {
        acc
    };
    if v > 2147483647 {
        None
    } else {
        Some(v as i32)
    }
}

/// Reads a clock text, such as `01:02:03`, back into seconds. Hours may
/// exceed two digits, and each field may carry a sign. Anything that is not
/// three numbers with a colon between them is refused, and so is a total
/// that does not fit in 32 bits.
pub fn parse_flight_time(text: &str) -> (r: Option<i32>)
    ensures
        match r {
            Some(v) => clock_value(text@) == Some(v as int),
            None => clock_value(text@) is None,
        },
{
    if !text.is_ascii() {
        proof {
            if clock_value(text@) is Some {
                lemma_clock_text_is_ascii(text@);
            }
        }
        return None;
    }
    let end: usize = text.as_bytes().len();
    proof {
        vstd::utf8::is_ascii_chars_encode_utf8(text@);
    }
    let i: usize = find_colon(text, 0, end);
    assert(text@.skip(0) =~= text@);
    if i >= end {
        return None;
    }
    let j: usize = find_colon(text, i + 1, end);
    if j >= end {
        return None;
    }
    let ghost rest = text@.skip(i + 1);
    assert(text@.take(i as int) =~= text@.subrange(0, i as int));
    assert(rest.take(j - i - 1) =~= text@.subrange(i + 1, j as int));
    assert(rest.skip(j - i) =~= text@.subrange(j + 1, end as int));
    let hours = parse_field(text, 0, i);
    let minutes = parse_field(text, i + 1, j);
    let seconds = parse_field(text, j + 1, end);
    match (hours, minutes, seconds) {
        (Some(h), Some(m), Some(s)) => {
            let total: i64 = 3600 * (h as i64) + 60 * (m as i64) + (s as i64);
            if total < -2147483648 || total > 2147483647 {
                None
            } else {
                Some(total as i32)
            }
        },
        _ => None,
    }
}

/// The three parts of `n` seconds add up to `n` again, and the minutes and
/// seconds parts lie strictly between -60 and 60.
pub proof fn lemma_parts_add_up(n: int)
    ensures
        3600 * hours_part(n) + 60 * minutes_part(n) + seconds_part(n) == n,
        -60 < minutes_part(n) < 60,
        -60 < seconds_part(n) < 60,
        n >= 0 ==> 0 <= hours_part(n) <= n && 0 <= minutes_part(n) && 0 <= seconds_part(n),
        n <= 0 ==> n <= hours_part(n) <= 0 && minutes_part(n) <= 0 && seconds_part(n) <= 0,
{
    let m: int = if n >= 0 {
        n
    } else {
        -n
    };
    vstd::arithmetic::div_mod::lemma_div_denominator(m, 60, 60);
    assert((m / 60) / 60 == m / 3600);
}

/// The digits of `n` are digits, at least one, and write `n`.
pub proof fn lemma_decimal_reads_back(n: nat)
    ensures
        decimal(n).len() >= 1,
        all_digits(decimal(n)),
        decimal_value(decimal(n)) == n,
    decreases n,
{
    let s = decimal(n);
    if n < 10 {
        assert(s.drop_last() =~= Seq::<char>::empty());
        assert(decimal_value(s.drop_last()) == 0);
    } else {
        lemma_decimal_reads_back(n / 10);
        assert(s.drop_last() =~= decimal(n / 10));
        assert forall|k: int| 0 <= k < s.len() implies is_digit(#[trigger] s[k]) by {
            if k < s.len() - 1 {
                assert(s[k] == decimal(n / 10)[k]);
            }
        }
    }
}

/// A part of a clock text reads back as the number it was written from, and holds no colon.
pub proof fn lemma_field_reads_back(v: int)
    requires
        i32::MIN <= v <= i32::MAX,
    ensures
        field_value(clock_field(v)) == Some(v),
        forall|k: int| 0 <= k < clock_field(v).len() ==> clock_field(v)[k] != ':',
{
    let s = clock_field(v);
    if v < 0 {
        let d = decimal((-v) as nat);
        lemma_decimal_reads_back((-v) as nat);
        assert(s.drop_first() =~= d);
        assert forall|k: int| 0 <= k < s.len() implies s[k] != ':' by {
            if k > 0 {
                assert(s[k] == d[k - 1]);
                assert(is_digit(d[k - 1]));
            }
        }
    } else if v < 10 {
        let d = decimal(v as nat);
        lemma_decimal_reads_back(v as nat);
        assert(s.drop_last() =~= seq!['0']);
        assert(seq!['0'].drop_last() =~= Seq::<char>::empty());
        assert(decimal_value(seq!['0']) == 0) by {
            reveal_with_fuel(decimal_value, 2);
        }
        assert forall|k: int| 0 <= k < s.len() implies is_digit(#[trigger] s[k]) by {
            if k > 0 {
                assert(s[k] == d[k - 1]);
            }
        }
    } else {
        lemma_decimal_reads_back(v as nat);
        assert(is_digit(s[0]));
        assert forall|k: int| 0 <= k < s.len() implies s[k] != ':' by {
            assert(is_digit(s[k]));
        }
    }
}

/// Reading undoes writing: the clock text of `n` seconds stands for `n`.
pub proof fn lemma_clock_round_trip(n: int)
    requires
        i32::MIN <= n <= i32::MAX,
    ensures
        clock_value(clock_text(n)) == Some(n),
{
    lemma_parts_add_up(n);
    let a = clock_field(hours_part(n));
    let b = clock_field(minutes_part(n));
    let c = clock_field(seconds_part(n));
    lemma_field_reads_back(hours_part(n));
    lemma_field_reads_back(minutes_part(n));
    lemma_field_reads_back(seconds_part(n));
    let text = clock_text(n);
    let i = a.len() as int;
    assert forall|k: int| 0 <= k < i implies text[k] != ':' by {
        assert(text[k] == a[k]);
    }
    lemma_first_colon_at(text, i);
    let rest = text.skip(i + 1);
    assert(rest =~= b + seq![':'] + c);
    let j = b.len() as int;
    assert forall|k: int| 0 <= k < j implies rest[k] != ':' by {
        assert(rest[k] == b[k]);
    }
    lemma_first_colon_at(rest, j);
    assert(text.take(i) =~= a);
    assert(rest.take(j) =~= b);
    assert(rest.skip(j + 1) =~= c);
}

/// Within a day the clock text is eight characters wide, `hh:mm:ss`, with
/// the hours below 24.
pub proof fn lemma_day_clock_is_eight_wide(n: int)
    requires
        0 <= n <= LAST_SECOND_OF_DAY,
    ensures
        0 <= hours_part(n) < 24,
        clock_field(hours_part(n)).len() == 2,
        clock_field(minutes_part(n)).len() == 2,
        clock_field(seconds_part(n)).len() == 2,
        clock_text(n).len() == 8,
        clock_text(n)[2] == ':',
        clock_text(n)[5] == ':',
{
    lemma_parts_add_up(n);
    lemma_two_digits_wide(hours_part(n));
    lemma_two_digits_wide(minutes_part(n));
    lemma_two_digits_wide(seconds_part(n));
}

/// A part from 0 to 99 is written with two characters.
pub proof fn lemma_two_digits_wide(v: int)
    requires
        0 <= v < 100,
    ensures
        clock_field(v).len() == 2,
{
    reveal_with_fuel(decimal, 2);
}

} // verus!
