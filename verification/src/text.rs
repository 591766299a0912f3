//! Text of numbers: writing a `u64` in decimal and reading one back.
use vstd::prelude::*;

verus! {

/// The character of a decimal digit.
pub open spec fn digit_char(d: nat) -> char
    recommends
        d < 10,
{
    (48 + d) as char
}

/// The decimal text of `n`, without leading zeros.
pub open spec fn decimal(n: nat) -> Seq<char>
    decreases n,
{
    if n < 10 {
        seq![digit_char(n)]
    } else {
        decimal(n / 10).push(digit_char(n % 10))
    }
}

/// Whether `c` is one of `0` to `9`.
pub open spec fn is_digit(c: char) -> bool {
    '0' <= c && c <= '9'
}

/// Whether every character of `s` is a decimal digit.
pub open spec fn all_digits(s: Seq<char>) -> bool {
    forall|i: int| 0 <= i < s.len() ==> is_digit(#[trigger] s[i])
}

/// The number that a sequence of decimal digits writes.
pub open spec fn digits_value(s: Seq<char>) -> nat
    decreases s.len(),
{
    if s.len() == 0 {
        0
    } else {
        digits_value(s.drop_last()) * 10 + (s.last() as nat - 48) as nat
    }
}

/// `s` without the one plus sign that may stand in front of a number.
pub open spec fn without_plus(s: Seq<char>) -> Seq<char> {
    if s.len() > 0 && s[0] == '+' {
        s.drop_first()
    } else {
        s
    }
}

/// What `s` reads as: an optional plus sign, then one or more digits and nothing else, with a
/// value that a `u64` can hold.
pub open spec fn parsed(s: Seq<char>) -> Option<u64> {
    let body = without_plus(s);
    if body.len() > 0 && all_digits(body) && digits_value(body) <= u64::MAX {
        Some(digits_value(body) as u64)
    } else {
        None
    }
}

/// The characters with the Unicode property `White_Space`.
pub open spec fn is_white_space(c: char) -> bool {
    let n = c as u32;
    ||| 0x9 <= n <= 0xd
    ||| n == 0x20
    ||| n == 0x85
    ||| n == 0xa0
    ||| n == 0x1680
    ||| 0x2000 <= n <= 0x200a
    ||| n == 0x2028
    ||| n == 0x2029
    ||| n == 0x202f
    ||| n == 0x205f
    ||| n == 0x3000
}

/// `s` without the white space in front.
pub open spec fn trimmed_start(s: Seq<char>) -> Seq<char>
    decreases s.len(),
{
    if s.len() > 0 && is_white_space(s[0]) {
        trimmed_start(s.drop_first())
    } else {
        s
    }
}

/// `s` without the white space at its end.
pub open spec fn trimmed_end(s: Seq<char>) -> Seq<char>
    decreases s.len(),
{
    if s.len() > 0 && is_white_space(s.last()) {
        trimmed_end(s.drop_last())
    } else {
        s
    }
}

/// `s` without the white space at either side.
pub open spec fn trimmed(s: Seq<char>) -> Seq<char> {
    trimmed_end(trimmed_start(s))
}

/// The one-character text of a decimal digit.
fn digit_text(d: u64) -> (text: &'static str)
    requires
        d < 10,
    ensures
        text@ == seq![digit_char(d as nat)],
{
    proof {
        reveal_strlit("0");
        reveal_strlit("1");
        reveal_strlit("2");
        reveal_strlit("3");
        reveal_strlit("4");
        reveal_strlit("5");
        reveal_strlit("6");
        reveal_strlit("7");
        reveal_strlit("8");
        reveal_strlit("9");
    }
    match d {
        0 => "0",
        1 => "1",
        2 => "2",
        3 => "3",
        4 => "4",
        5 => "5",
        6 => "6",
        7 => "7",
        8 => "8",
        _ => "9",
    }
}

/// Appends `n` in decimal.
pub fn push_decimal(out: &mut String, n: u64)
    ensures
        final(out)@ == old(out)@ + decimal(n as nat),
    decreases n,
{
    if n >= 10 {
        push_decimal(out, n / 10);
    }
    out.append(digit_text(n % 10));
}

/// Whether `c` has the Unicode property `White_Space`.
pub fn white_space(c: char) -> (yes: bool)
    ensures
        yes == is_white_space(c),
{
    let n: u32 = c as u32;
    (0x9 <= n && n <= 0xd) || n == 0x20 || n == 0x85 || n == 0xa0 || n == 0x1680 || (0x2000 <= n
        && n <= 0x200a) || n == 0x2028 || n == 0x2029 || n == 0x202f || n == 0x205f || n == 0x3000
}

/// The characters of `s` in order.
fn characters(s: &str) -> (chars: Vec<char>)
    ensures
        chars@ == s@,
{
    let mut chars: Vec<char> = Vec::new();
    for c in it: s.chars()
        invariant
            it.seq() == s@,
            chars@ == s@.take(it.index()),
    {
        chars.push(c);
    }
    chars
}

/// `digits_value` never falls as digits are added behind a prefix.
proof fn lemma_prefix_value(s: Seq<char>, k: int)
    requires
        0 <= k <= s.len(),
    ensures
        digits_value(s.take(k)) <= digits_value(s),
    decreases s.len() - k,
{
    if k == s.len() {
        assert(s.take(k) =~= s);
    } else {
        lemma_prefix_value(s, k + 1);
        assert(s.take(k + 1).drop_last() =~= s.take(k));
    }
}

/// The number that `chars[lo..hi]` writes, by the rule of [`parsed`].
fn parse_range(chars: &Vec<char>, lo: usize, hi: usize) -> (value: Option<u64>)
    requires
        lo <= hi <= chars@.len(),
    ensures
        value == parsed(chars@.subrange(lo as int, hi as int)),
{
    let ghost s = chars@.subrange(lo as int, hi as int);
    let mut first: usize = lo;
    if lo < hi && chars[lo] == '+' {
        first = lo + 1;
    }
    let ghost body = chars@.subrange(first as int, hi as int);
    assert(without_plus(s) =~= body);
    if first == hi {
        return None;
    }
    let mut value: u64 = 0;
    let mut i: usize = first;
    while i < hi
        invariant
            lo <= first <= i <= hi <= chars@.len(),
            s == chars@.subrange(lo as int, hi as int),
            without_plus(s) == body,
            body == chars@.subrange(first as int, hi as int),
            all_digits(body.take(i - first)),
            value == digits_value(body.take(i - first)),
        decreases hi - i,
    {
        let c: char = chars[i];
        assert(c == body[i - first]);
        if !('0' <= c && c <= '9') {
            return None;
        }
        let ghost k = i - first + 1;
        proof {
            assert(body.take(k).drop_last() =~= body.take(k - 1));
            assert(digits_value(body.take(k)) == value * 10 + (c as nat - 48) as nat);
            lemma_prefix_value(body, k);
        }
        let digit: u64 = c as u64 - 48;
        match value.checked_mul(10) {
            None => {
                return None;
            },
            Some(tens) => match tens.checked_add(digit) {
                None => {
                    return None;
                },
                Some(sum) => {
                    value = sum;
                },
            },
        }
        i = i + 1;
        assert forall|j: int| 0 <= j < body.take(k).len() implies is_digit(
            #[trigger] body.take(k)[j],
        ) by {
            if j < k - 1 {
                assert(body.take(k - 1)[j] == body.take(k)[j]);
            }
        }
    }
    assert(body.take(i - first) =~= body);
    Some(value)
}

/// Reads the number in `s`, which white space may surround.
pub fn parse_trimmed(s: &str) -> (value: Option<u64>)
    ensures
        value == parsed(trimmed(s@)),
{
    let chars = characters(s);
    let mut lo: usize = 0;
    let mut hi: usize = chars.len();
    assert(chars@.subrange(0, hi as int) =~= s@);
    while lo < hi && white_space(chars[lo])
        invariant
            lo <= hi == chars@.len(),
            trimmed_start(chars@.subrange(lo as int, hi as int)) == trimmed_start(s@),
        decreases hi - lo,
    {
        assert(chars@.subrange(lo as int, hi as int).drop_first() =~= chars@.subrange(
            lo + 1,
            hi as int,
        ));
        lo = lo + 1;
    }
    let ghost start = trimmed_start(s@);
    assert(start == chars@.subrange(lo as int, hi as int));
    while lo < hi && white_space(chars[hi - 1])
        invariant
            lo <= hi <= chars@.len(),
            trimmed_end(chars@.subrange(lo as int, hi as int)) == trimmed_end(start),
        decreases hi - lo,
    {
        assert(chars@.subrange(lo as int, hi as int).drop_last() =~= chars@.subrange(
            lo as int,
            hi - 1,
        ));
        hi = hi - 1;
    }
    assert(trimmed(s@) == chars@.subrange(lo as int, hi as int));
    parse_range(&chars, lo, hi)
}

/// The decimal text of a number is made of digits, starts with no plus sign and reads as that
/// number.
pub proof fn law_decimal_reads_back(n: nat)
    ensures
        decimal(n).len() > 0,
        all_digits(decimal(n)),
        digits_value(decimal(n)) == n,
        n <= u64::MAX ==> parsed(decimal(n)) == Some(n as u64),
    decreases n,
{
    if n < 10 {
        assert(decimal(n).drop_last() =~= Seq::<char>::empty());
        assert(digits_value(Seq::<char>::empty()) == 0);
    } else {
        law_decimal_reads_back(n / 10);
        assert(decimal(n).drop_last() =~= decimal(n / 10));
        let prefix = decimal(n / 10);
        assert forall|i: int| 0 <= i < decimal(n).len() implies is_digit(
            #[trigger] decimal(n)[i],
        ) by {
            if i < prefix.len() {
                assert(is_digit(prefix[i]));
            }
        }
    }
    assert(decimal(n).last() == digit_char(n % 10));
    assert(is_digit(decimal(n)[0]));
    assert(without_plus(decimal(n)) == decimal(n));
}

/// Different numbers have different decimal texts.
pub proof fn law_decimal_is_injective(a: nat, b: nat)
    requires
        decimal(a) == decimal(b),
    ensures
        a == b,
{
    law_decimal_reads_back(a);
    law_decimal_reads_back(b);
}

/// White space around a text changes nothing of what it trims to.
proof fn lemma_trimmed_start_drops(pad: Seq<char>, s: Seq<char>)
    requires
        forall|i: int| 0 <= i < pad.len() ==> is_white_space(#[trigger] pad[i]),
    ensures
        trimmed_start(pad + s) == trimmed_start(s),
    decreases pad.len(),
{
    if pad.len() == 0 {
        assert(pad + s =~= s);
    } else {
        assert((pad + s)[0] == pad[0]);
        assert((pad + s).drop_first() =~= pad.drop_first() + s);
        lemma_trimmed_start_drops(pad.drop_first(), s);
    }
}

proof fn lemma_trimmed_end_drops(s: Seq<char>, pad: Seq<char>)
    requires
        forall|i: int| 0 <= i < pad.len() ==> is_white_space(#[trigger] pad[i]),
    ensures
        trimmed_end(s + pad) == trimmed_end(s),
    decreases pad.len(),
{
    if pad.len() == 0 {
        assert(s + pad =~= s);
    } else {
        assert((s + pad).last() == pad.last());
        assert((s + pad).drop_last() =~= s + pad.drop_last());
        lemma_trimmed_end_drops(s, pad.drop_last());
    }
}

/// A number written in decimal, with any white space before and after it, reads as that number.
pub proof fn law_padded_decimal_reads_back(before: Seq<char>, n: u64, after: Seq<char>)
    requires
        forall|i: int| 0 <= i < before.len() ==> is_white_space(#[trigger] before[i]),
        forall|i: int| 0 <= i < after.len() ==> is_white_space(#[trigger] after[i]),
    ensures
        parsed(trimmed(before + decimal(n as nat) + after)) == Some(n),
{
    let text = decimal(n as nat);
    law_decimal_reads_back(n as nat);
    assert(is_digit(text[0]));
    assert(is_digit(text[text.len() - 1]));
    assert(before + text + after =~= before + (text + after));
    lemma_trimmed_start_drops(before, text + after);
    assert((text + after)[0] == text[0]);
    lemma_trimmed_end_drops(text, after);
}

/// The decimal text of a number gives it digit by digit: the character at each place is the digit
/// of that power of ten, there are just enough places for the number, and no zero stands in front.
pub proof fn law_decimal_gives_each_digit(n: nat)
    ensures
        decimal(n).len() > 0,
        n < vstd::arithmetic::power::pow(10, decimal(n).len()),
        n > 0 ==> vstd::arithmetic::power::pow(10, (decimal(n).len() - 1) as nat) <= n,
        decimal(n).len() > 1 ==> decimal(n)[0] != '0',
        forall|k: nat|
            k < decimal(n).len() ==> #[trigger] decimal(n)[decimal(n).len() - 1 - k] as int == 48 + (
            n as int / vstd::arithmetic::power::pow(10, k)) % 10,
    decreases n,
{
    let s = decimal(n);
    vstd::arithmetic::power::lemma_pow0(10);
    vstd::arithmetic::power::lemma_pow1(10);
    if n >= 10 {
        let front = decimal(n / 10);
        law_decimal_gives_each_digit(n / 10);
        lemma_next_power(front.len());
        lemma_next_power((front.len() - 1) as nat);
        assert(vstd::arithmetic::power::pow(10, s.len()) == 10 * vstd::arithmetic::power::pow(
            10,
            front.len(),
        ));
        assert(vstd::arithmetic::power::pow(10, front.len()) == 10 * vstd::arithmetic::power::pow(
            10,
            (front.len() - 1) as nat,
        ));
        assert(s[0] == front[0]);
        if front.len() == 1 {
            assert(front[front.len() - 1 - 0nat] as int == 48 + ((n / 10) as int
                / vstd::arithmetic::power::pow(10, 0)) % 10);
        }
        assert forall|k: nat| k < s.len() implies #[trigger] s[s.len() - 1 - k] as int == 48 + (
        n as int / vstd::arithmetic::power::pow(10, k)) % 10 by {
            if k > 0 {
                let j = (k - 1) as nat;
                assert(s[s.len() - 1 - k] == front[front.len() - 1 - j]);
                lemma_next_power(j);
                vstd::arithmetic::power::lemma_pow_positive(10, j);
                vstd::arithmetic::div_mod::lemma_div_denominator(
                    n as int,
                    10,
                    vstd::arithmetic::power::pow(10, j),
                );
            }
        }
    } else {
        assert forall|k: nat| k < s.len() implies #[trigger] s[s.len() - 1 - k] as int == 48 + (
        n as int / vstd::arithmetic::power::pow(10, k)) % 10 by {
            assert(k == 0);
        }
    }
}

proof fn lemma_next_power(k: nat)
    ensures
        vstd::arithmetic::power::pow(10, k + 1) == 10 * vstd::arithmetic::power::pow(10, k),
{
    reveal(vstd::arithmetic::power::pow);
}

/// Digits count for their place: what stands in front of other digits is worth ten times more for
/// each of them, and a digit alone is worth what it says.
pub proof fn law_digits_count_for_their_place(s: Seq<char>, t: Seq<char>, c: char)
    ensures
        digits_value(s + t) == digits_value(s) * vstd::arithmetic::power::pow(10, t.len())
            + digits_value(t),
        digits_value(Seq::empty()) == 0,
        '0' <= c && c <= '9' ==> digits_value(seq![c]) == c as int - 48,
    decreases t.len(),
{
    assert(seq![c].drop_last() =~= Seq::<char>::empty());
    assert(digits_value(Seq::<char>::empty()) == 0);
    vstd::arithmetic::power::lemma_pow0(10);
    if t.len() == 0 {
        assert(s + t =~= s);
        assert(digits_value(s) * 1 == digits_value(s));
    } else {
        let before = t.drop_last();
        law_digits_count_for_their_place(s, before, c);
        assert((s + t).drop_last() =~= s + before);
        lemma_next_power(before.len());
        let a = digits_value(s) as int;
        let p = vstd::arithmetic::power::pow(10, before.len());
        assert((a * p) * 10 == a * (10 * p)) by (nonlinear_arith);
    }
}

/// What reads as a number, and as which: one or more digits, with or without one plus sign in
/// front, whose value has room in a `u64`; and nothing else.
pub proof fn law_what_reads_as_a_number(s: Seq<char>, digits: Seq<char>)
    ensures
        parsed(s) matches Some(value) ==> exists|d: Seq<char>|
            {
                &&& d.len() > 0
                &&& s == d || s == seq!['+'] + d
                &&& forall|i: int| 0 <= i < d.len() ==> '0' <= #[trigger] d[i] && d[i] <= '9'
                &&& #[trigger] digits_value(d) == value
            },
        digits.len() > 0 && (forall|i: int|
            0 <= i < digits.len() ==> '0' <= #[trigger] digits[i] && digits[i] <= '9') ==> {
            let value = digits_value(digits);
            &&& value <= u64::MAX ==> parsed(digits) == Some(value as u64)
            &&& value <= u64::MAX ==> parsed(seq!['+'] + digits) == Some(value as u64)
            &&& value > u64::MAX ==> parsed(digits) is None && parsed(seq!['+'] + digits) is None
        },
{
    let body = without_plus(s);
    if parsed(s) is Some {
        if s.len() > 0 && s[0] == '+' {
            assert(s =~= seq!['+'] + body);
        }
        assert(digits_value(body) == parsed(s)->0);
        assert(forall|i: int| 0 <= i < body.len() ==> is_digit(#[trigger] body[i]));
    }
    if digits.len() > 0 && (forall|i: int|
        0 <= i < digits.len() ==> '0' <= #[trigger] digits[i] && digits[i] <= '9') {
        assert((seq!['+'] + digits).drop_first() =~= digits);
        assert(without_plus(digits) == digits);
        assert(without_plus(seq!['+'] + digits) == digits);
        assert(all_digits(digits));
    }
}

/// A text trims to its middle: what is cut off on either side is white space, and what stays
/// neither starts nor ends with any.
pub proof fn law_trimming_keeps_the_middle(s: Seq<char>)
    ensures
        exists|i: int, j: int|
            {
                &&& 0 <= i <= j <= s.len()
                &&& trimmed(s) == #[trigger] s.subrange(i, j)
                &&& forall|k: int| 0 <= k < i || j <= k < s.len() ==> is_white_space(#[trigger] s[k])
                &&& i < j ==> !is_white_space(s[i]) && !is_white_space(s[j - 1])
            },
{
    let i = lemma_start_of_middle(s);
    let tail = s.subrange(i, s.len() as int);
    let n = lemma_end_of_middle(tail);
    let j = i + n;
    assert(tail.subrange(0, n) =~= s.subrange(i, j));
    assert forall|k: int| 0 <= k < i || j <= k < s.len() implies is_white_space(
        #[trigger] s[k],
    ) by {
        if k >= j {
            assert(s[k] == tail[k - i]);
        }
    }
    if i < j {
        assert(s[i] == tail[0]);
        assert(s[j - 1] == tail[n - 1]);
    }
    assert(trimmed(s) == s.subrange(i, j));
}

proof fn lemma_start_of_middle(s: Seq<char>) -> (i: int)
    ensures
        0 <= i <= s.len(),
        trimmed_start(s) == s.subrange(i, s.len() as int),
        forall|k: int| 0 <= k < i ==> is_white_space(#[trigger] s[k]),
        i < s.len() ==> !is_white_space(s[i]),
    decreases s.len(),
{
    if s.len() > 0 && is_white_space(s[0]) {
        let rest = s.drop_first();
        let i = lemma_start_of_middle(rest);
        assert(rest.subrange(i, rest.len() as int) =~= s.subrange(i + 1, s.len() as int));
        assert forall|k: int| 0 <= k < i + 1 implies is_white_space(#[trigger] s[k]) by {
            if k > 0 {
                assert(s[k] == rest[k - 1]);
            }
        }
        i + 1
    } else {
        assert(s.subrange(0, s.len() as int) =~= s);
        0
    }
}

proof fn lemma_end_of_middle(s: Seq<char>) -> (j: int)
    ensures
        0 <= j <= s.len(),
        trimmed_end(s) == s.subrange(0, j),
        forall|k: int| j <= k < s.len() ==> is_white_space(#[trigger] s[k]),
        j > 0 ==> !is_white_space(s[j - 1]),
    decreases s.len(),
{
    if s.len() > 0 && is_white_space(s.last()) {
        let rest = s.drop_last();
        let j = lemma_end_of_middle(rest);
        assert(rest.subrange(0, j) =~= s.subrange(0, j));
        assert forall|k: int| j <= k < s.len() implies is_white_space(#[trigger] s[k]) by {
            if k < rest.len() {
                assert(s[k] == rest[k]);
            }
        }
        j
    } else {
        assert(s.subrange(0, s.len() as int) =~= s);
        s.len() as int
    }
}

/// Whether `text` writes `n`: in decimal digits, with no zero in front that could be left out.
pub open spec fn writes(text: Seq<char>, n: nat) -> bool {
    &&& text.len() > 0
    &&& forall|i: int| 0 <= i < text.len() ==> '0' <= #[trigger] text[i] && text[i] <= '9'
    &&& text.len() > 1 ==> text[0] != '0'
    &&& digits_value(text) == n
}

/// The decimal text of a number writes it, and no other text does.
pub proof fn law_one_text_writes_a_number(text: Seq<char>, n: nat)
    ensures
        writes(text, n) <==> text == decimal(n),
{
    law_decimal_reads_back(n);
    law_decimal_gives_each_digit(n);
    assert(forall|i: int| 0 <= i < decimal(n).len() ==> is_digit(#[trigger] decimal(n)[i]));
    if writes(text, n) {
        lemma_written(text, n);
    }
}

proof fn lemma_written(text: Seq<char>, n: nat)
    requires
        writes(text, n),
    ensures
        text == decimal(n),
        text.len() > 1 ==> n >= 10,
        text[0] != '0' ==> n > 0,
    decreases text.len(),
{
    let front = text.drop_last();
    assert(digits_value(Seq::<char>::empty()) == 0);
    if text.len() == 1 {
        assert(front =~= Seq::<char>::empty());
        assert(text =~= decimal(n));
    } else {
        assert(forall|i: int| 0 <= i < front.len() ==> front[i] == text[i]);
        lemma_written(front, digits_value(front));
        assert('0' <= text[text.len() - 1] && text[text.len() - 1] <= '9');
        assert(digits_value(front) == n / 10);
        assert(text =~= decimal(n));
    }
}

/// White space on either side of a text is cut off, and nothing else is.
pub proof fn law_padding_is_cut_off(before: Seq<char>, middle: Seq<char>, after: Seq<char>)
    requires
        forall|i: int| 0 <= i < before.len() ==> is_white_space(#[trigger] before[i]),
        forall|i: int| 0 <= i < after.len() ==> is_white_space(#[trigger] after[i]),
        middle.len() > 0 ==> !is_white_space(middle[0]) && !is_white_space(middle.last()),
    ensures
        trimmed(before + middle + after) == middle,
{
    assert(before + middle + after =~= before + (middle + after));
    lemma_trimmed_start_drops(before, middle + after);
    if middle.len() > 0 {
        assert((middle + after)[0] == middle[0]);
        lemma_trimmed_end_drops(middle, after);
    } else {
        assert(middle + after =~= after);
        lemma_trimmed_start_drops(after, middle);
        assert(after + middle =~= after);
        assert(trimmed_start(after) =~= middle);
    }
}

/// The white space that is cut off: tab, line feed, vertical tab, form feed, carriage return,
/// space, and the spaces of Unicode; no digit, no sign and no letter.
pub proof fn law_what_is_white_space(c: char)
    ensures
        is_white_space(c) <==> {
            let n = c as int;
            9 <= n <= 13 || n == 32 || n == 133 || n == 160 || n == 5760 || 8192 <= n <= 8202 || n
                == 8232 || n == 8233 || n == 8239 || n == 8287 || n == 12288
        },
{
}

} // verus!
