//! Text as sequences of characters: decimal numbers, trimming, replacing and
//! ordering, each with its meaning as a function on `Seq<char>`.

use vstd::prelude::*;

verus! {

/// `String::push` appends the given character to the end of the string.
pub assume_specification[ String::push ](s: &mut String, c: char)
    ensures
        final(s)@ == old(s)@.push(c),
;

/// The characters of a string, in order.
pub fn chars_of(s: &str) -> (v: Vec<char>)
    ensures
        v@ == s@,
{
    let mut v: Vec<char> = Vec::new();
    for c in it: s.chars()
        invariant
            v@ == it.seq().take(it.index()),
            it.seq() == s@,
    {
        v.push(c);
    }
    v
}

/// The string of the given characters.
pub fn string_of(v: &Vec<char>) -> (s: String)
    ensures
        s@ == v@,
{
    let mut s = String::new();
    for i in 0..v.len()
        invariant
            s@ == v@.take(i as int),
    {
        s.push(v[i]);
        assert(v@.take(i + 1) == v@.take(i as int).push(v@[i as int]));
    }
    s
}

/// Whether two strings hold the same characters.
pub fn same_text(a: &str, b: &str) -> (same: bool)
    ensures
        same == (a@ == b@),
{
    a.to_owned() == b.to_owned()
}

/// One string behind the other.
pub fn join2(a: &str, b: &str) -> (s: String)
    ensures
        s@ == a@ + b@,
{
    let mut s = a.to_owned();
    s.append(b);
    s
}

/// Three strings, one behind the other.
pub fn join3(a: &str, b: &str, c: &str) -> (s: String)
    ensures
        s@ == a@ + b@ + c@,
{
    let mut s = join2(a, b);
    s.append(c);
    s
}

// ---------------------------------------------------------------------------
// Decimal numbers
// ---------------------------------------------------------------------------

/// The decimal digit of a number below ten.
pub open spec fn digit(d: nat) -> char
    recommends
        d < 10,
{
    (48 + d) as char
}

/// A number in decimal, without leading zeros.
pub open spec fn decimal(n: nat) -> Seq<char>
    decreases n,
{
    if n < 10 {
        seq![digit(n)]
    } else {
        decimal(n / 10).push(digit(n % 10))
    }
}

/// The decimal text of a number.
pub fn decimal_text(n: u64) -> (s: String)
    ensures
        s@ == decimal(n as nat),
    decreases n,
{
    let d: u8 = (n % 10) as u8;
    let mut s = if n < 10 {
        String::new()
    } else {
        decimal_text(n / 10)
    };
    s.push((48u8 + d) as char);
    proof {
        if n < 10 {
            assert(s@ =~= seq![digit(n as nat)]);
        }
    }
    s
}

/// Whether a character is one of `0` to `9`.
pub open spec fn is_digit(c: char) -> bool {
    '0' <= c <= '9'
}

/// The number that a sequence of decimal digits stands for.
pub open spec fn number(digits: Seq<char>) -> nat
    decreases digits.len(),
{
    if digits.len() == 0 {
        0
    } else {
        number(digits.drop_last()) * 10 + (digits.last() as nat - 48) as nat
    }
}

/// What is left of a number's text once one leading plus sign is gone.
pub open spec fn unsigned_digits(s: Seq<char>) -> Seq<char> {
    if s.len() > 0 && s[0] == '+' {
        s.skip(1)
    } else {
        s
    }
}

/// The whole number that a text stands for: decimal digits, at least one, behind at
/// most one plus sign.
pub open spec fn whole_number(s: Seq<char>) -> Option<nat> {
    let digits = unsigned_digits(s);
    if digits.len() > 0 && forall|i: int| 0 <= i < digits.len() ==> is_digit(#[trigger] digits[i]) {
        Some(number(digits))
    } else {
        None
    }
}

/// A longer run of digits stands for a number that is no smaller.
proof fn lemma_number_grows(digits: Seq<char>, n: int)
    requires
        0 <= n <= digits.len(),
    ensures
        number(digits.take(n)) <= number(digits),
    decreases digits.len() - n,
{
    if n < digits.len() {
        lemma_number_grows(digits, n + 1);
        assert(digits.take(n + 1).drop_last() =~= digits.take(n));
    } else {
        assert(digits.take(n) =~= digits);
    }
}

/// The whole number that a text stands for, where it is no larger than `max`.
pub fn parse_whole_number(s: &str, max: u64) -> (result: Option<u64>)
    ensures
        result == (match whole_number(s@) {
            Some(n) if n <= max => Some(n as u64),
            _ => None,
        }),
{
    let chars = chars_of(s);
    let start: usize = if chars.len() > 0 && chars[0] == '+' {
        1
    } else {
        0
    };
    let ghost digits = unsigned_digits(s@);
    assert(digits =~= chars@.skip(start as int));
    if start == chars.len() {
        return None;
    }
    let mut value: u64 = 0;
    let mut i: usize = start;
    while i < chars.len()
        invariant
            start <= i <= chars.len(),
            start <= 1,
            chars@ == s@,
            digits == unsigned_digits(s@),
            digits == chars@.skip(start as int),
            digits.len() > 0,
            forall|k: int| 0 <= k < i - start ==> is_digit(#[trigger] digits[k]),
            value == number(digits.take(i - start)),
            value <= max,
        decreases chars.len() - i,
    {
        let c = chars[i];
        assert(digits[i - start] == c);
        if !('0' <= c && c <= '9') {
            assert(!is_digit(digits[i - start]));
            return None;
        }
        let d: u64 = (c as u32 - 48) as u64;
        proof {
            assert(digits.take(i - start + 1).drop_last() =~= digits.take(i - start));
            lemma_number_grows(digits, i - start + 1);
            assert(number(digits.take(i - start + 1)) == value * 10 + d);
        }
        if value > max / 10 || d > max - value * 10 {
            assert(value * 10 + d > max) by {
                if value > max / 10 {
                    assert(value >= max / 10 + 1);
                    assert(10 * value >= 10 * (max / 10) + 10);
                    assert(10 * (max / 10) + 10 > max);
                }
            }
            return None;
        }
        value = value * 10 + d;
        i = i + 1;
    }
    assert(digits.take(chars.len() - start) =~= digits);
    Some(value)
}

// ---------------------------------------------------------------------------
// White space and trimming
// ---------------------------------------------------------------------------

/// The characters with Unicode's `White_Space` property.
pub open spec fn is_space(c: char) -> bool {
    let n = c as int;
    ||| 0x09 <= n <= 0x0d
    ||| n == 0x20
    ||| n == 0x85
    ||| n == 0xa0
    ||| n == 0x1680
    ||| 0x2000 <= n <= 0x200a
    ||| n == 0x2028
    ||| n == 0x2029
    ||| n == 0x202f
    ||| n == 0x205f
    ||| n == 0x3000
}

/// Whether a character is white space.
pub fn is_whitespace(c: char) -> (space: bool)
    ensures
        space == is_space(c),
{
    let n: u32 = c as u32;
    (0x09 <= n && n <= 0x0d) || n == 0x20 || n == 0x85 || n == 0xa0 || n == 0x1680 || (0x2000 <= n
        && n <= 0x200a) || n == 0x2028 || n == 0x2029 || n == 0x202f || n == 0x205f || n == 0x3000
}

/// Whether a character is the given mark or, where none is given, white space.
pub open spec fn is_trimmed(c: char, mark: Option<char>) -> bool {
    match mark {
        Some(m) => c == m,
        None => is_space(c),
    }
}

/// A text without the marks at either end or, where no mark is given, without the white
/// space at either end.
pub open spec fn trim_ends(s: Seq<char>, mark: Option<char>) -> Seq<char>
    decreases s.len(),
{
    if s.len() > 0 && is_trimmed(s.first(), mark) {
        trim_ends(s.skip(1), mark)
    } else if s.len() > 0 && is_trimmed(s.last(), mark) {
        trim_ends(s.drop_last(), mark)
    } else {
        s
    }
}

/// A text without the white space at either end.
pub open spec fn trimmed(s: Seq<char>) -> Seq<char> {
    trim_ends(s, None)
}

/// Whether a text holds nothing but white space.
pub open spec fn is_blank(s: Seq<char>) -> bool {
    forall|i: int| 0 <= i < s.len() ==> is_space(#[trigger] s[i])
}

/// Removes white space, or every `mark` where one is given, from either end.
pub(crate) fn trim_chars(v: &Vec<char>, mark: Option<char>) -> (result: Vec<char>)
    ensures
        result@ == trim_ends(v@, mark),
{
    let mut start: usize = 0;
    let mut end: usize = v.len();
    assert(v@.subrange(0, end as int) =~= v@);
    loop
        invariant
            start <= end <= v.len(),
            trim_ends(v@, mark) == trim_ends(v@.subrange(start as int, end as int), mark),
        ensures
            start <= end <= v.len(),
            trim_ends(v@, mark) == v@.subrange(start as int, end as int),
        decreases end - start,
    {
        let ghost part = v@.subrange(start as int, end as int);
        if start == end {
            break;
        }
        let first_goes = match mark {
            Some(m) => v[start] == m,
            None => is_whitespace(v[start]),
        };
        assert(first_goes == is_trimmed(part.first(), mark));
        if first_goes {
            assert(part.skip(1) =~= v@.subrange(start + 1, end as int));
            start = start + 1;
        } else {
            let last_goes = match mark {
                Some(m) => v[end - 1] == m,
                None => is_whitespace(v[end - 1]),
            };
            assert(last_goes == is_trimmed(part.last(), mark));
            if last_goes {
                assert(part.drop_last() =~= v@.subrange(start as int, end - 1));
                end = end - 1;
            } else {
                break;
            }
        }
    }
    copy_range(v, start, end)
}

/// The characters from `start` up to `end`.
pub(crate) fn copy_range(v: &Vec<char>, start: usize, end: usize) -> (result: Vec<char>)
    requires
        start <= end <= v.len(),
    ensures
        result@ == v@.subrange(start as int, end as int),
{
    let mut result: Vec<char> = Vec::new();
    for i in start..end
        invariant
            start <= i <= end <= v.len(),
            result@ == v@.subrange(start as int, i as int),
    {
        result.push(v[i]);
        assert(v@.subrange(start as int, i + 1) =~= v@.subrange(start as int, i as int).push(
            v@[i as int],
        ));
    }
    result
}

/// Trimming leaves nothing exactly where there is nothing but what it removes.
proof fn lemma_trim_blank(s: Seq<char>)
    ensures
        trimmed(s).len() == 0 <==> is_blank(s),
    decreases s.len(),
{
    if s.len() > 0 && is_space(s.first()) {
        lemma_trim_blank(s.skip(1));
        assert(forall|i: int| 1 <= i < s.len() ==> s[i] == s.skip(1)[i - 1]);
        if is_blank(s.skip(1)) {
            assert forall|i: int| 0 <= i < s.len() implies is_space(#[trigger] s[i]) by {
                if i > 0 {
                    assert(is_space(s.skip(1)[i - 1]));
                }
            }
        }
    } else if s.len() > 0 {
        assert(!is_space(s[0]));
        if is_space(s.last()) {
            lemma_trim_blank(s.drop_last());
            assert(s.drop_last()[0] == s[0]);
        }
    }
}

/// Whether trimming white space off a text leaves nothing.
pub fn is_blank_text(s: &str) -> (blank: bool)
    ensures
        blank == is_blank(s@),
        blank == (trimmed(s@).len() == 0),
{
    proof {
        lemma_trim_blank(s@);
    }
    let chars = chars_of(s);
    for i in 0..chars.len()
        invariant
            chars@ == s@,
            forall|k: int| 0 <= k < i ==> is_space(#[trigger] s@[k]),
    {
        if !is_whitespace(chars[i]) {
            assert(!is_space(s@[i as int]));
            proof {
                lemma_trim_blank(s@);
            }
            return false;
        }
    }
    true
}

// ---------------------------------------------------------------------------
// Prefixes, suffixes and replacing
// ---------------------------------------------------------------------------

/// Whether a text begins with another.
pub open spec fn begins_with(s: Seq<char>, prefix: Seq<char>) -> bool {
    prefix.len() <= s.len() && s.take(prefix.len() as int) == prefix
}

/// Whether a text ends with another.
pub open spec fn finishes_with(s: Seq<char>, suffix: Seq<char>) -> bool {
    suffix.len() <= s.len() && s.skip(s.len() - suffix.len()) == suffix
}

/// A text without the given suffix, where it has it.
pub open spec fn without_suffix(s: Seq<char>, suffix: Seq<char>) -> Seq<char> {
    if finishes_with(s, suffix) {
        s.take(s.len() - suffix.len())
    } else {
        s
    }
}

/// Every occurrence of `from`, taken from the left without overlap, becomes `to`.
pub open spec fn replaced(s: Seq<char>, from: Seq<char>, to: Seq<char>) -> Seq<char>
    decreases s.len(),
{
    if s.len() == 0 || from.len() == 0 {
        s
    } else if begins_with(s, from) {
        to + replaced(s.skip(from.len() as int), from, to)
    } else {
        seq![s[0]] + replaced(s.skip(1), from, to)
    }
}

/// Whether `part` stands in `v` at position `at`.
pub(crate) fn stands_at(v: &Vec<char>, at: usize, part: &Vec<char>) -> (yes: bool)
    requires
        at <= v.len(),
    ensures
        yes == begins_with(v@.skip(at as int), part@),
{
    if part.len() > v.len() - at {
        return false;
    }
    let ghost rest = v@.skip(at as int);
    for i in 0..part.len()
        invariant
            at <= v.len(),
            part.len() <= v.len() - at,
            rest == v@.skip(at as int),
            forall|k: int| 0 <= k < i ==> rest[k] == #[trigger] part@[k],
    {
        if v[at + i] != part[i] {
            assert(rest.take(part@.len() as int)[i as int] != part@[i as int]);
            return false;
        }
    }
    assert(rest.take(part@.len() as int) =~= part@);
    true
}

/// Replaces every occurrence of `from` by `to`.
pub(crate) fn replace_chars(v: &Vec<char>, from: &Vec<char>, to: &Vec<char>) -> (result: Vec<char>)
    requires
        from.len() > 0,
    ensures
        result@ == replaced(v@, from@, to@),
{
    let mut result: Vec<char> = Vec::new();
    let mut i: usize = 0;
    assert(v@.skip(0) =~= v@);
    assert(result@ + replaced(v@, from@, to@) =~= replaced(v@, from@, to@));
    while i < v.len()
        invariant
            i <= v.len(),
            from.len() > 0,
            replaced(v@, from@, to@) == result@ + replaced(v@.skip(i as int), from@, to@),
        decreases v.len() - i,
    {
        let ghost rest = v@.skip(i as int);
        let ghost before = result@;
        if stands_at(v, i, from) {
            for k in 0..to.len()
                invariant
                    result@ == before + to@.take(k as int),
            {
                result.push(to[k]);
                assert(to@.take(k + 1) =~= to@.take(k as int).push(to@[k as int]));
                assert(result@ =~= before + to@.take(k + 1));
            }
            assert(to@.take(to@.len() as int) =~= to@);
            assert(rest.skip(from@.len() as int) =~= v@.skip(i + from@.len()));
            assert(before + (to@ + replaced(rest.skip(from@.len() as int), from@, to@)) =~= result@
                + replaced(rest.skip(from@.len() as int), from@, to@));
            i = i + from.len();
        } else {
            result.push(v[i]);
            assert(rest.skip(1) =~= v@.skip(i + 1));
            assert(before + (seq![rest[0]] + replaced(rest.skip(1), from@, to@)) =~= result@
                + replaced(rest.skip(1), from@, to@));
            i = i + 1;
        }
    }
    assert(result@ + replaced(v@.skip(v@.len() as int), from@, to@) =~= result@);
    result
}

/// Removes a suffix, where it is there.
pub(crate) fn drop_suffix(v: Vec<char>, suffix: &Vec<char>) -> (result: Vec<char>)
    ensures
        result@ == without_suffix(v@, suffix@),
{
    if suffix.len() > v.len() {
        return v;
    }
    let cut: usize = v.len() - suffix.len();
    if stands_at(&v, cut, suffix) {
        assert(v@.skip(cut as int).take(suffix@.len() as int) =~= v@.skip(cut as int));
        assert(v@.take(cut as int) =~= v@.subrange(0, cut as int));
        copy_range(&v, 0, cut)
    } else {
        assert(v@.skip(cut as int).take(suffix@.len() as int) =~= v@.skip(cut as int));
        v
    }
}

// ---------------------------------------------------------------------------
// Words
// ---------------------------------------------------------------------------

/// How many characters stand before the first white space.
pub open spec fn word_len(s: Seq<char>) -> nat
    decreases s.len(),
{
    if s.len() == 0 || is_space(s[0]) {
        0
    } else {
        1 + word_len(s.skip(1))
    }
}

/// The words of a text: what stands between its white space.
pub open spec fn words(s: Seq<char>) -> Seq<Seq<char>>
    decreases s.len(),
    via words_decreases
{
    if s.len() == 0 {
        Seq::empty()
    } else if is_space(s[0]) {
        words(s.skip(1))
    } else {
        seq![s.take(word_len(s) as int)] + words(s.skip(word_len(s) as int))
    }
}

#[via_fn]
proof fn words_decreases(s: Seq<char>) {
    lemma_word_len(s);
}

proof fn lemma_word_len(s: Seq<char>)
    ensures
        word_len(s) <= s.len(),
        s.len() > 0 && !is_space(s[0]) ==> word_len(s) > 0,
    decreases s.len(),
{
    if s.len() > 0 {
        lemma_word_len(s.skip(1));
    }
}

/// Texts one behind the other, with a separator between each two.
pub open spec fn joined(parts: Seq<Seq<char>>, separator: Seq<char>) -> Seq<char>
    decreases parts.len(),
{
    if parts.len() == 0 {
        Seq::empty()
    } else if parts.len() == 1 {
        parts[0]
    } else {
        joined(parts.drop_last(), separator) + separator + parts.last()
    }
}

/// The words of a text with one space between each two.
pub open spec fn single_spaced(s: Seq<char>) -> Seq<char> {
    joined(words(s), seq![' '])
}

/// Puts one space between each two words and none at either end.
pub(crate) fn single_space(v: &Vec<char>) -> (result: Vec<char>)
    ensures
        result@ == single_spaced(v@),
{
    let mut result: Vec<char> = Vec::new();
    let ghost mut done: Seq<Seq<char>> = Seq::empty();
    let mut i: usize = 0;
    let mut any = false;
    assert(v@.skip(0) =~= v@);
    assert(done + words(v@) =~= words(v@));
    while i < v.len()
        invariant
            i <= v.len(),
            words(v@) == done + words(v@.skip(i as int)),
            result@ == joined(done, seq![' ']),
            any == (done.len() > 0),
        decreases v.len() - i,
    {
        let ghost rest = v@.skip(i as int);
        if is_whitespace(v[i]) {
            assert(rest.skip(1) =~= v@.skip(i + 1));
            i = i + 1;
        } else {
            let start: usize = i;
            if any {
                result.push(' ');
            }
            let ghost lead = result@;
            while i < v.len() && !is_whitespace(v[i])
                invariant
                    start <= i <= v.len(),
                    rest == v@.skip(start as int),
                    result@ == lead + v@.subrange(start as int, i as int),
                    word_len(rest) == (i - start) + word_len(v@.skip(i as int)),
                decreases v.len() - i,
            {
                assert(v@.skip(i as int).skip(1) =~= v@.skip(i + 1));
                result.push(v[i]);
                assert(v@.subrange(start as int, i + 1) =~= v@.subrange(
                    start as int,
                    i as int,
                ).push(v@[i as int]));
                assert(result@ =~= lead + v@.subrange(start as int, i + 1));
                i = i + 1;
            }
            proof {
                let word = rest.take(i - start);
                assert(word_len(rest) == i - start);
                assert(word =~= v@.subrange(start as int, i as int));
                assert(rest.skip(i - start) =~= v@.skip(i as int));
                assert(done.push(word).drop_last() =~= done);
                assert(done + (seq![word] + words(v@.skip(i as int))) =~= done.push(word) + words(
                    v@.skip(i as int),
                ));
                assert(result@ =~= joined(done.push(word), seq![' ']));
                done = done.push(word);
            }
            any = true;
        }
    }
    assert(done + words(v@.skip(v@.len() as int)) =~= done);
    result
}

// ---------------------------------------------------------------------------
// Lower case
// ---------------------------------------------------------------------------

/// What `str::to_lowercase` returns.
pub uninterp spec fn lowercase(s: Seq<char>) -> Seq<char>;

/// Calls `str::to_lowercase`, the lower case of a text by Unicode's rules. The result
/// depends on the text alone; what it is, is not stated.
#[verifier::external_body]
pub(crate) fn lowercase_text(s: &str) -> (lower: String)
    ensures
        lower@ == lowercase(s@),
{
    s.to_lowercase()
}

// ---------------------------------------------------------------------------
// Laws
// ---------------------------------------------------------------------------

proof fn lemma_decimal(n: nat)
    ensures
        decimal(n).len() > 0,
        number(decimal(n)) == n,
        forall|i: int| 0 <= i < decimal(n).len() ==> '0' <= #[trigger] decimal(n)[i] <= '9',
        n > 0 ==> decimal(n)[0] != '0',
    decreases n,
{
    reveal_with_fuel(number, 2);
    if n < 10 {
        assert(decimal(n).drop_last() =~= Seq::<char>::empty());
    } else {
        lemma_decimal(n / 10);
        let d = decimal(n / 10).push(digit(n % 10));
        assert(d.drop_last() =~= decimal(n / 10));
        assert(d.last() == digit(n % 10));
        assert(number(d) == number(decimal(n / 10)) * 10 + n % 10);
        assert(d[0] == decimal(n / 10)[0]);
    }
}

/// Digits count by tens: a digit behind others makes the number ten times as large and adds
/// itself.
pub proof fn digits_count_by_tens(digits: Seq<char>, c: char)
    requires
        '0' <= c <= '9',
    ensures
        number(Seq::<char>::empty()) == 0,
        number(digits.push(c)) == 10 * number(digits) + (c as int - '0' as int),
{
    assert(digits.push(c).drop_last() =~= digits);
}

/// The text of a number is made of digits, has no zero in front but for zero itself, and
/// reads back as the number, with or without a plus sign.
pub proof fn numbers_read_back(n: nat)
    ensures
        whole_number(decimal(n)) == Some(n),
        whole_number(seq!['+'] + decimal(n)) == Some(n),
        forall|i: int| 0 <= i < decimal(n).len() ==> '0' <= #[trigger] decimal(n)[i] <= '9',
        decimal(n).len() > 0,
        decimal(n).len() > 1 ==> decimal(n)[0] != '0',
{
    lemma_decimal(n);
    let d = decimal(n);
    assert(d[0] != '+');
    assert((seq!['+'] + d).skip(1) =~= d);
    assert forall|i: int| 0 <= i < d.len() implies is_digit(#[trigger] d[i]) by {}
}

/// A text is a number exactly where it consists of digits, at least one, behind at most one
/// plus sign.
pub proof fn only_digits_are_numbers(s: Seq<char>)
    ensures
        whole_number(s) is Some <==> {
            &&& s.len() > 0
            &&& '0' <= s[0] <= '9' || s[0] == '+' && s.len() > 1
            &&& forall|i: int| 1 <= i < s.len() ==> '0' <= #[trigger] s[i] <= '9'
        },
{
    let d = unsigned_digits(s);
    if whole_number(s) is Some {
        assert forall|i: int| 1 <= i < s.len() implies '0' <= #[trigger] s[i] <= '9' by {
            if s[0] == '+' {
                assert(is_digit(d[i - 1]));
            } else {
                assert(is_digit(d[i]));
            }
        }
        assert(is_digit(d[0]));
    }
    if s.len() > 0 && ('0' <= s[0] <= '9' || s[0] == '+' && s.len() > 1) && (forall|i: int|
        1 <= i < s.len() ==> '0' <= #[trigger] s[i] <= '9') {
        assert forall|i: int| 0 <= i < d.len() implies is_digit(#[trigger] d[i]) by {
            if s[0] == '+' {
                assert('0' <= s[i + 1] <= '9');
            } else if i > 0 {
                assert('0' <= s[i] <= '9');
            }
        }
    }
}

/// Zeros in front of a number change nothing.
pub proof fn leading_zeros_change_nothing(digits: Seq<char>)
    ensures
        number(seq!['0'] + digits) == number(digits),
    decreases digits.len(),
{
    let longer = seq!['0'] + digits;
    reveal_with_fuel(number, 2);
    if digits.len() == 0 {
        assert(longer =~= seq!['0']);
        assert(seq!['0'].drop_last() =~= Seq::<char>::empty());
    } else {
        leading_zeros_change_nothing(digits.drop_last());
        assert(longer.drop_last() =~= seq!['0'] + digits.drop_last());
    }
}

/// What trimming takes off is the given mark or, where none is given, white space.
pub proof fn a_mark_or_white_space_is_trimmed(c: char, mark: char)
    ensures
        is_trimmed(c, Some(mark)) <==> c == mark,
        is_trimmed(c, None) <==> is_space(c),
{
}

/// Trimming takes something off the ends only: what is left stands in the text between two
/// places, all before and behind it goes, and neither of its own ends does.
pub proof fn trimming_takes_the_ends_only(s: Seq<char>, mark: Option<char>) -> (ends: (int, int))
    ensures
        0 <= ends.0 <= ends.1 <= s.len(),
        trim_ends(s, mark) == s.subrange(ends.0, ends.1),
        forall|k: int|
            0 <= k < ends.0 || ends.1 <= k < s.len() ==> is_trimmed(#[trigger] s[k], mark),
        ends.0 < ends.1 ==> !is_trimmed(s[ends.0], mark) && !is_trimmed(s[ends.1 - 1], mark),
    decreases s.len(),
{
    if s.len() > 0 && is_trimmed(s.first(), mark) {
        let rest = s.skip(1);
        let (a, b) = trimming_takes_the_ends_only(rest, mark);
        assert(rest.subrange(a, b) =~= s.subrange(a + 1, b + 1));
        assert forall|k: int| 0 <= k < a + 1 || b + 1 <= k < s.len() implies is_trimmed(
            #[trigger] s[k],
            mark,
        ) by {
            if k > 0 {
                assert(s[k] == rest[k - 1]);
            }
        }
        (a + 1, b + 1)
    } else if s.len() > 0 && is_trimmed(s.last(), mark) {
        let rest = s.drop_last();
        let (a, b) = trimming_takes_the_ends_only(rest, mark);
        assert(rest.subrange(a, b) =~= s.subrange(a, b));
        assert forall|k: int| 0 <= k < a || b <= k < s.len() implies is_trimmed(
            #[trigger] s[k],
            mark,
        ) by {
            if k < rest.len() {
                assert(s[k] == rest[k]);
            }
        }
        (a, b)
    } else {
        assert(s.subrange(0, s.len() as int) =~= s);
        (0, s.len() as int)
    }
}

/// What trimming takes off does not matter where it stands around a text.
pub proof fn trimming_forgets_what_is_around(
    before: Seq<char>,
    s: Seq<char>,
    after: Seq<char>,
    mark: Option<char>,
)
    requires
        forall|i: int| 0 <= i < before.len() ==> is_trimmed(#[trigger] before[i], mark),
        forall|i: int| 0 <= i < after.len() ==> is_trimmed(#[trigger] after[i], mark),
    ensures
        trim_ends(before + s + after, mark) == trim_ends(s, mark),
    decreases before.len() + s.len() + after.len(),
{
    let all = before + s + after;
    if before.len() > 0 {
        assert(is_trimmed(before[0], mark));
        assert(all.first() == before[0]);
        assert(all.skip(1) =~= before.skip(1) + s + after);
        trimming_forgets_what_is_around(before.skip(1), s, after, mark);
    } else if s.len() > 0 && is_trimmed(s.first(), mark) {
        assert(all.first() == s.first());
        assert(all.skip(1) =~= before + s.skip(1) + after);
        trimming_forgets_what_is_around(before, s.skip(1), after, mark);
    } else if after.len() > 0 {
        assert(is_trimmed(after[after.len() - 1], mark));
        assert(all.last() == after.last());
        assert(all.drop_last() =~= before + s + after.drop_last());
        trimming_forgets_what_is_around(before, s, after.drop_last(), mark);
        if s.len() == 0 {
            assert(all.first() == after[0]);
            assert(all.skip(1) =~= before + s + after.skip(1));
            trimming_forgets_what_is_around(before, s, after.skip(1), mark);
        }
    } else {
        assert(all =~= s);
    }
}

/// Nothing is left of a text exactly where it holds nothing but white space.
pub proof fn blank_texts_trim_to_nothing(s: Seq<char>)
    ensures
        trimmed(s).len() == 0 <==> forall|i: int| 0 <= i < s.len() ==> is_space(#[trigger] s[i]),
{
    lemma_trim_blank(s);
}

/// A suffix is taken off where it is there, once, and nothing else is.
pub proof fn a_suffix_is_taken_off_once(s: Seq<char>, suffix: Seq<char>)
    ensures
        without_suffix(s + suffix, suffix) == s,
        without_suffix(s, suffix) == s || without_suffix(s, suffix) + suffix == s,
{
    let all = s + suffix;
    assert(all.skip(all.len() - suffix.len()) =~= suffix);
    assert(all.take(all.len() - suffix.len()) =~= s);
    if finishes_with(s, suffix) {
        let cut = s.len() - suffix.len();
        assert(s.take(cut) + s.skip(cut) =~= s);
    }
}

/// Whether a text stands in another at a place.
pub open spec fn occurs_at(s: Seq<char>, part: Seq<char>, at: int) -> bool {
    0 <= at && at + part.len() <= s.len() && s.subrange(at, at + part.len()) == part
}

proof fn lemma_begins(s: Seq<char>, part: Seq<char>)
    ensures
        begins_with(s, part) == occurs_at(s, part, 0),
{
    if part.len() <= s.len() {
        assert(s.take(part.len() as int) =~= s.subrange(0, part.len() as int));
    }
}

proof fn lemma_occurs_in_rest(s: Seq<char>, part: Seq<char>, from: int, at: int)
    requires
        0 <= from <= s.len(),
        0 <= at,
    ensures
        occurs_at(s.skip(from), part, at) == occurs_at(s, part, from + at),
{
    if from + at + part.len() <= s.len() {
        assert(s.skip(from).subrange(at, at + part.len()) =~= s.subrange(
            from + at,
            from + at + part.len(),
        ));
    }
}

/// Replacing leaves a text alone up to the first place where what is replaced stands.
pub proof fn replacing_leaves_the_rest_alone(
    s: Seq<char>,
    from: Seq<char>,
    to: Seq<char>,
    upto: int,
)
    requires
        from.len() > 0,
        0 <= upto <= s.len(),
        forall|k: int| 0 <= k < upto ==> !#[trigger] occurs_at(s, from, k),
    ensures
        replaced(s, from, to) == s.take(upto) + replaced(s.skip(upto), from, to),
    decreases upto,
{
    if upto == 0 {
        assert(s.skip(0) =~= s);
        assert(s.take(0) + replaced(s, from, to) =~= replaced(s, from, to));
    } else {
        let rest = s.skip(1);
        lemma_begins(s, from);
        assert(!occurs_at(s, from, 0));
        assert forall|k: int| 0 <= k < upto - 1 implies !#[trigger] occurs_at(rest, from, k) by {
            lemma_occurs_in_rest(s, from, 1, k);
            assert(!occurs_at(s, from, k + 1));
        }
        replacing_leaves_the_rest_alone(rest, from, to, upto - 1);
        assert(rest.skip(upto - 1) =~= s.skip(upto));
        assert(seq![s[0]] + (rest.take(upto - 1) + replaced(s.skip(upto), from, to)) =~= s.take(
            upto,
        ) + replaced(s.skip(upto), from, to));
    }
}

/// Replacing changes nothing where there is nothing to replace.
pub proof fn nothing_to_replace(s: Seq<char>, from: Seq<char>, to: Seq<char>)
    requires
        from.len() > 0,
        forall|k: int| !#[trigger] occurs_at(s, from, k),
    ensures
        replaced(s, from, to) == s,
{
    replacing_leaves_the_rest_alone(s, from, to, s.len() as int);
    assert(s.skip(s.len() as int) =~= Seq::<char>::empty());
    assert(s.take(s.len() as int) + Seq::<char>::empty() =~= s);
}

/// The first place where what is replaced stands gets the replacement; what is before it
/// stays, and replacing goes on behind it.
pub proof fn the_first_occurrence_is_replaced(
    s: Seq<char>,
    from: Seq<char>,
    to: Seq<char>,
    at: int,
)
    requires
        from.len() > 0,
        occurs_at(s, from, at),
        forall|k: int| 0 <= k < at ==> !#[trigger] occurs_at(s, from, k),
    ensures
        replaced(s, from, to) == s.take(at) + to + replaced(s.skip(at + from.len()), from, to),
{
    replacing_leaves_the_rest_alone(s, from, to, at);
    let rest = s.skip(at);
    lemma_occurs_in_rest(s, from, at, 0);
    lemma_begins(rest, from);
    assert(rest.skip(from.len() as int) =~= s.skip(at + from.len()));
    let tail = replaced(s.skip(at + from.len()), from, to);
    assert(s.take(at) + (to + tail) =~= s.take(at) + to + tail);
}

proof fn lemma_word_len_before(a: Seq<char>, c: char, b: Seq<char>)
    requires
        is_space(c),
    ensures
        word_len(a + seq![c] + b) == word_len(a),
    decreases a.len(),
{
    let all = a + seq![c] + b;
    if a.len() > 0 {
        assert(all[0] == a[0]);
        assert(all.skip(1) =~= a.skip(1) + seq![c] + b);
        lemma_word_len_before(a.skip(1), c, b);
    } else {
        assert(all[0] == c);
    }
}

proof fn lemma_words_concat(a: Seq<char>, c: char, b: Seq<char>)
    requires
        is_space(c),
    ensures
        words(a + seq![c] + b) == words(a) + words(b),
    decreases a.len(),
{
    let all = a + seq![c] + b;
    if a.len() == 0 {
        assert(all[0] == c);
        assert(all.skip(1) =~= b);
        assert(words(a) + words(b) =~= words(b));
    } else if is_space(a[0]) {
        assert(all[0] == a[0]);
        assert(all.skip(1) =~= a.skip(1) + seq![c] + b);
        lemma_words_concat(a.skip(1), c, b);
    } else {
        let n = word_len(a) as int;
        lemma_word_len_before(a, c, b);
        lemma_word_len(a);
        assert(all[0] == a[0]);
        assert(all.take(n) =~= a.take(n));
        assert(all.skip(n) =~= a.skip(n) + seq![c] + b);
        lemma_words_concat(a.skip(n), c, b);
        assert(seq![a.take(n)] + (words(a.skip(n)) + words(b)) =~= seq![a.take(n)] + words(
            a.skip(n),
        ) + words(b));
    }
}

proof fn lemma_words_blank(s: Seq<char>)
    ensures
        words(s).len() == 0 <==> is_blank(s),
    decreases s.len(),
{
    if s.len() > 0 {
        if is_space(s[0]) {
            lemma_words_blank(s.skip(1));
            assert(forall|i: int| 1 <= i < s.len() ==> s[i] == s.skip(1)[i - 1]);
            if is_blank(s.skip(1)) {
                assert forall|i: int| 0 <= i < s.len() implies is_space(#[trigger] s[i]) by {
                    if i > 0 {
                        assert(is_space(s.skip(1)[i - 1]));
                    }
                }
            }
        } else {
            assert(!is_space(s[0]));
        }
    }
}

proof fn lemma_joined_concat(a: Seq<Seq<char>>, b: Seq<Seq<char>>, separator: Seq<char>)
    requires
        a.len() > 0,
        b.len() > 0,
    ensures
        joined(a + b, separator) == joined(a, separator) + separator + joined(b, separator),
    decreases b.len(),
{
    let all = a + b;
    assert(all.last() == b.last());
    if b.len() == 1 {
        assert(all.drop_last() =~= a);
    } else {
        assert(all.drop_last() =~= a + b.drop_last());
        lemma_joined_concat(a, b.drop_last(), separator);
        assert(joined(a, separator) + separator + joined(b.drop_last(), separator) + separator
            + b.last() =~= joined(a, separator) + separator + (joined(b.drop_last(), separator)
            + separator + b.last()));
    }
}

/// Wherever there is white space between two words, one space stands there, however much it
/// was; at the ends there is none.
pub proof fn one_space_stands_between_words(a: Seq<char>, c: char, b: Seq<char>)
    requires
        is_space(c),
    ensures
        single_spaced(a + seq![c] + b) == (if is_blank(a) {
            single_spaced(b)
        } else if is_blank(b) {
            single_spaced(a)
        } else {
            single_spaced(a) + seq![' '] + single_spaced(b)
        }),
{
    lemma_words_concat(a, c, b);
    lemma_words_blank(a);
    lemma_words_blank(b);
    if is_blank(a) {
        assert(words(a) + words(b) =~= words(b));
    } else if is_blank(b) {
        assert(words(a) + words(b) =~= words(a));
    } else {
        lemma_joined_concat(words(a), words(b), seq![' ']);
    }
}

proof fn lemma_whole_word(s: Seq<char>)
    requires
        forall|i: int| 0 <= i < s.len() ==> !is_space(#[trigger] s[i]),
    ensures
        word_len(s) == s.len(),
    decreases s.len(),
{
    if s.len() > 0 {
        assert(!is_space(s[0]));
        assert forall|i: int| 0 <= i < s.skip(1).len() implies !is_space(
            #[trigger] s.skip(1)[i],
        ) by {
            assert(s.skip(1)[i] == s[i + 1]);
        }
        lemma_whole_word(s.skip(1));
    }
}

/// A text without white space stays as it is, an empty one too.
pub proof fn a_single_word_is_left_alone(s: Seq<char>)
    requires
        forall|i: int| 0 <= i < s.len() ==> !is_space(#[trigger] s[i]),
    ensures
        single_spaced(s) == s,
{
    lemma_whole_word(s);
    if s.len() > 0 {
        assert(!is_space(s[0]));
        let n = s.len() as int;
        assert(s.skip(n) =~= Seq::<char>::empty());
        assert(s.take(n) =~= s);
        reveal_with_fuel(words, 2);
        assert(words(s) =~= seq![s]);
    }
}

} // verus!
