//! Text helpers: the operations on strings that the other modules share, each
//! stated over the sequence of characters that a string holds.

use vstd::prelude::*;

verus! {

/// `String::push` of std. Claimed is that it appends the character to the end of
/// the string and changes nothing else.
pub assume_specification[ String::push ](s: &mut String, c: char)
    ensures
        final(s)@ == old(s)@.push(c),
;

/// The characters of `s`, in order.
pub fn chars_of(s: &str) -> (res: Vec<char>)
    ensures
        res@ == s@,
{
    let mut res: Vec<char> = Vec::new();
    for c in it: s.chars()
        invariant
            res@ == it.seq().take(it.index() as int),
            it.seq() == s@,
    {
        res.push(c);
    }
    assert(s@.take(s@.len() as int) == s@);
    res
}

/// The string that holds `chars[from..to]`.
pub fn string_of(chars: &Vec<char>, from: usize, to: usize) -> (res: String)
    requires
        from <= to <= chars@.len(),
    ensures
        res@ == chars@.subrange(from as int, to as int),
{
    let mut res = String::new();
    let mut i: usize = from;
    while i < to
        invariant
            from <= i <= to <= chars@.len(),
            res@ == chars@.subrange(from as int, i as int),
        decreases to - i,
    {
        res.push(chars[i]);
        i = i + 1;
    }
    res
}

/// Whether two strings hold the same characters.
pub fn same_text(a: &str, b: &str) -> (res: bool)
    ensures
        res == (a@ == b@),
{
    a.to_owned() == b.to_owned()
}

/// Whether `s` begins with `prefix`.
pub fn starts_with(s: &str, prefix: &str) -> (res: bool)
    ensures
        res == prefix@.is_prefix_of(s@),
{
    let text = chars_of(s);
    let head = chars_of(prefix);
    if head.len() > text.len() {
        return false;
    }
    let mut i: usize = 0;
    while i < head.len()
        invariant
            i <= head@.len() <= text@.len(),
            text@ == s@,
            head@ == prefix@,
            forall|j: int| 0 <= j < i ==> text@[j] == head@[j],
        decreases head@.len() - i,
    {
        if text[i] != head[i] {
            assert(s@.subrange(0, prefix@.len() as int)[i as int] != prefix@[i as int]);
            return false;
        }
        i = i + 1;
    }
    assert(s@.subrange(0, prefix@.len() as int) =~= prefix@);
    true
}

/// What follows `prefix` in `s`, if `s` begins with it.
pub fn strip_prefix(s: &str, prefix: &str) -> (res: Option<String>)
    ensures
        match res {
            Some(rest) => prefix@.is_prefix_of(s@) && rest@ == s@.skip(prefix@.len() as int),
            None => !prefix@.is_prefix_of(s@),
        },
{
    if starts_with(s, prefix) {
        let text = chars_of(s);
        let head = chars_of(prefix);
        let rest = string_of(&text, head.len(), text.len());
        assert(rest@ =~= s@.skip(prefix@.len() as int));
        Some(rest)
    } else {
        None
    }
}

/// The characters with the Unicode `White_Space` property.
pub open spec fn white_space(c: char) -> bool {
    let u = c as int;
    ||| 0x09 <= u <= 0x0d
    ||| u == 0x20
    ||| u == 0x85
    ||| u == 0xa0
    ||| u == 0x1680
    ||| 0x2000 <= u <= 0x200a
    ||| u == 0x2028
    ||| u == 0x2029
    ||| u == 0x202f
    ||| u == 0x205f
    ||| u == 0x3000
}

/// A text of white space only, the empty text included.
pub open spec fn blank(s: Seq<char>) -> bool {
    forall|i: int| 0 <= i < s.len() ==> white_space(#[trigger] s[i])
}

/// Whether the character has the Unicode `White_Space` property.
pub fn is_white_space(c: char) -> (res: bool)
    ensures
        res == white_space(c),
{
    let u: u32 = c as u32;
    (0x09 <= u && u <= 0x0d) || u == 0x20 || u == 0x85 || u == 0xa0 || u == 0x1680 || (0x2000 <= u
        && u <= 0x200a) || u == 0x2028 || u == 0x2029 || u == 0x202f || u == 0x205f || u == 0x3000
}

/// Whether nothing is left of `s` once white space is trimmed from it.
pub fn is_blank(s: &str) -> (res: bool)
    ensures
        res == blank(s@),
{
    let text = chars_of(s);
    let mut i: usize = 0;
    while i < text.len()
        invariant
            i <= text@.len(),
            text@ == s@,
            forall|j: int| 0 <= j < i ==> white_space(#[trigger] s@[j]),
        decreases text@.len() - i,
    {
        if !is_white_space(text[i]) {
            assert(!white_space(s@[i as int]));
            return false;
        }
        i = i + 1;
    }
    true
}

/// `s` without the slashes that it ends in.
pub open spec fn without_end_slashes(s: Seq<char>) -> Seq<char>
    decreases s.len(),
{
    if s.len() > 0 && s.last() == '/' {
        without_end_slashes(s.drop_last())
    } else {
        s
    }
}

/// Drops every slash that `s` ends in.
pub fn trim_end_slashes(s: &str) -> (res: String)
    ensures
        res@ == without_end_slashes(s@),
{
    let text = chars_of(s);
    let mut end: usize = text.len();
    assert(s@.take(s@.len() as int) =~= s@);
    while end > 0 && text[end - 1] == '/'
        invariant
            end <= text@.len(),
            text@ == s@,
            without_end_slashes(s@) == without_end_slashes(s@.take(end as int)),
        decreases end,
    {
        assert(s@.take(end as int).drop_last() =~= s@.take(end - 1));
        end = end - 1;
    }
    let res = string_of(&text, 0, end);
    assert(res@ =~= s@.take(end as int));
    res
}

/// How much of a reply's text an error message quotes, in characters.
pub const PREVIEW_CHARS: usize = 200;

/// The first [`PREVIEW_CHARS`] characters of `s`, or all of it if it is shorter.
pub open spec fn preview_of(s: Seq<char>) -> Seq<char> {
    if s.len() <= PREVIEW_CHARS {
        s
    } else {
        s.take(PREVIEW_CHARS as int)
    }
}

/// The part of a reply's text that an error message quotes.
pub fn preview(s: &str) -> (res: String)
    ensures
        res@ == preview_of(s@),
{
    let text = chars_of(s);
    let end: usize = if text.len() <= PREVIEW_CHARS { text.len() } else { PREVIEW_CHARS };
    let res = string_of(&text, 0, end);
    assert(res@ =~= preview_of(s@));
    res
}

/// The character of a decimal digit.
pub open spec fn digit_char(d: nat) -> char {
    ('0' as nat + d) as char
}

/// The decimal digits of `n`, without leading zeros.
pub open spec fn decimal(n: nat) -> Seq<char>
    decreases n,
{
    if n < 10 {
        seq![digit_char(n)]
    } else {
        decimal(n / 10).push(digit_char(n % 10))
    }
}

/// A text made of the digits `0` to `9` only.
pub open spec fn all_digits(s: Seq<char>) -> bool {
    forall|i: int| 0 <= i < s.len() ==> '0' <= #[trigger] s[i] <= '9'
}

/// The number that a text of digits stands for.
pub open spec fn decimal_value(s: Seq<char>) -> nat
    decreases s.len(),
{
    if s.len() == 0 {
        0
    } else {
        decimal_value(s.drop_last()) * 10 + (s.last() as nat - '0' as nat) as nat
    }
}

/// The digit of a number below ten, as a character.
fn digit(d: u64) -> (c: char)
    requires
        d < 10,
    ensures
        c == digit_char(d as nat),
{
    let code: u8 = 48 + d as u8;
    code as char
}

/// Writes `n` in decimal.
pub fn decimal_text(n: u64) -> (res: String)
    ensures
        res@ == decimal(n as nat),
    decreases n,
{
    if n < 10 {
        let mut res = String::new();
        res.push(digit(n));
        assert(res@ =~= decimal(n as nat));
        res
    } else {
        let mut res = decimal_text(n / 10);
        res.push(digit(n % 10));
        res
    }
}

/// The digits of an unsigned number's text: what follows its optional plus sign.
pub open spec fn unsigned_digits(s: Seq<char>) -> Seq<char> {
    if s.len() > 0 && s[0] == '+' {
        s.skip(1)
    } else {
        s
    }
}

/// The index that a text stands for: an optional plus sign, then one digit or
/// more, and a value that fits the machine's `usize`.
pub open spec fn index_value(s: Seq<char>) -> Option<usize> {
    let digits = unsigned_digits(s);
    if digits.len() > 0 && all_digits(digits) && decimal_value(digits) <= usize::MAX {
        Some(decimal_value(digits) as usize)
    } else {
        None
    }
}

proof fn lemma_decimal_value_grows(s: Seq<char>, n: int)
    requires
        0 <= n <= s.len(),
    ensures
        decimal_value(s.take(n)) <= decimal_value(s),
    decreases s.len(),
{
    if n == s.len() {
        assert(s.take(n) =~= s);
    } else {
        assert(s.drop_last().take(n) =~= s.take(n));
        lemma_decimal_value_grows(s.drop_last(), n);
    }
}

/// Reads an index written in decimal.
pub fn parse_index(s: &str) -> (res: Option<usize>)
    ensures
        res == index_value(s@),
{
    let text = chars_of(s);
    let start: usize = if text.len() > 0 && text[0] == '+' { 1 } else { 0 };
    let ghost digits = unsigned_digits(s@);
    assert(digits =~= text@.skip(start as int));
    if start == text.len() {
        return None;
    }
    let mut value: usize = 0;
    let mut i: usize = start;
    while i < text.len()
        invariant
            start <= i <= text@.len(),
            digits == text@.skip(start as int),
            digits == unsigned_digits(s@),
            digits.len() == text@.len() - start,
            digits.len() > 0,
            value == decimal_value(digits.take(i - start)),
            all_digits(digits.take(i - start)),
        decreases text@.len() - i,
    {
        let c = text[i];
        let ghost n: int = i - start;
        assert(digits[n] == c);
        if !('0' <= c && c <= '9') {
            assert(!all_digits(digits));
            return None;
        }
        let d: usize = (c as u32 - 48) as usize;
        assert(digits.take(n + 1).drop_last() =~= digits.take(n));
        assert(decimal_value(digits.take(n + 1)) == value * 10 + d);
        if value > (usize::MAX - d) / 10 {
            proof {
                lemma_decimal_value_grows(digits, n + 1);
            }
            return None;
        }
        assert forall|j: int| 0 <= j < n + 1 implies '0' <= #[trigger] digits.take(n + 1)[j]
            <= '9' by {
            if j < n {
                assert(digits.take(n + 1)[j] == digits.take(n)[j]);
            }
        }
        value = value * 10 + d;
        i = i + 1;
    }
    assert(digits.take(digits.len() as int) =~= digits);
    Some(value)
}

/// Writing a number in decimal and reading the digits back gives the number,
/// and a number is never written as an empty text.
pub proof fn law_decimal_reads_back(n: nat)
    ensures
        decimal(n).len() > 0,
        all_digits(decimal(n)),
        decimal_value(decimal(n)) == n,
    decreases n,
{
    if n < 10 {
        assert(decimal(n).drop_last() =~= Seq::<char>::empty());
        assert(decimal_value(Seq::<char>::empty()) == 0);
    } else {
        law_decimal_reads_back(n / 10);
        assert(decimal(n).drop_last() =~= decimal(n / 10));
        let s = decimal(n);
        assert forall|i: int| 0 <= i < s.len() implies '0' <= #[trigger] s[i] <= '9' by {
            if i < s.len() - 1 {
                assert(s[i] == decimal(n / 10)[i]);
            }
        }
    }
}

/// Dropping end slashes takes slashes only and leaves a text that ends in none;
/// doing it twice is doing it once.
pub proof fn law_without_end_slashes(s: Seq<char>)
    ensures
        without_end_slashes(s).is_prefix_of(s),
        forall|i: int| without_end_slashes(s).len() <= i < s.len() ==> #[trigger] s[i] == '/',
        without_end_slashes(s).len() > 0 ==> without_end_slashes(s).last() != '/',
        without_end_slashes(without_end_slashes(s)) == without_end_slashes(s),
    decreases s.len(),
{
    if s.len() > 0 && s.last() == '/' {
        law_without_end_slashes(s.drop_last());
        let t = without_end_slashes(s);
        assert(t =~= s.drop_last().take(t.len() as int));
        assert(t =~= s.take(t.len() as int));
        assert forall|i: int| t.len() <= i < s.len() implies #[trigger] s[i] == '/' by {
            if i < s.len() - 1 {
                assert(s.drop_last()[i] == s[i]);
            }
        }
    } else {
        assert(s =~= s.take(s.len() as int));
    }
}

/// What an error message quotes is a beginning of the reply, and never longer
/// than the limit.
pub proof fn law_preview_is_bounded_prefix(s: Seq<char>)
    ensures
        preview_of(s).is_prefix_of(s),
        preview_of(s).len() <= PREVIEW_CHARS,
        s.len() <= PREVIEW_CHARS ==> preview_of(s) == s,
{
    assert(s =~= s.take(s.len() as int));
}

/// A text is blank exactly if both its parts are; the empty text is, and one
/// character is if it is white space. Of the ASCII characters these are white
/// space: the space, and those from the tab to the carriage return.
pub proof fn law_blank(a: Seq<char>, b: Seq<char>, c: char)
    ensures
        blank(Seq::empty()),
        blank(seq![c]) <==> white_space(c),
        blank(a + b) <==> blank(a) && blank(b),
        (c as int) < 128 ==> (white_space(c) <==> c as int == 32 || 9 <= c as int <= 13),
{
    if blank(seq![c]) {
        assert(white_space(seq![c][0]));
    }
    if blank(a + b) {
        assert forall|i: int| 0 <= i < a.len() implies white_space(#[trigger] a[i]) by {
            assert((a + b)[i] == a[i]);
        }
        assert forall|i: int| 0 <= i < b.len() implies white_space(#[trigger] b[i]) by {
            assert((a + b)[a.len() + i] == b[i]);
        }
    }
}

/// What an error message quotes of a reply has the length of the reply or two
/// hundred characters, whichever is less, and agrees with the reply throughout.
pub proof fn law_preview_length(s: Seq<char>, i: int)
    ensures
        s.len() <= 200 ==> preview_of(s).len() == s.len(),
        s.len() >= 200 ==> preview_of(s).len() == 200,
        0 <= i < preview_of(s).len() ==> preview_of(s)[i] == s[i],
{
}

/// Decimal notation: a number below ten is its digit, and ten times a number
/// that is not zero, plus a digit, is that number with the digit behind it. No
/// number but zero begins with a zero.
pub proof fn law_decimal_notation(n: nat, d: nat)
    requires
        d < 10,
    ensures
        decimal(d).len() == 1,
        decimal(d)[0] as int == 48 + d,
        n > 0 ==> decimal((10 * n + d) as nat).len() == decimal(n).len() + 1,
        n > 0 ==> decimal((10 * n + d) as nat).drop_last() == decimal(n),
        n > 0 ==> decimal((10 * n + d) as nat).last() as int == 48 + d,
        n > 0 ==> decimal(n)[0] as int != 48,
    decreases n,
{
    if n > 0 {
        assert((10 * n + d) as nat / 10 == n);
        assert((10 * n + d) as nat % 10 == d);
        assert(decimal((10 * n + d) as nat).drop_last() =~= decimal(n));
        if n >= 10 {
            law_decimal_notation(n / 10, n % 10);
            assert(10 * (n / 10) + n % 10 == n);
            law_decimal_reads_back(n / 10);
            assert(decimal(n)[0] == decimal(n / 10)[0]);
        }
    }
}

/// The value of digits: nothing is zero, and a digit behind a text counts once,
/// the text ten times.
pub proof fn law_decimal_value(s: Seq<char>, c: char)
    requires
        48 <= c as int <= 57,
    ensures
        decimal_value(Seq::empty()) == 0,
        decimal_value(s.push(c)) == 10 * decimal_value(s) + (c as int - 48),
{
    assert(s.push(c).drop_last() =~= s);
}

/// An index is read from its decimal digits, with or without a plus sign. A text
/// that is read consists of digits behind at most one plus sign and stands for
/// the value that is read; a text of digits is not read only if its value does
/// not fit.
pub proof fn law_index_value(s: Seq<char>, n: usize)
    ensures
        index_value(decimal(n as nat)) == Some(n),
        index_value(seq!['+'] + decimal(n as nat)) == Some(n),
        index_value(Seq::empty()) is None,
        index_value(seq!['+']) is None,
        index_value(s) matches Some(value) ==> {
            let start: int = if s[0] == '+' { 1 } else { 0 };
            &&& start < s.len()
            &&& forall|i: int| start <= i < s.len() ==> 48 <= (#[trigger] s[i]) as int <= 57
            &&& decimal_value(s.skip(start)) == value
        },
        s.len() > 0 && (forall|i: int| 0 <= i < s.len() ==> 48 <= (#[trigger] s[i]) as int <= 57)
            ==> (index_value(s) is None <==> decimal_value(s) > usize::MAX),
{
    law_decimal_reads_back(n as nat);
    let digits = decimal(n as nat);
    assert('0' <= digits[0] <= '9');
    assert(unsigned_digits(digits) == digits);
    assert((seq!['+'] + digits).skip(1) =~= digits);
    assert(seq!['+'].skip(1) =~= Seq::<char>::empty());
    assert(s.skip(0) =~= s);
    if index_value(s) is Some {
        let start: int = if s[0] == '+' { 1 } else { 0 };
        let rest = s.skip(start);
        assert(unsigned_digits(s) == rest);
        assert forall|i: int| start <= i < s.len() implies 48 <= (#[trigger] s[i]) as int <= 57 by {
            assert(rest[i - start] == s[i]);
        }
    }
    if s.len() > 0 && (forall|i: int|
        0 <= i < s.len() ==> 48 <= (#[trigger] s[i]) as int <= 57) {
        assert(48 <= s[0] as int <= 57);
        assert(unsigned_digits(s) == s);
        assert(all_digits(s));
    }
}

} // verus!
