//! Character-level text helpers shared by the parsers and the formatters.
//!
//! Text is handled as a vector of characters, and a part of it as a pair of
//! indices into that vector, so that every function here can be stated over
//! `Seq<char>`.

use vstd::prelude::*;
use vstd::string::StringExecFns;

verus! {

/// `String::push` appends one character to the string.
pub assume_specification[ String::push ](s: &mut String, c: char)
    ensures
        final(s)@ == old(s)@.push(c),
;

/// `char::from_u32` gives the character with the given code, if the code is
/// a Unicode scalar value: any code up to 0x10FFFF but the surrogates.
pub assume_specification[ char::from_u32 ](code: u32) -> (c: Option<char>)
    ensures
        c is Some <==> (code < 0xD800 || 0xE000 <= code <= 0x10FFFF),
        c matches Some(found) ==> found as u32 == code,
;

/// The lower-case form that `str::to_lowercase` gives a text.
pub uninterp spec fn lowercase(s: Seq<char>) -> Seq<char>;

/// `str::to_lowercase` returns the lower-case equivalent of the text, as the
/// Unicode character database defines it. The result depends on the text
/// alone; nothing more is claimed of it.
pub assume_specification[ str::to_lowercase ](s: &str) -> (lower: String)
    ensures
        lower@ == lowercase(s@),
;

/// The characters of a string, in order.
pub fn chars_of(s: &str) -> (chars: Vec<char>)
    ensures
        chars@ == s@,
{
    let mut chars: Vec<char> = Vec::new();
    for c in it: s.chars()
        invariant
            it.seq() == s@,
            chars@ == s@.take(it.index()),
    {
        chars.push(c);
    }
    chars
}

/// The string made of the characters `chars[from..to]`.
pub fn string_of(chars: &Vec<char>, from: usize, to: usize) -> (s: String)
    requires
        from <= to <= chars.len(),
    ensures
        s@ == chars@.subrange(from as int, to as int),
{
    let mut s = String::new();
    let mut i: usize = from;
    while i < to
        invariant
            from <= i <= to <= chars.len(),
            s@ == chars@.subrange(from as int, i as int),
        decreases to - i,
    {
        s.push(chars[i]);
        i += 1;
    }
    s
}

/// Whether two texts hold the same characters.
pub fn same_text(a: &str, b: &str) -> (same: bool)
    ensures
        same == (a@ == b@),
{
    let left = chars_of(a);
    let right = chars_of(b);
    if left.len() != right.len() {
        return false;
    }
    let mut i: usize = 0;
    while i < left.len()
        invariant
            i <= left.len(),
            left@ == a@,
            right@ == b@,
            left.len() == right.len(),
            forall|j: int| 0 <= j < i ==> left@[j] == right@[j],
        decreases left.len() - i,
    {
        if left[i] != right[i] {
            return false;
        }
        i += 1;
    }
    assert(left@ =~= right@);
    true
}

/// The characters with the Unicode property `White_Space`.
pub open spec fn is_whitespace(c: char) -> bool {
    let n = c as int;
    ||| 0x09 <= n <= 0x0D
    ||| n == 0x20
    ||| n == 0x85
    ||| n == 0xA0
    ||| n == 0x1680
    ||| 0x2000 <= n <= 0x200A
    ||| n == 0x2028
    ||| n == 0x2029
    ||| n == 0x202F
    ||| n == 0x205F
    ||| n == 0x3000
}

/// Whether the character is white space.
pub fn whitespace(c: char) -> (white: bool)
    ensures
        white == is_whitespace(c),
{
    let n: u32 = c as u32;
    (0x09 <= n && n <= 0x0D) || n == 0x20 || n == 0x85 || n == 0xA0 || n == 0x1680 || (0x2000 <= n
        && n <= 0x200A) || n == 0x2028 || n == 0x2029 || n == 0x202F || n == 0x205F || n == 0x3000
}

/// The text without its leading white space.
pub open spec fn trim_start(s: Seq<char>) -> Seq<char>
    decreases s.len(),
{
    if s.len() > 0 && is_whitespace(s.first()) {
        trim_start(s.drop_first())
    } else {
        s
    }
}

/// The text without its trailing white space.
pub open spec fn trim_end(s: Seq<char>) -> Seq<char>
    decreases s.len(),
{
    if s.len() > 0 && is_whitespace(s.last()) {
        trim_end(s.drop_last())
    } else {
        s
    }
}

/// The text without its leading and trailing white space.
pub open spec fn trimmed(s: Seq<char>) -> Seq<char> {
    trim_end(trim_start(s))
}

/// The bounds within `chars[from..to]` of what is left when the white space
/// at both ends is taken off.
pub fn trim_bounds(chars: &Vec<char>, from: usize, to: usize) -> (bounds: (usize, usize))
    requires
        from <= to <= chars.len(),
    ensures
        from <= bounds.0 <= bounds.1 <= to,
        chars@.subrange(bounds.0 as int, bounds.1 as int) == trimmed(
            chars@.subrange(from as int, to as int),
        ),
{
    let mut a: usize = from;
    while a < to && whitespace(chars[a])
        invariant
            from <= a <= to <= chars.len(),
            trim_start(chars@.subrange(from as int, to as int)) == trim_start(
                chars@.subrange(a as int, to as int),
            ),
        decreases to - a,
    {
        assert(chars@.subrange(a as int, to as int).drop_first() == chars@.subrange(
            a + 1,
            to as int,
        ));
        a += 1;
    }
    let mut b: usize = to;
    while a < b && whitespace(chars[b - 1])
        invariant
            a <= b <= to <= chars.len(),
            trim_end(chars@.subrange(a as int, to as int)) == trim_end(
                chars@.subrange(a as int, b as int),
            ),
        decreases b - a,
    {
        assert(chars@.subrange(a as int, b as int).drop_last() == chars@.subrange(
            a as int,
            b - 1,
        ));
        b -= 1;
    }
    (a, b)
}

/// The first position in `chars[from..to]` that holds `wanted`.
pub fn find_char(chars: &Vec<char>, from: usize, to: usize, wanted: char) -> (found: Option<usize>)
    requires
        from <= to <= chars.len(),
    ensures
        match found {
            Some(at) => {
                &&& from <= at < to
                &&& chars@[at as int] == wanted
                &&& forall|i: int| from <= i < at ==> chars@[i] != wanted
            },
            None => forall|i: int| from <= i < to ==> chars@[i] != wanted,
        },
{
    let mut i: usize = from;
    while i < to
        invariant
            from <= i <= to <= chars.len(),
            forall|j: int| from <= j < i ==> chars@[j] != wanted,
        decreases to - i,
    {
        if chars[i] == wanted {
            return Some(i);
        }
        i += 1;
    }
    None
}

/// The decimal digits `0` to `9`.
pub open spec fn is_digit(c: char) -> bool {
    '0' <= c <= '9'
}

/// The number that a decimal digit stands for.
pub open spec fn digit_value(c: char) -> nat {
    (c as int - '0' as int) as nat
}

/// Whether the text holds decimal digits only.
pub open spec fn all_digits(s: Seq<char>) -> bool {
    forall|i: int| 0 <= i < s.len() ==> is_digit(#[trigger] s[i])
}

/// The number that a run of decimal digits stands for.
pub open spec fn decimal_value(s: Seq<char>) -> nat
    decreases s.len(),
{
    if s.len() == 0 {
        0
    } else {
        decimal_value(s.drop_last()) * 10 + digit_value(s.last())
    }
}

/// The digits of an unsigned numeral: the text without one leading `+`.
pub open spec fn unsigned_digits(s: Seq<char>) -> Seq<char> {
    if s.len() > 0 && s[0] == '+' {
        s.drop_first()
    } else {
        s
    }
}

/// The number that an unsigned decimal numeral stands for: an optional `+`
/// and at least one digit, nothing else.
pub open spec fn unsigned_value(s: Seq<char>) -> Option<nat> {
    let digits = unsigned_digits(s);
    if digits.len() > 0 && all_digits(digits) {
        Some(decimal_value(digits))
    } else {
        None
    }
}

/// The numeral's value where it fits a `usize`.
pub open spec fn parsed_usize(s: Seq<char>) -> Option<usize> {
    match unsigned_value(s) {
        Some(value) => if value <= usize::MAX {
            Some(value as usize)
        } else {
            None
        },
        None => None,
    }
}

/// A run of digits stands for at least what any of its prefixes stands for.
pub proof fn lemma_decimal_prefix(s: Seq<char>, n: int)
    requires
        0 <= n <= s.len(),
    ensures
        decimal_value(s.take(n)) <= decimal_value(s),
    decreases s.len(),
{
    if n == s.len() {
        assert(s.take(n) == s);
    } else {
        lemma_decimal_prefix(s.drop_last(), n);
        assert(s.drop_last().take(n) == s.take(n));
    }
}

/// Reads `chars[from..to]` as an unsigned decimal numeral.
pub fn parse_usize(chars: &Vec<char>, from: usize, to: usize) -> (value: Option<usize>)
    requires
        from <= to <= chars.len(),
    ensures
        value == parsed_usize(chars@.subrange(from as int, to as int)),
{
    let start: usize = if from < to && chars[from] == '+' {
        from + 1
    } else {
        from
    };
    let ghost digits = chars@.subrange(start as int, to as int);
    if start == to {
        return None;
    }
    let mut acc: usize = 0;
    let mut i: usize = start;
    while i < to
        invariant
            from <= start <= i <= to <= chars.len(),
            digits == chars@.subrange(start as int, to as int),
            digits == unsigned_digits(chars@.subrange(from as int, to as int)),
            all_digits(digits.take(i - start)),
            acc == decimal_value(digits.take(i - start)),
        decreases to - i,
    {
        let c: char = chars[i];
        assert(digits.take(i + 1 - start).drop_last() == digits.take(i - start));
        if !(c >= '0' && c <= '9') {
            assert(!is_digit(digits[i - start]));
            return None;
        }
        let d: usize = (c as u32 - '0' as u32) as usize;
        if acc > (usize::MAX - d) / 10 {
            proof {
                lemma_decimal_prefix(digits, i + 1 - start);
            }
            return None;
        }
        acc = acc * 10 + d;
        i += 1;
    }
    assert(digits.take(to - start) == digits);
    Some(acc)
}

/// The decimal digit for a number below 10.
pub open spec fn digit_char(d: nat) -> char {
    ('0' as int + d) as char
}

/// The decimal numeral of a number, without sign or leading zeros.
pub open spec fn decimal(k: nat) -> Seq<char>
    decreases k,
{
    if k < 10 {
        seq![digit_char(k)]
    } else {
        decimal(k / 10).push(digit_char(k % 10))
    }
}

/// A number's decimal numeral is made of digits and stands for the number.
pub proof fn lemma_decimal(k: nat)
    ensures
        decimal(k).len() > 0,
        all_digits(decimal(k)),
        decimal_value(decimal(k)) == k,
        unsigned_value(decimal(k)) == Some(k),
    decreases k,
{
    let s = decimal(k);
    if k < 10 {
        assert(decimal_value(s.drop_last()) == 0);
    } else {
        lemma_decimal(k / 10);
        assert(s.drop_last() =~= decimal(k / 10));
        assert forall|i: int| 0 <= i < s.len() implies is_digit(#[trigger] s[i]) by {}
    }
}

/// The texts that a sequence of strings holds.
pub open spec fn text_views(strings: Seq<String>) -> Seq<Seq<char>> {
    strings.map_values(|s: String| s@)
}

/// The parts with `separator` between each two neighbours.
pub open spec fn joined(parts: Seq<Seq<char>>, separator: Seq<char>) -> Seq<char>
    decreases parts.len(),
{
    if parts.len() == 0 {
        Seq::empty()
    } else if parts.len() == 1 {
        parts[0]
    } else {
        joined(parts.drop_last(), separator) + separator + parts.last()
    }
}

/// Joins the strings, with `separator` between each two neighbours.
pub fn join(parts: &Vec<String>, separator: &str) -> (whole: String)
    ensures
        whole@ == joined(text_views(parts@), separator@),
{
    let mut whole = String::new();
    let mut i: usize = 0;
    while i < parts.len()
        invariant
            i <= parts.len(),
            whole@ == joined(text_views(parts@).take(i as int), separator@),
        decreases parts.len() - i,
    {
        assert(text_views(parts@).take(i + 1).drop_last() == text_views(parts@).take(i as int));
        if i > 0 {
            whole.append(separator);
        }
        whole.append(parts[i].as_str());
        i += 1;
    }
    assert(text_views(parts@).take(parts.len() as int) == text_views(parts@));
    whole
}

/// The UTF-16 units of one character: itself, or a surrogate pair.
pub open spec fn utf16_units(c: char) -> Seq<u16> {
    let n = c as int;
    if n < 0x10000 {
        seq![n as u16]
    } else {
        seq![(0xD800 + (n - 0x10000) / 0x400) as u16, (0xDC00 + (n - 0x10000) % 0x400) as u16]
    }
}

/// The UTF-16 encoding of a text.
pub open spec fn utf16(s: Seq<char>) -> Seq<u16>
    decreases s.len(),
{
    if s.len() == 0 {
        Seq::empty()
    } else {
        utf16(s.drop_last()) + utf16_units(s.last())
    }
}

/// Appends the UTF-16 units of one character to `units`.
pub fn push_utf16_units(units: &mut Vec<u16>, c: char)
    ensures
        final(units)@ == old(units)@ + utf16_units(c),
{
    let n: u32 = c as u32;
    if n < 0x10000 {
        units.push(n as u16);
    } else {
        let rest: u32 = n - 0x10000;
        let high: u16 = (0xD800 + rest / 0x400) as u16;
        let low: u16 = (0xDC00 + rest % 0x400) as u16;
        units.push(high);
        units.push(low);
    }
}

/// Appends the UTF-16 encoding of `text` to `units`.
pub fn push_utf16(units: &mut Vec<u16>, text: &str)
    ensures
        final(units)@ == old(units)@ + utf16(text@),
{
    let chars = chars_of(text);
    let mut i: usize = 0;
    while i < chars.len()
        invariant
            i <= chars.len(),
            units@ == old(units)@ + utf16(chars@.take(i as int)),
        decreases chars.len() - i,
    {
        assert(chars@.take(i + 1).drop_last() == chars@.take(i as int));
        push_utf16_units(units, chars[i]);
        i += 1;
    }
    assert(chars@.take(chars.len() as int) == chars@);
}

/// The first unit of a surrogate pair.
pub open spec fn is_high_surrogate(unit: u16) -> bool {
    0xD800 <= unit <= 0xDBFF
}

/// The second unit of a surrogate pair.
pub open spec fn is_low_surrogate(unit: u16) -> bool {
    0xDC00 <= unit <= 0xDFFF
}

/// The character that a surrogate pair stands for.
pub open spec fn paired(high: u16, low: u16) -> char {
    (0x10000 + (high - 0xD800) * 0x400 + (low - 0xDC00)) as char
}

/// The text that UTF-16 units stand for, with U+FFFD in the place of every
/// surrogate that has no partner.
pub open spec fn utf16_lossy(units: Seq<u16>) -> Seq<char>
    decreases units.len(),
{
    if units.len() == 0 {
        Seq::empty()
    } else if is_high_surrogate(units[0]) && units.len() > 1 && is_low_surrogate(units[1]) {
        seq![paired(units[0], units[1])] + utf16_lossy(units.skip(2))
    } else if is_high_surrogate(units[0]) || is_low_surrogate(units[0]) {
        seq!['\u{FFFD}'] + utf16_lossy(units.skip(1))
    } else {
        seq![units[0] as char] + utf16_lossy(units.skip(1))
    }
}

/// The character with the given code, where there is one.
fn char_of(code: u32) -> (c: char)
    requires
        code < 0xD800 || 0xE000 <= code <= 0x10FFFF,
    ensures
        c as u32 == code,
{
    match char::from_u32(code) {
        Some(c) => c,
        None => '\u{FFFD}',
    }
}

/// Decodes UTF-16 units, putting U+FFFD in the place of every surrogate that
/// has no partner.
pub fn decode_utf16_lossy(units: &Vec<u16>) -> (chars: Vec<char>)
    ensures
        chars@ == utf16_lossy(units@),
{
    let mut chars: Vec<char> = Vec::new();
    let mut i: usize = 0;
    assert(units@.skip(0) == units@);
    while i < units.len()
        invariant
            i <= units.len(),
            chars@ + utf16_lossy(units@.skip(i as int)) == utf16_lossy(units@),
        decreases units.len() - i,
    {
        let ghost rest = units@.skip(i as int);
        let unit: u16 = units[i];
        assert(rest[0] == unit);
        if 0xD800 <= unit && unit <= 0xDBFF && i + 1 < units.len() && 0xDC00 <= units[i + 1]
            && units[i + 1] <= 0xDFFF {
            let low: u16 = units[i + 1];
            assert(rest[1] == low);
            assert(rest.skip(2) == units@.skip(i + 2));
            let code: u32 = 0x10000 + (unit as u32 - 0xD800) * 0x400 + (low as u32 - 0xDC00);
            let c = char_of(code);
            assert(c == paired(unit, low));
            chars.push(c);
            assert(chars@ + utf16_lossy(units@.skip(i + 2)) == utf16_lossy(units@));
            i += 2;
        } else {
            assert(rest.skip(1) == units@.skip(i + 1));
            let c: char = if 0xD800 <= unit && unit <= 0xDFFF {
                '\u{FFFD}'
            } else {
                char_of(unit as u32)
            };
            chars.push(c);
            assert(chars@ + utf16_lossy(units@.skip(i + 1)) == utf16_lossy(units@));
            i += 1;
        }
    }
    assert(chars@ + Seq::<char>::empty() == chars@);
    chars
}

/// The lower-case hexadecimal digit for a number below 16.
pub open spec fn hex_digit(d: nat) -> char {
    if d < 10 {
        ('0' as int + d) as char
    } else {
        ('a' as int + d - 10) as char
    }
}

/// The last `width` hexadecimal digits of `value`, zeros included.
pub open spec fn hex_digits(value: nat, width: nat) -> Seq<char>
    decreases width,
{
    if width == 0 {
        Seq::empty()
    } else {
        hex_digits(value / 16, (width - 1) as nat).push(hex_digit(value % 16))
    }
}

/// Appends the last `width` hexadecimal digits of `value` to `text`.
pub fn push_hex(text: &mut String, value: u32, width: u32)
    ensures
        final(text)@ == old(text)@ + hex_digits(value as nat, width as nat),
    decreases width,
{
    if width > 0 {
        push_hex(text, value / 16, width - 1);
        let d: u8 = (value % 16) as u8;
        // 0x30 is the digit 0, 0x61 the letter a.
        let c: char = if d < 10 {
            (0x30u8 + d) as char
        } else {
            (0x61u8 + (d - 10)) as char
        };
        text.push(c);
    }
}

} // verus!
