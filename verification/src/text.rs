//! Text as a sequence of characters: the few operations that the tools build on.
use vstd::prelude::*;
use vstd::utf8::{decode_utf8, encode_utf8, valid_utf8};

verus! {

/// `String::push` appends one character to the end of the text and changes nothing else.
pub assume_specification[ String::push ](s: &mut String, ch: char)
    ensures
        final(s)@ == old(s)@.push(ch),
;

/// What `String::from_utf8_lossy` makes of bytes that are not valid UTF-8.
pub uninterp spec fn lossy_text(bytes: Seq<u8>) -> Seq<char>;

/// The text that bytes are read as: the characters they encode, with replacement characters where
/// they are not valid UTF-8.
pub open spec fn readable(bytes: Seq<u8>) -> Seq<char> {
    if valid_utf8(bytes) {
        decode_utf8(bytes)
    } else {
        lossy_text(bytes)
    }
}

/// Calls `String::from_utf8_lossy`. Bytes that are valid UTF-8 come back as the characters they
/// encode. Of others it is claimed only that the result depends on the bytes alone.
#[verifier::external_body]
pub(crate) fn lossy(bytes: &[u8]) -> (text: String)
    ensures
        valid_utf8(bytes@) ==> text@ == decode_utf8(bytes@),
        !valid_utf8(bytes@) ==> text@ == lossy_text(bytes@),
{
    String::from_utf8_lossy(bytes).into_owned()
}

/// The characters of a text, one by one.
pub fn chars_of(s: &str) -> (chars: Vec<char>)
    ensures
        chars@ == s@,
{
    let mut chars: Vec<char> = Vec::new();
    for c in it: s.chars()
        invariant
            chars@ == it.seq().take(it.index()),
            it.seq() == s@,
    {
        chars.push(c);
    }
    chars
}

/// The text that the characters `from..to` of `chars` spell.
pub fn text_of(chars: &Vec<char>, from: usize, to: usize) -> (text: String)
    requires
        from <= to <= chars.len(),
    ensures
        text@ == chars@.subrange(from as int, to as int),
{
    let mut text = String::new();
    let mut i: usize = from;
    while i < to
        invariant
            from <= i <= to <= chars.len(),
            text@ == chars@.subrange(from as int, i as int),
        decreases to - i,
    {
        text.push(chars[i]);
        i = i + 1;
    }
    text
}

/// Whether two texts hold the same characters.
pub fn same_text(a: &str, b: &str) -> (same: bool)
    ensures
        same == (a@ == b@),
{
    let x = a.as_bytes();
    let y = b.as_bytes();
    proof {
        vstd::utf8::encode_utf8_decode_utf8(a@);
        vstd::utf8::encode_utf8_decode_utf8(b@);
    }
    if x.len() != y.len() {
        return false;
    }
    let mut i: usize = 0;
    while i < x.len()
        invariant
            x@ == encode_utf8(a@),
            y@ == encode_utf8(b@),
            x.len() == y.len(),
            i <= x.len(),
            forall|j: int| 0 <= j < i ==> x[j] == y[j],
        decreases x.len() - i,
    {
        if x[i] != y[i] {
            return false;
        }
        i = i + 1;
    }
    assert(x@ =~= y@);
    true
}

// ---- White space ----

/// The characters with Unicode's `White_Space` property.
pub open spec fn white_space(c: char) -> bool {
    ||| '\u{9}' <= c <= '\u{d}'
    ||| c == ' '
    ||| c == '\u{85}'
    ||| c == '\u{a0}'
    ||| c == '\u{1680}'
    ||| '\u{2000}' <= c <= '\u{200a}'
    ||| c == '\u{2028}'
    ||| c == '\u{2029}'
    ||| c == '\u{202f}'
    ||| c == '\u{205f}'
    ||| c == '\u{3000}'
}

/// Whether `c` is white space.
pub fn is_white_space(c: char) -> (white: bool)
    ensures
        white == white_space(c),
{
    ('\u{9}' <= c && c <= '\u{d}') || c == ' ' || c == '\u{85}' || c == '\u{a0}'
        || c == '\u{1680}' || ('\u{2000}' <= c && c <= '\u{200a}') || c == '\u{2028}'
        || c == '\u{2029}' || c == '\u{202f}' || c == '\u{205f}' || c == '\u{3000}'
}

/// Whether a text holds white space only.
pub open spec fn blank(s: Seq<char>) -> bool {
    forall|i: int| 0 <= i < s.len() ==> white_space(#[trigger] s[i])
}

/// A text without the white space at its start.
pub open spec fn trimmed_start(s: Seq<char>) -> Seq<char>
    decreases s.len(),
{
    if s.len() > 0 && white_space(s[0]) {
        trimmed_start(s.skip(1))
    } else {
        s
    }
}

/// A text without the white space at its end.
pub open spec fn trimmed_end(s: Seq<char>) -> Seq<char>
    decreases s.len(),
{
    if s.len() > 0 && white_space(s.last()) {
        trimmed_end(s.drop_last())
    } else {
        s
    }
}

/// A text without the white space at either end.
pub open spec fn trimmed(s: Seq<char>) -> Seq<char> {
    trimmed_end(trimmed_start(s))
}

/// Whether the text is empty or white space throughout.
pub fn is_blank(s: &str) -> (yes: bool)
    ensures
        yes == blank(s@),
{
    let chars = chars_of(s);
    let mut i: usize = 0;
    while i < chars.len()
        invariant
            chars@ == s@,
            i <= chars.len(),
            forall|j: int| 0 <= j < i ==> white_space(#[trigger] s@[j]),
        decreases chars.len() - i,
    {
        if !is_white_space(chars[i]) {
            assert(!white_space(s@[i as int]));
            return false;
        }
        i = i + 1;
    }
    true
}

/// The text without the white space at its end.
pub fn trim_end(s: &str) -> (text: String)
    ensures
        text@ == trimmed_end(s@),
{
    let chars = chars_of(s);
    let mut to: usize = chars.len();
    assert(s@.take(to as int) == s@);
    while to > 0 && is_white_space(chars[to - 1])
        invariant
            chars@ == s@,
            to <= chars.len(),
            trimmed_end(s@.take(to as int)) == trimmed_end(s@),
        decreases to,
    {
        assert(s@.take(to as int).drop_last() == s@.take(to - 1));
        to = to - 1;
    }
    assert(s@.take(to as int) == chars@.subrange(0, to as int));
    text_of(&chars, 0, to)
}

/// The text without the white space at its start.
pub fn trim_start(s: &str) -> (text: String)
    ensures
        text@ == trimmed_start(s@),
{
    let chars = chars_of(s);
    let mut from: usize = 0;
    assert(s@.skip(0) == s@);
    while from < chars.len() && is_white_space(chars[from])
        invariant
            chars@ == s@,
            from <= chars.len(),
            trimmed_start(s@.skip(from as int)) == trimmed_start(s@),
        decreases chars.len() - from,
    {
        assert(s@.skip(from as int).skip(1) == s@.skip(from + 1));
        from = from + 1;
    }
    assert(s@.skip(from as int) == chars@.subrange(from as int, chars.len() as int));
    text_of(&chars, from, chars.len())
}

/// The text without the white space at either end.
pub fn trim(s: &str) -> (text: String)
    ensures
        text@ == trimmed(s@),
{
    let tail = trim_start(s);
    trim_end(tail.as_str())
}

// ---- Taking apart and putting together ----

/// The first `n` characters, or all of them where there are fewer.
pub open spec fn first_chars(s: Seq<char>, n: nat) -> Seq<char> {
    if s.len() <= n {
        s
    } else {
        s.take(n as int)
    }
}

/// The first `n` characters of `s`, or all of them where there are fewer.
pub fn take_chars(s: &str, n: usize) -> (text: String)
    ensures
        text@ == first_chars(s@, n as nat),
{
    let chars = chars_of(s);
    let to: usize = if chars.len() <= n { chars.len() } else { n };
    assert(chars@.subrange(0, to as int) == first_chars(s@, n as nat));
    text_of(&chars, 0, to)
}

/// Whether `part` occurs in `s` at position `i`.
pub open spec fn occurs_at(s: Seq<char>, part: Seq<char>, i: int) -> bool {
    0 <= i && i + part.len() <= s.len() && s.subrange(i, i + part.len()) == part
}

/// Whether `part` occurs somewhere in `s`.
pub open spec fn has_part(s: Seq<char>, part: Seq<char>) -> bool {
    exists|i: int| occurs_at(s, part, i)
}

/// Whether `part` occurs in `chars` at position `i`.
fn occurs_here(chars: &Vec<char>, part: &Vec<char>, i: usize) -> (yes: bool)
    requires
        i <= chars.len(),
    ensures
        yes == occurs_at(chars@, part@, i as int),
{
    if part.len() > chars.len() - i {
        return false;
    }
    let mut k: usize = 0;
    while k < part.len()
        invariant
            i + part.len() <= chars.len(),
            k <= part.len(),
            forall|j: int| 0 <= j < k ==> chars[i + j] == part[j],
        decreases part.len() - k,
    {
        if chars[i + k] != part[k] {
            assert(chars@.subrange(i as int, i + part.len())[k as int] != part@[k as int]);
            return false;
        }
        k = k + 1;
    }
    assert(chars@.subrange(i as int, i + part.len()) =~= part@);
    true
}

/// Whether `part` occurs somewhere in `s`.
pub fn contains(s: &str, part: &str) -> (yes: bool)
    ensures
        yes == has_part(s@, part@),
{
    let chars = chars_of(s);
    let wanted = chars_of(part);
    let mut i: usize = 0;
    while i < chars.len()
        invariant
            chars@ == s@,
            wanted@ == part@,
            i <= chars.len(),
            forall|j: int| 0 <= j < i ==> !occurs_at(s@, part@, j),
        decreases chars.len() - i,
    {
        if occurs_here(&chars, &wanted, i) {
            return true;
        }
        i = i + 1;
    }
    let found = occurs_here(&chars, &wanted, i);
    assert forall|j: int| occurs_at(s@, part@, j) implies j <= chars.len() by {}
    found
}

/// Whether `s` begins with `part`.
pub fn starts_with(s: &str, part: &str) -> (yes: bool)
    ensures
        yes == part@.is_prefix_of(s@),
{
    let chars = chars_of(s);
    let wanted = chars_of(part);
    let yes = occurs_here(&chars, &wanted, 0);
    assert(yes == part@.is_prefix_of(s@)) by {
        if part@.len() <= s@.len() {
            assert(s@.subrange(0, part@.len() as int) == s@.take(part@.len() as int));
        }
    }
    yes
}

/// A line without the carriage return at its end.
pub open spec fn without_return(line: Seq<char>) -> Seq<char> {
    if line.len() > 0 && line.last() == '\r' {
        line.drop_last()
    } else {
        line
    }
}

/// The lines of a text. A line ends at `\n` or `\r\n`, which is no part of it; the last line need
/// not end so, and a bare `\r` ends no line.
pub open spec fn lines_of(s: Seq<char>) -> Seq<Seq<char>>
    decreases s.len(),
{
    if s.len() == 0 {
        seq![]
    } else {
        match s.index_of_first('\n') {
            Some(n) => {
                proof {
                    s.index_of_first_ensures('\n');
                }
                seq![without_return(s.take(n))] + lines_of(s.skip(n + 1))
            },
            None => seq![s],
        }
    }
}

/// The texts as sequences of characters.
pub open spec fn views(texts: Seq<String>) -> Seq<Seq<char>> {
    texts.map_values(|t: String| t@)
}

/// A text that may be missing, as a sequence of characters.
pub open spec fn optional_view(text: Option<String>) -> Option<Seq<char>> {
    match text {
        Some(t) => Some(t@),
        None => None,
    }
}

/// A borrowed text that may be missing, as a sequence of characters.
pub open spec fn optional_str(text: Option<&str>) -> Option<Seq<char>> {
    match text {
        Some(t) => Some(t@),
        None => None,
    }
}

/// The lines of a text (see [`lines_of`]).
pub fn lines(s: &str) -> (all: Vec<String>)
    ensures
        views(all@) == lines_of(s@),
{
    let chars = chars_of(s);
    let mut all: Vec<String> = Vec::new();
    let mut start: usize = 0;
    let mut i: usize = 0;
    assert(s@.skip(0) == s@);
    while i < chars.len()
        invariant
            chars@ == s@,
            start <= i <= chars.len(),
            forall|j: int| start <= j < i ==> chars[j] != '\n',
            lines_of(s@) == views(all@) + lines_of(s@.skip(start as int)),
        decreases chars.len() - i,
    {
        if chars[i] == '\n' {
            let to: usize = if i > start && chars[i - 1] == '\r' { i - 1 } else { i };
            let line = text_of(&chars, start, to);
            proof {
                let rest = s@.skip(start as int);
                let n = i - start;
                rest.index_of_first_ensures('\n');
                assert(rest[n] == '\n');
                assert(rest.index_of_first('\n') == Some(n));
                assert(rest.take(n) == chars@.subrange(start as int, i as int));
                assert(line@ == without_return(rest.take(n)));
                assert(rest.skip(n + 1) == s@.skip(i + 1));
                assert(views(all@.push(line)) == views(all@) + seq![line@]);
            }
            all.push(line);
            start = i + 1;
            assert(lines_of(s@) =~= views(all@) + lines_of(s@.skip(start as int)));
        }
        i = i + 1;
    }
    if start < chars.len() {
        let line = text_of(&chars, start, chars.len());
        proof {
            let rest = s@.skip(start as int);
            rest.index_of_first_ensures('\n');
            assert(line@ == rest);
            assert(!rest.contains('\n'));
            assert(views(all@.push(line)) == views(all@) + seq![line@]);
        }
        all.push(line);
    }
    assert(views(all@) =~= lines_of(s@));
    all
}

/// The texts one after the other, with `sep` between each two.
pub open spec fn joined(parts: Seq<Seq<char>>, sep: Seq<char>) -> Seq<char>
    decreases parts.len(),
{
    if parts.len() == 0 {
        seq![]
    } else if parts.len() == 1 {
        parts[0]
    } else {
        joined(parts.drop_last(), sep) + sep + parts.last()
    }
}

/// The texts one after the other, with `sep` between each two.
pub fn join(parts: &Vec<String>, sep: &str) -> (text: String)
    ensures
        text@ == joined(views(parts@), sep@),
{
    let mut text = String::new();
    let mut i: usize = 0;
    while i < parts.len()
        invariant
            i <= parts.len(),
            text@ == joined(views(parts@).take(i as int), sep@),
        decreases parts.len() - i,
    {
        assert(views(parts@).take(i + 1).drop_last() == views(parts@).take(i as int));
        if i > 0 {
            text.append(sep);
        }
        text.append(parts[i].as_str());
        i = i + 1;
        assert(text@ =~= joined(views(parts@).take(i as int), sep@));
    }
    assert(views(parts@).take(i as int) == views(parts@));
    text
}

/// The texts one after the other.
pub open spec fn chained(parts: Seq<Seq<char>>) -> Seq<char>
    decreases parts.len(),
{
    if parts.len() == 0 {
        seq![]
    } else {
        chained(parts.drop_last()) + parts.last()
    }
}

// ---- Numbers ----

/// The decimal digit of `d`.
pub open spec fn digit(d: nat) -> char {
    (48 + d) as char
}

/// A number in decimal notation.
pub open spec fn decimal(n: nat) -> Seq<char>
    decreases n,
{
    if n < 10 {
        seq![digit(n)]
    } else {
        decimal(n / 10).push(digit(n % 10))
    }
}

/// The number in decimal notation.
pub fn decimal_text(n: u128) -> (text: String)
    ensures
        text@ == decimal(n as nat),
    decreases n,
{
    let mut text = if n < 10 { String::new() } else { decimal_text(n / 10) };
    let d: u8 = (n % 10) as u8;
    text.push((48u8 + d) as char);
    assert(text@ =~= decimal(n as nat));
    text
}

/// Whether the text is one or more decimal digits.
pub open spec fn all_digits(s: Seq<char>) -> bool {
    s.len() > 0 && forall|i: int| 0 <= i < s.len() ==> '0' <= #[trigger] s[i] <= '9'
}

/// The number that decimal digits spell.
pub open spec fn digits_value(s: Seq<char>) -> nat
    decreases s.len(),
{
    if s.len() == 0 {
        0
    } else {
        (digits_value(s.drop_last()) * 10 + (s.last() as int - 48)) as nat
    }
}

/// The number that a text spells: digits, with or without a `+` before them, and small enough for
/// 32 bits.
pub open spec fn small_number(s: Seq<char>) -> Option<u32> {
    let digits = if s.len() > 0 && s[0] == '+' {
        s.skip(1)
    } else {
        s
    };
    if all_digits(digits) && digits_value(digits) <= u32::MAX {
        Some(digits_value(digits) as u32)
    } else {
        None
    }
}

/// The number that a text spells, if it does (see [`small_number`]).
pub fn parse_small_number(s: &str) -> (number: Option<u32>)
    ensures
        number == small_number(s@),
{
    let chars = chars_of(s);
    let start: usize = if chars.len() > 0 && chars[0] == '+' { 1 } else { 0 };
    let ghost digits = s@.skip(start as int);
    assert(start == 0 ==> digits == s@);
    if chars.len() == start {
        return None;
    }
    let mut value: u64 = 0;
    let mut i: usize = start;
    while i < chars.len()
        invariant
            chars@ == s@,
            start <= 1,
            start <= i <= chars.len(),
            digits == s@.skip(start as int),
            small_number(s@) == (if all_digits(digits) && digits_value(digits) <= u32::MAX {
                Some(digits_value(digits) as u32)
            } else {
                None
            }),
            value == digits_value(digits.take(i - start)),
            value <= u32::MAX,
            forall|j: int| 0 <= j < i - start ==> '0' <= #[trigger] digits[j] <= '9',
        decreases chars.len() - i,
    {
        let c = chars[i];
        assert(c == digits[i - start]);
        if !('0' <= c && c <= '9') {
            return None;
        }
        assert(digits.take(i + 1 - start).drop_last() == digits.take(i - start));
        value = value * 10 + (c as u32 - 48) as u64;
        i = i + 1;
        if value > u32::MAX as u64 {
            proof {
                if all_digits(digits) {
                    lemma_value_grows(digits, i - start);
                }
            }
            return None;
        }
    }
    assert(digits.take(i - start) == digits);
    Some(value as u32)
}

proof fn lemma_value_grows(s: Seq<char>, n: int)
    requires
        0 <= n <= s.len(),
        forall|i: int| 0 <= i < s.len() ==> '0' <= #[trigger] s[i] <= '9',
    ensures
        digits_value(s.take(n)) <= digits_value(s),
    decreases s.len(),
{
    if n < s.len() {
        assert forall|i: int| 0 <= i < s.drop_last().len() implies '0' <= #[trigger]
            s.drop_last()[i] <= '9' by {
            assert(s.drop_last()[i] == s[i]);
        }
        lemma_value_grows(s.drop_last(), n);
        assert(s.drop_last().take(n) == s.take(n));
        assert('0' <= s[s.len() - 1]);
    } else {
        assert(s.take(n) == s);
    }
}

// ---- Laws ----

/// A text is white space throughout exactly where nothing is left of it once it is trimmed.
pub proof fn law_blank_text_trims_to_nothing(s: Seq<char>)
    ensures
        blank(s) <==> trimmed(s).len() == 0,
        blank(s) <==> trimmed_end(s).len() == 0,
    decreases s.len(),
{
    lemma_blank_start(s);
    lemma_blank_end(s);
    lemma_blank_end(trimmed_start(s));
}

proof fn lemma_blank_start(s: Seq<char>)
    ensures
        blank(s) <==> blank(trimmed_start(s)),
    decreases s.len(),
{
    if s.len() > 0 && white_space(s[0]) {
        lemma_blank_start(s.skip(1));
        assert forall|i: int| blank(s.skip(1)) && 0 <= i < s.len() implies white_space(
            #[trigger] s[i],
        ) by {
            if i > 0 {
                assert(s.skip(1)[i - 1] == s[i]);
            }
        }
        assert forall|i: int| blank(s) && 0 <= i < s.skip(1).len() implies white_space(
            #[trigger] s.skip(1)[i],
        ) by {
            assert(s.skip(1)[i] == s[i + 1]);
        }
    }
}

proof fn lemma_blank_end(s: Seq<char>)
    ensures
        blank(s) <==> trimmed_end(s).len() == 0,
    decreases s.len(),
{
    if s.len() > 0 {
        if white_space(s.last()) {
            lemma_blank_end(s.drop_last());
            assert forall|i: int|
                blank(s.drop_last()) && 0 <= i < s.len() implies white_space(#[trigger] s[i]) by {
                if i < s.len() - 1 {
                    assert(s.drop_last()[i] == s[i]);
                }
            }
            assert forall|i: int|
                blank(s) && 0 <= i < s.drop_last().len() implies white_space(
                #[trigger] s.drop_last()[i],
            ) by {
                assert(s.drop_last()[i] == s[i]);
            }
        } else {
            assert(!white_space(s[s.len() - 1]));
        }
    }
}

/// A number in decimal notation is digits that spell that number.
pub proof fn law_decimal_spells_the_number(n: nat)
    ensures
        all_digits(decimal(n)),
        digits_value(decimal(n)) == n,
    decreases n,
{
    let s = decimal(n);
    if n < 10 {
        assert(s.drop_last() == Seq::<char>::empty());
        assert(digits_value(s.drop_last()) == 0);
    } else {
        law_decimal_spells_the_number(n / 10);
        assert(s.drop_last() == decimal(n / 10));
        assert forall|i: int| 0 <= i < s.len() implies '0' <= #[trigger] s[i] <= '9' by {
            if i < s.len() - 1 {
                assert(s[i] == decimal(n / 10)[i]);
            }
        }
    }
}

/// A number of 32 bits is read back from its decimal notation.
pub proof fn law_small_number_is_read_back(n: u32)
    ensures
        small_number(decimal(n as nat)) == Some(n),
{
    law_decimal_spells_the_number(n as nat);
    assert('0' <= decimal(n as nat)[0]);
}

/// The bytes of a text are read as that text. Bytes that are those of no text are read as
/// `String::from_utf8_lossy` reads them.
pub proof fn law_bytes_of_a_text_are_read_as_it(text: Seq<char>, bytes: Seq<u8>)
    ensures
        readable(encode_utf8(text)) == text,
        !valid_utf8(bytes) ==> readable(bytes) == lossy_text(bytes),
{
    vstd::utf8::encode_utf8_valid_utf8(text);
    vstd::utf8::encode_utf8_decode_utf8(text);
}

/// A sequence of texts, or a text that may be missing, is seen as what its texts hold, one for one.
pub proof fn law_texts_are_seen_one_for_one(texts: Seq<String>, text: String, slice: &str)
    ensures
        views(texts).len() == texts.len(),
        forall|i: int| 0 <= i < texts.len() ==> #[trigger] views(texts)[i] == texts[i]@,
        optional_view(Some(text)) == Some(text@),
        optional_view(None) == None::<Seq<char>>,
        optional_str(Some(slice)) == Some(slice@),
        optional_str(None) == None::<Seq<char>>,
{
}

/// Two texts in a row are white space exactly where both are, and one character is where it is
/// white space itself.
pub proof fn law_blank_goes_by_characters(a: Seq<char>, b: Seq<char>, c: char)
    ensures
        blank(seq![]),
        blank(seq![c]) <==> white_space(c),
        blank(a + b) <==> blank(a) && blank(b),
{
    if blank(seq![c]) {
        assert(white_space(seq![c][0]));
    }
    if blank(a + b) {
        assert forall|i: int| 0 <= i < a.len() implies white_space(#[trigger] a[i]) by {
            assert((a + b)[i] == a[i]);
        }
        assert forall|i: int| 0 <= i < b.len() implies white_space(#[trigger] b[i]) by {
            assert((a + b)[a.len() + i] == b[i]);
        }
    }
}

/// Trimming at the end leaves out white space alone, and all of it: what is kept is a beginning of
/// the text that does not end in white space, and what follows it is nothing else.
pub proof fn law_trimmed_end_loses_white_space_alone(s: Seq<char>)
    ensures
        trimmed_end(s).is_prefix_of(s),
        forall|i: int| trimmed_end(s).len() <= i < s.len() ==> white_space(#[trigger] s[i]),
        trimmed_end(s).len() > 0 ==> !white_space(trimmed_end(s).last()),
    decreases s.len(),
{
    if s.len() > 0 && white_space(s.last()) {
        let head = s.drop_last();
        law_trimmed_end_loses_white_space_alone(head);
        let kept = trimmed_end(s);
        assert(kept =~= head.take(kept.len() as int));
        assert(kept =~= s.take(kept.len() as int));
        assert forall|i: int| kept.len() <= i < s.len() implies white_space(#[trigger] s[i]) by {
            if i < head.len() {
                assert(head[i] == s[i]);
            }
        }
    } else {
        assert(s =~= s.take(s.len() as int));
    }
}

/// Trimming at the start leaves out white space alone, and all of it.
pub proof fn law_trimmed_start_loses_white_space_alone(s: Seq<char>)
    ensures
        trimmed_start(s).len() <= s.len(),
        trimmed_start(s) == s.skip(s.len() - trimmed_start(s).len()),
        forall|i: int|
            0 <= i < s.len() - trimmed_start(s).len() ==> white_space(#[trigger] s[i]),
        trimmed_start(s).len() > 0 ==> !white_space(trimmed_start(s)[0]),
    decreases s.len(),
{
    if s.len() > 0 && white_space(s[0]) {
        let tail = s.skip(1);
        law_trimmed_start_loses_white_space_alone(tail);
        let kept = trimmed_start(s);
        assert(kept =~= s.skip(s.len() - kept.len()));
        assert forall|i: int| 0 <= i < s.len() - kept.len() implies white_space(
            #[trigger] s[i],
        ) by {
            if i > 0 {
                assert(tail[i - 1] == s[i]);
            }
        }
    } else {
        assert(s =~= s.skip(0));
    }
}

/// Trimming leaves out the white space at both ends, and nothing else.
pub proof fn law_trimmed_loses_white_space_alone(s: Seq<char>)
    ensures
        exists|before: Seq<char>, after: Seq<char>|
            {
                &&& s == #[trigger] (before + trimmed(s) + after)
                &&& forall|i: int| 0 <= i < before.len() ==> white_space(#[trigger] before[i])
                &&& forall|i: int| 0 <= i < after.len() ==> white_space(#[trigger] after[i])
            },
        trimmed(s).len() > 0 ==> !white_space(trimmed(s)[0]) && !white_space(trimmed(s).last()),
{
    let tail = trimmed_start(s);
    law_trimmed_start_loses_white_space_alone(s);
    law_trimmed_end_loses_white_space_alone(tail);
    let kept = trimmed(s);
    let before = s.take(s.len() - tail.len());
    let after = tail.skip(kept.len() as int);
    assert(kept =~= tail.take(kept.len() as int));
    assert(tail =~= kept + after);
    assert(s =~= before + kept + after);
    assert forall|i: int| 0 <= i < before.len() implies white_space(#[trigger] before[i]) by {
        assert(before[i] == s[i]);
    }
    assert forall|i: int| 0 <= i < after.len() implies white_space(#[trigger] after[i]) by {
        assert(after[i] == tail[kept.len() + i]);
    }
}

/// The first characters of a text are a beginning of it: as many as are asked for, or all.
pub proof fn law_first_chars_are_a_beginning(s: Seq<char>, n: nat)
    ensures
        first_chars(s, n).is_prefix_of(s),
        first_chars(s, n).len() == (if s.len() < n { s.len() } else { n }),
{
    assert(s =~= s.take(s.len() as int));
}

/// A text holds another exactly where it is that other one with something before and after it.
pub proof fn law_part_has_something_around_it(s: Seq<char>, part: Seq<char>)
    ensures
        has_part(s, part) <==> exists|before: Seq<char>, after: Seq<char>|
            s == #[trigger] (before + part + after),
{
    if has_part(s, part) {
        let i = choose|i: int| occurs_at(s, part, i);
        assert(s =~= s.take(i) + part + s.skip(i + part.len()));
    }
    if exists|before: Seq<char>, after: Seq<char>| s == #[trigger] (before + part + after) {
        let (before, after) = choose|before: Seq<char>, after: Seq<char>|
            s == #[trigger] (before + part + after);
        let i = before.len() as int;
        assert(s.subrange(i, i + part.len()) =~= part);
        assert(occurs_at(s, part, i));
    }
}

/// The lines of a text, from its first on. What stands before the first `\n` is a line, but for the
/// one `\r` that may be before it, and the lines of what follows come next. A text without `\n` is
/// one line, and an empty one has none.
pub proof fn law_lines_end_at_line_feeds(line: Seq<char>, rest: Seq<char>)
    requires
        forall|i: int| 0 <= i < line.len() ==> #[trigger] line[i] != '\n',
    ensures
        lines_of(seq![]) == Seq::<Seq<char>>::empty(),
        line.len() > 0 ==> lines_of(line) == seq![line],
        line.len() == 0 || line.last() != '\r' ==> lines_of(line + seq!['\n'] + rest) == seq![line]
            + lines_of(rest),
        lines_of(line + seq!['\r', '\n'] + rest) == seq![line] + lines_of(rest),
{
    if line.len() > 0 {
        line.index_of_first_ensures('\n');
        assert(lines_of(line) =~= seq![line]);
    }
    lemma_first_line(line, rest);
    let returned = line.push('\r');
    lemma_first_line(returned, rest);
    assert(returned.drop_last() =~= line);
    assert(returned + seq!['\n'] + rest =~= line + seq!['\r', '\n'] + rest);
}

proof fn lemma_first_line(line: Seq<char>, rest: Seq<char>)
    requires
        forall|i: int| 0 <= i < line.len() ==> #[trigger] line[i] != '\n',
    ensures
        lines_of(line + seq!['\n'] + rest) == seq![without_return(line)] + lines_of(rest),
{
    let s = line + seq!['\n'] + rest;
    let n = line.len() as int;
    s.index_of_first_ensures('\n');
    assert(s[n] == '\n');
    assert(s.contains('\n'));
    assert(forall|i: int| 0 <= i < n ==> s[i] == line[i]);
    assert(s.index_of_first('\n') == Some(n));
    assert(s.take(n) =~= line);
    assert(s.skip(n + 1) =~= rest);
}

/// Joined texts are one text where there is one, nothing where there is none, and where there are
/// more, those of any beginning and those of the rest, each joined, with the separator between.
pub proof fn law_join_is_piecewise(
    a: Seq<Seq<char>>,
    b: Seq<Seq<char>>,
    part: Seq<char>,
    sep: Seq<char>,
)
    ensures
        joined(seq![], sep) == Seq::<char>::empty(),
        joined(seq![part], sep) == part,
        a.len() > 0 && b.len() > 0 ==> joined(a + b, sep) == joined(a, sep) + sep + joined(b, sep),
    decreases b.len(),
{
    if a.len() > 0 && b.len() > 0 {
        let head = b.drop_last();
        assert((a + b).drop_last() =~= a + head);
        assert((a + b).last() == b.last());
        if head.len() > 0 {
            law_join_is_piecewise(a, head, part, sep);
        } else {
            assert(a + head =~= a);
        }
        assert(joined(a + b, sep) =~= joined(a, sep) + sep + joined(b, sep));
    }
}

/// Every one of joined texts is in the result whole, with the separator on either side of it where
/// it is not at that end.
pub proof fn law_joined_texts_are_all_there(parts: Seq<Seq<char>>, sep: Seq<char>, i: int)
    requires
        0 <= i < parts.len(),
    ensures
        exists|before: Seq<char>, after: Seq<char>|
            {
                &&& joined(parts, sep) == #[trigger] (before + parts[i] + after)
                &&& if i == 0 {
                    before.len() == 0
                } else {
                    sep.is_suffix_of(before)
                }
                &&& if i == parts.len() - 1 {
                    after.len() == 0
                } else {
                    sep.is_prefix_of(after)
                }
            },
{
    let heads = parts.take(i);
    let tails = parts.skip(i + 1);
    let one = seq![parts[i]];
    let before = if i == 0 {
        seq![]
    } else {
        joined(heads, sep) + sep
    };
    let after = if i == parts.len() - 1 {
        seq![]
    } else {
        sep + joined(tails, sep)
    };
    law_join_is_piecewise(heads, one, parts[i], sep);
    law_join_is_piecewise(heads + one, tails, parts[i], sep);
    assert(parts =~= heads + one + tails);
    if i == 0 {
        assert(heads + one =~= one);
    }
    if i == parts.len() - 1 {
        assert(heads + one + tails =~= heads + one);
    }
    assert(joined(parts, sep) =~= before + parts[i] + after);
    if i > 0 {
        assert(before.skip(before.len() - sep.len()) =~= sep);
        assert(sep.is_suffix_of(before));
    }
    if i < parts.len() - 1 {
        assert(after.take(sep.len() as int) =~= sep);
    }
}

/// Texts in a row are those of any beginning in a row, and then those of the rest.
pub proof fn law_chain_is_piecewise(a: Seq<Seq<char>>, b: Seq<Seq<char>>, part: Seq<char>)
    ensures
        chained(seq![]) == Seq::<char>::empty(),
        chained(seq![part]) == part,
        chained(a + b) == chained(a) + chained(b),
    decreases b.len(),
{
    let one = seq![part];
    assert(one.drop_last() =~= Seq::<Seq<char>>::empty());
    assert(chained(one.drop_last()) == Seq::<char>::empty());
    assert(chained(one) =~= part);
    if b.len() > 0 {
        law_chain_is_piecewise(a, b.drop_last(), part);
        assert((a + b).drop_last() =~= a + b.drop_last());
        assert((a + b).last() == b.last());
        assert(chained(a + b) =~= chained(a) + chained(b));
    } else {
        assert(a + b =~= a);
        assert(chained(a + b) =~= chained(a) + chained(b));
    }
}

/// One more digit behind a number makes it ten times as much and the digit more, and a number below
/// ten is one digit.
pub proof fn law_decimal_grows_digit_by_digit(n: nat, d: nat)
    requires
        d < 10,
    ensures
        decimal(d) == seq![(48 + d) as char],
        n > 0 ==> decimal(n * 10 + d) == decimal(n).push((48 + d) as char),
        n > 0 ==> decimal(n)[0] != '0',
    decreases n,
{
    if n > 0 {
        assert((n * 10 + d) / 10 == n);
        assert((n * 10 + d) % 10 == d);
    }
    if n >= 10 {
        law_decimal_grows_digit_by_digit(n / 10, d);
        law_decimal_spells_the_number(n / 10);
        assert(decimal(n)[0] == decimal(n / 10)[0]);
    }
}

/// A text that spells a number is digits, with or without a `+` before them. A zero before digits
/// makes no difference, nor does a `+`. A number is read from its decimal notation exactly where it
/// fits 32 bits.
pub proof fn law_small_numbers_are_digits(s: Seq<char>, n: nat)
    ensures
        small_number(s) is Some ==> s.len() > 0 && (('0' <= s[0] <= '9') || (s[0] == '+' && s.len()
            > 1)) && forall|i: int| 1 <= i < s.len() ==> '0' <= #[trigger] s[i] <= '9',
        s.len() > 0 && (forall|i: int| 0 <= i < s.len() ==> '0' <= #[trigger] s[i] <= '9') ==> {
            &&& small_number(seq!['0'] + s) == small_number(s)
            &&& small_number(seq!['+'] + s) == small_number(s)
        },
        small_number(decimal(n)) == (if n <= u32::MAX {
            Some(n as u32)
        } else {
            None
        }),
{
    law_decimal_spells_the_number(n);
    assert('0' <= decimal(n)[0]);
    if small_number(s) is Some {
        if s[0] == '+' {
            assert forall|i: int| 1 <= i < s.len() implies '0' <= #[trigger] s[i] <= '9' by {
                assert(s.skip(1)[i - 1] == s[i]);
            }
        } else {
            assert('0' <= s[0] <= '9');
        }
    }
    if s.len() > 0 && (forall|i: int| 0 <= i < s.len() ==> '0' <= #[trigger] s[i] <= '9') {
        let zero = seq!['0'] + s;
        let plus = seq!['+'] + s;
        assert('0' <= s[0]);
        assert(plus.skip(1) =~= s);
        assert forall|i: int| 0 <= i < zero.len() implies '0' <= #[trigger] zero[i] <= '9' by {
            if i > 0 {
                assert(zero[i] == s[i - 1]);
            }
        }
        lemma_leading_zero(s);
    }
}

proof fn lemma_leading_zero(s: Seq<char>)
    ensures
        digits_value(seq!['0'] + s) == digits_value(s),
    decreases s.len(),
{
    let zero = seq!['0'] + s;
    if s.len() > 0 {
        lemma_leading_zero(s.drop_last());
        assert(zero.drop_last() =~= seq!['0'] + s.drop_last());
    } else {
        assert(zero.drop_last() =~= s);
        assert(digits_value(zero.drop_last()) == 0);
    }
}

/// How many characters the texts have together.
pub open spec fn total_len(parts: Seq<Seq<char>>) -> nat
    decreases parts.len(),
{
    if parts.len() == 0 {
        0
    } else {
        total_len(parts.drop_last()) + parts.last().len()
    }
}

/// Joined texts are as long as they are together, with one separator more between each two.
pub proof fn law_joined_texts_are_as_long_as_together(parts: Seq<Seq<char>>, sep: Seq<char>)
    requires
        sep.len() == 1,
    ensures
        parts.len() > 0 ==> joined(parts, sep).len() == total_len(parts) + parts.len() - 1,
    decreases parts.len(),
{
    if parts.len() > 0 {
        law_joined_texts_are_as_long_as_together(parts.drop_last(), sep);
        if parts.len() == 1 {
            assert(total_len(parts.drop_last()) == 0);
        }
    }
}

} // verus!
