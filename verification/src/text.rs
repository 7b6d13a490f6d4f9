//! Text: what the messages, file rows and addresses of the monitor are built from and read with.

use vstd::prelude::*;

verus! {

/// `String::push` appends one character at the end of the string.
pub assume_specification[ String::push ](s: &mut String, c: char)
    ensures
        final(s)@ == old(s)@.push(c),
;

/// `==` on `str` holds exactly when both hold the same characters in the same order.
pub assume_specification[ <str as PartialEq>::eq ](a: &str, b: &str) -> (same: bool)
    ensures
        same == (a@ == b@),
;

/// The texts that a list of strings holds.
pub open spec fn texts(list: Seq<String>) -> Seq<Seq<char>> {
    list.map_values(|s: String| s@)
}

/// The character for the digit `d`.
pub open spec fn digit_char(d: nat) -> char {
    (48 + d) as char
}

/// The character for the hexadecimal digit `d`, in lower case.
pub open spec fn hex_digit(d: nat) -> char {
    if d < 10 {
        digit_char(d)
    } else {
        (87 + d) as char
    }
}

/// The decimal digits of `n`, most significant first and without leading zeros.
pub open spec fn digits(n: nat) -> Seq<char>
    decreases n,
{
    if n < 10 {
        seq![digit_char(n)]
    } else {
        digits(n / 10).push(digit_char(n % 10))
    }
}

/// The decimal text of `n`, with a minus sign before a negative number.
pub open spec fn int_text(n: int) -> Seq<char> {
    if n < 0 {
        seq!['-'] + digits((-n) as nat)
    } else {
        digits(n as nat)
    }
}

fn push_digits(out: &mut String, n: u64)
    ensures
        final(out)@ == old(out)@ + digits(n as nat),
    decreases n,
{
    if n >= 10 {
        push_digits(out, n / 10);
    }
    let d: u8 = (n % 10) as u8;
    let c: char = (48u8 + d) as char;
    out.push(c);
    assert(c == digit_char((n % 10) as nat));
    assert(out@ =~= old(out)@ + digits(n as nat));
}

/// Writes `n` in decimal.
pub fn text_of_u64(n: u64) -> (text: String)
    ensures
        text@ == digits(n as nat),
{
    let mut out = String::new();
    push_digits(&mut out, n);
    assert(out@ =~= digits(n as nat));
    out
}

/// Writes `n` in decimal, with a minus sign before a negative number.
pub fn text_of_i64(n: i64) -> (text: String)
    ensures
        text@ == int_text(n as int),
{
    let mut out = String::new();
    if n < 0 {
        let size: u64 = (-(n + 1)) as u64 + 1;
        out.push('-');
        push_digits(&mut out, size);
        assert(out@ =~= int_text(n as int));
    } else {
        push_digits(&mut out, n as u64);
        assert(out@ =~= int_text(n as int));
    }
    out
}

/// The characters of `s`.
pub fn chars_of(s: &str) -> (chars: Vec<char>)
    ensures
        chars@ == s@,
{
    let mut chars: Vec<char> = Vec::new();
    for c in it: s.chars()
        invariant
            it.seq() == s@,
            chars@ == s@.take(it.index() as int),
    {
        chars.push(c);
        assert(chars@ =~= s@.take(it.index() + 1));
    }
    assert(chars@ =~= s@);
    chars
}

/// The text of `chars` from `from` up to, and without, `to`.
pub fn string_of(chars: &Vec<char>, from: usize, to: usize) -> (text: String)
    requires
        from <= to <= chars@.len(),
    ensures
        text@ == chars@.subrange(from as int, to as int),
{
    let mut out = String::new();
    let mut i: usize = from;
    while i < to
        invariant
            from <= i <= to <= chars@.len(),
            out@ == chars@.subrange(from as int, i as int),
        decreases to - i,
    {
        out.push(chars[i]);
        i += 1;
        assert(out@ =~= chars@.subrange(from as int, i as int));
    }
    out
}

/// Whether `s` begins with `prefix`.
pub open spec fn begins_with(s: Seq<char>, prefix: Seq<char>) -> bool {
    prefix.len() <= s.len() && s.subrange(0, prefix.len() as int) == prefix
}

/// Whether `s` ends with `suffix`.
pub open spec fn finishes_with(s: Seq<char>, suffix: Seq<char>) -> bool {
    suffix.len() <= s.len() && s.subrange(s.len() - suffix.len(), s.len() as int) == suffix
}

fn found_at(chars: &Vec<char>, part: &Vec<char>, at: usize) -> (found: bool)
    requires
        at + part@.len() <= chars@.len(),
    ensures
        found == (chars@.subrange(at as int, at + part@.len()) == part@),
{
    let total: usize = chars.len();
    let mut i: usize = 0;
    while i < part.len()
        invariant
            at + part@.len() <= chars@.len() == total,
            i <= part@.len(),
            forall|k: int| 0 <= k < i ==> chars@[at + k] == part@[k],
        decreases part@.len() - i,
    {
        if chars[at + i] != part[i] {
            assert(chars@.subrange(at as int, at + part@.len())[i as int] != part@[i as int]);
            return false;
        }
        i += 1;
    }
    assert(chars@.subrange(at as int, at + part@.len()) =~= part@);
    true
}

/// Whether `s` begins with `prefix`.
pub fn starts_with(s: &str, prefix: &str) -> (yes: bool)
    ensures
        yes == begins_with(s@, prefix@),
{
    let chars = chars_of(s);
    let part = chars_of(prefix);
    part.len() <= chars.len() && found_at(&chars, &part, 0)
}

/// What follows `prefix` in `s`, if `s` begins with it.
pub fn strip_prefix(s: &str, prefix: &str) -> (rest: Option<String>)
    ensures
        rest is Some <==> begins_with(s@, prefix@),
        rest matches Some(r) ==> r@ == s@.subrange(prefix@.len() as int, s@.len() as int),
{
    let chars = chars_of(s);
    let part = chars_of(prefix);
    if part.len() <= chars.len() && found_at(&chars, &part, 0) {
        Some(string_of(&chars, part.len(), chars.len()))
    } else {
        None
    }
}

/// What precedes `suffix` in `s`, if `s` ends with it.
pub fn strip_suffix(s: &str, suffix: &str) -> (rest: Option<String>)
    ensures
        rest is Some <==> finishes_with(s@, suffix@),
        rest matches Some(r) ==> r@ == s@.subrange(0, s@.len() - suffix@.len()),
{
    let chars = chars_of(s);
    let part = chars_of(suffix);
    if part.len() <= chars.len() && found_at(&chars, &part, chars.len() - part.len()) {
        Some(string_of(&chars, 0, chars.len() - part.len()))
    } else {
        None
    }
}

/// Whether `c` has the Unicode property `White_Space`.
pub open spec fn is_space(c: char) -> bool {
    let n = c as u32;
    ||| 0x9 <= n <= 0xd
    ||| n == 0x20 || n == 0x85 || n == 0xa0 || n == 0x1680
    ||| 0x2000 <= n <= 0x200a
    ||| n == 0x2028 || n == 0x2029 || n == 0x202f || n == 0x205f || n == 0x3000
}

/// `s` without the white space before its first other character.
pub open spec fn trimmed_start(s: Seq<char>) -> Seq<char>
    decreases s.len(),
{
    if s.len() > 0 && is_space(s[0]) {
        trimmed_start(s.subrange(1, s.len() as int))
    } else {
        s
    }
}

/// `s` without the white space behind its last other character.
pub open spec fn trimmed_end(s: Seq<char>) -> Seq<char>
    decreases s.len(),
{
    if s.len() > 0 && is_space(s.last()) {
        trimmed_end(s.drop_last())
    } else {
        s
    }
}

/// `s` without the white space at both ends.
pub open spec fn trimmed(s: Seq<char>) -> Seq<char> {
    trimmed_end(trimmed_start(s))
}

/// Whether `c` is white space.
pub fn is_whitespace(c: char) -> (yes: bool)
    ensures
        yes == is_space(c),
{
    let n: u32 = c as u32;
    (0x9 <= n && n <= 0xd) || n == 0x20 || n == 0x85 || n == 0xa0 || n == 0x1680
        || (0x2000 <= n && n <= 0x200a) || n == 0x2028 || n == 0x2029 || n == 0x202f
        || n == 0x205f || n == 0x3000
}

/// Cuts the white space at both ends of `s` off.
pub fn trim(s: &str) -> (text: String)
    ensures
        text@ == trimmed(s@),
{
    let chars = chars_of(s);
    let mut from: usize = 0;
    assert(chars@.subrange(0, chars@.len() as int) =~= chars@);
    while from < chars.len() && is_whitespace(chars[from])
        invariant
            from <= chars@.len(),
            trimmed_start(chars@) == trimmed_start(chars@.subrange(from as int, chars@.len() as int)),
        ensures
            from <= chars@.len(),
            trimmed_start(chars@) == trimmed_start(chars@.subrange(from as int, chars@.len() as int)),
            from == chars@.len() || !is_space(chars@[from as int]),
        decreases chars@.len() - from,
    {
        let ghost rest = chars@.subrange(from as int, chars@.len() as int);
        assert(rest.subrange(1, rest.len() as int) =~= chars@.subrange(
            from + 1,
            chars@.len() as int,
        ));
        from += 1;
    }
    let ghost body = chars@.subrange(from as int, chars@.len() as int);
    assert(trimmed_start(chars@) == body);
    let mut to: usize = chars.len();
    assert(chars@.subrange(from as int, to as int) == body);
    while from < to && is_whitespace(chars[to - 1])
        invariant
            from <= to <= chars@.len(),
            trimmed_end(body) == trimmed_end(chars@.subrange(from as int, to as int)),
        ensures
            from <= to <= chars@.len(),
            trimmed_end(body) == trimmed_end(chars@.subrange(from as int, to as int)),
            from == to || !is_space(chars@[to - 1]),
        decreases to - from,
    {
        let ghost part = chars@.subrange(from as int, to as int);
        assert(part.last() == chars@[to - 1]);
        assert(part.drop_last() =~= chars@.subrange(from as int, to - 1));
        to -= 1;
    }
    assert(from < to ==> chars@.subrange(from as int, to as int).last() == chars@[to - 1]);
    string_of(&chars, from, to)
}

/// Whether one of `list` is the text `s`.
pub fn contains_text(list: &Vec<String>, s: &str) -> (yes: bool)
    ensures
        yes == texts(list@).contains(s@),
{
    let mut i: usize = 0;
    while i < list.len()
        invariant
            i <= list@.len(),
            forall|k: int| 0 <= k < i ==> list@[k]@ != s@,
        decreases list@.len() - i,
    {
        if *list[i].as_str() == *s {
            assert(texts(list@)[i as int] == s@);
            return true;
        }
        i += 1;
    }
    assert(!texts(list@).contains(s@)) by {
        if texts(list@).contains(s@) {
            let k = choose|k: int| 0 <= k < texts(list@).len() && texts(list@)[k] == s@;
            assert(list@[k]@ == s@);
        }
    }
    false
}

/// The texts of `parts` one behind the other, with `sep` between two of them.
pub open spec fn joined(parts: Seq<Seq<char>>, sep: Seq<char>) -> Seq<char>
    decreases parts.len(),
{
    if parts.len() == 0 {
        Seq::empty()
    } else if parts.len() == 1 {
        parts[0]
    } else {
        joined(parts.drop_last(), sep) + sep + parts.last()
    }
}

/// Joins `parts` with `sep` between them.
pub fn join(parts: &Vec<String>, sep: &str) -> (text: String)
    ensures
        text@ == joined(texts(parts@), sep@),
{
    let mut out = String::new();
    let mut i: usize = 0;
    while i < parts.len()
        invariant
            i <= parts@.len(),
            out@ == joined(texts(parts@).take(i as int), sep@),
        decreases parts@.len() - i,
    {
        let ghost now = texts(parts@).take(i + 1);
        assert(now.drop_last() =~= texts(parts@).take(i as int));
        assert(now.last() == parts@[i as int]@);
        if i > 0 {
            out.append(sep);
        }
        out.append(parts[i].as_str());
        assert(i == 0 ==> out@ =~= now[0]);
        i += 1;
    }
    assert(texts(parts@).take(parts@.len() as int) =~= texts(parts@));
    out
}

/// The pieces of `s` between the places where `sep` stands. There is one piece more than there
/// are such places.
pub open spec fn pieces(s: Seq<char>, sep: char) -> Seq<Seq<char>>
    decreases s.len(),
{
    if s.len() == 0 {
        seq![Seq::empty()]
    } else {
        let before = pieces(s.drop_last(), sep);
        if s.last() == sep {
            before.push(Seq::empty())
        } else {
            before.drop_last().push(before.last().push(s.last()))
        }
    }
}

/// Splits `s` where `sep` stands.
pub fn split(s: &str, sep: char) -> (parts: Vec<String>)
    ensures
        texts(parts@) == pieces(s@, sep),
        parts@.len() > 0,
{
    let chars = chars_of(s);
    let mut done: Vec<String> = Vec::new();
    let mut current = String::new();
    let mut i: usize = 0;
    assert(texts(done@).push(current@) =~= pieces(chars@.take(0), sep));
    while i < chars.len()
        invariant
            i <= chars@.len(),
            pieces(chars@.take(i as int), sep) == texts(done@).push(current@),
        decreases chars@.len() - i,
    {
        let ghost now = chars@.take(i + 1);
        assert(now.drop_last() =~= chars@.take(i as int));
        let ghost before = texts(done@).push(current@);
        assert(before.drop_last() =~= texts(done@));
        if chars[i] == sep {
            done.push(current);
            current = String::new();
            assert(texts(done@) =~= before);
        } else {
            current.push(chars[i]);
        }
        i += 1;
    }
    assert(chars@.take(chars@.len() as int) =~= s@);
    let ghost all = texts(done@).push(current@);
    done.push(current);
    assert(texts(done@) =~= all);
    done
}

/// A line without the carriage return at its end.
pub open spec fn without_return(line: Seq<char>) -> Seq<char> {
    if line.len() > 0 && line.last() == '\r' {
        line.drop_last()
    } else {
        line
    }
}

/// The lines of `s`: a line ends at a line feed, or at a carriage return with a line feed behind
/// it, and what stands behind the last line feed is a line unless it is empty.
pub open spec fn lines_of(s: Seq<char>) -> Seq<Seq<char>> {
    let parts = pieces(s, '\n');
    let ended = parts.drop_last().map_values(|line: Seq<char>| without_return(line));
    if parts.last().len() == 0 {
        ended
    } else {
        ended.push(parts.last())
    }
}

/// Splits `s` into its lines.
pub fn lines(s: &str) -> (all: Vec<String>)
    ensures
        texts(all@) == lines_of(s@),
{
    let parts = split(s, '\n');
    let ghost spec_parts = pieces(s@, '\n');
    assert(parts@.len() == spec_parts.len());
    let mut all: Vec<String> = Vec::new();
    let last: usize = parts.len() - 1;
    let ghost ended = spec_parts.drop_last().map_values(|line: Seq<char>| without_return(line));
    let mut i: usize = 0;
    while i < last
        invariant
            i <= last < parts@.len(),
            texts(parts@) == spec_parts,
            last == spec_parts.len() - 1,
            ended == spec_parts.drop_last().map_values(|line: Seq<char>| without_return(line)),
            texts(all@) == ended.take(i as int),
        decreases last - i,
    {
        let chars = chars_of(parts[i].as_str());
        assert(spec_parts[i as int] == parts@[i as int]@);
        assert(chars@.subrange(0, chars@.len() as int) =~= chars@);
        let line = if chars.len() > 0 && chars[chars.len() - 1] == '\r' {
            string_of(&chars, 0, chars.len() - 1)
        } else {
            string_of(&chars, 0, chars.len())
        };
        let ghost before = texts(all@);
        assert(line@ == ended[i as int]);
        all.push(line);
        assert(texts(all@) =~= before.push(line@));
        assert(ended.take(i + 1) =~= ended.take(i as int).push(ended[i as int]));
        i += 1;
    }
    assert(ended.take(last as int) =~= ended);
    assert(spec_parts.last() == parts@[last as int]@);
    if !parts[last].as_str().is_empty() {
        all.push(parts[last].clone());
        assert(texts(all@) =~= ended.push(spec_parts.last()));
    }
    all
}

/// Whether `c` is a decimal digit.
pub open spec fn is_digit(c: char) -> bool {
    '0' <= c <= '9'
}

/// Whether `s` is one digit or more and nothing else.
pub open spec fn all_digits(s: Seq<char>) -> bool {
    s.len() > 0 && forall|i: int| 0 <= i < s.len() ==> is_digit(#[trigger] s[i])
}

/// The number that the digits `s` write.
pub open spec fn digits_value(s: Seq<char>) -> nat
    decreases s.len(),
{
    if s.len() == 0 {
        0
    } else {
        10 * digits_value(s.drop_last()) + (s.last() as u32 - 48) as nat
    }
}

/// The number that `s` writes: digits, with at most one sign before them.
pub open spec fn written_int(s: Seq<char>) -> Option<int> {
    if s.len() > 0 && (s[0] == '-' || s[0] == '+') {
        let rest = s.subrange(1, s.len() as int);
        if all_digits(rest) {
            Some(if s[0] == '-' { -(digits_value(rest) as int) } else { digits_value(rest) as int })
        } else {
            None
        }
    } else if all_digits(s) {
        Some(digits_value(s) as int)
    } else {
        None
    }
}

/// The 64-bit number that `s` writes.
pub open spec fn written_i64(s: Seq<char>) -> Option<i64> {
    match written_int(s) {
        Some(n) => if i64::MIN <= n <= i64::MAX {
            Some(n as i64)
        } else {
            None
        },
        None => None,
    }
}

proof fn lemma_digits_value_grows(s: Seq<char>, i: int)
    requires
        0 <= i <= s.len(),
        forall|k: int| 0 <= k < s.len() ==> is_digit(#[trigger] s[k]),
    ensures
        digits_value(s.take(i)) <= digits_value(s),
    decreases s.len() - i,
{
    if i == s.len() {
        assert(s.take(i) =~= s);
    } else {
        assert(s.take(i + 1).drop_last() =~= s.take(i));
        lemma_digits_value_grows(s, i + 1);
    }
}

/// The digits of `chars` from `from` on as a number, unless it is above `2^63`.
fn small_digits_value(chars: &Vec<char>, from: usize) -> (value: Option<u64>)
    requires
        from <= chars@.len(),
    ensures
        ({
            let s = chars@.subrange(from as int, chars@.len() as int);
            &&& value is Some <==> all_digits(s) && digits_value(s) <= 0x8000_0000_0000_0000
            &&& value matches Some(v) ==> v == digits_value(s)
        }),
{
    let ghost s = chars@.subrange(from as int, chars@.len() as int);
    if from == chars.len() {
        return None;
    }
    let mut value: u64 = 0;
    let mut i: usize = from;
    while i < chars.len()
        invariant
            from <= i <= chars@.len(),
            s == chars@.subrange(from as int, chars@.len() as int),
            forall|k: int| 0 <= k < i - from ==> is_digit(#[trigger] s[k]),
            value == digits_value(s.take(i - from)),
            value <= 0x8000_0000_0000_0000,
        decreases chars@.len() - i,
    {
        let c: char = chars[i];
        assert(s[i - from] == c);
        if c < '0' || c > '9' {
            return None;
        }
        let d: u64 = (c as u32 - 48) as u64;
        let next: u128 = value as u128 * 10 + d as u128;
        assert(s.take(i + 1 - from).drop_last() =~= s.take(i - from));
        assert(next == digits_value(s.take(i + 1 - from)));
        if next > 0x8000_0000_0000_0000 {
            proof {
                if all_digits(s) {
                    lemma_digits_value_grows(s, i + 1 - from);
                }
            }
            return None;
        }
        value = next as u64;
        i += 1;
    }
    assert(s.take(s.len() as int) =~= s);
    Some(value)
}

/// Reads a 64-bit number.
pub fn parse_i64(s: &str) -> (number: Option<i64>)
    ensures
        number == written_i64(s@),
{
    let chars = chars_of(s);
    assert(chars@.subrange(0, chars@.len() as int) =~= chars@);
    if chars.len() == 0 {
        return None;
    }
    let signed: bool = chars[0] == '-' || chars[0] == '+';
    let from: usize = if signed { 1 } else { 0 };
    match small_digits_value(&chars, from) {
        None => None,
        Some(size) => {
            if chars[0] == '-' {
                if size == 0x8000_0000_0000_0000 {
                    Some(i64::MIN)
                } else {
                    Some(-(size as i64))
                }
            } else if size < 0x8000_0000_0000_0000 {
                Some(size as i64)
            } else {
                None
            }
        },
    }
}

/// `count` spaces.
pub open spec fn spaces(count: int) -> Seq<char> {
    Seq::new(if count > 0 { count as nat } else { 0 }, |i: int| ' ')
}

/// `s` moved to the left in a column of `width` characters.
pub open spec fn padded_left(s: Seq<char>, width: int) -> Seq<char> {
    s + spaces(width - s.len())
}

/// `s` moved to the right in a column of `width` characters.
pub open spec fn padded_right(s: Seq<char>, width: int) -> Seq<char> {
    spaces(width - s.len()) + s
}

fn push_spaces(out: &mut String, from: usize, to: usize)
    ensures
        final(out)@ == old(out)@ + spaces(to - from),
{
    let ghost start = out@;
    let mut i: usize = from;
    assert(out@ =~= start + spaces(i - from));
    while i < to
        invariant
            i == from || from <= i <= to,
            out@ == start + spaces(i - from),
        decreases to - i,
    {
        out.push(' ');
        i += 1;
        assert(out@ =~= start + spaces(i - from));
    }
    assert(i == from || i == to);
    assert(spaces(i - from) =~= spaces(to - from));
}

/// Sets `s` at the left of a column of `width` characters.
pub fn pad_left(s: &str, width: usize) -> (text: String)
    ensures
        text@ == padded_left(s@, width as int),
{
    let mut out = s.to_owned();
    let size: usize = s.unicode_len();
    push_spaces(&mut out, size, width);
    out
}

/// Sets `s` at the right of a column of `width` characters.
pub fn pad_right(s: &str, width: usize) -> (text: String)
    ensures
        text@ == padded_right(s@, width as int),
{
    let mut out = String::new();
    let size: usize = s.unicode_len();
    push_spaces(&mut out, size, width);
    out.append(s);
    assert(out@ =~= padded_right(s@, width as int));
    out
}

/// What a list holds after one more item.
pub proof fn lemma_pushed_contains<A>(s: Seq<A>, a: A)
    ensures
        forall|x: A| #[trigger] s.push(a).contains(x) <==> s.contains(x) || x == a,
{
    let next = s.push(a);
    assert forall|x: A| #[trigger] next.contains(x) <==> s.contains(x) || x == a by {
        if s.contains(x) {
            let k = choose|k: int| 0 <= k < s.len() && s[k] == x;
            assert(next[k] == x);
        }
        assert(next[s.len() as int] == a);
        if next.contains(x) && x != a {
            let k = choose|k: int| 0 <= k < next.len() && next[k] == x;
            assert(s[k] == x);
        }
    }
}

/// Whether the character `c` does not stand in `s`.
pub open spec fn free_of(s: Seq<char>, c: char) -> bool {
    forall|i: int| 0 <= i < s.len() ==> #[trigger] s[i] != c
}

proof fn lemma_pieces_more(s: Seq<char>, t: Seq<char>, sep: char)
    requires
        free_of(t, sep),
    ensures
        pieces(s + t, sep) == pieces(s, sep).drop_last().push(pieces(s, sep).last() + t),
        pieces(s, sep).len() > 0,
    decreases t.len(),
{
    lemma_pieces_some(s, sep);
    let first = pieces(s, sep);
    if t.len() == 0 {
        assert(s + t =~= s);
        assert(first.last() + t =~= first.last());
        assert(first.drop_last().push(first.last()) =~= first);
    } else {
        let rest = t.drop_last();
        assert((s + t).drop_last() =~= s + rest);
        assert forall|i: int| 0 <= i < rest.len() implies #[trigger] rest[i] != sep by {
            assert(t[i] != sep);
        }
        lemma_pieces_more(s, rest, sep);
        let before = pieces(s + rest, sep);
        assert((s + t).last() == t.last());
        assert(t[t.len() - 1] != sep);
        assert(before.last() == first.last() + rest);
        assert((first.last() + rest).push(t.last()) =~= first.last() + t);
        assert(before.drop_last() =~= first.drop_last());
        assert(pieces(s + t, sep) =~= first.drop_last().push(first.last() + t));
    }
}

proof fn lemma_pieces_some(s: Seq<char>, sep: char)
    ensures
        pieces(s, sep).len() > 0,
    decreases s.len(),
{
    if s.len() > 0 {
        lemma_pieces_some(s.drop_last(), sep);
    }
}

/// Splitting undoes joining: parts that do not hold the separator come back as they were.
pub proof fn split_undoes_join(parts: Seq<Seq<char>>, sep: char)
    requires
        parts.len() > 0,
        forall|i: int| 0 <= i < parts.len() ==> free_of(#[trigger] parts[i], sep),
    ensures
        pieces(joined(parts, seq![sep]), sep) == parts,
    decreases parts.len(),
{
    let empty = Seq::<char>::empty();
    assert(free_of(parts.last(), sep)) by {
        assert(free_of(parts[parts.len() - 1], sep));
    }
    if parts.len() == 1 {
        lemma_pieces_more(empty, parts[0], sep);
        assert(empty + parts[0] =~= parts[0]);
        assert(pieces(empty, sep) =~= seq![empty]);
        assert(pieces(parts[0], sep) =~= parts);
    } else {
        let rest = parts.drop_last();
        assert forall|i: int| 0 <= i < rest.len() implies free_of(#[trigger] rest[i], sep) by {
            assert(free_of(parts[i], sep));
        }
        split_undoes_join(rest, sep);
        let start = joined(rest, seq![sep]) + seq![sep];
        assert(start.drop_last() =~= joined(rest, seq![sep]));
        assert(pieces(start, sep) == rest.push(empty));
        lemma_pieces_more(start, parts.last(), sep);
        assert(empty + parts.last() =~= parts.last());
        assert(rest.push(empty).drop_last() =~= rest);
        assert(rest.push(parts.last()) =~= parts);
    }
}

proof fn lemma_digits(n: nat)
    ensures
        all_digits(digits(n)),
        digits_value(digits(n)) == n,
    decreases n,
{
    reveal_with_fuel(digits_value, 2);
    if n < 10 {
        assert(digits(n).drop_last() =~= Seq::<char>::empty());
    } else {
        lemma_digits(n / 10);
        assert(digits(n).drop_last() =~= digits(n / 10));
        let d = digits(n);
        assert forall|i: int| 0 <= i < d.len() implies is_digit(#[trigger] d[i]) by {
            if i < d.len() - 1 {
                assert(is_digit(digits(n / 10)[i]));
            }
        }
    }
}

/// Reading an integer undoes writing it, and what is written holds only digits and a minus sign.
pub proof fn reading_undoes_writing(n: i64)
    ensures
        written_i64(int_text(n as int)) == Some(n),
        forall|i: int|
            0 <= i < int_text(n as int).len() ==> is_digit(#[trigger] int_text(n as int)[i])
                || int_text(n as int)[i] == '-',
{
    let t = int_text(n as int);
    if n < 0 {
        lemma_digits((-n) as nat);
        assert(t.subrange(1, t.len() as int) =~= digits((-n) as nat));
        assert forall|i: int| 0 <= i < t.len() implies is_digit(#[trigger] t[i]) || t[i] == '-' by {
            if i > 0 {
                assert(is_digit(digits((-n) as nat)[i - 1]));
            }
        }
    } else {
        lemma_digits(n as nat);
        assert(is_digit(t[0]));
    }
}

/// What is written of a count holds only digits.
pub proof fn counts_are_digits(n: nat)
    ensures
        all_digits(digits(n)),
{
    lemma_digits(n);
}

} // verus!
