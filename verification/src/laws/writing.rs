//! What holds of texts that are cut, padded and written.

use vstd::prelude::*;

use crate::decimal::{made_parts, zero_spec, Decimal};
use crate::json::{field, JsonView};
use crate::laws::measures::in_range;
use crate::state::unknown;
use crate::text::{
    all_digits, digits_value, free_of, is_digit, is_space, joined, lines_of, padded_left,
    padded_right, split_undoes_join, trimmed, trimmed_end, trimmed_start, without_return,
    written_int,
};

verus! {

proof fn lemma_trimmed_start(s: Seq<char>)
    ensures
        exists|n: int|
            0 <= n <= s.len() && trimmed_start(s) == #[trigger] s.subrange(n, s.len() as int)
                && forall|i: int| 0 <= i < n ==> is_space(#[trigger] s[i]),
        trimmed_start(s).len() > 0 ==> !is_space(trimmed_start(s)[0]),
    decreases s.len(),
{
    if s.len() > 0 && is_space(s[0]) {
        let rest = s.subrange(1, s.len() as int);
        lemma_trimmed_start(rest);
        let n = choose|n: int|
            0 <= n <= rest.len() && trimmed_start(rest) == #[trigger] rest.subrange(
                n,
                rest.len() as int,
            ) && forall|i: int| 0 <= i < n ==> is_space(#[trigger] rest[i]);
        assert(rest.subrange(n, rest.len() as int) =~= s.subrange(n + 1, s.len() as int));
        assert forall|i: int| 0 <= i < n + 1 implies is_space(#[trigger] s[i]) by {
            if i > 0 {
                assert(s[i] == rest[i - 1]);
            }
        }
    } else {
        assert(s.subrange(0, s.len() as int) =~= s);
    }
}

proof fn lemma_trimmed_end(s: Seq<char>)
    ensures
        exists|n: int|
            0 <= n <= s.len() && trimmed_end(s) == #[trigger] s.subrange(0, n) && forall|i: int|
                n <= i < s.len() ==> is_space(#[trigger] s[i]),
        trimmed_end(s).len() > 0 ==> !is_space(trimmed_end(s).last()),
    decreases s.len(),
{
    if s.len() > 0 && is_space(s.last()) {
        let rest = s.drop_last();
        lemma_trimmed_end(rest);
        let n = choose|n: int|
            0 <= n <= rest.len() && trimmed_end(rest) == #[trigger] rest.subrange(0, n) && forall|
                i: int,
            |
                n <= i < rest.len() ==> is_space(#[trigger] rest[i]);
        assert(rest.subrange(0, n) =~= s.subrange(0, n));
        assert forall|i: int| n <= i < s.len() implies is_space(#[trigger] s[i]) by {
            if i < rest.len() {
                assert(s[i] == rest[i]);
            }
        }
    } else {
        assert(s.subrange(0, s.len() as int) =~= s);
    }
}

/// To trim a text is to cut white space off at both ends, all of it and nothing else.
pub proof fn only_white_space_is_trimmed(s: Seq<char>)
    ensures
        exists|a: int, b: int|
            0 <= a <= b <= s.len() && trimmed(s) == #[trigger] s.subrange(a, b) && (forall|i: int|
                0 <= i < a || b <= i < s.len() ==> is_space(#[trigger] s[i])),
        trimmed(s).len() > 0 ==> !is_space(trimmed(s)[0]) && !is_space(trimmed(s).last()),
{
    lemma_trimmed_start(s);
    let t = trimmed_start(s);
    lemma_trimmed_end(t);
    let a = choose|n: int|
        0 <= n <= s.len() && t == #[trigger] s.subrange(n, s.len() as int) && forall|i: int|
            0 <= i < n ==> is_space(#[trigger] s[i]);
    let n = choose|n: int|
        0 <= n <= t.len() && trimmed_end(t) == #[trigger] t.subrange(0, n) && forall|i: int|
            n <= i < t.len() ==> is_space(#[trigger] t[i]);
    assert(t.subrange(0, n) =~= s.subrange(a, a + n));
    assert forall|i: int| 0 <= i < a || a + n <= i < s.len() implies is_space(#[trigger] s[i]) by {
        if i >= a + n {
            assert(s[i] == t[i - a]);
        }
    }
    if n > 0 {
        assert(trimmed(s)[0] == t[0]);
    }
}

/// White space is what it is: the blank, the tabulator and the ends of lines are, letters, digits and
/// slashes are not.
pub proof fn white_space_is_blank()
    ensures
        is_space(' ') && is_space('\t') && is_space('\n') && is_space('\r'),
        !is_space('a') && !is_space('Z') && !is_space('0') && !is_space('/') && !is_space('_'),
{
}

/// A text in a column fills it up with blanks behind or before it; one that is longer stays whole.
pub proof fn columns_are_filled_up(s: Seq<char>, width: nat)
    ensures
        s.len() <= width ==> padded_left(s, width as int).len() == width && padded_right(
            s,
            width as int,
        ).len() == width,
        s.len() >= width ==> padded_left(s, width as int) == s && padded_right(s, width as int)
            == s,
        padded_left(s, width as int).subrange(0, s.len() as int) == s,
        padded_right(s, width as int).subrange(
            padded_right(s, width as int).len() - s.len(),
            padded_right(s, width as int).len() as int,
        ) == s,
        forall|i: int|
            s.len() <= i < padded_left(s, width as int).len() ==> #[trigger] padded_left(
                s,
                width as int,
            )[i] == ' ',
        forall|i: int|
            0 <= i < padded_right(s, width as int).len() - s.len() ==> #[trigger] padded_right(
                s,
                width as int,
            )[i] == ' ',
{
    let (l, r) = (padded_left(s, width as int), padded_right(s, width as int));
    assert(l.subrange(0, s.len() as int) =~= s);
    assert(r.subrange(r.len() - s.len(), r.len() as int) =~= s);
    if s.len() >= width {
        assert(l =~= s);
        assert(r =~= s);
    }
}

/// The first field of a name counts, and a field of another name has no part in it.
pub proof fn fields_are_found_by_their_names(
    fields: Seq<(Seq<char>, JsonView)>,
    key: Seq<char>,
    k: int,
)
    ensures
        (0 <= k < fields.len() && fields[k].0 == key && forall|i: int|
            0 <= i < k ==> (#[trigger] fields[i]).0 != key) ==> field(
            JsonView::Object(fields),
            key,
        ) == Some(fields[k].1),
        (forall|i: int| 0 <= i < fields.len() ==> (#[trigger] fields[i]).0 != key) ==> field(
            JsonView::Object(fields),
            key,
        ) is None,
    decreases fields.len(),
{
    if fields.len() > 0 {
        let rest = fields.subrange(1, fields.len() as int);
        fields_are_found_by_their_names(rest, key, k - 1);
        if 0 < k < fields.len() && fields[k].0 == key && forall|i: int|
            0 <= i < k ==> (#[trigger] fields[i]).0 != key {
            assert(fields[0].0 != key);
            assert forall|i: int| 0 <= i < k - 1 implies (#[trigger] rest[i]).0 != key by {
                assert(rest[i] == fields[i + 1]);
            }
            assert(rest[k - 1] == fields[k]);
        }
        if forall|i: int| 0 <= i < fields.len() ==> (#[trigger] fields[i]).0 != key {
            assert(fields[0].0 != key);
            assert forall|i: int| 0 <= i < rest.len() implies (#[trigger] rest[i]).0 != key by {
                assert(rest[i] == fields[i + 1]);
            }
        }
    }
}

/// The other sign of a number has the same size, and a number without its sign is not below zero.
pub proof fn signs_leave_the_size(d: Decimal)
    requires
        in_range(d),
    ensures
        d.negated_spec().mantissa_spec() == -d.mantissa_spec(),
        d.negated_spec().scale_spec() == d.scale_spec(),
        d.abs_spec().mantissa_spec() == (if d.mantissa_spec() < 0 {
            -d.mantissa_spec()
        } else {
            d.mantissa_spec()
        }),
        d.abs_spec().scale_spec() == d.scale_spec(),
        d.positive() <==> d.mantissa_spec() > 0,
        d.negative() <==> d.mantissa_spec() < 0,
        zero_spec().mantissa_spec() == 0,
        !zero_spec().positive() && !zero_spec().negative(),
{
    made_parts(-d.mantissa_spec(), d.scale_spec());
    made_parts(0, 0);
}

/// A text of lines is read as these lines, whether the last one is ended or not, where no line holds
/// the end of one.
pub proof fn lines_come_back(lines: Seq<Seq<char>>)
    requires
        lines.len() > 0,
        forall|i: int|
            0 <= i < lines.len() ==> free_of(#[trigger] lines[i], '\n') && free_of(lines[i], '\r'),
        lines.last().len() > 0,
    ensures
        lines_of(joined(lines, seq!['\n'])) == lines,
        lines_of(joined(lines, seq!['\n']) + seq!['\n']) == lines,
{
    let none = Seq::<char>::empty();
    assert forall|i: int| 0 <= i < lines.len() implies free_of(#[trigger] lines[i], '\n') by {}
    split_undoes_join(lines, '\n');
    let all = lines.push(none);
    assert(all.drop_last() =~= lines);
    assert(free_of(none, '\n'));
    assert forall|i: int| 0 <= i < all.len() implies free_of(#[trigger] all[i], '\n') by {
        if i < lines.len() {
            assert(all[i] == lines[i]);
        }
    }
    split_undoes_join(all, '\n');
    let text = joined(lines, seq!['\n']) + seq!['\n'];
    assert(joined(all, seq!['\n']) =~= text);
    let back = |line: Seq<char>| without_return(line);
    assert(lines.map_values(back) =~= lines) by {
        assert forall|i: int| 0 <= i < lines.len() implies without_return(#[trigger] lines[i])
            == lines[i] by {
            assert(free_of(lines[i], '\r'));
            if lines[i].len() > 0 {
                assert(lines[i][lines[i].len() - 1] != '\r');
            }
        }
    }
    let start = lines.drop_last();
    assert(start.map_values(back) =~= start) by {
        assert forall|i: int| 0 <= i < start.len() implies without_return(#[trigger] start[i])
            == start[i] by {
            assert(start[i] == lines[i]);
            assert(free_of(lines[i], '\r'));
            if start[i].len() > 0 {
                assert(lines[i][lines[i].len() - 1] != '\r');
            }
        }
    }
    assert(start.push(lines.last()) =~= lines);
}

/// An integer is a row of digits, with a sign before it or without; anything else is none.
pub proof fn integers_are_signs_and_digits(s: Seq<char>)
    ensures
        written_int(s) is Some ==> s.len() > 0 && (is_digit(s[0]) || s[0] == '-' || s[0] == '+')
            && forall|i: int| 1 <= i < s.len() ==> is_digit(#[trigger] s[i]),
        all_digits(s) ==> written_int(s) == Some(digits_value(s) as int) && written_int(
            seq!['+'] + s,
        ) == Some(digits_value(s) as int) && written_int(seq!['-'] + s) == Some(
            -(digits_value(s) as int),
        ),
        s.len() == 0 ==> written_int(s) is None,
{
    if all_digits(s) {
        let (p, m) = (seq!['+'] + s, seq!['-'] + s);
        assert(p.subrange(1, p.len() as int) =~= s);
        assert(m.subrange(1, m.len() as int) =~= s);
        assert(is_digit(s[0]));
    }
    if written_int(s) is Some && !all_digits(s) {
        let rest = s.subrange(1, s.len() as int);
        assert forall|i: int| 1 <= i < s.len() implies is_digit(#[trigger] s[i]) by {
            assert(is_digit(rest[i - 1]));
        }
    }
}

/// Nothing is known of a new symbol.
pub proof fn new_symbols_are_unknown()
    ensures
        unknown().last_binance is None,
        unknown().last_mexc is None,
        unknown().pending is None,
        unknown().active_diff_alert is None,
        !unknown().trade_open,
        unknown().last_event_ts_ms == 0,
        unknown().last_diff_alert_closed_ms == 0,
{
}

} // verus!
