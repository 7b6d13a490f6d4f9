//! What the file of the slippage says about trades.

use vstd::prelude::*;

use crate::text::{lines_of, pieces, written_i64};
use crate::trade_stats::{count_of, counts, data_lines, gain_in, gains_of};

verus! {

/// A line counts where it has a symbol in its second column that is none of the three on which MEXC
/// takes a fee from every order.
pub proof fn lines_count_for_their_symbol(line: Seq<char>)
    ensures
        counts(line) <==> pieces(line, ',').len() >= 2 && pieces(line, ',')[1] != "BTC_USDT"@
            && pieces(line, ',')[1] != "ETH_USDT"@ && pieces(line, ',')[1] != "SOL_USDT"@,
{
}

/// A line that counts gives the gain in its eleventh column exactly where the lag in its fourth is a
/// number that is not below the one that is asked for.
pub proof fn gains_need_the_lag(line: Seq<char>, min_lag_ms: int)
    ensures
        gain_in(line, min_lag_ms) is Some <==> counts(line) && pieces(line, ',').len() >= 11 && (
        written_i64(pieces(line, ',')[3]) matches Some(lag) && lag >= min_lag_ms),
        gain_in(line, min_lag_ms) matches Some(gain) ==> gain == pieces(line, ',')[10],
{
}

/// The first line of the file is left out, and no other.
pub proof fn only_the_head_is_left_out(text: Seq<char>)
    ensures
        lines_of(text).len() > 0 ==> lines_of(text) == seq![lines_of(text)[0]] + data_lines(text),
        lines_of(text).len() == 0 ==> data_lines(text).len() == 0,
{
    if lines_of(text).len() > 0 {
        assert(lines_of(text) =~= seq![lines_of(text)[0]] + data_lines(text));
    }
}

/// Each line that counts is counted once, and each gain comes once, in the order of the lines.
pub proof fn each_line_is_read_once(lines: Seq<Seq<char>>, line: Seq<char>, min_lag_ms: int)
    ensures
        count_of(Seq::empty()) == 0,
        count_of(lines.push(line)) == count_of(lines) + (if counts(line) {
            1nat
        } else {
            0nat
        }),
        gains_of(Seq::empty(), min_lag_ms) == Seq::<Seq<char>>::empty(),
        gain_in(line, min_lag_ms) matches Some(gain) ==> gains_of(lines.push(line), min_lag_ms)
            == gains_of(lines, min_lag_ms).push(gain),
        gain_in(line, min_lag_ms) is None ==> gains_of(lines.push(line), min_lag_ms) == gains_of(
            lines,
            min_lag_ms,
        ),
{
    assert(lines.push(line).drop_last() =~= lines);
}

} // verus!
