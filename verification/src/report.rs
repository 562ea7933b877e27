//! The audio tool's volume report and its parser.
//!
//! The tool answers a volume query with one line of whitespace-separated
//! tokens, such as `Volume: 0.45 [MUTED]`. One token is the gain, a decimal
//! numeral; the marker `[MUTED]` is there if and only if the sink is muted.
//! Every other token is ignored.

use vstd::prelude::*;
use vstd::slice::slice_subrange;
use vstd::utf8::{decode_utf8, valid_utf8};
use crate::number::{
    all_digits, digits_value, gain_of_token, lemma_plain_numeral, lemma_pow10_positive,
    lemma_round_ratio_at_most, pow10, round_ratio, token_gain,
};
use crate::text::{
    char_is_ascii_whitespace, chars_of, decode_lossy, is_ascii_whitespace, is_digit,
    is_whitespace, lemma_trim_blank, lemma_trim_is_stretch, lemma_trim_nothing, spells, trim,
    trim_bounds, utf8_lossy,
};

verus! {

/// The state of the default sink as its report gives it.
#[derive(Clone, Copy, Debug, PartialEq, Eq, Structural)]
pub struct VolumeState {
    /// The gain as a percentage of unity.
    pub percent: u8,
    pub muted: bool,
}

impl VolumeState {
    /// The percentage lies within 0 and 100.
    pub open spec fn wf(self) -> bool {
        self.percent <= 100
    }
}

/// The token that marks a muted sink.
pub open spec fn marker() -> Seq<char> {
    "[MUTED]"@
}

/// The length of the token at the start of `s`: of its longest prefix that
/// holds no ASCII whitespace.
pub open spec fn token_len(s: Seq<char>) -> nat
    decreases s.len(),
{
    if s.len() > 0 && !is_ascii_whitespace(s[0]) {
        1 + token_len(s.drop_first())
    } else {
        0
    }
}

/// A token is no longer than the text it starts.
pub proof fn lemma_token_len_bound(s: Seq<char>)
    ensures
        token_len(s) <= s.len(),
    decreases s.len(),
{
    if s.len() > 0 && !is_ascii_whitespace(s[0]) {
        lemma_token_len_bound(s.drop_first());
    }
}

/// The tokens of `s`: its maximal runs of characters other than ASCII
/// whitespace, in order.
pub open spec fn split_ascii_whitespace(s: Seq<char>) -> Seq<Seq<char>>
    decreases s.len(),
    via split_decreases
{
    if s.len() == 0 {
        Seq::empty()
    } else if is_ascii_whitespace(s[0]) {
        split_ascii_whitespace(s.drop_first())
    } else {
        seq![s.take(token_len(s) as int)] + split_ascii_whitespace(s.skip(token_len(s) as int))
    }
}

#[via_fn]
proof fn split_decreases(s: Seq<char>) {
    lemma_token_len_bound(s);
}

/// The percentage of the last token that is a gain, if any token is.
pub open spec fn last_gain(tokens: Seq<Seq<char>>) -> Option<nat>
    decreases tokens.len(),
{
    if tokens.len() == 0 {
        None
    } else {
        match token_gain(tokens.last()) {
            Some(p) => Some(p),
            None => last_gain(tokens.drop_last()),
        }
    }
}

/// What a sequence of tokens reports: muted if the marker is among them, and
/// the gain of the last token that is one, zero if none is.
pub open spec fn report_of(tokens: Seq<Seq<char>>) -> VolumeState {
    VolumeState {
        percent: match last_gain(tokens) {
            Some(p) => p as u8,
            None => 0,
        },
        muted: tokens.contains(marker()),
    }
}

/// What the text of a report says: the report of its tokens, once the
/// whitespace around the text is removed.
pub open spec fn parse_report(s: Seq<char>) -> VolumeState {
    report_of(split_ascii_whitespace(trim(s)))
}

/// The marker is no gain.
pub proof fn lemma_marker_is_no_gain()
    ensures
        token_gain(marker()) is None,
{
    reveal_strlit("[MUTED]");
    let s = marker();
    assert(s.len() == 7 && s[0] == '[');
}

/// The index behind the token that starts at `from`.
fn token_end(text: &[char], from: usize) -> (end: usize)
    requires
        from < text@.len(),
        !is_ascii_whitespace(text@[from as int]),
    ensures
        from < end <= text@.len(),
        end - from == token_len(text@.skip(from as int)),
{
    let mut i = from;
    while i < text.len() && !char_is_ascii_whitespace(text[i])
        invariant
            from <= i <= text@.len(),
            token_len(text@.skip(from as int)) == (i - from) + token_len(text@.skip(i as int)),
        decreases text@.len() - i,
    {
        proof {
            assert(text@.skip(i as int).drop_first() =~= text@.skip(i + 1));
        }
        i += 1;
    }
    i
}

/// Reads the tokens of `text` one by one.
fn read_tokens(text: &[char]) -> (state: VolumeState)
    ensures
        state == report_of(split_ascii_whitespace(text@)),
        state.wf(),
{
    let n = text.len();
    let mut percent: u8 = 0;
    let mut muted = false;
    let mut i: usize = 0;
    let ghost mut done: Seq<Seq<char>> = Seq::empty();
    proof {
        assert(text@.skip(0) =~= text@);
    }
    while i < n
        invariant
            i <= n == text@.len(),
            split_ascii_whitespace(text@) == done + split_ascii_whitespace(text@.skip(i as int)),
            muted == done.contains(marker()),
            percent <= 100,
            match last_gain(done) {
                Some(p) => percent == p,
                None => percent == 0,
            },
        decreases n - i,
    {
        if char_is_ascii_whitespace(text[i]) {
            proof {
                assert(text@.skip(i as int).drop_first() =~= text@.skip(i + 1));
            }
            i += 1;
        } else {
            let end = token_end(text, i);
            let token = slice_subrange(text, i, end);
            let ghost before = done;
            proof {
                let rest = text@.skip(i as int);
                assert(rest.take(token_len(rest) as int) =~= token@);
                assert(rest.skip(token_len(rest) as int) =~= text@.skip(end as int));
                done = before.push(token@);
                assert(done.drop_last() =~= before);
            }
            if spells(token, "[MUTED]") {
                muted = true;
                proof {
                    lemma_marker_is_no_gain();
                }
            } else {
                match gain_of_token(token) {
                    Some(p) => {
                        percent = p;
                    },
                    None => {},
                }
            }
            i = end;
        }
    }
    VolumeState { percent, muted }
}

/// Parses the text of the audio tool's volume report.
pub fn parse_volume_report(output: &str) -> (state: VolumeState)
    ensures
        state == parse_report(output@),
        state.wf(),
{
    let chars = chars_of(output);
    let (start, end) = trim_bounds(chars.as_slice());
    read_tokens(slice_subrange(chars.as_slice(), start, end))
}

/// Parses the bytes that the audio tool printed in answer to a volume query:
/// the report that their lossy decoding gives, which for bytes that are
/// UTF-8 is the report of the text they encode.
pub fn parse_volume_output(output: &[u8]) -> (state: VolumeState)
    ensures
        state == parse_report(utf8_lossy(output@)),
        valid_utf8(output@) ==> state == parse_report(decode_utf8(output@)),
        state.wf(),
{
    let text = decode_lossy(output);
    parse_volume_report(text.as_str())
}

/// A token as a report can hold it: text that is not empty and holds no
/// whitespace of any kind.
pub open spec fn is_token(t: Seq<char>) -> bool {
    &&& t.len() > 0
    &&& forall|i: int| 0 <= i < t.len() ==> !is_whitespace(#[trigger] t[i])
}

/// `needle` stands somewhere in `s`.
pub open spec fn occurs_in(needle: Seq<char>, s: Seq<char>) -> bool {
    exists|i: int, j: int| 0 <= i <= j <= s.len() && #[trigger] s.subrange(i, j) == needle
}

proof fn lemma_token_len_of(t: Seq<char>, rest: Seq<char>)
    requires
        forall|i: int| 0 <= i < t.len() ==> !is_ascii_whitespace(#[trigger] t[i]),
        rest.len() == 0 || is_ascii_whitespace(rest[0]),
    ensures
        token_len(t + rest) == t.len(),
    decreases t.len(),
{
    if t.len() > 0 {
        let tail = t.drop_first();
        assert((t + rest).drop_first() =~= tail + rest);
        lemma_token_len_of(tail, rest);
    }
}

/// A token at the start of the text, with whitespace or nothing behind it,
/// is the first of its tokens.
pub proof fn lemma_split_token(t: Seq<char>, rest: Seq<char>)
    requires
        is_token(t),
        rest.len() == 0 || is_ascii_whitespace(rest[0]),
    ensures
        split_ascii_whitespace(t + rest) == seq![t] + split_ascii_whitespace(rest),
{
    lemma_token_len_of(t, rest);
    assert((t + rest).take(t.len() as int) =~= t);
    assert((t + rest).skip(t.len() as int) =~= rest);
}

/// Two tokens with a space between them are the two tokens of that text.
pub proof fn lemma_two_tokens(a: Seq<char>, b: Seq<char>)
    requires
        is_token(a),
        is_token(b),
    ensures
        split_ascii_whitespace(trim(a + seq![' '] + b)) == seq![a, b],
{
    let s = a + seq![' '] + b;
    let rest = seq![' '] + b;
    assert(s =~= a + rest);
    lemma_split_token(a, rest);
    assert(rest.drop_first() =~= b);
    lemma_split_token(b, Seq::empty());
}

/// The report of two tokens.
proof fn lemma_report_of_two(a: Seq<char>, b: Seq<char>)
    ensures
        report_of(seq![a, b]).muted == (a == marker() || b == marker()),
        last_gain(seq![a, b]) == (match token_gain(b) {
            Some(p) => Some(p),
            None => token_gain(a),
        }),
{
    reveal_with_fuel(last_gain, 3);
}

/// A report of the form `X.Y [MUTED]`, where `X.Y` is at most 1, says that
/// the sink is muted at a hundred times `X.Y` percent, rounded to the
/// nearest integer.
pub proof fn lemma_gain_then_marker(whole: Seq<char>, fraction: Seq<char>)
    requires
        all_digits(whole),
        all_digits(fraction),
        whole.len() + fraction.len() >= 1,
        digits_value(whole + fraction) <= pow10(fraction.len()),
    ensures
        round_ratio(100 * digits_value(whole + fraction), pow10(fraction.len())) <= 100,
        parse_report(whole + seq!['.'] + fraction + seq![' '] + marker()) == (VolumeState {
            percent: round_ratio(
                100 * digits_value(whole + fraction),
                pow10(fraction.len()),
            ) as u8,
            muted: true,
        }),
{
    let gain = whole + seq!['.'] + fraction;
    reveal_strlit("[MUTED]");
    lemma_two_tokens(gain, marker());
    lemma_report_of_two(gain, marker());
    lemma_plain_numeral(whole, fraction);
    lemma_pow10_positive(fraction.len());
    lemma_round_ratio_at_most(100 * digits_value(whole + fraction), pow10(fraction.len()), 100);
}

/// The order of two tokens does not matter, unless both are gains.
pub proof fn lemma_order_of_two_tokens(a: Seq<char>, b: Seq<char>)
    requires
        is_token(a),
        is_token(b),
        token_gain(a) is None || token_gain(b) is None,
    ensures
        parse_report(a + seq![' '] + b) == parse_report(b + seq![' '] + a),
{
    lemma_two_tokens(a, b);
    lemma_two_tokens(b, a);
    lemma_report_of_two(a, b);
    lemma_report_of_two(b, a);
}

/// The token at the start of the text holds no ASCII whitespace.
proof fn lemma_token_holds_no_whitespace(s: Seq<char>, i: int)
    requires
        0 <= i < token_len(s),
    ensures
        i < s.len(),
        !is_ascii_whitespace(s[i]),
    decreases s.len(),
{
    if i > 0 {
        lemma_token_holds_no_whitespace(s.drop_first(), i - 1);
    }
}

/// Behind the token at the start of the text stands whitespace, or nothing.
proof fn lemma_token_ends_at_whitespace(s: Seq<char>)
    ensures
        token_len(s) <= s.len(),
        token_len(s) < s.len() ==> is_ascii_whitespace(s[token_len(s) as int]),
    decreases s.len(),
{
    if s.len() > 0 && !is_ascii_whitespace(s[0]) {
        lemma_token_ends_at_whitespace(s.drop_first());
    }
}

/// What tokens report does not depend on their order, but for which gain
/// comes last: two sequences of the same tokens with the same last gain
/// report the same.
pub proof fn lemma_order_of_tokens(a: Seq<Seq<char>>, b: Seq<Seq<char>>)
    requires
        forall|t: Seq<char>| a.contains(t) <==> b.contains(t),
        last_gain(a) == last_gain(b),
    ensures
        report_of(a) == report_of(b),
{
}

/// Every token is a maximal run of the text that holds no ASCII whitespace:
/// a stretch of the text that is not empty, holds no ASCII whitespace, and
/// has whitespace or the end of the text on either side. The result gives
/// the bounds of token `x`.
pub proof fn lemma_token_is_maximal_run(s: Seq<char>, x: int) -> (bounds: (int, int))
    requires
        0 <= x < split_ascii_whitespace(s).len(),
    ensures
        0 <= bounds.0 < bounds.1 <= s.len(),
        split_ascii_whitespace(s)[x] == s.subrange(bounds.0, bounds.1),
        forall|i: int| bounds.0 <= i < bounds.1 ==> !is_ascii_whitespace(#[trigger] s[i]),
        bounds.0 == 0 || is_ascii_whitespace(s[bounds.0 - 1]),
        bounds.1 == s.len() || is_ascii_whitespace(s[bounds.1]),
    decreases s.len(),
{
    lemma_token_ends_at_whitespace(s);
    if is_ascii_whitespace(s[0]) {
        let rest = s.drop_first();
        let inner = lemma_token_is_maximal_run(rest, x);
        assert forall|i: int| inner.0 + 1 <= i < inner.1 + 1 implies !is_ascii_whitespace(
            #[trigger] s[i],
        ) by {
            assert(s[i] == rest[i - 1]);
        }
        (inner.0 + 1, inner.1 + 1)
    } else {
        let n = token_len(s) as int;
        if x == 0 {
            assert forall|i: int| 0 <= i < n implies !is_ascii_whitespace(#[trigger] s[i]) by {
                lemma_token_holds_no_whitespace(s, i);
            }
            (0, n)
        } else {
            let rest = s.skip(n);
            let inner = lemma_token_is_maximal_run(rest, x - 1);
            assert forall|i: int| inner.0 + n <= i < inner.1 + n implies !is_ascii_whitespace(
                #[trigger] s[i],
            ) by {
                assert(s[i] == rest[i - n]);
            }
            (inner.0 + n, inner.1 + n)
        }
    }
}

/// A report in which the marker does not occur says that the sink is not
/// muted.
pub proof fn lemma_unmuted_without_marker(s: Seq<char>)
    requires
        !occurs_in(marker(), s),
    ensures
        !parse_report(s).muted,
{
    let tokens = split_ascii_whitespace(trim(s));
    if tokens.contains(marker()) {
        let x = choose|x: int| 0 <= x < tokens.len() && tokens[x] == marker();
        let outer = lemma_trim_is_stretch(s);
        let inner = lemma_token_is_maximal_run(trim(s), x);
        assert(s.subrange(outer.0 + inner.0, outer.0 + inner.1) == marker());
    }
}

/// Output that is empty, or whitespace only, reports volume zero, not muted.
pub proof fn lemma_blank_report(s: Seq<char>)
    requires
        forall|i: int| 0 <= i < s.len() ==> is_whitespace(#[trigger] s[i]),
    ensures
        parse_report(s) == (VolumeState { percent: 0, muted: false }),
{
    lemma_trim_blank(s);
}

/// Among several gains the last one wins: a report gives the gain of the
/// token behind which no token is a gain.
pub proof fn lemma_last_gain_wins(s: Seq<char>, j: int)
    requires
        0 <= j < split_ascii_whitespace(trim(s)).len(),
        token_gain(split_ascii_whitespace(trim(s))[j]) is Some,
        forall|i: int|
            j < i < split_ascii_whitespace(trim(s)).len() ==> token_gain(
                #[trigger] split_ascii_whitespace(trim(s))[i],
            ) is None,
    ensures
        parse_report(s).percent == token_gain(split_ascii_whitespace(trim(s))[j])->0,
{
    lemma_last_gain_of(split_ascii_whitespace(trim(s)), j);
}

proof fn lemma_last_gain_of(tokens: Seq<Seq<char>>, j: int)
    requires
        0 <= j < tokens.len(),
        token_gain(tokens[j]) is Some,
        forall|i: int| j < i < tokens.len() ==> token_gain(#[trigger] tokens[i]) is None,
    ensures
        last_gain(tokens) == token_gain(tokens[j]),
        report_of(tokens).percent == token_gain(tokens[j])->0,
    decreases tokens.len(),
{
    if j < tokens.len() - 1 {
        let front = tokens.drop_last();
        lemma_last_gain_of(front, j);
    }
}

/// A gain is a percentage: at most 100.
pub proof fn lemma_gain_is_percentage(token: Seq<char>)
    ensures
        token_gain(token) matches Some(p) ==> p <= 100,
{
}

/// Every report gives a percentage: at most 100.
pub proof fn lemma_report_is_percentage(s: Seq<char>)
    ensures
        parse_report(s).wf(),
{
    lemma_last_gain_is_percentage(split_ascii_whitespace(trim(s)));
}

proof fn lemma_last_gain_is_percentage(tokens: Seq<Seq<char>>)
    ensures
        last_gain(tokens) matches Some(p) ==> p <= 100,
    decreases tokens.len(),
{
    if tokens.len() > 0 {
        lemma_last_gain_is_percentage(tokens.drop_last());
    }
}

} // verus!
