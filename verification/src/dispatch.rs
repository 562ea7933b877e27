//! The command line of the utility: `<program> <verb> [amount] [--verbose]`.
//!
//! The verb is `up`, `down` or `mute`. The flag `--verbose` may stand
//! anywhere behind the program's name and is set aside before the rest is
//! read. `--help` or `-h` as the first argument asks for the usage line.

use vstd::prelude::*;
use vstd::slice::slice_subrange;
use crate::number::{
    all_digits, capped_value, decimal_digits, digits_end, digits_value, lemma_decimal_digits,
    lemma_digit_run_stops,
};
use crate::text::{chars_of, is_digit, spells};

verus! {

/// The step of `up` and `down` where none is given.
pub const DEFAULT_STEP: i32 = 5;

/// What an invocation asks for.
#[derive(Clone, Copy, Debug, PartialEq, Eq, Structural)]
pub enum Request {
    /// Print the usage line.
    Help,
    /// No verb was given.
    MissingVerb,
    /// The verb is none of `up`, `down` and `mute`.
    UnknownVerb,
    /// Change the volume by `step` percentage points.
    Adjust { step: i32 },
    /// Flip the mute state.
    ToggleMute,
}

/// An invocation of the utility.
#[derive(Clone, Copy, Debug, PartialEq, Eq, Structural)]
pub struct Invocation {
    pub request: Request,
    /// Whether diagnostic tracing was asked for.
    pub verbose: bool,
}

/// The flag that asks for diagnostic tracing.
pub open spec fn verbose_flag() -> Seq<char> {
    "--verbose"@
}

/// `arg` asks for the usage line.
pub open spec fn is_help_flag(arg: Seq<char>) -> bool {
    arg == "--help"@ || arg == "-h"@
}

/// The arguments that are left when each `--verbose` is set aside.
pub open spec fn without_flag(args: Seq<Seq<char>>) -> Seq<Seq<char>>
    decreases args.len(),
{
    if args.len() == 0 {
        args
    } else if args.last() == verbose_flag() {
        without_flag(args.drop_last())
    } else {
        without_flag(args.drop_last()).push(args.last())
    }
}

/// The words of a command line: what follows the program's name, without
/// the flag `--verbose`.
pub open spec fn words(args: Seq<Seq<char>>) -> Seq<Seq<char>> {
    if args.len() == 0 {
        args
    } else {
        without_flag(args.drop_first())
    }
}

/// `--verbose` stands somewhere behind the program's name.
pub open spec fn is_verbose(args: Seq<Seq<char>>) -> bool {
    exists|i: int| 1 <= i < args.len() && #[trigger] args[i] == verbose_flag()
}

/// The step that `arg` gives: `arg` is a decimal integer that does not begin
/// with `-`, so an optional `+` and at least one digit, and fits in 32 bits
/// with a sign.
pub open spec fn step_of(arg: Seq<char>) -> Option<int> {
    let digits = if arg.len() > 0 && arg[0] == '+' {
        arg.drop_first()
    } else {
        arg
    };
    if digits.len() > 0 && all_digits(digits) && digits_value(digits) <= i32::MAX {
        Some(digits_value(digits) as int)
    } else {
        None
    }
}

/// The step of the first of `words` that gives one.
pub open spec fn step_among(words: Seq<Seq<char>>) -> Option<int>
    decreases words.len(),
{
    if words.len() == 0 {
        None
    } else {
        match step_among(words.drop_last()) {
            Some(step) => Some(step),
            None => step_of(words.last()),
        }
    }
}

/// What the command line `args` asks for, `args[0]` being the program's name.
/// The verb is the first word; the step is that of the first word behind
/// the verb that gives one, or the default.
pub open spec fn request_of(args: Seq<Seq<char>>) -> Request {
    if args.len() >= 2 && is_help_flag(args[1]) {
        Request::Help
    } else if words(args).len() == 0 {
        Request::MissingVerb
    } else {
        let verb = words(args)[0];
        let size = match step_among(words(args).drop_first()) {
            Some(step) => step,
            None => DEFAULT_STEP as int,
        };
        if verb == "up"@ {
            Request::Adjust { step: size as i32 }
        } else if verb == "down"@ {
            Request::Adjust { step: (-size) as i32 }
        } else if verb == "mute"@ {
            Request::ToggleMute
        } else {
            Request::UnknownVerb
        }
    }
}

/// The invocation that the command line `args` makes.
pub open spec fn invocation_of(args: Seq<Seq<char>>) -> Invocation {
    Invocation { request: request_of(args), verbose: is_verbose(args) }
}

/// Whether two texts are the same.
fn same_text(a: &str, b: &str) -> (same: bool)
    ensures
        same == (a@ == b@),
{
    let chars = chars_of(a);
    spells(chars.as_slice(), b)
}

/// Reads `arg` as a step: an optional `+` and decimal digits, of a value that
/// fits in 32 bits with a sign.
pub fn parse_step(arg: &str) -> (step: Option<i32>)
    ensures
        match step {
            Some(n) => step_of(arg@) == Some(n as int),
            None => step_of(arg@) is None,
        },
{
    let chars = chars_of(arg);
    let n = chars.len();
    let start: usize = if n > 0 && chars[0] == '+' { 1 } else { 0 };
    let digits = slice_subrange(chars.as_slice(), start, n);
    proof {
        if start == 0 {
            assert(digits@ =~= arg@);
        }
    }
    let end = digits_end(digits, 0);
    if end == 0 || end < digits.len() {
        proof {
            if end < digits@.len() {
                assert(!is_digit(digits@[end as int])) by {
                    lemma_digit_run_stops(digits@, 0);
                }
            }
        }
        return None;
    }
    proof {
        assert(digits@.subrange(0, end as int) =~= digits@);
    }
    let value = capped_value(digits, 0x8000_0000);
    if value > 0x7fff_ffff {
        None
    } else {
        Some(value as i32)
    }
}

/// Reads the command line `args`, `args[0]` being the program's name.
pub fn parse_invocation(args: &Vec<String>) -> (invocation: Invocation)
    ensures
        invocation == invocation_of(args.deep_view()),
{
    let ghost all = args.deep_view();
    let n = args.len();
    if n == 0 {
        return Invocation { request: Request::MissingVerb, verbose: false };
    }
    let mut verbose = false;
    let mut verb: Option<usize> = None;
    let mut step: Option<i32> = None;
    let mut i: usize = 1;
    while i < n
        invariant
            1 <= i <= n == all.len(),
            all == args.deep_view(),
            verbose == (exists|j: int| 1 <= j < i && #[trigger] all[j] == verbose_flag()),
            match verb {
                Some(v) => {
                    &&& 1 <= v < i
                    &&& without_flag(all.subrange(1, i as int)).len() >= 1
                    &&& without_flag(all.subrange(1, i as int))[0] == all[v as int]
                },
                None => without_flag(all.subrange(1, i as int)).len() == 0,
            },
            match step {
                Some(s) => s >= 0 && verb is Some && step_among(
                    without_flag(all.subrange(1, i as int)).drop_first(),
                ) == Some(s as int),
                None => verb is Some ==> step_among(
                    without_flag(all.subrange(1, i as int)).drop_first(),
                ) is None,
            },
        decreases n - i,
    {
        let arg = args[i].as_str();
        let ghost before = without_flag(all.subrange(1, i as int));
        proof {
            assert(all.subrange(1, i + 1).drop_last() =~= all.subrange(1, i as int));
        }
        if same_text(arg, "--verbose") {
            verbose = true;
        } else {
            proof {
                let after = before.push(all[i as int]);
                if before.len() >= 1 {
                    assert(after.drop_first().drop_last() =~= before.drop_first());
                }
            }
            if verb.is_none() {
                verb = Some(i);
            } else if step.is_none() {
                step = parse_step(arg);
            }
        }
        i += 1;
    }
    let help = n >= 2 && (same_text(args[1].as_str(), "--help") || same_text(args[1].as_str(), "-h"));
    let request = if help {
        Request::Help
    } else {
        match verb {
            None => Request::MissingVerb,
            Some(v) => {
                let size = match step {
                    Some(s) => s,
                    None => DEFAULT_STEP,
                };
                let word = args[v].as_str();
                if same_text(word, "up") {
                    Request::Adjust { step: size }
                } else if same_text(word, "down") {
                    Request::Adjust { step: -size }
                } else if same_text(word, "mute") {
                    Request::ToggleMute
                } else {
                    Request::UnknownVerb
                }
            },
        }
    };
    Invocation { request, verbose }
}

/// Setting the flag aside goes part by part.
proof fn lemma_without_flag_concat(a: Seq<Seq<char>>, b: Seq<Seq<char>>)
    ensures
        without_flag(a + b) == without_flag(a) + without_flag(b),
    decreases b.len(),
{
    if b.len() > 0 {
        assert((a + b).drop_last() =~= a + b.drop_last());
        lemma_without_flag_concat(a, b.drop_last());
    }
}

/// `--verbose` may stand in any place behind the program's name: putting it
/// there changes nothing of what is asked for, and makes the invocation
/// verbose. (A command line whose first argument asks for help is left out:
/// the help flag counts only in that place.)
pub proof fn lemma_flag_anywhere(args: Seq<Seq<char>>, k: int)
    requires
        1 <= k <= args.len(),
        !(args.len() >= 2 && is_help_flag(args[1])),
    ensures
        request_of(args.insert(k, verbose_flag())) == request_of(args),
        is_verbose(args.insert(k, verbose_flag())),
{
    let flag = verbose_flag();
    let with = args.insert(k, flag);
    let rest = args.drop_first();
    assert(with[k] == flag);
    reveal_strlit("--verbose");
    reveal_strlit("--help");
    reveal_strlit("-h");
    assert(with.drop_first() =~= rest.take(k - 1) + seq![flag] + rest.skip(k - 1));
    assert(rest =~= rest.take(k - 1) + rest.skip(k - 1));
    lemma_without_flag_concat(rest.take(k - 1) + seq![flag], rest.skip(k - 1));
    lemma_without_flag_concat(rest.take(k - 1), seq![flag]);
    lemma_without_flag_concat(rest.take(k - 1), rest.skip(k - 1));
    assert(without_flag(seq![flag]) =~= Seq::<Seq<char>>::empty()) by {
        reveal_with_fuel(without_flag, 2);
    }
}

/// `up` and `down` without a word that gives a step use the default step.
pub proof fn lemma_default_step(args: Seq<Seq<char>>)
    requires
        !(args.len() >= 2 && is_help_flag(args[1])),
        words(args).len() >= 1,
        step_among(words(args).drop_first()) is None,
    ensures
        words(args)[0] == "up"@ ==> request_of(args) == (Request::Adjust { step: 5i32 }),
        words(args)[0] == "down"@ ==> request_of(args) == (Request::Adjust { step: (-5) as i32 }),
{
    reveal_strlit("up");
    reveal_strlit("down");
    assert("up"@.len() == 2 && "down"@.len() == 4);
}

/// The first word that gives a step decides: words behind it do not count.
pub proof fn lemma_first_step_wins(words: Seq<Seq<char>>, j: int)
    requires
        0 <= j < words.len(),
        step_of(words[j]) is Some,
        forall|i: int| 0 <= i < j ==> step_of(#[trigger] words[i]) is None,
    ensures
        step_among(words) == step_of(words[j]),
    decreases words.len(),
{
    let front = words.drop_last();
    if j < words.len() - 1 {
        lemma_first_step_wins(front, j);
    } else {
        lemma_no_step(front);
    }
}

/// Words of which none gives a step give none.
pub proof fn lemma_no_step(words: Seq<Seq<char>>)
    requires
        forall|i: int| 0 <= i < words.len() ==> step_of(#[trigger] words[i]) is None,
    ensures
        step_among(words) is None,
    decreases words.len(),
{
    if words.len() > 0 {
        let front = words.drop_last();
        lemma_no_step(front);
    }
}

/// A step written in decimal reads back as itself.
pub proof fn lemma_step_reads_back(n: nat)
    requires
        n <= i32::MAX,
    ensures
        step_of(decimal_digits(n)) == Some(n as int),
{
    lemma_decimal_digits(n);
    assert(is_digit(decimal_digits(n)[0]));
}

} // verus!
