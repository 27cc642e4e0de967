//! The number guessing game: a verified parser for guesses typed as text,
//! the comparison against the secret, and the game's state machine.
//!
//! A guess arrives as the bytes of one input line. The line is trimmed of
//! surrounding whitespace and read as an unsigned decimal number, with one
//! optional leading plus sign; a line that does not parse is rejected and
//! the game waits for the next one. The game is won exactly when a line
//! parses to the secret number.

use vstd::prelude::*;

verus! {

// ---------------------------------------------------------------------------
// What a line of input means: trimming and decimal parsing, as spec.
// ---------------------------------------------------------------------------
/// ASCII whitespace: space, tab, line feed, carriage return.
pub open spec fn is_space(b: u8) -> bool {
    b == 32 || b == 9 || b == 10 || b == 13
}

/// ASCII decimal digit.
pub open spec fn is_digit(b: u8) -> bool {
    48 <= b <= 57
}

/// The numeric value of a digit byte.
pub open spec fn digit_val(b: u8) -> nat {
    (b - 48) as nat
}

pub open spec fn all_digits(s: Seq<u8>) -> bool {
    forall|i: int| 0 <= i < s.len() ==> is_digit(s[i])
}

/// The value of a digit string read in base ten.
pub open spec fn dec_value(s: Seq<u8>) -> nat
    decreases s.len(),
{
    if s.len() == 0 {
        0
    } else {
        dec_value(s.drop_last()) * 10 + digit_val(s.last())
    }
}

/// `s` without its leading whitespace.
pub open spec fn trim_front(s: Seq<u8>) -> Seq<u8>
    decreases s.len(),
{
    if s.len() > 0 && is_space(s[0]) {
        trim_front(s.drop_first())
    } else {
        s
    }
}

/// `s` without its trailing whitespace.
pub open spec fn trim_back(s: Seq<u8>) -> Seq<u8>
    decreases s.len(),
{
    if s.len() > 0 && is_space(s.last()) {
        trim_back(s.drop_last())
    } else {
        s
    }
}

/// `s` without surrounding whitespace.
pub open spec fn trimmed(s: Seq<u8>) -> Seq<u8> {
    trim_back(trim_front(s))
}

/// The digit part of a line: trimmed, with one optional leading plus sign
/// stripped.
pub open spec fn digits_of(s: Seq<u8>) -> Seq<u8> {
    let t = trimmed(s);
    if t.len() > 0 && t[0] == 43 {
        t.drop_first()
    } else {
        t
    }
}

/// What a line of input parses to: a number exactly when the digit part is
/// a non-empty string of digits whose value fits in a `u32`.
pub open spec fn parse_spec(s: Seq<u8>) -> Option<u32> {
    let d = digits_of(s);
    if d.len() > 0 && all_digits(d) && dec_value(d) <= u32::MAX {
        Some(dec_value(d) as u32)
    } else {
        None
    }
}

// ---------------------------------------------------------------------------
// Lemmas connecting the recursive trim specs to index arithmetic.
// ---------------------------------------------------------------------------
/// Dropping a fully-whitespace prefix does not change `trim_front`.
proof fn lemma_trim_front_skip(s: Seq<u8>, k: int)
    requires
        0 <= k <= s.len(),
        forall|i: int| 0 <= i < k ==> is_space(s[i]),
    ensures
        trim_front(s) == trim_front(s.subrange(k, s.len() as int)),
    decreases k,
{
    if k == 0 {
        assert(s.subrange(0, s.len() as int) =~= s);
    } else {
        let rest = s.drop_first();
        assert(rest =~= s.subrange(1, s.len() as int));
        lemma_trim_front_skip(rest, k - 1);
        assert(rest.subrange(k - 1, rest.len() as int) =~= s.subrange(k, s.len() as int));
    }
}

/// A sequence that does not start with whitespace is `trim_front`-stable.
proof fn lemma_trim_front_stable(s: Seq<u8>)
    requires
        s.len() == 0 || !is_space(s[0]),
    ensures
        trim_front(s) == s,
{
}

/// Dropping a fully-whitespace suffix does not change `trim_back`.
proof fn lemma_trim_back_skip(s: Seq<u8>, k: int)
    requires
        0 <= k <= s.len(),
        forall|i: int| s.len() - k <= i < s.len() ==> is_space(s[i]),
    ensures
        trim_back(s) == trim_back(s.subrange(0, s.len() - k)),
    decreases k,
{
    if k == 0 {
        assert(s.subrange(0, s.len() as int) =~= s);
    } else {
        let rest = s.drop_last();
        assert(rest =~= s.subrange(0, s.len() - 1));
        lemma_trim_back_skip(rest, k - 1);
        assert(rest.subrange(0, rest.len() - (k - 1)) =~= s.subrange(0, s.len() - k));
    }
}

/// A sequence that does not end with whitespace is `trim_back`-stable.
proof fn lemma_trim_back_stable(s: Seq<u8>)
    requires
        s.len() == 0 || !is_space(s.last()),
    ensures
        trim_back(s) == s,
{
}

/// The value of a digit string is at least the value of any of its prefixes.
proof fn lemma_dec_value_prefix(s: Seq<u8>, k: int)
    requires
        0 <= k <= s.len(),
    ensures
        dec_value(s) >= dec_value(s.subrange(0, k)),
    decreases s.len() - k,
{
    if k < s.len() {
        lemma_dec_value_prefix(s, k + 1);
        let p = s.subrange(0, k + 1);
        assert(p.drop_last() =~= s.subrange(0, k));
        assert(dec_value(p) == dec_value(s.subrange(0, k)) * 10 + digit_val(p.last()));
        assert(dec_value(s.subrange(0, k)) * 10 >= dec_value(s.subrange(0, k)) * 1);
    } else {
        assert(s.subrange(0, s.len() as int) =~= s);
    }
}

// ---------------------------------------------------------------------------
// The executable parser.
// ---------------------------------------------------------------------------
/// Reads one input line as a guess: `Some` exactly when the trimmed line is
/// a decimal number (with one optional leading plus sign) that fits in a
/// `u32`.
pub fn parse_guess(line: &[u8]) -> (r: Option<u32>)
    ensures
        r == parse_spec(line@),
{
    let n = line.len();
    let s = Ghost(line@);

    // Skip the leading whitespace.
    let mut start: usize = 0;
    while start < n && is_space_byte(line[start])
        invariant
            0 <= start <= n,
            n == s@.len(),
            s@ == line@,
            forall|i: int| 0 <= i < start ==> is_space(s@[i]),
        decreases n - start,
    {
        start = start + 1;
    }

    // Skip the trailing whitespace.
    let mut end: usize = n;
    while end > start && is_space_byte(line[end - 1])
        invariant
            start <= end <= n,
            n == s@.len(),
            s@ == line@,
            forall|i: int| end <= i < n ==> is_space(s@[i]),
        decreases end,
    {
        end = end - 1;
    }

    proof {
        lemma_trim_front_skip(s@, start as int);
        let tail = s@.subrange(start as int, n as int);
        lemma_trim_front_stable(tail);
        lemma_trim_back_skip(tail, n - end);
        assert(tail.subrange(0, tail.len() - (n - end)) =~= s@.subrange(
            start as int,
            end as int,
        ));
        lemma_trim_back_stable(s@.subrange(start as int, end as int));
        assert(trimmed(s@) == s@.subrange(start as int, end as int));
    }

    // Strip one optional leading plus sign.
    let mut ds: usize = start;
    if start < end && line[start] == 43 {
        ds = start + 1;
        proof {
            assert(s@.subrange(start as int, end as int).drop_first() =~= s@.subrange(
                ds as int,
                end as int,
            ));
        }
    }
    let d = Ghost(s@.subrange(ds as int, end as int));
    assert(digits_of(s@) == d@);

    if ds == end {
        assert(d@.len() == 0);
        return None;
    }

    // Read the digits, accumulating in a wider integer so that a value just
    // over `u32::MAX` is still seen exactly.
    let mut acc: u64 = 0;
    let mut i: usize = ds;
    while i < end
        invariant
            ds <= i <= end <= n,
            n == s@.len(),
            s@ == line@,
            d@ == s@.subrange(ds as int, end as int),
            digits_of(s@) == d@,
            forall|j: int| ds <= j < i ==> is_digit(s@[j]),
            acc == dec_value(s@.subrange(ds as int, i as int)),
            acc <= u32::MAX,
        decreases end - i,
    {
        let b = line[i];
        if !(48 <= b && b <= 57) {
            assert(!is_digit(d@[i - ds]));
            return None;
        }
        acc = acc * 10 + ((b - 48) as u64);
        proof {
            let p = s@.subrange(ds as int, i + 1);
            assert(p.drop_last() =~= s@.subrange(ds as int, i as int));
            assert(p.last() == s@[i as int]);
        }
        i = i + 1;
        if acc > 0xffff_ffff {
            proof {
                lemma_dec_value_prefix(d@, i - ds);
                assert(d@.subrange(0, i - ds) =~= s@.subrange(ds as int, i as int));
            }
            return None;
        }
    }
    proof {
        assert(s@.subrange(ds as int, end as int) =~= d@);
        assert(forall|j: int| 0 <= j < d@.len() ==> is_digit(d@[j]));
    }
    Some(acc as u32)
}

/// Executable twin of [`is_space`].
fn is_space_byte(b: u8) -> (r: bool)
    ensures
        r == is_space(b),
{
    b == 32 || b == 9 || b == 10 || b == 13
}

// ---------------------------------------------------------------------------
// The game itself.
// ---------------------------------------------------------------------------
/// What the game answers to one line of input.
#[derive(Clone, Copy, Debug, PartialEq, Eq, Structural)]
pub enum Feedback {
    /// The line did not parse as a number; the game asks again.
    Invalid,
    /// The guess is smaller than the secret.
    TooLow,
    /// The guess is larger than the secret.
    TooHigh,
    /// The guess equals the secret: the game is won.
    Correct,
}

/// The answer the game owes to one line, given the secret.
pub open spec fn outcome(secret: u32, line: Seq<u8>) -> Feedback {
    match parse_spec(line) {
        None => Feedback::Invalid,
        Some(g) => if g < secret {
            Feedback::TooLow
        } else if g > secret {
            Feedback::TooHigh
        } else {
            Feedback::Correct
        },
    }
}

/// Relies on `rand::random_range` (crate `rand`): returns a uniformly random
/// value within the given range, and panics only on an empty range; the range
/// here is never empty.
#[verifier::external_body]
fn random_secret() -> (r: u32)
    ensures
        1 <= r < 100,
{
    rand::random_range(1u32..100)
}

/// One round of the guessing game: a secret between 1 and 99, and whether it
/// has been guessed.
pub struct Game {
    /// The number to find.
    pub secret: u32,
    /// Whether a line equal to the secret has been supplied.
    pub won: bool,
}

impl Game {
    /// The secret stays within the range it was drawn from.
    pub open spec fn wf(self) -> bool {
        1 <= self.secret < 100
    }

    /// Starts a game with a randomly drawn secret.
    pub fn new() -> (g: Game)
        ensures
            g.wf(),
            !g.won,
    {
        Game { secret: random_secret(), won: false }
    }

    /// Starts a game with a chosen secret.
    pub fn with_secret(secret: u32) -> (g: Game)
        requires
            1 <= secret < 100,
        ensures
            g.secret == secret,
            !g.won,
    {
        Game { secret, won: false }
    }

    /// Answers one line of input: the answer is exactly [`outcome`], the
    /// secret never changes, and the game is won afterwards exactly when it
    /// was already won or this line guessed the secret.
    pub fn process_line(&mut self, line: &[u8]) -> (fb: Feedback)
        ensures
            fb == outcome(old(self).secret, line@),
            final(self).secret == old(self).secret,
            final(self).won == (old(self).won || fb is Correct),
    {
        match parse_guess(line) {
            None => Feedback::Invalid,
            Some(g) => {
                if g < self.secret {
                    Feedback::TooLow
                } else if g > self.secret {
                    Feedback::TooHigh
                } else {
                    self.won = true;
                    Feedback::Correct
                }
            },
        }
    }
}

// ---------------------------------------------------------------------------
// The control loop as a state machine.
// ---------------------------------------------------------------------------
/// The phases the game's loop moves through while handling one line.
#[derive(Clone, Copy, Debug, PartialEq, Eq, Structural)]
pub enum Phase {
    /// Waiting for a line of input.
    AwaitingInput,
    /// A line was read and is being parsed.
    Validating,
    /// The parsed guess is being compared against the secret.
    Comparing,
    /// The secret was guessed; the game is over.
    Won,
}

/// What happens while one line is handled.
#[derive(Clone, Copy, Debug, PartialEq, Eq, Structural)]
pub enum GameEvent {
    /// A line of input arrived.
    LineRead,
    /// The line did not parse as a number.
    ParseFailed,
    /// The line parsed as a number.
    ParseSucceeded,
    /// The guess differs from the secret.
    GuessMismatch,
    /// The guess equals the secret.
    GuessMatch,
}

/// The loop's transition map: reading moves to validation, a parse failure
/// returns to waiting, a parse success moves to comparison, a mismatch
/// returns to waiting, a match wins. An event that has no meaning in a phase
/// leaves the phase unchanged, and the won phase is terminal.
pub open spec fn next_phase(p: Phase, ev: GameEvent) -> Phase {
    match (p, ev) {
        (Phase::AwaitingInput, GameEvent::LineRead) => Phase::Validating,
        (Phase::Validating, GameEvent::ParseFailed) => Phase::AwaitingInput,
        (Phase::Validating, GameEvent::ParseSucceeded) => Phase::Comparing,
        (Phase::Comparing, GameEvent::GuessMismatch) => Phase::AwaitingInput,
        (Phase::Comparing, GameEvent::GuessMatch) => Phase::Won,
        (q, _) => q,
    }
}

/// Takes one step of the loop's state machine.
pub fn transition(p: Phase, ev: GameEvent) -> (q: Phase)
    ensures
        q == next_phase(p, ev),
{
    match (p, ev) {
        (Phase::AwaitingInput, GameEvent::LineRead) => Phase::Validating,
        (Phase::Validating, GameEvent::ParseFailed) => Phase::AwaitingInput,
        (Phase::Validating, GameEvent::ParseSucceeded) => Phase::Comparing,
        (Phase::Comparing, GameEvent::GuessMismatch) => Phase::AwaitingInput,
        (Phase::Comparing, GameEvent::GuessMatch) => Phase::Won,
        (q, _) => q,
    }
}

/// The won phase is terminal: no event leaves it.
pub proof fn lemma_won_is_terminal(ev: GameEvent)
    ensures
        next_phase(Phase::Won, ev) == Phase::Won,
{
}

// ---------------------------------------------------------------------------
// Termination of the loop, at the level of whole plays.
// ---------------------------------------------------------------------------
/// Whether a game that starts with `won` set reaches the won state after the
/// given lines are supplied in order.
pub open spec fn won_after(secret: u32, won: bool, lines: Seq<Seq<u8>>) -> bool
    decreases lines.len(),
{
    if lines.len() == 0 {
        won
    } else {
        won_after(secret, won || outcome(secret, lines[0]) is Correct, lines.drop_first())
    }
}

/// A game already won stays won, whatever else is typed.
proof fn lemma_won_latches(secret: u32, lines: Seq<Seq<u8>>)
    ensures
        won_after(secret, true, lines),
    decreases lines.len(),
{
    if lines.len() > 0 {
        lemma_won_latches(secret, lines.drop_first());
    }
}

/// The guessing loop ends in the won state exactly when some input line
/// parses to the secret.
pub proof fn lemma_game_won_iff_correct_line(secret: u32, lines: Seq<Seq<u8>>)
    ensures
        won_after(secret, false, lines) <==> exists|i: int|
            0 <= i < lines.len() && parse_spec(lines[i]) == Some(secret),
    decreases lines.len(),
{
    if lines.len() > 0 {
        let rest = lines.drop_first();
        lemma_game_won_iff_correct_line(secret, rest);
        if outcome(secret, lines[0]) is Correct {
            lemma_won_latches(secret, rest);
            assert(parse_spec(lines[0]) == Some(secret));
        } else {
            assert(parse_spec(lines[0]) != Some(secret));
            if won_after(secret, false, lines) {
                let i = choose|i: int|
                    0 <= i < rest.len() && parse_spec(rest[i]) == Some(secret);
                assert(rest[i] == lines[i + 1]);
            }
            if exists|i: int| 0 <= i < lines.len() && parse_spec(lines[i]) == Some(secret) {
                let i = choose|i: int|
                    0 <= i < lines.len() && parse_spec(lines[i]) == Some(secret);
                assert(i != 0);
                assert(rest[i - 1] == lines[i]);
            }
        }
    }
}

} // verus!
