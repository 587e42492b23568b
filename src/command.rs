use crate::state::{PermanentState, ValidMove};
use crate::suspect::Suspect;
use vstd::prelude::*;
use vstd::string::StringSliceAdditionalSpecFns;

verus! {

/// Why a line of interactive input gave no move.
#[derive(Debug, Clone, Copy, PartialEq, Eq, Structural)]
pub enum InputError {
    /// The line held only whitespace.
    Empty,
    /// The first word is neither a flip nor a guess command.
    UnknownCommand,
    /// A flip command without a count.
    MissingFlipCount,
    /// The count of a flip command is not an `i32`.
    FlipCountNotANumber,
    /// The count of a flip command is zero or negative.
    FlipCountNotPositive(i32),
    /// The count of a flip command exceeds the remaining budget.
    FlipCountOverBudget(i32),
    /// A guess command without a suspect.
    MissingGuess,
    /// A guess command whose suspect is neither honest nor cheater.
    InvalidGuess,
}

/// The one-byte whitespace: tab, line feed, vertical tab, form feed, carriage
/// return and space.
pub open spec fn is_space(b: u8) -> bool {
    b == 9 || b == 10 || b == 11 || b == 12 || b == 13 || b == 32
}

/// The length of the UTF-8 encoding of a whitespace character of more than
/// one byte with which `s` starts, or 0: U+0085, U+00A0, U+1680, U+2000 to
/// U+200A, U+2028, U+2029, U+202F, U+205F and U+3000. With the one-byte
/// whitespace these are the characters of Unicode's White_Space property.
pub open spec fn wide_space_len(s: Seq<u8>) -> int {
    if s.len() >= 2 && s[0] == 0xC2 && (s[1] == 0x85 || s[1] == 0xA0) {
        2
    } else if s.len() >= 3 && ((s[0] == 0xE1 && s[1] == 0x9A && s[2] == 0x80) || (s[0] == 0xE2
        && s[1] == 0x80 && ((0x80 <= s[2] <= 0x8A) || s[2] == 0xA8 || s[2] == 0xA9 || s[2]
        == 0xAF)) || (s[0] == 0xE2 && s[1] == 0x81 && s[2] == 0x9F) || (s[0] == 0xE3 && s[1]
        == 0x80 && s[2] == 0x80)) {
        3
    } else {
        0
    }
}

/// UTF-8 bytes with each whitespace character of more than one byte replaced
/// by a space. Their lead bytes never occur inside another character's
/// encoding, so on UTF-8 this replaces exactly those characters.
pub open spec fn separated(s: Seq<u8>) -> Seq<u8>
    decreases s.len(),
{
    if s.len() == 0 {
        seq![]
    } else if wide_space_len(s) > 0 {
        seq![32u8] + separated(s.skip(wide_space_len(s)))
    } else {
        seq![s[0]] + separated(s.skip(1))
    }
}

/// A byte with ASCII upper case letters taken to lower case.
pub open spec fn lower(b: u8) -> u8 {
    if 65 <= b <= 90 {
        (b + 32) as u8
    } else {
        b
    }
}

/// A byte string with ASCII upper case letters taken to lower case.
pub open spec fn lowered(s: Seq<u8>) -> Seq<u8> {
    s.map_values(|b: u8| lower(b))
}

/// The maximal runs of bytes other than whitespace, in order.
pub open spec fn words(s: Seq<u8>) -> Seq<Seq<u8>>
    decreases s.len(),
{
    if s.len() == 0 {
        seq![]
    } else {
        let p = s.drop_last();
        let c = s.last();
        let w = words(p);
        if is_space(c) {
            w
        } else if p.len() > 0 && !is_space(p.last()) {
            w.update(w.len() - 1, w.last().push(c))
        } else {
            w.push(seq![c])
        }
    }
}

pub open spec fn is_digit(b: u8) -> bool {
    48 <= b <= 57
}

pub open spec fn all_digits(d: Seq<u8>) -> bool {
    forall|i: int| 0 <= i < d.len() ==> is_digit(#[trigger] d[i])
}

/// The number that a string of decimal digits writes.
pub open spec fn digits_value(d: Seq<u8>) -> int
    decreases d.len(),
{
    if d.len() == 0 {
        0
    } else {
        digits_value(d.drop_last()) * 10 + (d.last() - 48)
    }
}

/// The integer that a word writes in decimal, with an optional sign: one or
/// more digits, after a `+` or a `-` or nothing.
pub open spec fn integer_value(t: Seq<u8>) -> Option<int> {
    if t.len() > 0 && (t[0] == 43 || t[0] == 45) {
        let d = t.drop_first();
        if d.len() > 0 && all_digits(d) {
            Some(
                if t[0] == 45 {
                    -digits_value(d)
                } else {
                    digits_value(d)
                },
            )
        } else {
            None
        }
    } else if t.len() > 0 && all_digits(t) {
        Some(digits_value(t))
    } else {
        None
    }
}

/// The `i32` that a word writes, where it writes one that fits.
pub open spec fn parsed_i32(t: Seq<u8>) -> Option<i32> {
    match integer_value(t) {
        Some(v) => if i32::MIN <= v <= i32::MAX {
            Some(v as i32)
        } else {
            None
        },
        None => None,
    }
}

pub open spec fn word_flip() -> Seq<u8> {
    seq![102u8, 108u8, 105u8, 112u8]
}

pub open spec fn word_f() -> Seq<u8> {
    seq![102u8]
}

pub open spec fn word_guess() -> Seq<u8> {
    seq![103u8, 117u8, 101u8, 115u8, 115u8]
}

pub open spec fn word_g() -> Seq<u8> {
    seq![103u8]
}

pub open spec fn word_honest() -> Seq<u8> {
    seq![104u8, 111u8, 110u8, 101u8, 115u8, 116u8]
}

pub open spec fn word_h() -> Seq<u8> {
    seq![104u8]
}

pub open spec fn word_cheater() -> Seq<u8> {
    seq![99u8, 104u8, 101u8, 97u8, 116u8, 101u8, 114u8]
}

pub open spec fn word_c() -> Seq<u8> {
    seq![99u8]
}

/// What a flip command with the words `w` gives, with `remaining` flips left.
pub open spec fn flip_command(w: Seq<Seq<u8>>, remaining: i32) -> Result<ValidMove, InputError> {
    if w.len() < 2 {
        Err(InputError::MissingFlipCount)
    } else {
        match parsed_i32(w[1]) {
            None => Err(InputError::FlipCountNotANumber),
            Some(v) => if v <= 0 {
                Err(InputError::FlipCountNotPositive(v))
            } else if v > remaining {
                Err(InputError::FlipCountOverBudget(v))
            } else {
                Ok(ValidMove::Flip(v))
            },
        }
    }
}

/// What a guess command with the words `w` gives. A cheater guess carries the
/// true suspect's bias, so it is right whenever the suspect cheats.
pub open spec fn guess_command(w: Seq<Seq<u8>>, suspect: Suspect) -> Result<ValidMove, InputError> {
    if w.len() < 2 {
        Err(InputError::MissingGuess)
    } else if w[1] == word_c() || w[1] == word_cheater() {
        Ok(ValidMove::Guess(Suspect::Cheating { probability_of_heads: suspect.bias() as u32 }))
    } else if w[1] == word_h() || w[1] == word_honest() {
        Ok(ValidMove::Guess(Suspect::Honest))
    } else {
        Err(InputError::InvalidGuess)
    }
}

/// What a line of interactive input gives: case is ignored, the first word
/// picks the command and the second is its argument; further words are ignored.
pub open spec fn command_of(line: Seq<u8>, suspect: Suspect, remaining: i32) -> Result<ValidMove, InputError> {
    let w = words(lowered(separated(line)));
    if w.len() == 0 {
        Err(InputError::Empty)
    } else if w[0] == word_flip() || w[0] == word_f() {
        flip_command(w, remaining)
    } else if w[0] == word_guess() || w[0] == word_g() {
        guess_command(w, suspect)
    } else {
        Err(InputError::UnknownCommand)
    }
}

/// The views of a sequence of byte vectors.
pub open spec fn views(v: Seq<Vec<u8>>) -> Seq<Seq<u8>> {
    v.map_values(|t: Vec<u8>| t@)
}

/// The length of the whitespace character of more than one byte that starts
/// at `i` in `b`, or 0.
fn wide_space_at(b: &[u8], i: usize) -> (k: usize)
    requires
        i < b@.len(),
    ensures
        k == wide_space_len(b@.subrange(i as int, b@.len() as int)),
{
    let ghost t = b@.subrange(i as int, b@.len() as int);
    let n = b.len();
    if n - i >= 2 && b[i] == 0xC2 && (b[i + 1] == 0x85 || b[i + 1] == 0xA0) {
        assert(t[0] == b@[i as int] && t[1] == b@[i + 1]);
        return 2;
    }
    if n - i >= 3 {
        let (x, y, z) = (b[i], b[i + 1], b[i + 2]);
        assert(t[0] == x && t[1] == y && t[2] == z);
        if (x == 0xE1 && y == 0x9A && z == 0x80) || (x == 0xE2 && y == 0x80 && ((0x80 <= z
            && z <= 0x8A) || z == 0xA8 || z == 0xA9 || z == 0xAF)) || (x == 0xE2 && y == 0x81
            && z == 0x9F) || (x == 0xE3 && y == 0x80 && z == 0x80) {
            return 3;
        }
    }
    if n - i >= 2 {
        assert(t[0] == b@[i as int] && t[1] == b@[i + 1]);
    }
    0
}

/// The bytes `b` with each whitespace character of more than one byte
/// replaced by a space.
pub fn separate_spaces(b: &[u8]) -> (r: Vec<u8>)
    ensures
        r@ == separated(b@),
{
    let n = b.len();
    let mut out: Vec<u8> = Vec::new();
    let mut i: usize = 0;
    proof {
        assert(b@.subrange(0, n as int) =~= b@);
    }
    while i < n
        invariant
            0 <= i <= n,
            n == b@.len(),
            out@ + separated(b@.subrange(i as int, n as int)) == separated(b@),
        decreases n - i,
    {
        let ghost t = b@.subrange(i as int, n as int);
        let k = wide_space_at(b, i);
        let ghost before = out@;
        if k > 0 {
            out.push(32u8);
            proof {
                assert(t.skip(k as int) =~= b@.subrange(i + k, n as int));
                assert(out@ =~= before + seq![32u8]);
                assert(out@ + separated(b@.subrange(i + k, n as int)) =~= before + separated(t));
            }
            i = i + k;
        } else {
            out.push(b[i]);
            proof {
                assert(t[0] == b@[i as int]);
                assert(t.skip(1) =~= b@.subrange(i + 1, n as int));
                assert(out@ =~= before + seq![b@[i as int]]);
                assert(out@ + separated(b@.subrange(i + 1, n as int)) =~= before + separated(t));
            }
            i = i + 1;
        }
    }
    proof {
        assert(b@.subrange(n as int, n as int) =~= Seq::<u8>::empty());
        assert(out@ + Seq::<u8>::empty() =~= out@);
    }
    out
}

/// Splits `input` into its words at any Unicode whitespace, with ASCII
/// letters taken to lower case.
pub fn split_words(input: &[u8]) -> (r: Vec<Vec<u8>>)
    ensures
        views(r@) == words(lowered(separated(input@))),
{
    let sep = separate_spaces(input);
    let bytes = sep.as_slice();
    let ghost l = lowered(bytes@);
    let mut toks: Vec<Vec<u8>> = Vec::new();
    let mut cur: Vec<u8> = Vec::new();
    let mut i: usize = 0;
    proof {
        assert(l.take(0) =~= Seq::<u8>::empty());
        assert(views(toks@) =~= Seq::<Seq<u8>>::empty());
    }
    while i < bytes.len()
        invariant
            0 <= i <= bytes.len(),
            l == lowered(bytes@),
            words(l.take(i as int)) == if cur@.len() > 0 {
                views(toks@).push(cur@)
            } else {
                views(toks@)
            },
            cur@.len() > 0 <==> (i > 0 && !is_space(l[i - 1])),
        decreases bytes.len() - i,
    {
        let b = bytes[i];
        let c: u8 = if 65 <= b && b <= 90 {
            b + 32
        } else {
            b
        };
        let ghost w0 = views(toks@);
        let ghost cur0 = cur@;
        proof {
            assert(l[i as int] == c);
            assert(l.take(i as int + 1).drop_last() =~= l.take(i as int));
            assert(l.take(i as int + 1).last() == c);
        }
        if c == 9 || c == 10 || c == 11 || c == 12 || c == 13 || c == 32 {
            if cur.len() > 0 {
                let done = cur;
                cur = Vec::new();
                toks.push(done);
                proof {
                    assert(views(toks@) =~= w0.push(cur0));
                }
            }
        } else {
            cur.push(c);
            proof {
                if cur0.len() > 0 {
                    assert(w0.push(cur0).update(w0.len() as int, cur0.push(c)) =~= w0.push(
                        cur@,
                    ));
                } else {
                    assert(cur@ =~= seq![c]);
                }
            }
        }
        i = i + 1;
    }
    proof {
        assert(l.take(bytes@.len() as int) =~= l);
    }
    if cur.len() > 0 {
        let ghost w0 = views(toks@);
        let ghost cur0 = cur@;
        toks.push(cur);
        proof {
            assert(views(toks@) =~= w0.push(cur0));
        }
    }
    toks
}

/// Whether the word `t` is the word `w`.
fn word_is(t: &Vec<u8>, w: &[u8]) -> (r: bool)
    ensures
        r == (t@ == w@),
{
    if t.len() != w.len() {
        return false;
    }
    let mut i: usize = 0;
    while i < t.len()
        invariant
            0 <= i <= t.len(),
            t@.len() == w@.len(),
            t@.take(i as int) =~= w@.take(i as int),
        decreases t.len() - i,
    {
        if t[i] != w[i] {
            return false;
        }
        proof {
            assert(t@.take(i as int + 1) =~= t@.take(i as int).push(t@[i as int]));
            assert(w@.take(i as int + 1) =~= w@.take(i as int).push(w@[i as int]));
        }
        i = i + 1;
    }
    proof {
        assert(t@.take(t@.len() as int) =~= t@);
        assert(w@.take(w@.len() as int) =~= w@);
    }
    true
}

/// A bound above every `i32` magnitude, at which reading digits stops growing.
const MAGNITUDE_CAP: i64 = 2_147_483_649;

/// Reads the `i32` that the word `t` writes in decimal with an optional sign,
/// or `None` where it writes none or one that does not fit.
pub fn parse_i32(t: &Vec<u8>) -> (r: Option<i32>)
    ensures
        r == parsed_i32(t@),
{
    let n = t.len();
    if n == 0 {
        return None;
    }
    let negative = t[0] == 45;
    let start: usize = if t[0] == 45 || t[0] == 43 {
        1
    } else {
        0
    };
    if start == n {
        return None;
    }
    let ghost d = t@.subrange(start as int, n as int);
    proof {
        if start == 1 {
            assert(d =~= t@.drop_first());
        } else {
            assert(d =~= t@);
        }
    }
    let mut acc: i64 = 0;
    let mut j: usize = start;
    proof {
        assert(t@.subrange(start as int, start as int) =~= Seq::<u8>::empty());
    }
    while j < n
        invariant
            start <= j <= n,
            n == t@.len(),
            d == t@.subrange(start as int, n as int),
            start == 0 || start == 1,
            start == 1 ==> d == t@.drop_first() && (t@[0] == 43 || t@[0] == 45),
            start == 0 ==> d == t@ && !(t@[0] == 43 || t@[0] == 45),
            negative == (t@[0] == 45),
            all_digits(t@.subrange(start as int, j as int)),
            acc == if digits_value(t@.subrange(start as int, j as int)) < MAGNITUDE_CAP {
                digits_value(t@.subrange(start as int, j as int))
            } else {
                MAGNITUDE_CAP as int
            },
            0 <= digits_value(t@.subrange(start as int, j as int)),
        decreases n - j,
    {
        let b = t[j];
        if !(48 <= b && b <= 57) {
            proof {
                assert(d[j - start] == b);
                assert(!is_digit(d[j - start]));
                assert(!all_digits(d));

            }
            return None;
        }
        let ghost prev = t@.subrange(start as int, j as int);
        let ghost next = t@.subrange(start as int, j as int + 1);
        proof {
            assert(next.drop_last() =~= prev);
            assert(next.last() == b);
            assert(digits_value(next) == digits_value(prev) * 10 + (b - 48));
            if digits_value(prev) >= MAGNITUDE_CAP {
                assert(digits_value(prev) * 10 + (b - 48) >= MAGNITUDE_CAP) by (nonlinear_arith)
                    requires
                        digits_value(prev) >= MAGNITUDE_CAP,
                        48 <= b,
                ;
            }
        }
        let v = acc * 10 + (b - 48) as i64;
        acc = if v < MAGNITUDE_CAP {
            v
        } else {
            MAGNITUDE_CAP
        };
        j = j + 1;
    }
    proof {
        assert(t@.subrange(start as int, n as int) == d);
    }
    if acc == MAGNITUDE_CAP {
        return None;
    }
    if negative {
        if acc <= 2_147_483_648 {
            Some((-acc) as i32)
        } else {
            None
        }
    } else {
        if acc <= 2_147_483_647 {
            Some(acc as i32)
        } else {
            None
        }
    }
}

/// The move or the error of a flip command with the words `w`.
fn handle_flip(w: &Vec<Vec<u8>>, remaining: i32) -> (r: Result<ValidMove, InputError>)
    ensures
        r == flip_command(views(w@), remaining),
{
    if w.len() < 2 {
        return Err(InputError::MissingFlipCount);
    }
    proof {
        assert(views(w@)[1] == w@[1]@);
    }
    match parse_i32(&w[1]) {
        None => Err(InputError::FlipCountNotANumber),
        Some(v) => {
            if v <= 0 {
                Err(InputError::FlipCountNotPositive(v))
            } else if v > remaining {
                Err(InputError::FlipCountOverBudget(v))
            } else {
                Ok(ValidMove::Flip(v))
            }
        },
    }
}

/// The move or the error of a guess command with the words `w`.
fn handle_guess(w: &Vec<Vec<u8>>, suspect: Suspect) -> (r: Result<ValidMove, InputError>)
    ensures
        r == guess_command(views(w@), suspect),
{
    if w.len() < 2 {
        return Err(InputError::MissingGuess);
    }
    proof {
        assert(views(w@)[1] == w@[1]@);
        assert(word_c() =~= [99u8]@);
        assert(word_cheater() =~= [99u8, 104u8, 101u8, 97u8, 116u8, 101u8, 114u8]@);
        assert(word_h() =~= [104u8]@);
        assert(word_honest() =~= [104u8, 111u8, 110u8, 101u8, 115u8, 116u8]@);
    }
    let arg = &w[1];
    if word_is(arg, &[99u8]) || word_is(arg, &[99u8, 104u8, 101u8, 97u8, 116u8, 101u8, 114u8]) {
        Ok(ValidMove::Guess(Suspect::Cheating { probability_of_heads: suspect.get_probability() }))
    } else if word_is(arg, &[104u8]) || word_is(arg, &[104u8, 111u8, 110u8, 101u8, 115u8, 116u8]) {
        Ok(ValidMove::Guess(Suspect::Honest))
    } else {
        Err(InputError::InvalidGuess)
    }
}

/// Reads a line of interactive input as a move: `flip`/`f` with a positive
/// count within the budget, or `guess`/`g` with `honest`/`h` or `cheater`/`c`,
/// in any case and with any whitespace around the words.
pub fn parse_input(input: &str, suspect: Suspect, permanent_state: &PermanentState) -> (r: Result<
    ValidMove,
    InputError,
>)
    ensures
        r == command_of(input.spec_bytes(), suspect, permanent_state.remaining_coin_flips),
{
    let w = split_words(input.as_bytes());
    if w.len() == 0 {
        return Err(InputError::Empty);
    }
    proof {
        assert(views(w@)[0] == w@[0]@);
        assert(word_flip() =~= [102u8, 108u8, 105u8, 112u8]@);
        assert(word_f() =~= [102u8]@);
        assert(word_guess() =~= [103u8, 117u8, 101u8, 115u8, 115u8]@);
        assert(word_g() =~= [103u8]@);
    }
    let command = &w[0];
    if word_is(command, &[102u8, 108u8, 105u8, 112u8]) || word_is(command, &[102u8]) {
        handle_flip(&w, permanent_state.remaining_coin_flips)
    } else if word_is(command, &[103u8, 117u8, 101u8, 115u8, 115u8]) || word_is(command, &[103u8]) {
        handle_guess(&w, suspect)
    } else {
        Err(InputError::UnknownCommand)
    }
}

/// The move that the interactive strategy makes for a line of input: the move
/// it reads, or `TryAgain` where the line gives none.
pub fn interactive_move(input: &str, suspect: Suspect, permanent_state: &PermanentState) -> (r:
    ValidMove)
    ensures
        r == match command_of(input.spec_bytes(), suspect, permanent_state.remaining_coin_flips) {
            Ok(m) => m,
            Err(_) => ValidMove::TryAgain,
        },
{
    match parse_input(input, suspect, permanent_state) {
        Ok(m) => m,
        Err(_) => ValidMove::TryAgain,
    }
}

} // verus!
