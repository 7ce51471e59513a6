//! Small general-purpose helpers: checked arithmetic, a greeting
//! builder, and text statistics over characters, words and lines.

use vstd::prelude::*;
use vstd::string::*;

verus! {

/// Add two numbers together.
pub fn add(left: u64, right: u64) -> (r: u64)
    requires
        left + right <= u64::MAX,
    ensures
        r == left + right,
{
    left + right
}

/// Multiply two numbers.
pub fn multiply(left: u64, right: u64) -> (r: u64)
    requires
        left * right <= u64::MAX,
    ensures
        r == left * right,
{
    left * right
}

/// The factorial function, on mathematical integers.
pub open spec fn spec_factorial(n: nat) -> nat
    decreases n,
{
    if n <= 1 {
        1
    } else {
        n * spec_factorial((n - 1) as nat)
    }
}

/// Factorial is monotone, so every value up to the largest admitted
/// argument fits in a `u64`.
proof fn lemma_factorial_monotone(n: nat, m: nat)
    requires
        n <= m,
    ensures
        spec_factorial(n) <= spec_factorial(m),
    decreases m,
{
    if n < m {
        if m <= 1 {
            assert(spec_factorial(n) == 1);
            assert(spec_factorial(m) == 1);
        } else {
            lemma_factorial_monotone(n, (m - 1) as nat);
            assert(spec_factorial(m) == m * spec_factorial((m - 1) as nat));
            assert(spec_factorial((m - 1) as nat) <= m * spec_factorial((m - 1) as nat))
                by (nonlinear_arith)
                requires m >= 1;
        }
    }
}

/// Calculate the factorial of a number.
pub fn factorial(n: u64) -> (r: u64)
    requires
        n <= 20,
    ensures
        r == spec_factorial(n as nat),
    decreases n,
{
    proof {
        lemma_factorial_monotone(n as nat, 20);
        reveal_with_fuel(spec_factorial, 21);
        assert(spec_factorial(20) == 2432902008176640000);
    }
    match n {
        0 | 1 => 1,
        _ => n * factorial(n - 1),
    }
}

/// Generate a greeting message.
pub fn greet(name: &str) -> (r: String)
    ensures
        r@ == "Hello, "@ + name@ + "! Welcome to Gepetto!"@,
{
    let mut message = "Hello, ".to_owned();
    message.append(name);
    message.append("! Welcome to Gepetto!");
    message
}

/// Whether `c` has the Unicode `White_Space` property; this is the set of
/// characters that `str::split_whitespace` separates words on.
pub open spec fn is_ws(c: char) -> bool {
    let u = c as u32;
    u == 0x20 || u == 0x9 || u == 0xA || u == 0xB || u == 0xC || u == 0xD || u == 0x85
        || u == 0xA0 || u == 0x1680 || (0x2000 <= u && u <= 0x200A) || u == 0x2028 || u == 0x2029
        || u == 0x202F || u == 0x205F || u == 0x3000
}

/// Whether `c` is whitespace, per [`is_ws`].
pub fn is_whitespace_char(c: char) -> (r: bool)
    ensures
        r == is_ws(c),
{
    let u = c as u32;
    u == 0x20 || u == 0x9 || u == 0xA || u == 0xB || u == 0xC || u == 0xD || u == 0x85
        || u == 0xA0 || u == 0x1680 || (0x2000 <= u && u <= 0x200A) || u == 0x2028 || u == 0x2029
        || u == 0x202F || u == 0x205F || u == 0x3000
}

/// The number of whitespace-separated words in `s`, given whether the
/// character just before `s` was whitespace (or `s` is at the start of
/// the text): a word is counted at each non-whitespace character that
/// follows whitespace or starts the text.
pub open spec fn word_count_from(s: Seq<char>, after_ws: bool) -> nat
    decreases s.len(),
{
    if s.len() == 0 {
        0
    } else {
        (if after_ws && !is_ws(s[0]) {
            1nat
        } else {
            0nat
        }) + word_count_from(s.drop_first(), is_ws(s[0]))
    }
}

/// The number of whitespace-separated words in `s`.
pub open spec fn spec_word_count(s: Seq<char>) -> nat {
    word_count_from(s, true)
}

/// The word-boundary state after scanning `s`, starting from state `p`:
/// whether the next character would start a new word.
pub open spec fn ws_state_after(s: Seq<char>, p: bool) -> bool {
    if s.len() == 0 {
        p
    } else {
        is_ws(s.last())
    }
}

/// Word counting distributes over concatenation: the words of `a + b` are
/// the words of `a` plus the words of `b` scanned from the boundary state
/// that `a` leaves behind.
pub proof fn lemma_word_count_concat(a: Seq<char>, b: Seq<char>, p: bool)
    ensures
        word_count_from(a + b, p) == word_count_from(a, p) + word_count_from(
            b,
            ws_state_after(a, p),
        ),
    decreases a.len(),
{
    if a.len() == 0 {
        assert(a + b =~= b);
    } else {
        assert((a + b).drop_first() =~= a.drop_first() + b);
        assert((a + b)[0] == a[0]);
        lemma_word_count_concat(a.drop_first(), b, is_ws(a[0]));
        if a.len() > 1 {
            assert(a.drop_first().last() == a.last());
        }
    }
}

/// A non-empty run of non-whitespace characters is one word when it
/// follows a boundary, and none when it continues a word.
pub proof fn lemma_word_count_word(w: Seq<char>, p: bool)
    requires
        w.len() > 0,
        forall|i: int| 0 <= i < w.len() ==> !is_ws(w[i]),
    ensures
        word_count_from(w, p) == if p {
            1nat
        } else {
            0nat
        },
    decreases w.len(),
{
    assert(!is_ws(w[0]));
    if w.len() > 1 {
        assert(forall|i: int|
            0 <= i < w.drop_first().len() ==> w.drop_first()[i] == w[i + 1]);
        lemma_word_count_word(w.drop_first(), false);
    } else {
        assert(w.drop_first().len() == 0);
        assert(word_count_from(w.drop_first(), is_ws(w[0])) == 0);
    }
    assert(word_count_from(w, p) == (if p && !is_ws(w[0]) {
        1nat
    } else {
        0nat
    }) + word_count_from(w.drop_first(), is_ws(w[0])));
}

/// The number of newline characters in `s`.
pub open spec fn spec_newline_count(s: Seq<char>) -> nat
    decreases s.len(),
{
    if s.len() == 0 {
        0
    } else {
        (if s[0] == '\n' {
            1nat
        } else {
            0nat
        }) + spec_newline_count(s.drop_first())
    }
}

/// The newline count never exceeds the text length, and is strictly below
/// it when the text does not end with a newline.
proof fn lemma_newline_count_le(s: Seq<char>)
    ensures
        spec_newline_count(s) <= s.len(),
        s.len() > 0 && s.last() != '\n' ==> spec_newline_count(s) < s.len(),
    decreases s.len(),
{
    if s.len() > 0 {
        lemma_newline_count_le(s.drop_first());
        if s.len() > 1 {
            assert(s.drop_first().last() == s.last());
        }
    }
}

/// The number of lines in `s`, as `str::lines` counts them: one line per
/// newline, plus a final line when the text is non-empty and does not end
/// with a newline.
pub open spec fn spec_line_count(s: Seq<char>) -> nat {
    spec_newline_count(s) + (if s.len() > 0 && s.last() != '\n' {
        1nat
    } else {
        0nat
    })
}

/// Statistics over a piece of text.
#[derive(Clone, Debug, PartialEq, Eq, Structural)]
pub struct TextStats {
    pub char_count: usize,
    pub word_count: usize,
    pub line_count: usize,
}

/// Process text and return statistics: the number of characters, of
/// whitespace-separated words, and of lines.
pub fn analyze_text(text: &str) -> (r: TextStats)
    ensures
        r.char_count == text@.len(),
        r.word_count == spec_word_count(text@),
        r.line_count == spec_line_count(text@),
{
    let n = text.unicode_len();
    proof {
        assert(text@.skip(0) =~= text@);
    }
    let mut words: usize = 0;
    let mut newlines: usize = 0;
    let mut after_ws = true;
    let mut i: usize = 0;
    while i < n
        invariant
            i <= n,
            n == text@.len(),
            words <= i,
            newlines <= i,
            after_ws == if i == 0 { true } else { is_ws(text@[i as int - 1]) },
            spec_word_count(text@) == words + word_count_from(text@.skip(i as int), after_ws),
            spec_newline_count(text@) == newlines + spec_newline_count(text@.skip(i as int)),
        decreases n - i,
    {
        let c = text.get_char(i);
        proof {
            assert(text@.skip(i as int)[0] == text@[i as int]);
            assert(text@.skip(i as int).drop_first() =~= text@.skip(i as int + 1));
        }
        let c_ws = is_whitespace_char(c);
        if after_ws && !c_ws {
            words = words + 1;
        }
        if c == '\n' {
            newlines = newlines + 1;
        }
        after_ws = c_ws;
        i = i + 1;
    }
    proof {
        assert(text@.skip(n as int) =~= Seq::<char>::empty());
    }
    let mut lines = newlines;
    if n > 0 {
        let last = text.get_char(n - 1);
        if last != '\n' {
            proof {
                lemma_newline_count_le(text@);
            }
            lines = lines + 1;
        }
    }
    TextStats { char_count: n, word_count: words, line_count: lines }
}

} // verus!
