//! Character-level helpers: conversions between strings and character
//! vectors, decimal rendering of integers, and substring replacement.

use vstd::prelude::*;

verus! {

/// `String::push` appends one character to the end of the string.
pub assume_specification[ String::push ](s: &mut String, c: char)
    ensures
        final(s)@ == old(s)@.push(c),
;

/// The characters of `text`, in order.
pub fn chars_of(text: &str) -> (chars: Vec<char>)
    ensures
        chars@ == text@,
{
    let mut chars: Vec<char> = Vec::new();
    for c in it: text.chars()
        invariant
            it.seq() == text@,
            chars@ == text@.take(it.index() as int),
    {
        chars.push(c);
    }
    chars
}

/// The string made of `chars`, in order.
pub fn string_of(chars: &Vec<char>) -> (text: String)
    ensures
        text@ == chars@,
{
    let mut text = String::new();
    let mut i: usize = 0;
    while i < chars.len()
        invariant
            i <= chars.len(),
            text@ == chars@.take(i as int),
        decreases chars.len() - i,
    {
        text.push(chars[i]);
        i += 1;
    }
    text
}

/// The decimal digit with value `d`.
pub open spec fn digit_char(d: int) -> char {
    if d == 0 {
        '0'
    } else if d == 1 {
        '1'
    } else if d == 2 {
        '2'
    } else if d == 3 {
        '3'
    } else if d == 4 {
        '4'
    } else if d == 5 {
        '5'
    } else if d == 6 {
        '6'
    } else if d == 7 {
        '7'
    } else if d == 8 {
        '8'
    } else {
        '9'
    }
}

/// The decimal digits of `n`, most significant first, without leading zeros.
pub open spec fn decimal_digits(n: nat) -> Seq<char>
    decreases n,
{
    if n < 10 {
        seq![digit_char(n as int)]
    } else {
        decimal_digits(n / 10).push(digit_char((n % 10) as int))
    }
}

/// The decimal form of `i`: a minus sign for negative numbers, then the
/// digits of the magnitude.
pub open spec fn decimal(i: int) -> Seq<char> {
    if i < 0 {
        seq!['-'] + decimal_digits((-i) as nat)
    } else {
        decimal_digits(i as nat)
    }
}

fn digit_of(d: u64) -> (c: char)
    requires
        d < 10,
    ensures
        c == digit_char(d as int),
{
    if d == 0 {
        '0'
    } else if d == 1 {
        '1'
    } else if d == 2 {
        '2'
    } else if d == 3 {
        '3'
    } else if d == 4 {
        '4'
    } else if d == 5 {
        '5'
    } else if d == 6 {
        '6'
    } else if d == 7 {
        '7'
    } else if d == 8 {
        '8'
    } else {
        '9'
    }
}

/// Renders `value` in decimal.
pub fn decimal_string(value: i64) -> (text: String)
    ensures
        text@ == decimal(value as int),
{
    let magnitude: u64 = if value < 0 {
        (-(value + 1)) as u64 + 1
    } else {
        value as u64
    };
    // Digits are produced least significant first and emitted in reverse.
    let mut reversed: Vec<char> = Vec::new();
    reversed.push(digit_of(magnitude % 10));
    let mut rest: u64 = magnitude / 10;
    let ghost mut tail: Seq<char> = seq![digit_char((magnitude % 10) as int)];
    while rest > 0
        invariant
            tail.len() == reversed.len(),
            forall|k: int| 0 <= k < tail.len() ==> tail[k] == reversed@[reversed.len() - 1 - k],
            decimal_digits(magnitude as nat) == (if rest > 0 {
                decimal_digits(rest as nat)
            } else {
                Seq::<char>::empty()
            }) + tail,
        decreases rest,
    {
        let c = digit_of(rest % 10);
        reversed.push(c);
        proof {
            tail = seq![c] + tail;
        }
        rest = rest / 10;
    }
    let mut text = String::new();
    if value < 0 {
        text.push('-');
    }
    let ghost sign: Seq<char> = if value < 0 {
        seq!['-']
    } else {
        Seq::<char>::empty()
    };
    let mut k: usize = reversed.len();
    while k > 0
        invariant
            k <= reversed.len(),
            tail.len() == reversed.len(),
            forall|j: int| 0 <= j < tail.len() ==> tail[j] == reversed@[reversed.len() - 1 - j],
            text@ == sign + tail.take(reversed.len() - k),
        decreases k,
    {
        k -= 1;
        text.push(reversed[k]);
        assert(tail.take(reversed.len() - k) == tail.take(reversed.len() - k - 1).push(
            reversed@[k as int],
        ));
    }
    assert(tail.take(tail.len() as int) == tail);
    text
}

/// Whether `pattern` occurs in `text` starting at position `at`.
pub open spec fn occurs_at(text: Seq<char>, at: int, pattern: Seq<char>) -> bool {
    &&& 0 <= at
    &&& at + pattern.len() <= text.len()
    &&& text.subrange(at, at + pattern.len()) == pattern
}

/// `text` with every occurrence of `from` replaced by `to`, scanning from
/// the left and never inside a replacement. An empty `from` replaces
/// nothing.
pub open spec fn replaced(text: Seq<char>, from: Seq<char>, to: Seq<char>) -> Seq<char>
    decreases text.len(),
{
    if from.len() == 0 || text.len() == 0 {
        text
    } else if occurs_at(text, 0, from) {
        to + replaced(text.skip(from.len() as int), from, to)
    } else {
        seq![text[0]] + replaced(text.skip(1), from, to)
    }
}

/// Tests whether `pattern` occurs in `text` at position `at`.
pub fn occurs_at_position(text: &Vec<char>, at: usize, pattern: &Vec<char>) -> (found: bool)
    ensures
        found == occurs_at(text@, at as int, pattern@),
{
    if at > text.len() || pattern.len() > text.len() - at {
        return false;
    }
    let mut k: usize = 0;
    while k < pattern.len()
        invariant
            at <= text.len(),
            pattern.len() <= text.len() - at,
            k <= pattern.len(),
            forall|j: int| 0 <= j < k ==> text@[at + j] == pattern@[j],
        decreases pattern.len() - k,
    {
        if text[at + k] != pattern[k] {
            assert(text@.subrange(at as int, at + pattern.len())[k as int] != pattern@[k as int]);
            return false;
        }
        k += 1;
    }
    assert(text@.subrange(at as int, at + pattern.len()) =~= pattern@);
    true
}

/// Replaces every occurrence of `from` in `text` by `to`.
pub fn replace_chars(text: &Vec<char>, from: &Vec<char>, to: &Vec<char>) -> (out: Vec<char>)
    ensures
        out@ == replaced(text@, from@, to@),
{
    let mut out: Vec<char> = Vec::new();
    let mut i: usize = 0;
    assert(text@.skip(0) =~= text@);
    while i < text.len()
        invariant
            i <= text.len(),
            replaced(text@, from@, to@) == out@ + replaced(text@.skip(i as int), from@, to@),
        decreases text.len() - i,
    {
        let ghost rest = text@.skip(i as int);
        if from.len() > 0 && occurs_at_position(text, i, from) {
            assert(rest.subrange(0, from.len() as int) =~= text@.subrange(
                i as int,
                i + from.len(),
            ));
            assert(rest.skip(from.len() as int) =~= text@.skip(i + from.len()));
            let mut k: usize = 0;
            let ghost before = out@;
            while k < to.len()
                invariant
                    k <= to.len(),
                    out@ == before + to@.take(k as int),
                decreases to.len() - k,
            {
                out.push(to[k]);
                k += 1;
            }
            assert(to@.take(to.len() as int) == to@);
            assert(before + to@ + replaced(rest.skip(from.len() as int), from@, to@) =~= before + (
            to@ + replaced(rest.skip(from.len() as int), from@, to@)));
            i += from.len();
        } else {
            assert(from.len() > 0 ==> (occurs_at(rest, 0, from@) <==> occurs_at(
                text@,
                i as int,
                from@,
            ))) by {
                if from.len() > 0 && i + from.len() <= text.len() {
                    assert(rest.subrange(0, from.len() as int) =~= text@.subrange(
                        i as int,
                        i + from.len(),
                    ));
                }
            }
            assert(rest.skip(1) =~= text@.skip(i + 1));
            let ghost before = out@;
            out.push(text[i]);
            assert(before.push(text@[i as int]) + replaced(rest.skip(1), from@, to@) =~= before + (
            seq![rest[0]] + replaced(rest.skip(1), from@, to@)));
            i += 1;
        }
    }
    assert(text@.skip(text.len() as int).len() == 0);
    out
}

/// `text` as the extractor wants it: every carriage return and line feed
/// pair removed, then every remaining line feed removed, then every
/// backslash-escaped single quote turned into two single quotes.
pub open spec fn normalized(text: Seq<char>) -> Seq<char> {
    replaced(
        replaced(replaced(text, seq!['\r', '\n'], Seq::empty()), seq!['\n'], Seq::empty()),
        seq!['\\', '\''],
        seq!['\'', '\''],
    )
}

/// Prepares the text of a document for extraction: removes the line breaks
/// and rewrites escaped single quotes as doubled ones.
pub fn normalize_document(text: &str) -> (out: String)
    ensures
        out@ == normalized(text@),
{
    let chars = chars_of(text);
    let nothing: Vec<char> = Vec::new();
    let mut crlf: Vec<char> = Vec::new();
    crlf.push('\r');
    crlf.push('\n');
    let mut lf: Vec<char> = Vec::new();
    lf.push('\n');
    let mut escaped: Vec<char> = Vec::new();
    escaped.push('\\');
    escaped.push('\'');
    let mut doubled: Vec<char> = Vec::new();
    doubled.push('\'');
    doubled.push('\'');
    assert(nothing@ =~= Seq::<char>::empty());
    assert(crlf@ =~= seq!['\r', '\n']);
    assert(lf@ =~= seq!['\n']);
    assert(escaped@ =~= seq!['\\', '\'']);
    assert(doubled@ =~= seq!['\'', '\'']);
    let joined = replace_chars(&chars, &crlf, &nothing);
    let unbroken = replace_chars(&joined, &lf, &nothing);
    let requoted = replace_chars(&unbroken, &escaped, &doubled);
    string_of(&requoted)
}

} // verus!
