//! An upper bound on how deep the collections of a literal text can nest,
//! found by one pass over its characters.
//!
//! The loader opens a collection at an opening bracket or brace, at a block
//! indicator (`-`, `?` or `:` before a blank or the end), and, between the
//! brackets of a flow sequence, at most once more for a single pair. So the
//! depth is never more than twice the number of those characters. Counting
//! them all would refuse long flat collections whose texts hold such
//! characters, so the pass follows the text while it can be sure where it
//! stands: from a bracket or brace at the start, through quoted and plain
//! scalars on one line, it knows the flow level exactly and counts only that.
//! Where it meets anything else, or the outermost collection ends, it stops
//! following and counts every candidate from there on. An explicit key
//! (`?`) is such a place: after it the loader may take a closing bracket for
//! the empty key and leave the sequence open, so a closing bracket no longer
//! tells the level.

use crate::text::chars_of;
use vstd::prelude::*;

verus! {

/// The bound up to which a text is handed to the loader.
pub const MAX_NESTING: usize = 256;

/// Where the pass stands in the text.
#[derive(Clone, Copy, PartialEq, Eq, Structural, Debug)]
pub enum Lexeme {
    /// Before the first character that is no space.
    Start,
    /// Inside a flow collection, where a token may start.
    Token,
    /// Inside a plain scalar of a flow collection.
    Plain,
    /// In the spaces after a part of a plain scalar.
    Gap,
    /// Inside a double-quoted scalar.
    Double,
    /// After a backslash inside a double-quoted scalar.
    Escape,
    /// Inside a single-quoted scalar.
    Single,
    /// After a single quote inside a single-quoted scalar: it ends the
    /// scalar unless another single quote follows.
    Quote,
    /// No longer following: every candidate counts.
    Loose,
}

/// The state of the pass, as numbers without bound.
pub struct ScanView {
    pub lexeme: Lexeme,
    /// The flow level while the pass follows the text.
    pub level: nat,
    /// The deepest flow level that the pass has followed.
    pub deepest: nat,
    /// The candidates counted since the pass stopped following.
    pub loose: nat,
}

/// The state of the pass.
#[derive(Clone, Copy, Debug)]
pub struct Scan {
    pub lexeme: Lexeme,
    pub level: usize,
    pub deepest: usize,
    pub loose: usize,
}

impl View for Scan {
    type V = ScanView;

    open spec fn view(&self) -> ScanView {
        ScanView {
            lexeme: self.lexeme,
            level: self.level as nat,
            deepest: self.deepest as nat,
            loose: self.loose as nat,
        }
    }
}

/// Whether the loader takes `c` for a blank, a line break or the end.
pub open spec fn is_blank_or_end(c: char) -> bool {
    c == ' ' || c == '\t' || c == '\n' || c == '\r' || c == '\0'
}

/// Whether `c` may open a collection where the pass does not follow: a
/// bracket or brace, or a block indicator before a blank or the end.
pub open spec fn is_candidate(c: char, before_blank: bool) -> bool {
    c == '[' || c == '{' || ((c == '-' || c == '?' || c == ':') && before_blank)
}

/// The pass before the first character.
pub open spec fn scan_start() -> ScanView {
    ScanView { lexeme: Lexeme::Start, level: 0, deepest: 0, loose: 0 }
}

/// One character where the pass does not follow.
pub open spec fn loose_step(s: ScanView, c: char, before_blank: bool) -> ScanView {
    ScanView {
        lexeme: Lexeme::Loose,
        loose: if is_candidate(c, before_blank) {
            s.loose + 1
        } else {
            s.loose
        },
        ..s
    }
}

/// One character where a token may start inside a flow collection.
pub open spec fn token_step(s: ScanView, c: char) -> ScanView {
    if c == ' ' || c == ',' || c == ':' {
        ScanView { lexeme: Lexeme::Token, ..s }
    } else if c == '[' || c == '{' {
        ScanView {
            lexeme: Lexeme::Token,
            level: s.level + 1,
            deepest: if s.deepest < s.level + 1 {
                s.level + 1
            } else {
                s.deepest
            },
            ..s
        }
    } else if c == ']' || c == '}' {
        if s.level <= 1 {
            ScanView { lexeme: Lexeme::Loose, level: 0, ..s }
        } else {
            ScanView { lexeme: Lexeme::Token, level: (s.level - 1) as nat, ..s }
        }
    } else if c == '"' {
        ScanView { lexeme: Lexeme::Double, ..s }
    } else if c == '\'' {
        ScanView { lexeme: Lexeme::Single, ..s }
    } else if is_blank_or_end(c) || c == '?' || c == '#' || c == '*' || c == '&' || c == '!'
        || c == '%' || c == '@' || c == '`' {
        ScanView { lexeme: Lexeme::Loose, ..s }
    } else {
        ScanView { lexeme: Lexeme::Plain, ..s }
    }
}

/// Whether `c` ends a plain scalar inside a flow collection.
pub open spec fn ends_plain(c: char) -> bool {
    c == ',' || c == ':' || c == '?' || c == '[' || c == ']' || c == '{' || c == '}'
}

/// One character of the pass. `before_blank` says whether a blank, a line
/// break or the end follows the character.
pub open spec fn scan_step(s: ScanView, c: char, before_blank: bool) -> ScanView {
    match s.lexeme {
        Lexeme::Loose => loose_step(s, c, before_blank),
        Lexeme::Start => if c == ' ' {
            s
        } else if c == '[' || c == '{' {
            ScanView { lexeme: Lexeme::Token, level: 1, deepest: 1, ..s }
        } else {
            loose_step(s, c, before_blank)
        },
        Lexeme::Token => token_step(s, c),
        Lexeme::Plain => if c == ' ' {
            ScanView { lexeme: Lexeme::Gap, ..s }
        } else if is_blank_or_end(c) {
            ScanView { lexeme: Lexeme::Loose, ..s }
        } else if ends_plain(c) {
            token_step(s, c)
        } else {
            s
        },
        Lexeme::Gap => if c == ' ' {
            s
        } else if is_blank_or_end(c) || c == '#' {
            ScanView { lexeme: Lexeme::Loose, ..s }
        } else if ends_plain(c) {
            token_step(s, c)
        } else {
            ScanView { lexeme: Lexeme::Plain, ..s }
        },
        Lexeme::Double => if c == '"' {
            ScanView { lexeme: Lexeme::Token, ..s }
        } else if c == '\\' {
            ScanView { lexeme: Lexeme::Escape, ..s }
        } else if c == '\n' || c == '\r' || c == '\0' {
            ScanView { lexeme: Lexeme::Loose, ..s }
        } else {
            s
        },
        Lexeme::Escape => if c == '\n' || c == '\r' || c == '\0' {
            ScanView { lexeme: Lexeme::Loose, ..s }
        } else {
            ScanView { lexeme: Lexeme::Double, ..s }
        },
        Lexeme::Single => if c == '\'' {
            ScanView { lexeme: Lexeme::Quote, ..s }
        } else if c == '\n' || c == '\r' || c == '\0' {
            ScanView { lexeme: Lexeme::Loose, ..s }
        } else {
            s
        },
        Lexeme::Quote => if c == '\'' {
            ScanView { lexeme: Lexeme::Single, ..s }
        } else {
            token_step(s, c)
        },
    }
}

/// The pass after the first `n` characters of `text`.
pub open spec fn scan_prefix(text: Seq<char>, n: nat) -> ScanView
    decreases n,
{
    if n == 0 || n > text.len() {
        scan_start()
    } else {
        scan_step(
            scan_prefix(text, (n - 1) as nat),
            text[n - 1],
            n == text.len() || is_blank_or_end(text[n as int]),
        )
    }
}

/// An upper bound on the depth to which the collections of `text` nest:
/// twice the deepest flow level that the pass followed plus the candidates
/// that it counted afterwards.
pub open spec fn nesting_bound(text: Seq<char>) -> nat {
    let end = scan_prefix(text, text.len());
    2 * (end.deepest + end.loose)
}

fn blank_or_end(c: char) -> (yes: bool)
    ensures
        yes == is_blank_or_end(c),
{
    c == ' ' || c == '\t' || c == '\n' || c == '\r' || c == '\0'
}

fn step_loose(s: Scan, c: char, before_blank: bool) -> (next: Scan)
    requires
        s.loose < usize::MAX,
    ensures
        next@ == loose_step(s@, c, before_blank),
{
    let counted = c == '[' || c == '{' || ((c == '-' || c == '?' || c == ':') && before_blank);
    Scan {
        lexeme: Lexeme::Loose,
        level: s.level,
        deepest: s.deepest,
        loose: if counted {
            s.loose + 1
        } else {
            s.loose
        },
    }
}

fn step_token(s: Scan, c: char) -> (next: Scan)
    requires
        s.level < usize::MAX,
    ensures
        next@ == token_step(s@, c),
{
    let mut next = s;
    if c == ' ' || c == ',' || c == ':' {
        next.lexeme = Lexeme::Token;
    } else if c == '[' || c == '{' {
        next.lexeme = Lexeme::Token;
        next.level = s.level + 1;
        if s.deepest < s.level + 1 {
            next.deepest = s.level + 1;
        }
    } else if c == ']' || c == '}' {
        if s.level <= 1 {
            next.lexeme = Lexeme::Loose;
            next.level = 0;
        } else {
            next.lexeme = Lexeme::Token;
            next.level = s.level - 1;
        }
    } else if c == '"' {
        next.lexeme = Lexeme::Double;
    } else if c == '\'' {
        next.lexeme = Lexeme::Single;
    } else if blank_or_end(c) || c == '?' || c == '#' || c == '*' || c == '&' || c == '!'
        || c == '%' || c == '@' || c == '`' {
        next.lexeme = Lexeme::Loose;
    } else {
        next.lexeme = Lexeme::Plain;
    }
    next
}

fn step_scan(s: Scan, c: char, before_blank: bool) -> (next: Scan)
    requires
        s.level < usize::MAX,
        s.loose < usize::MAX,
    ensures
        next@ == scan_step(s@, c, before_blank),
{
    let ends = c == ',' || c == ':' || c == '?' || c == '[' || c == ']' || c == '{' || c == '}';
    let broken = c == '\n' || c == '\r' || c == '\0';
    let mut next = s;
    match s.lexeme {
        Lexeme::Loose => {
            next = step_loose(s, c, before_blank);
        },
        Lexeme::Start => {
            if c == ' ' {
            } else if c == '[' || c == '{' {
                next.lexeme = Lexeme::Token;
                next.level = 1;
                next.deepest = 1;
            } else {
                next = step_loose(s, c, before_blank);
            }
        },
        Lexeme::Token => {
            next = step_token(s, c);
        },
        Lexeme::Plain => {
            if c == ' ' {
                next.lexeme = Lexeme::Gap;
            } else if blank_or_end(c) {
                next.lexeme = Lexeme::Loose;
            } else if ends {
                next = step_token(s, c);
            }
        },
        Lexeme::Gap => {
            if c == ' ' {
            } else if blank_or_end(c) || c == '#' {
                next.lexeme = Lexeme::Loose;
            } else if ends {
                next = step_token(s, c);
            } else {
                next.lexeme = Lexeme::Plain;
            }
        },
        Lexeme::Double => {
            if c == '"' {
                next.lexeme = Lexeme::Token;
            } else if c == '\\' {
                next.lexeme = Lexeme::Escape;
            } else if broken {
                next.lexeme = Lexeme::Loose;
            }
        },
        Lexeme::Escape => {
            if broken {
                next.lexeme = Lexeme::Loose;
            } else {
                next.lexeme = Lexeme::Double;
            }
        },
        Lexeme::Single => {
            if c == '\'' {
                next.lexeme = Lexeme::Quote;
            } else if broken {
                next.lexeme = Lexeme::Loose;
            }
        },
        Lexeme::Quote => {
            if c == '\'' {
                next.lexeme = Lexeme::Single;
            } else {
                next = step_token(s, c);
            }
        },
    }
    next
}

/// A step adds at most one to the flow level, to the deepest level and to
/// the count, and the deepest level and the count never add up to more than
/// the number of characters read.
proof fn lemma_scan_prefix_bounded(text: Seq<char>, n: nat)
    requires
        n <= text.len(),
    ensures
        scan_prefix(text, n).level <= scan_prefix(text, n).deepest,
        scan_prefix(text, n).deepest + scan_prefix(text, n).loose <= n,
        scan_prefix(text, n).lexeme == Lexeme::Loose || scan_prefix(text, n).loose == 0,
    decreases n,
{
    if n > 0 {
        lemma_scan_prefix_bounded(text, (n - 1) as nat);
    }
}

/// Computes the bound on the nesting of `source`.
pub fn nesting_bound_of(source: &str) -> (bound: Option<usize>)
    ensures
        match bound {
            Some(b) => b == nesting_bound(source@),
            None => nesting_bound(source@) > usize::MAX,
        },
{
    let chars = chars_of(source);
    let mut state = Scan { lexeme: Lexeme::Start, level: 0, deepest: 0, loose: 0 };
    let mut i: usize = 0;
    while i < chars.len()
        invariant
            i <= chars.len(),
            state@ == scan_prefix(chars@, i as nat),
        decreases chars.len() - i,
    {
        proof {
            lemma_scan_prefix_bounded(chars@, i as nat);
        }
        let before_blank = i + 1 == chars.len() || blank_or_end(chars[i + 1]);
        state = step_scan(state, chars[i], before_blank);
        i += 1;
    }
    proof {
        lemma_scan_prefix_bounded(chars@, chars@.len());
    }
    let units = state.deepest + state.loose;
    if units <= usize::MAX / 2 {
        Some(2 * units)
    } else {
        None
    }
}

/// Tests whether the bound on the nesting of `source` is within the limit.
pub fn within_nesting_limit(source: &str) -> (within: bool)
    ensures
        within == (nesting_bound(source@) <= MAX_NESTING),
{
    match nesting_bound_of(source) {
        Some(bound) => bound <= MAX_NESTING,
        None => false,
    }
}

} // verus!
