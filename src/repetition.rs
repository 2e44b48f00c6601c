//! Which regex patterns the random sampler can take without overflowing its
//! integer arithmetic or building an empty character class.
//!
//! The sampler multiplies the bounds of nested repetitions in `u32` and keeps
//! the largest output length (up to four bytes per character) in `usize`. The
//! scan below bounds, for every chain of nested repetitions, the product of
//! their upper bounds (an unbounded repeat counts its lower bound plus the
//! repetition bound), so that this product times four times the pattern
//! length stays within `u32`. It also refuses the constructs that can denote
//! an empty class (Unicode properties, set operations, nested classes,
//! negated classes beyond plain ASCII and a few escapes) and the `x` flag,
//! under which whitespace and comments would hide the structure. A refused
//! pattern is simply not sampled.

use vstd::prelude::*;
use vstd::string::*;

use crate::literal::{digit_value, is_digit};

verus! {

/// One level of group nesting met while scanning a pattern.
#[derive(Clone, Copy)]
pub struct Frame {
    /// The largest product of repetition bounds on a chain inside the group.
    pub best: u64,
    /// That product for the last item, which a quantifier would repeat.
    pub last: u64,
    /// Whether a quantifier may follow.
    pub has_last: bool,
}

/// A piece of pattern syntax.
#[derive(Clone, Copy)]
pub enum Token {
    /// A character, escape, class, `.`, `^` or `$`.
    Atom,
    /// The start of a group.
    Open,
    /// A group that only sets flags.
    FlagsOnly,
    Close,
    Bar,
    /// A quantifier; `None` as upper bound for an unbounded one.
    Repeat { lower: u64, upper: Option<u64> },
    /// Syntax that the scan does not take.
    Reject,
}

/// The first position at or after `j` that holds `c`, or the length.
pub open spec fn find_from(p: Seq<char>, j: int, c: char) -> int
    decreases p.len() - j,
{
    if j < 0 || j >= p.len() {
        p.len() as int
    } else if p[j] == c {
        j
    } else {
        find_from(p, j + 1, c)
    }
}

/// The first position at or after `j` that ends a flag list, or the length.
pub open spec fn flags_end(p: Seq<char>, j: int) -> int
    decreases p.len() - j,
{
    if j < 0 || j >= p.len() {
        p.len() as int
    } else if p[j] == ':' || p[j] == ')' {
        j
    } else {
        flags_end(p, j + 1)
    }
}

/// Reads the decimal digits from `j` on, after the value `acc` read so far;
/// `None` once the value exceeds `u32::MAX`.
pub open spec fn read_count(p: Seq<char>, j: int, acc: u64) -> Option<(u64, int)>
    decreases p.len() - j,
{
    if 0 <= j < p.len() && is_digit(p[j]) {
        let v = acc * 10 + digit_value(p[j]);
        if v > u32::MAX {
            None
        } else {
            read_count(p, j + 1, v as u64)
        }
    } else {
        Some((acc, j))
    }
}

/// The quantifier `{n}`, `{n,}` or `{n,m}` that starts at `i`.
pub open spec fn counted_token(p: Seq<char>, i: int) -> (Token, int) {
    if !(i + 1 < p.len() && is_digit(p[i + 1])) {
        (Token::Reject, i + 1)
    } else {
        match read_count(p, i + 1, 0) {
            None => (Token::Reject, i + 1),
            Some((n, k)) => if 0 <= k < p.len() && p[k] == '}' {
                (Token::Repeat { lower: n, upper: Some(n) }, k + 1)
            } else if 0 <= k && k + 1 < p.len() && p[k] == ',' && p[k + 1] == '}' {
                (Token::Repeat { lower: n, upper: None }, k + 2)
            } else if 0 <= k && k + 1 < p.len() && p[k] == ',' && is_digit(p[k + 1]) {
                match read_count(p, k + 1, 0) {
                    None => (Token::Reject, i + 1),
                    Some((m, e)) => if 0 <= e < p.len() && p[e] == '}' {
                        (Token::Repeat { lower: n, upper: Some(m) }, e + 1)
                    } else {
                        (Token::Reject, i + 1)
                    },
                }
            } else {
                (Token::Reject, i + 1)
            },
        }
    }
}

/// The escape that starts at `i`.
pub open spec fn escape_token(p: Seq<char>, i: int) -> (Token, int) {
    if i + 1 >= p.len() {
        (Token::Reject, i + 1)
    } else if p[i + 1] == 'p' || p[i + 1] == 'P' {
        (Token::Reject, i + 1)
    } else if (p[i + 1] == 'x' || p[i + 1] == 'u' || p[i + 1] == 'U') && i + 2 < p.len() && p[i
        + 2] == '{' {
        let close = find_from(p, i + 3, '}');
        if close < p.len() {
            (Token::Atom, close + 1)
        } else {
            (Token::Reject, i + 1)
        }
    } else {
        (Token::Atom, i + 2)
    }
}

/// Escapes taken inside a negated class: they cannot make it cover every
/// character.
pub open spec fn negated_escape_ok(e: char) -> bool {
    ||| e == 's'
    ||| e == 'd'
    ||| e == 'w'
    ||| e == 'n'
    ||| e == 't'
    ||| e == 'r'
    ||| (33 <= (e as u32) <= 47)
    ||| (58 <= (e as u32) <= 64)
    ||| (91 <= (e as u32) <= 96)
    ||| (123 <= (e as u32) <= 126)
}

/// The position after the `]` that closes a class body starting at `j`, or
/// `None` where the body holds syntax that the scan does not take.
pub open spec fn class_end(p: Seq<char>, j: int, negated: bool) -> Option<int>
    decreases p.len() - j,
{
    if j < 0 || j >= p.len() {
        None
    } else if p[j] == ']' {
        Some(j + 1)
    } else if p[j] == '[' {
        None
    } else if (p[j] == '&' || p[j] == '-' || p[j] == '~') && j + 1 < p.len() && p[j + 1] == p[j] {
        None
    } else if p[j] == '\\' {
        if j + 1 >= p.len() || p[j + 1] == 'p' || p[j + 1] == 'P' || (negated && !negated_escape_ok(
            p[j + 1],
        )) {
            None
        } else {
            class_end(p, j + 2, negated)
        }
    } else if negated && (p[j] as u32) >= 128 {
        None
    } else {
        class_end(p, j + 1, negated)
    }
}

/// The class that starts at `i`.
pub open spec fn class_token(p: Seq<char>, i: int) -> (Token, int) {
    let negated = i + 1 < p.len() && p[i + 1] == '^';
    let start = if negated {
        i + 2
    } else {
        i + 1
    };
    let body = if start < p.len() && p[start] == ']' {
        start + 1
    } else {
        start
    };
    match class_end(p, body, negated) {
        Some(e) => (Token::Atom, e),
        None => (Token::Reject, i + 1),
    }
}

/// The group opening that starts at `i`.
pub open spec fn group_token(p: Seq<char>, i: int) -> (Token, int) {
    if !(i + 1 < p.len() && p[i + 1] == '?') {
        (Token::Open, i + 1)
    } else if (i + 2 < p.len() && p[i + 2] == '<') || (i + 3 < p.len() && p[i + 2] == 'P' && p[i
        + 3] == '<') {
        let close = find_from(p, i + 2, '>');
        if close < p.len() {
            (Token::Open, close + 1)
        } else {
            (Token::Reject, i + 1)
        }
    } else {
        let k = flags_end(p, i + 2);
        if k >= p.len() || (exists|m: int| i + 2 <= m < k && p[m] == 'x') {
            (Token::Reject, i + 1)
        } else if p[k] == ':' {
            (Token::Open, k + 1)
        } else {
            (Token::FlagsOnly, k + 1)
        }
    }
}

/// The token at `i` and the position after it.
pub open spec fn token_at(p: Seq<char>, i: int) -> (Token, int) {
    let c = p[i];
    if c == '\\' {
        escape_token(p, i)
    } else if c == '[' {
        class_token(p, i)
    } else if c == '(' {
        group_token(p, i)
    } else if c == ')' {
        (Token::Close, i + 1)
    } else if c == '|' {
        (Token::Bar, i + 1)
    } else if c == '*' {
        (Token::Repeat { lower: 0, upper: None }, i + 1)
    } else if c == '+' {
        (Token::Repeat { lower: 1, upper: None }, i + 1)
    } else if c == '?' {
        (Token::Repeat { lower: 0, upper: Some(1) }, i + 1)
    } else if c == '{' {
        counted_token(p, i)
    } else {
        (Token::Atom, i + 1)
    }
}

pub open spec fn max_u64(a: u64, b: u64) -> u64 {
    if a >= b {
        a
    } else {
        b
    }
}

/// The stack of open groups after `tok`; `None` where the pattern is refused.
pub open spec fn apply_token(stack: Seq<Frame>, tok: Token, max_repeat: u32, limit: u64) -> Option<
    Seq<Frame>,
> {
    if stack.len() == 0 {
        None
    } else {
        let top = stack.last();
        let rest = stack.drop_last();
        match tok {
            Token::Atom => Some(rest.push(Frame { best: top.best, last: 1, has_last: true })),
            Token::Open => Some(stack.push(Frame { best: 1, last: 1, has_last: false })),
            Token::FlagsOnly => Some(
                rest.push(Frame { best: top.best, last: top.last, has_last: false }),
            ),
            Token::Bar => Some(rest.push(Frame { best: top.best, last: top.last, has_last: false })),
            Token::Close => if stack.len() < 2 {
                None
            } else {
                let parent = rest.last();
                Some(
                    rest.drop_last().push(
                        Frame {
                            best: max_u64(parent.best, top.best),
                            last: top.best,
                            has_last: true,
                        },
                    ),
                )
            },
            Token::Repeat { lower, upper } => {
                let u: int = match upper {
                    Some(m) => m as int,
                    None => lower + max_repeat,
                };
                let factor: int = if u == 0 {
                    1
                } else {
                    u
                };
                let load: int = top.last * factor;
                if !top.has_last || lower > limit || u > limit || load > limit {
                    None
                } else {
                    Some(
                        rest.push(
                            Frame {
                                best: max_u64(top.best, load as u64),
                                last: load as u64,
                                has_last: true,
                            },
                        ),
                    )
                }
            },
            Token::Reject => None,
        }
    }
}

/// Scans the pattern from `i` with the open groups `stack`.
pub open spec fn scan(p: Seq<char>, i: int, stack: Seq<Frame>, max_repeat: u32, limit: u64) -> bool
    decreases p.len() - i,
{
    if i < 0 || i >= p.len() {
        stack.len() == 1
    } else {
        let (tok, next) = token_at(p, i);
        if next <= i || next > p.len() {
            false
        } else {
            match apply_token(stack, tok, max_repeat, limit) {
                None => false,
                Some(s) => scan(p, next, s, max_repeat, limit),
            }
        }
    }
}

/// The bound on the product of nested repetition bounds for a pattern of
/// `len` characters.
pub open spec fn load_limit(len: nat) -> int {
    u32::MAX as int / (4 * (len as int + 1))
}

pub open spec fn start_frame() -> Frame {
    Frame { best: 1, last: 1, has_last: false }
}

/// Whether the sampler can be built for `p` with `max_repeat` and drawn from
/// without overflow or an empty class.
pub open spec fn sampler_safe(p: Seq<char>, max_repeat: u32) -> bool {
    load_limit(p.len()) >= 1 && scan(p, 0, seq![start_frame()], max_repeat, load_limit(p.len()) as u64)
}

/// Every bound recorded on the stack fits `u32`.
pub open spec fn frames_bounded(stack: Seq<Frame>) -> bool {
    forall|k: int|
        0 <= k < stack.len() ==> (#[trigger] stack[k]).best <= u32::MAX && stack[k].last
            <= u32::MAX
}

/// Longest pattern, in characters, that the scan reads.
const MAX_SCAN_LEN: usize = 0x4000_0000;

fn chars_of(s: &str) -> (r: Vec<char>)
    ensures
        r@ == s@,
{
    let n = s.unicode_len();
    let mut r: Vec<char> = Vec::new();
    let mut i: usize = 0;
    while i < n
        invariant
            i <= n,
            n == s@.len(),
            r@ == s@.take(i as int),
        decreases n - i,
    {
        r.push(s.get_char(i));
        assert(r@ =~= s@.take(i as int + 1));
        i = i + 1;
    }
    assert(s@.take(n as int) =~= s@);
    r
}

fn is_digit_char(c: char) -> (r: bool)
    ensures
        r == is_digit(c),
{
    c == '0' || c == '1' || c == '2' || c == '3' || c == '4' || c == '5' || c == '6' || c == '7'
        || c == '8' || c == '9'
}

fn digit_of(c: char) -> (r: u64)
    ensures
        r == digit_value(c),
        r <= 9,
{
    if c == '1' {
        1
    } else if c == '2' {
        2
    } else if c == '3' {
        3
    } else if c == '4' {
        4
    } else if c == '5' {
        5
    } else if c == '6' {
        6
    } else if c == '7' {
        7
    } else if c == '8' {
        8
    } else if c == '9' {
        9
    } else {
        0
    }
}

fn find_from_exec(p: &Vec<char>, j: usize, c: char) -> (r: usize)
    requires
        j <= p@.len(),
    ensures
        r == find_from(p@, j as int, c),
        j <= r <= p@.len(),
{
    let mut k = j;
    while k < p.len() && p[k] != c
        invariant
            j <= k <= p@.len(),
            find_from(p@, k as int, c) == find_from(p@, j as int, c),
        decreases p.len() - k,
    {
        k = k + 1;
    }
    k
}

fn flags_end_exec(p: &Vec<char>, j: usize) -> (r: usize)
    requires
        j <= p@.len(),
    ensures
        r == flags_end(p@, j as int),
        j <= r <= p@.len(),
{
    let mut k = j;
    while k < p.len() && p[k] != ':' && p[k] != ')'
        invariant
            j <= k <= p@.len(),
            flags_end(p@, k as int) == flags_end(p@, j as int),
        decreases p.len() - k,
    {
        k = k + 1;
    }
    k
}

fn has_x_between(p: &Vec<char>, a: usize, b: usize) -> (r: bool)
    requires
        a <= b <= p@.len(),
    ensures
        r == exists|m: int| a <= m < b && p@[m] == 'x',
{
    let mut m = a;
    while m < b
        invariant
            a <= m <= b,
            b <= p@.len(),
            forall|q: int| a <= q < m ==> p@[q] != 'x',
        decreases b - m,
    {
        if p[m] == 'x' {
            return true;
        }
        m = m + 1;
    }
    false
}

fn read_count_exec(p: &Vec<char>, j: usize, acc: u64) -> (r: Option<(u64, usize)>)
    requires
        j <= p@.len(),
        acc <= u32::MAX,
    ensures
        r is None <==> read_count(p@, j as int, acc) is None,
        r matches Some((v, k)) ==> read_count(p@, j as int, acc) == Some((v, k as int)) && v
            <= u32::MAX && j <= k <= p@.len(),
{
    let mut k = j;
    let mut v = acc;
    while k < p.len() && is_digit_char(p[k])
        invariant
            j <= k <= p@.len(),
            v <= u32::MAX,
            read_count(p@, k as int, v) == read_count(p@, j as int, acc),
        decreases p.len() - k,
    {
        let nv = v * 10 + digit_of(p[k]);
        if nv > u32::MAX as u64 {
            return None;
        }
        v = nv;
        k = k + 1;
    }
    Some((v, k))
}

fn counted_token_exec(p: &Vec<char>, i: usize) -> (r: (Token, usize))
    requires
        i < p@.len() < MAX_SCAN_LEN,
    ensures
        r.0 == counted_token(p@, i as int).0,
        r.1 == counted_token(p@, i as int).1,
{
    if !(i + 1 < p.len() && is_digit_char(p[i + 1])) {
        return (Token::Reject, i + 1);
    }
    match read_count_exec(p, i + 1, 0) {
        None => (Token::Reject, i + 1),
        Some((n, k)) => {
            if k < p.len() && p[k] == '}' {
                (Token::Repeat { lower: n, upper: Some(n) }, k + 1)
            } else if k + 1 < p.len() && p[k] == ',' && p[k + 1] == '}' {
                (Token::Repeat { lower: n, upper: None }, k + 2)
            } else if k + 1 < p.len() && p[k] == ',' && is_digit_char(p[k + 1]) {
                match read_count_exec(p, k + 1, 0) {
                    None => (Token::Reject, i + 1),
                    Some((m, e)) => {
                        if e < p.len() && p[e] == '}' {
                            (Token::Repeat { lower: n, upper: Some(m) }, e + 1)
                        } else {
                            (Token::Reject, i + 1)
                        }
                    },
                }
            } else {
                (Token::Reject, i + 1)
            }
        },
    }
}

fn escape_token_exec(p: &Vec<char>, i: usize) -> (r: (Token, usize))
    requires
        i < p@.len() < MAX_SCAN_LEN,
    ensures
        r.0 == escape_token(p@, i as int).0,
        r.1 == escape_token(p@, i as int).1,
{
    if i + 1 >= p.len() {
        (Token::Reject, i + 1)
    } else if p[i + 1] == 'p' || p[i + 1] == 'P' {
        (Token::Reject, i + 1)
    } else if (p[i + 1] == 'x' || p[i + 1] == 'u' || p[i + 1] == 'U') && i + 2 < p.len() && p[i
        + 2] == '{' {
        let close = find_from_exec(p, i + 3, '}');
        if close < p.len() {
            (Token::Atom, close + 1)
        } else {
            (Token::Reject, i + 1)
        }
    } else {
        (Token::Atom, i + 2)
    }
}

fn negated_escape_ok_exec(e: char) -> (r: bool)
    ensures
        r == negated_escape_ok(e),
{
    let v = e as u32;
    e == 's' || e == 'd' || e == 'w' || e == 'n' || e == 't' || e == 'r' || (33 <= v && v <= 47)
        || (58 <= v && v <= 64) || (91 <= v && v <= 96) || (123 <= v && v <= 126)
}

fn class_end_exec(p: &Vec<char>, j: usize, negated: bool) -> (r: Option<usize>)
    requires
        j <= p@.len() < MAX_SCAN_LEN,
    ensures
        r matches Some(e) ==> class_end(p@, j as int, negated) == Some(e as int),
        r is None ==> class_end(p@, j as int, negated) is None,
        r matches Some(e) ==> e <= p@.len(),
{
    let mut k = j;
    while k < p.len()
        invariant
            j <= k <= p@.len() + 1,
            p@.len() < MAX_SCAN_LEN,
            class_end(p@, k as int, negated) == class_end(p@, j as int, negated),
        decreases p@.len() + 1 - k,
    {
        let c = p[k];
        if c == ']' {
            return Some(k + 1);
        } else if c == '[' {
            return None;
        } else if (c == '&' || c == '-' || c == '~') && k + 1 < p.len() && p[k + 1] == c {
            return None;
        } else if c == '\\' {
            if k + 1 >= p.len() || p[k + 1] == 'p' || p[k + 1] == 'P' || (negated
                && !negated_escape_ok_exec(p[k + 1])) {
                return None;
            }
            k = k + 2;
        } else if negated && (c as u32) >= 128 {
            return None;
        } else {
            k = k + 1;
        }
    }
    None
}

fn class_token_exec(p: &Vec<char>, i: usize) -> (r: (Token, usize))
    requires
        i < p@.len() < MAX_SCAN_LEN,
    ensures
        r.0 == class_token(p@, i as int).0,
        r.1 == class_token(p@, i as int).1,
{
    let negated = i + 1 < p.len() && p[i + 1] == '^';
    let start = if negated {
        i + 2
    } else {
        i + 1
    };
    let body = if start < p.len() && p[start] == ']' {
        start + 1
    } else {
        start
    };
    match class_end_exec(p, body, negated) {
        Some(e) => (Token::Atom, e),
        None => (Token::Reject, i + 1),
    }
}

fn group_token_exec(p: &Vec<char>, i: usize) -> (r: (Token, usize))
    requires
        i < p@.len() < MAX_SCAN_LEN,
    ensures
        r.0 == group_token(p@, i as int).0,
        r.1 == group_token(p@, i as int).1,
{
    if !(i + 1 < p.len() && p[i + 1] == '?') {
        (Token::Open, i + 1)
    } else if (i + 2 < p.len() && p[i + 2] == '<') || (i + 3 < p.len() && p[i + 2] == 'P' && p[i
        + 3] == '<') {
        let close = find_from_exec(p, i + 2, '>');
        if close < p.len() {
            (Token::Open, close + 1)
        } else {
            (Token::Reject, i + 1)
        }
    } else {
        let k = flags_end_exec(p, i + 2);
        if k >= p.len() || has_x_between(p, i + 2, k) {
            (Token::Reject, i + 1)
        } else if p[k] == ':' {
            (Token::Open, k + 1)
        } else {
            (Token::FlagsOnly, k + 1)
        }
    }
}

fn token_at_exec(p: &Vec<char>, i: usize) -> (r: (Token, usize))
    requires
        i < p@.len() < MAX_SCAN_LEN,
    ensures
        r.0 == token_at(p@, i as int).0,
        r.1 == token_at(p@, i as int).1,
{
    let c = p[i];
    if c == '\\' {
        escape_token_exec(p, i)
    } else if c == '[' {
        class_token_exec(p, i)
    } else if c == '(' {
        group_token_exec(p, i)
    } else if c == ')' {
        (Token::Close, i + 1)
    } else if c == '|' {
        (Token::Bar, i + 1)
    } else if c == '*' {
        (Token::Repeat { lower: 0, upper: None }, i + 1)
    } else if c == '+' {
        (Token::Repeat { lower: 1, upper: None }, i + 1)
    } else if c == '?' {
        (Token::Repeat { lower: 0, upper: Some(1) }, i + 1)
    } else if c == '{' {
        counted_token_exec(p, i)
    } else {
        (Token::Atom, i + 1)
    }
}

fn max_of(a: u64, b: u64) -> (r: u64)
    ensures
        r == max_u64(a, b),
{
    if a >= b {
        a
    } else {
        b
    }
}

fn apply_token_exec(stack: &mut Vec<Frame>, tok: Token, max_repeat: u32, limit: u64) -> (ok: bool)
    requires
        limit <= u32::MAX,
        frames_bounded(old(stack)@),
    ensures
        ok == apply_token(old(stack)@, tok, max_repeat, limit) is Some,
        ok ==> apply_token(old(stack)@, tok, max_repeat, limit) == Some(final(stack)@),
        frames_bounded(final(stack)@),
{
    let n = stack.len();
    if n == 0 {
        return false;
    }
    let top = stack[n - 1];
    let ghost rest = stack@.drop_last();
    match tok {
        Token::Atom => {
            stack.pop();
            stack.push(Frame { best: top.best, last: 1, has_last: true });
            true
        },
        Token::Open => {
            stack.push(Frame { best: 1, last: 1, has_last: false });
            true
        },
        Token::FlagsOnly => {
            stack.pop();
            stack.push(Frame { best: top.best, last: top.last, has_last: false });
            true
        },
        Token::Bar => {
            stack.pop();
            stack.push(Frame { best: top.best, last: top.last, has_last: false });
            true
        },
        Token::Close => {
            if n < 2 {
                return false;
            }
            let parent = stack[n - 2];
            stack.pop();
            stack.pop();
            stack.push(
                Frame { best: max_of(parent.best, top.best), last: top.best, has_last: true },
            );
            assert(stack@ =~= rest.drop_last().push(
                Frame { best: max_u64(parent.best, top.best), last: top.best, has_last: true },
            ));
            true
        },
        Token::Repeat { lower, upper } => {
            if !top.has_last || lower > limit {
                return false;
            }
            let u: u64 = match upper {
                Some(m) => m,
                None => lower + max_repeat as u64,
            };
            if u > limit {
                return false;
            }
            let factor: u64 = if u == 0 {
                1
            } else {
                u
            };
            assert(top.last * factor <= 0xFFFF_FFFFu64 * 0xFFFF_FFFFu64) by (nonlinear_arith)
                requires
                    top.last <= 0xFFFF_FFFFu64,
                    factor <= 0xFFFF_FFFFu64,
            ;
            let load = top.last * factor;
            if load > limit {
                return false;
            }
            stack.pop();
            stack.push(Frame { best: max_of(top.best, load), last: load, has_last: true });
            true
        },
        Token::Reject => false,
    }
}

/// Decides `sampler_safe`: whether the sampler can take `pattern` with
/// `max_repeat`.
pub fn sampler_safe_check(pattern: &str, max_repeat: u32) -> (r: bool)
    ensures
        r == sampler_safe(pattern@, max_repeat),
{
    let p = chars_of(pattern);
    let len = p.len();
    if len >= MAX_SCAN_LEN {
        assert(load_limit(len as nat) == 0) by (nonlinear_arith)
            requires
                len >= 0x4000_0000,
        ;
        return false;
    }
    let limit: u64 = 0xFFFF_FFFFu64 / (4 * (len as u64 + 1));
    if limit < 1 {
        return false;
    }
    let mut stack: Vec<Frame> = Vec::new();
    stack.push(start_frame_exec());
    assert(stack@ =~= seq![start_frame()]);
    let mut i: usize = 0;
    while i < len
        invariant
            i <= len,
            len == p@.len(),
            len < MAX_SCAN_LEN,
            p@ == pattern@,
            1 <= limit <= u32::MAX,
            limit == load_limit(len as nat),
            frames_bounded(stack@),
            scan(p@, i as int, stack@, max_repeat, limit) == sampler_safe(pattern@, max_repeat),
        decreases len - i,
    {
        let (tok, next) = token_at_exec(&p, i);
        if next <= i || next > len {
            return false;
        }
        if !apply_token_exec(&mut stack, tok, max_repeat, limit) {
            return false;
        }
        i = next;
    }
    stack.len() == 1
}

fn start_frame_exec() -> (r: Frame)
    ensures
        r == start_frame(),
{
    Frame { best: 1, last: 1, has_last: false }
}

} // verus!
