use vstd::prelude::*;

use crate::span::Span;
use crate::text::{
    digit_value, is_digit, lower_of, parse_u64, trim_ws, u64_text, lowercase, trim_text,
};

verus! {

/// Why a duration text was refused.
#[derive(Debug, Clone, Copy, PartialEq, Eq, Structural)]
pub enum DurError {
    /// A unit stands where a number should.
    ExpectingNumber,
    /// A unit symbol outside `s`, `m`, `h`, `d`.
    UnknownUnit,
    /// The span does not fit in `u64` seconds.
    TooLarge,
}

/// One lexical unit of a human duration.
#[derive(Debug, Clone, Copy, PartialEq, Eq, Structural)]
pub enum Token {
    /// A run of decimal digits.
    Num(u64),
    /// A run of decimal digits whose value exceeds `u64::MAX`.
    Huge,
    /// Any other single non-space character.
    TimeUnit(char),
}

pub open spec fn is_space(c: char) -> bool {
    c == ' ' || c == '\t' || c == '\n' || c == '\x0C' || c == '\r'
}

/// The token that a digit run of value `v` becomes.
pub open spec fn num_token(v: nat) -> Token {
    if v <= u64::MAX {
        Token::Num(v as u64)
    } else {
        Token::Huge
    }
}

/// `t` followed by `rest`.
pub open spec fn cons(t: Token, rest: Seq<Token>) -> Seq<Token> {
    seq![t] + rest
}

proof fn lemma_cons(t: Token, rest: Seq<Token>)
    ensures
        cons(t, rest).len() == rest.len() + 1,
        cons(t, rest)[0] == t,
        cons(t, rest).drop_first() == rest,
{
    assert(cons(t, rest).drop_first() =~= rest);
}

/// The tokens of `s` from index `i` on, where `acc` is the value of a digit run
/// that ends just before `i`, if one does.
pub open spec fn tokens_acc(s: Seq<char>, i: int, acc: Option<nat>) -> Seq<Token>
    decreases s.len() - i, if acc is Some { 1int } else { 0int },
{
    if 0 <= i < s.len() && is_digit(s[i]) {
        let v = match acc {
            Some(v) => v,
            None => 0,
        };
        tokens_acc(s, i + 1, Some(v * 10 + digit_value(s[i])))
    } else {
        match acc {
            Some(v) => cons(num_token(v), tokens_acc(s, i, None)),
            None => if i < 0 || i >= s.len() {
                Seq::empty()
            } else if is_space(s[i]) {
                tokens_acc(s, i + 1, None)
            } else {
                cons(Token::TimeUnit(s[i]), tokens_acc(s, i + 1, None))
            },
        }
    }
}

/// The tokens of `s` from index `i` on.
pub open spec fn tokens_from(s: Seq<char>, i: int) -> Seq<Token> {
    tokens_acc(s, i, None)
}

/// Seconds that one unit symbol stands for.
pub open spec fn unit_secs(u: char) -> Option<nat> {
    if u == 's' {
        Some(1)
    } else if u == 'm' {
        Some(60)
    } else if u == 'h' {
        Some(3600)
    } else if u == 'd' {
        Some(90000)
    } else {
        None
    }
}

/// The number of tokens that the leading pair of a nonempty token stream
/// takes: a number with the unit that follows it, if one does, or one token.
pub open spec fn pair_len(t: Seq<Token>) -> nat {
    if t[0] is Num && t.len() > 1 && t[1] is TimeUnit {
        2
    } else {
        1
    }
}

/// The seconds of the leading number-and-unit pair of a nonempty token
/// stream, with the number of tokens that the pair takes. A number with no
/// unit after it counts as seconds.
pub open spec fn lead_pair(t: Seq<Token>) -> Result<(nat, nat), DurError> {
    match t[0] {
        Token::TimeUnit(_) => Err(DurError::ExpectingNumber),
        Token::Huge => Err(DurError::TooLarge),
        Token::Num(n) => if t.len() == 1 {
            Ok((n as nat, 1))
        } else {
            match t[1] {
                Token::TimeUnit(u) => match unit_secs(u) {
                    Some(m) => Ok(((n * m) as nat, 2)),
                    None => Err(DurError::UnknownUnit),
                },
                _ => Ok((n as nat, 1)),
            }
        },
    }
}

/// The total in seconds of the pairs of `t`, added to `acc` from left to right.
pub open spec fn human_from(t: Seq<Token>, acc: nat) -> Result<nat, DurError>
    decreases t.len(),
{
    if t.len() == 0 {
        Ok(acc)
    } else {
        match lead_pair(t) {
            Err(e) => Err(e),
            Ok((v, k)) => if acc + v > u64::MAX {
                Err(DurError::TooLarge)
            } else {
                human_from(t.skip(k as int), acc + v)
            },
        }
    }
}

/// A text read as a human compound duration, in seconds.
pub open spec fn human_secs(s: Seq<char>) -> Result<nat, DurError> {
    human_from(tokens_from(s, 0), 0)
}

/// A digit run at `i` starts with a number token.
proof fn lemma_digit_head(s: Seq<char>, i: int, acc: Option<nat>)
    requires
        0 <= i < s.len(),
        is_digit(s[i]),
    ensures
        tokens_acc(s, i, acc).len() > 0,
        !(tokens_acc(s, i, acc)[0] is TimeUnit),
    decreases s.len() - i,
{
    let v = match acc {
        Some(v) => v,
        None => 0,
    };
    let w = v * 10 + digit_value(s[i]);
    assert(tokens_acc(s, i, acc) == tokens_acc(s, i + 1, Some(w)));
    if i + 1 < s.len() && is_digit(s[i + 1]) {
        lemma_digit_head(s, i + 1, Some(w));
    } else {
        assert(tokens_acc(s, i + 1, Some(w)) == cons(num_token(w), tokens_acc(s, i + 1, None)));
        lemma_cons(num_token(w), tokens_acc(s, i + 1, None));
    }
}

/// A single pass over the characters of a duration text.
pub struct Tokenizer {
    chars: Vec<char>,
    i: usize,
    done: bool,
}

impl Tokenizer {
    /// The characters being read.
    pub closed spec fn text(&self) -> Seq<char> {
        self.chars@
    }

    /// The tokens not yet handed out.
    pub closed spec fn rest(&self) -> Seq<Token> {
        tokens_from(self.chars@, self.i as int)
    }

    /// Whether the end of the stream has been reported.
    pub closed spec fn is_done(&self) -> bool {
        self.done
    }

    /// The cursor stays in the text, and the end is reported only once reached.
    pub closed spec fn wf(&self) -> bool {
        &&& self.i <= self.chars@.len()
        &&& self.done ==> self.rest().len() == 0
    }

    /// A tokenizer at the start of `s`.
    pub fn new(s: &str) -> (r: Tokenizer)
        ensures
            r.wf(),
            r.text() == s@,
            r.rest() == tokens_from(s@, 0),
            !r.is_done(),
    {
        let n = s.unicode_len();
        let mut chars: Vec<char> = Vec::new();
        let mut k: usize = 0;
        while k < n
            invariant
                n == s@.len(),
                k <= n,
                chars@ == s@.subrange(0, k as int),
            decreases n - k,
        {
            chars.push(s.get_char(k));
            k = k + 1;
        }
        assert(chars@ =~= s@);
        Tokenizer { chars, i: 0, done: false }
    }

    /// Whether `next` has reported the end of the stream.
    pub fn done(&self) -> (r: bool)
        ensures
            r == self.is_done(),
    {
        self.done
    }

    /// Reads the digit run at the cursor.
    fn get_num(&mut self) -> (r: Option<Token>)
        requires
            old(self).wf(),
            !old(self).is_done(),
            old(self).i < old(self).chars@.len(),
            is_digit(old(self).chars@[old(self).i as int]),
        ensures
            final(self).wf(),
            !final(self).is_done(),
            final(self).text() == old(self).text(),
            old(self).rest().len() > 0,
            r == Some(old(self).rest()[0]),
            final(self).rest() == old(self).rest().drop_first(),
    {
        let ghost s = self.chars@;
        let ghost start = self.i as int;
        let mut acc: u64 = 0;
        let mut huge = false;
        let ghost mut val: nat = 0;
        assert(tokens_acc(s, start, None) == tokens_acc(s, start + 1, Some(digit_value(s[start]))));
        while self.i < self.chars.len() && ('0' <= self.chars[self.i] && self.chars[self.i] <= '9')
            invariant
                self.chars@ == s,
                !self.done,
                start <= self.i <= s.len(),
                self.i == start ==> val == 0,
                0 <= start < s.len(),
                is_digit(s[start]),
                !huge ==> acc == val,
                huge ==> val > u64::MAX,
                self.i == start ==> tokens_from(s, start) == tokens_acc(s, start + 1, Some(digit_value(s[start]))),
                self.i > start ==> tokens_acc(s, self.i as int, Some(val)) == tokens_from(s, start),
            decreases s.len() - self.i,
        {
            let c = self.chars[self.i];
            let d = (c as u32 - 48) as u64;
            proof {
                if self.i as int > start {
                    assert(tokens_acc(s, self.i as int, Some(val)) == tokens_acc(s, self.i + 1, Some(val * 10 + digit_value(c))));
                }
                val = val * 10 + digit_value(c);
            }
            if !huge {
                match acc.checked_mul(10) {
                    Some(a) => match a.checked_add(d) {
                        Some(b) => {
                            acc = b;
                        },
                        None => {
                            huge = true;
                        },
                    },
                    None => {
                        huge = true;
                    },
                }
            }
            self.i = self.i + 1;
        }
        let tok = if huge {
            Token::Huge
        } else {
            Token::Num(acc)
        };
        assert(self.rest() == old(self).rest().drop_first()) by {
            assert(old(self).rest() == cons(num_token(val), self.rest()));
            lemma_cons(num_token(val), self.rest());
        }
        Some(tok)
    }

    /// Hands out the next token, or `None` at the end of the stream, after
    /// which the stream stays empty.
    pub fn next(&mut self) -> (r: Option<Token>)
        requires
            old(self).wf(),
        ensures
            final(self).wf(),
            final(self).text() == old(self).text(),
            old(self).is_done() ==> r is None && final(self).is_done(),
            old(self).rest().len() == 0 ==> r.is_none() && final(self).is_done()
                && final(self).rest().len() == 0,
            old(self).rest().len() > 0 ==> r == Some(old(self).rest()[0])
                && final(self).rest() == old(self).rest().drop_first()
                && final(self).is_done() == old(self).is_done(),
    {
        let ghost s = self.chars@;
        if self.done {
            return None;
        }
        while self.i < self.chars.len() && (self.chars[self.i] == ' ' || self.chars[self.i] == '\t'
            || self.chars[self.i] == '\n' || self.chars[self.i] == '\x0C' || self.chars[self.i]
            == '\r')
            invariant
                self.chars@ == s,
                !self.done,
                self.i <= s.len(),
                self.rest() == old(self).rest(),
            decreases s.len() - self.i,
        {
            assert(tokens_from(s, self.i as int) == tokens_from(s, self.i + 1));
            self.i = self.i + 1;
        }
        if self.i >= self.chars.len() {
            assert(self.rest() =~= Seq::<Token>::empty());
            self.done = true;
            return None;
        }
        if '0' <= self.chars[self.i] && self.chars[self.i] <= '9' {
            self.get_num()
        } else {
            let c = self.chars[self.i];
            assert(self.rest() == cons(Token::TimeUnit(c), tokens_from(s, self.i + 1)));
            proof {
                lemma_cons(Token::TimeUnit(c), tokens_from(s, self.i + 1));
            }
            self.i = self.i + 1;
            Some(Token::TimeUnit(c))
        }
    }

    /// Takes the next token where it is a unit symbol, and returns its
    /// character; leaves a number in place. At the end of the stream it
    /// reports the end, as `next` does.
    pub fn next_unit(&mut self) -> (r: Option<char>)
        requires
            old(self).wf(),
        ensures
            final(self).wf(),
            final(self).text() == old(self).text(),
            old(self).is_done() ==> r is None && final(self).is_done(),
            old(self).rest().len() == 0 ==> r is None && final(self).is_done()
                && final(self).rest().len() == 0,
            old(self).rest().len() > 0 ==> final(self).is_done() == old(self).is_done() && match old(
                self,
            ).rest()[0] {
                Token::TimeUnit(c) => r == Some(c) && final(self).rest() == old(
                    self,
                ).rest().drop_first(),
                _ => r is None && final(self).rest() == old(self).rest(),
            },
    {
        let ghost s = self.chars@;
        if self.done {
            return None;
        }
        while self.i < self.chars.len() && (self.chars[self.i] == ' ' || self.chars[self.i] == '\t'
            || self.chars[self.i] == '\n' || self.chars[self.i] == '\x0C' || self.chars[self.i]
            == '\r')
            invariant
                self.chars@ == s,
                !self.done,
                self.i <= s.len(),
                self.rest() == old(self).rest(),
            decreases s.len() - self.i,
        {
            assert(tokens_from(s, self.i as int) == tokens_from(s, self.i + 1));
            self.i = self.i + 1;
        }
        if self.i >= self.chars.len() {
            assert(self.rest() =~= Seq::<Token>::empty());
            self.done = true;
            return None;
        }
        if '0' <= self.chars[self.i] && self.chars[self.i] <= '9' {
            proof {
                lemma_digit_head(s, self.i as int, None);
            }
            None
        } else {
            let c = self.chars[self.i];
            assert(self.rest() == cons(Token::TimeUnit(c), tokens_from(s, self.i + 1)));
            proof {
                lemma_cons(Token::TimeUnit(c), tokens_from(s, self.i + 1));
            }
            self.i = self.i + 1;
            Some(c)
        }
    }
}

/// The human grammar's result as a count of seconds.
pub open spec fn human_result(s: Seq<char>) -> Result<u64, DurError> {
    match human_secs(s) {
        Ok(v) => Ok(v as u64),
        Err(e) => Err(e),
    }
}

/// The first index at or after `i` that holds a colon, or the length.
pub open spec fn colon_from(s: Seq<char>, i: int) -> int
    decreases s.len() - i,
{
    if i < 0 || i >= s.len() {
        s.len() as int
    } else if s[i] == ':' {
        i
    } else {
        colon_from(s, i + 1)
    }
}

/// `s` split at its colons into at most three fields; the last takes the rest.
pub open spec fn clock_fields(s: Seq<char>) -> Seq<Seq<char>> {
    let c1 = colon_from(s, 0);
    let c2 = colon_from(s, c1 + 1);
    if c1 >= s.len() {
        seq![s]
    } else if c2 >= s.len() {
        seq![s.subrange(0, c1), s.subrange(c1 + 1, s.len() as int)]
    } else {
        seq![s.subrange(0, c1), s.subrange(c1 + 1, c2), s.subrange(c2 + 1, s.len() as int)]
    }
}

/// The fields of `s`, each read as a `u64`.
pub open spec fn clock_ints(s: Seq<char>) -> Seq<Option<u64>> {
    clock_fields(s).map_values(|f: Seq<char>| u64_text(f))
}

/// A text read as `minutes:seconds` or `hours:minutes:seconds`, in seconds.
pub open spec fn clock_secs(s: Seq<char>) -> Option<nat> {
    let f = clock_ints(s);
    if f.len() == 2 && f[0] is Some && f[1] is Some {
        Some((60 * f[0]->0 + f[1]->0) as nat)
    } else if f.len() == 3 && f[0] is Some && f[1] is Some && f[2] is Some {
        Some((3600 * f[0]->0 + 60 * f[1]->0 + f[2]->0) as nat)
    } else {
        None
    }
}

/// A lower-case, trimmed text read as a duration. `seconds` is the text's
/// value as a plain number of seconds, where it reads as one.
pub open spec fn parse_text(t: Seq<char>, seconds: Option<Span>) -> Result<Span, DurError> {
    match seconds {
        Some(sp) => Ok(sp),
        None => match clock_secs(t) {
            Some(v) => if v <= u64::MAX {
                Ok(Span { secs: v as u64, nanos: 0 })
            } else {
                Err(DurError::TooLarge)
            },
            None => match human_secs(t) {
                Ok(v) => Ok(Span { secs: v as u64, nanos: 0 }),
                Err(e) => Err(e),
            },
        },
    }
}

/// Reads a duration text. The plain-number form is read by the caller, who
/// passes its value as `seconds`, or `None` where the text is no such number:
/// it comes first. Then `minutes:seconds` or `hours:minutes:seconds`, then a
/// sum of numbers each with an optional unit (`s`, `m`, `h`, `d`).
pub fn parse_dur(s: &str, seconds: Option<Span>) -> (r: Result<Span, DurError>)
    ensures
        r == parse_text(lower_of(trim_ws(s@)), seconds),
{
    let t = normalize(s);
    parse_normalized(t.as_str(), seconds)
}

/// The text as the grammars read it: trimmed, then lower-cased.
pub fn normalize(s: &str) -> (r: String)
    ensures
        r@ == lower_of(trim_ws(s@)),
{
    lowercase(trim_text(s))
}

/// Reads a duration text that is already trimmed and lower-cased.
pub fn parse_normalized(t: &str, seconds: Option<Span>) -> (r: Result<Span, DurError>)
    ensures
        r == parse_text(t@, seconds),
{
    if let Some(sp) = seconds {
        return Ok(sp);
    }
    let f = split_as_ints(t);
    if f.len() == 2 {
        if let (Some(min), Some(sec)) = (f[0], f[1]) {
            let v: u128 = 60 * (min as u128) + sec as u128;
            if v > u64::MAX as u128 {
                return Err(DurError::TooLarge);
            }
            return Ok(Span::from_secs(v as u64));
        }
    } else if f.len() == 3 {
        if let (Some(hr), Some(min), Some(sec)) = (f[0], f[1], f[2]) {
            let v: u128 = 3600 * (hr as u128) + 60 * (min as u128) + sec as u128;
            if v > u64::MAX as u128 {
                return Err(DurError::TooLarge);
            }
            return Ok(Span::from_secs(v as u64));
        }
    }
    match parse_human_dur(t) {
        Ok(v) => Ok(Span::from_secs(v)),
        Err(e) => Err(e),
    }
}

fn find_colon(s: &str, from: usize, n: usize) -> (r: usize)
    requires
        n == s@.len(),
        from <= n,
    ensures
        r == colon_from(s@, from as int),
        from <= r <= n,
{
    let mut i = from;
    while i < n && s.get_char(i) != ':'
        invariant
            n == s@.len(),
            from <= i <= n,
            colon_from(s@, i as int) == colon_from(s@, from as int),
        decreases n - i,
    {
        i = i + 1;
    }
    i
}

/// Splits at the first two colons and reads each field as a `u64`.
fn split_as_ints(s: &str) -> (r: Vec<Option<u64>>)
    ensures
        r@ == clock_ints(s@),
{
    let n = s.unicode_len();
    let c1 = find_colon(s, 0, n);
    let mut r: Vec<Option<u64>> = Vec::new();
    if c1 >= n {
        r.push(parse_u64(s));
        assert(s@.subrange(0, n as int) =~= s@);
    } else {
        let c2 = find_colon(s, c1 + 1, n);
        r.push(parse_u64(s.substring_char(0, c1)));
        if c2 >= n {
            r.push(parse_u64(s.substring_char(c1 + 1, n)));
        } else {
            r.push(parse_u64(s.substring_char(c1 + 1, c2)));
            r.push(parse_u64(s.substring_char(c2 + 1, n)));
        }
    }
    assert(r@ =~= clock_ints(s@));
    r
}

/// Reads a sum of numbers each with an optional unit, in seconds.
fn parse_human_dur(s: &str) -> (r: Result<u64, DurError>)
    ensures
        r == human_result(s@),
{
    let mut tok = Tokenizer::new(s);
    let mut dur: u64 = 0;
    while !tok.done()
        invariant
            tok.wf(),
            human_from(tok.rest(), dur as nat) == human_secs(s@),
        decreases tok.rest().len() + if tok.is_done() {
            0int
        } else {
            1int
        },
    {
        match get_dur(&mut tok) {
            Ok(v) => match dur.checked_add(v) {
                Some(x) => {
                    dur = x;
                },
                None => {
                    return Err(DurError::TooLarge);
                },
            },
            Err(e) => {
                return Err(e);
            },
        }
    }
    Ok(dur)
}

/// Takes the next number with its unit, if one follows it, and returns
/// its seconds.
fn get_dur(tok: &mut Tokenizer) -> (r: Result<u64, DurError>)
    requires
        old(tok).wf(),
    ensures
        final(tok).wf(),
        old(tok).is_done() ==> final(tok).is_done(),
        old(tok).rest().len() == 0 ==> r == Ok::<u64, DurError>(0) && final(tok).is_done()
            && final(tok).rest().len() == 0,
        old(tok).rest().len() > 0 ==> final(tok).rest() == old(tok).rest().skip(
            pair_len(old(tok).rest()) as int,
        ),
        old(tok).rest().len() > 0 ==> final(tok).is_done() == (old(tok).rest()[0] is Num && old(
            tok,
        ).rest().len() == 1),
        old(tok).rest().len() > 0 ==> match lead_pair(old(tok).rest()) {
            Err(e) => r == Err::<u64, DurError>(e),
            Ok((v, k)) => {
                &&& k == pair_len(old(tok).rest())
                &&& r == if v > u64::MAX {
                    Err::<u64, DurError>(DurError::TooLarge)
                } else {
                    Ok::<u64, DurError>(v as u64)
                }
            },
        },
{
    let ghost t = tok.rest();
    assert(t.len() > 0 ==> !tok.is_done());
    match tok.next() {
        Some(Token::Num(n)) => {
            let ghost t1 = tok.rest();
            assert(t[0] == Token::Num(n) && t1 == t.drop_first());
            let u = tok.next_unit();
            proof {
                if t.len() > 1 {
                    assert(t1[0] == t[1]);
                    assert(!tok.is_done());
                    if t[1] is TimeUnit {
                        assert(pair_len(t) == 2);
                        assert(u == Some(t[1]->TimeUnit_0));
                        assert(t1.drop_first() =~= t.skip(2));
                    } else {
                        assert(pair_len(t) == 1);
                        assert(u is None);
                        assert(lead_pair(t) == Ok::<(nat, nat), DurError>((n as nat, 1)));
                        assert(t1 =~= t.skip(1));
                    }
                } else {
                    assert(pair_len(t) == 1);
                    assert(u is None);
                    assert(t1 =~= t.skip(1));
                }
            }
            let m = match unit_mult(u) {
                Ok(m) => m,
                Err(e) => {
                    assert(lead_pair(t) == Err::<(nat, nat), DurError>(e));
                    return Err(e);
                },
            };
            proof {
                if t.len() > 1 && t[1] is TimeUnit {
                    let c = t[1]->TimeUnit_0;
                    assert(unit_secs(c) == Some(m as nat));
                    assert(lead_pair(t) == Ok::<(nat, nat), DurError>(((n * m) as nat, 2)));
                } else {
                    assert(m == 1);
                    assert(n * m == n) by (nonlinear_arith)
                        requires
                            m == 1,
                    ;
                    assert(lead_pair(t) == Ok::<(nat, nat), DurError>((n as nat, 1)));
                }
            }
            match n.checked_mul(m) {
                Some(v) => Ok(v),
                None => Err(DurError::TooLarge),
            }
        },
        Some(Token::Huge) => {
            assert(tok.rest() =~= t.skip(1));
            Err(DurError::TooLarge)
        },
        Some(Token::TimeUnit(_)) => {
            assert(tok.rest() =~= t.skip(1));
            Err(DurError::ExpectingNumber)
        },
        None => Ok(0),
    }
}

/// The seconds of a unit symbol; a missing unit counts as seconds.
fn unit_mult(u: Option<char>) -> (r: Result<u64, DurError>)
    ensures
        r == match u {
            Some(c) => match unit_secs(c) {
                Some(m) => Ok(m as u64),
                None => Err(DurError::UnknownUnit),
            },
            None => Ok(1),
        },
{
    match u {
        Some(c) => {
            if c == 's' {
                Ok(1)
            } else if c == 'm' {
                Ok(60)
            } else if c == 'h' {
                Ok(60 * 60)
            } else if c == 'd' {
                Ok(25 * 60 * 60)
            } else {
                Err(DurError::UnknownUnit)
            }
        },
        None => Ok(1),
    }
}

/// Reading is a function of the text and of its plain-number value: equal
/// inputs always give equal results.
pub proof fn lemma_parse_deterministic(a: Seq<char>, b: Seq<char>, seconds: Option<Span>)
    requires
        a == b,
    ensures
        parse_text(lower_of(trim_ws(a)), seconds) == parse_text(lower_of(trim_ws(b)), seconds),
{
}

} // verus!
