use vstd::prelude::*;

use crate::text::{chars_of, string_of};

verus! {

/// Unicode's alphabetic property of a character.
pub uninterp spec fn alphabetic(c: char) -> bool;

/// Unicode's alphabetic or numeric property of a character.
pub uninterp spec fn alphanumeric(c: char) -> bool;

/// Relies on std's `char::is_alphabetic`.
#[verifier::external_body]
fn is_alphabetic(c: char) -> (r: bool)
    ensures
        r == alphabetic(c),
{
    c.is_alphabetic()
}

/// Relies on std's `char::is_alphanumeric`.
#[verifier::external_body]
fn is_alphanumeric(c: char) -> (r: bool)
    ensures
        r == alphanumeric(c),
{
    c.is_alphanumeric()
}

/// A piece of a parsed format pattern.
#[derive(Debug, PartialEq, Eq)]
pub enum Piece {
    /// Literal text.
    Text(String),
    /// A `{name(arg):params}` argument.
    Argument { formatter: Formatter, parameters: Parameters },
    /// A malformed part of the pattern.
    Error(String),
}

/// The name and argument of a pattern argument.
#[derive(Debug, PartialEq, Eq)]
pub struct Formatter {
    pub name: String,
    pub arg: String,
}

/// The fill, alignment, width and precision of a pattern argument.
#[derive(Debug, PartialEq, Eq)]
pub struct Parameters {
    pub fill: char,
    pub align: Alignment,
    pub width: usize,
    pub precision: usize,
}

/// Where text is placed within its width.
#[derive(Clone, Copy, Debug, PartialEq, Eq)]
pub enum Alignment {
    Left,
    Right,
}

/// A parser that splits a format pattern into pieces.
pub struct Parser {
    chars: Vec<char>,
    pos: usize,
}

/// The decimal value of a character, if it is an ASCII digit.
pub open spec fn digit_value(c: char) -> Option<nat> {
    if '0' <= c && c <= '9' {
        Some((c as nat - '0' as nat) as nat)
    } else {
        None
    }
}

/// The first position at or after `i` where `s` holds no ASCII digit.
pub open spec fn digits_end(s: Seq<char>, i: int) -> int
    decreases s.len() - i,
{
    if i < 0 || i >= s.len() || digit_value(s[i]) is None {
        i
    } else {
        digits_end(s, i + 1)
    }
}

/// The first position at or after `i` where `s` holds no alphanumeric character.
pub open spec fn alphanumeric_end(s: Seq<char>, i: int) -> int
    decreases s.len() - i,
{
    if i < 0 || i >= s.len() || !alphanumeric(s[i]) {
        i
    } else {
        alphanumeric_end(s, i + 1)
    }
}

/// The first position at or after `i` where `s` holds `{` or `}`.
pub open spec fn text_end(s: Seq<char>, i: int) -> int
    decreases s.len() - i,
{
    if i < 0 || i >= s.len() || s[i] == '{' || s[i] == '}' {
        i
    } else {
        text_end(s, i + 1)
    }
}

/// The first position at or after `i` where `s` holds `)`.
pub open spec fn close_paren(s: Seq<char>, i: int) -> int
    decreases s.len() - i,
{
    if i < 0 || i >= s.len() || s[i] == ')' {
        i
    } else {
        close_paren(s, i + 1)
    }
}

/// The number that the digits of `s` from `i` to `j` spell.
pub open spec fn number(s: Seq<char>, i: int, j: int) -> nat
    decreases j - i,
{
    if j <= i {
        0
    } else {
        number(s, i, j - 1) * 10 + match digit_value(s[j - 1]) {
            Some(d) => d,
            None => 0,
        }
    }
}

/// `n`, or the largest `usize` where `n` is larger.
pub open spec fn saturate(n: nat) -> nat {
    if n > usize::MAX {
        usize::MAX as nat
    } else {
        n
    }
}

/// Where a name that starts at `p` ends.
pub open spec fn name_end(s: Seq<char>, p: int) -> int {
    if 0 <= p < s.len() && alphabetic(s[p]) {
        alphanumeric_end(s, p + 1)
    } else {
        p
    }
}

/// Where an optional `(arg)` at `p` ends; `None` where its `)` is missing.
pub open spec fn arg_end(s: Seq<char>, p: int) -> Option<int> {
    if 0 <= p < s.len() && s[p] == '(' {
        let c = close_paren(s, p + 1);
        if c < s.len() {
            Some(c + 1)
        } else {
            None
        }
    } else {
        Some(p)
    }
}

/// The text between the parentheses of an `(arg)` at `p`; empty where there is none.
pub open spec fn arg_text(s: Seq<char>, p: int) -> Seq<char> {
    if 0 <= p < s.len() && s[p] == '(' {
        s.subrange(p + 1, close_paren(s, p + 1))
    } else {
        Seq::empty()
    }
}

/// The message for an `(arg)` at `p` whose `)` is missing: nothing follows the `(`,
/// or text follows it unclosed.
pub open spec fn arg_error(s: Seq<char>, p: int) -> Seq<char> {
    if p + 1 >= s.len() {
        "unclosed '('"@
    } else {
        "enclosed '('"@
    }
}

/// A number at `q`, saturated, and where it ends; `default` where no digit is there.
pub open spec fn number_at(s: Seq<char>, q: int, default: nat) -> (nat, int) {
    let e = digits_end(s, q);
    if e > q {
        (saturate(number(s, q, e)), e)
    } else {
        (default, q)
    }
}

/// The parameters that the text at `p` gives, and where they end.
pub open spec fn parameters_at(s: Seq<char>, p: int) -> (Parameters, int) {
    if !(0 <= p < s.len() && s[p] == ':') {
        (Parameters { fill: ' ', align: Alignment::Left, width: 0, precision: usize::MAX }, p)
    } else {
        let q0 = p + 1;
        let fill_given = q0 + 1 < s.len() && (s[q0 + 1] == '<' || s[q0 + 1] == '>');
        let fill = if fill_given {
            s[q0]
        } else {
            ' '
        };
        let q1 = if fill_given {
            q0 + 1
        } else {
            q0
        };
        let align = if q1 < s.len() && s[q1] == '>' {
            Alignment::Right
        } else {
            Alignment::Left
        };
        let q2 = if q1 < s.len() && (s[q1] == '<' || s[q1] == '>') {
            q1 + 1
        } else {
            q1
        };
        let width = number_at(s, q2, 0);
        let q3 = width.1;
        let precision = if q3 < s.len() && s[q3] == '.' {
            number_at(s, q3 + 1, usize::MAX as nat)
        } else {
            (usize::MAX as nat, q3)
        };
        (
            Parameters {
                fill,
                align,
                width: width.0 as usize,
                precision: precision.0 as usize,
            },
            precision.1,
        )
    }
}

/// Where the argument that starts at `q` ends: after its parameters, or at the end of
/// the text where its `(arg)` is unclosed.
pub open spec fn argument_end(s: Seq<char>, q: int) -> int {
    match arg_end(s, name_end(s, q)) {
        Some(a) => parameters_at(s, a).1,
        None => s.len() as int,
    }
}

proof fn lemma_digits_end_bounds(s: Seq<char>, i: int)
    requires
        0 <= i <= s.len(),
    ensures
        i <= digits_end(s, i) <= s.len(),
    decreases s.len() - i,
{
    if i < s.len() && digit_value(s[i]) is Some {
        lemma_digits_end_bounds(s, i + 1);
    }
}

proof fn lemma_alphanumeric_end_bounds(s: Seq<char>, i: int)
    requires
        0 <= i <= s.len(),
    ensures
        i <= alphanumeric_end(s, i) <= s.len(),
    decreases s.len() - i,
{
    if i < s.len() && alphanumeric(s[i]) {
        lemma_alphanumeric_end_bounds(s, i + 1);
    }
}

proof fn lemma_text_end_bounds(s: Seq<char>, i: int)
    requires
        0 <= i <= s.len(),
    ensures
        i <= text_end(s, i) <= s.len(),
    decreases s.len() - i,
{
    if i < s.len() && s[i] != '{' && s[i] != '}' {
        lemma_text_end_bounds(s, i + 1);
    }
}

proof fn lemma_saturate_step(v: nat, d: nat)
    requires
        d < 10,
    ensures
        saturate(saturate(v) * 10 + d) == saturate(v * 10 + d),
{
    if v > usize::MAX {
        assert(v * 10 + d > usize::MAX) by (nonlinear_arith)
            requires
                v > usize::MAX,
        ;
        assert(saturate(v) * 10 + d > usize::MAX) by (nonlinear_arith)
            requires
                saturate(v) == usize::MAX,
        ;
    }
}

impl Parser {
    pub closed spec fn chars_spec(&self) -> Seq<char> {
        self.chars@
    }

    pub closed spec fn pos_spec(&self) -> int {
        self.pos as int
    }

    /// The position lies within the pattern.
    pub closed spec fn wf(&self) -> bool {
        self.pos <= self.chars@.len()
    }

    /// A parser at the start of `pattern`.
    pub fn new(pattern: &str) -> (r: Parser)
        ensures
            r.wf(),
            r.chars_spec() == pattern@,
            r.pos_spec() == 0,
    {
        Parser { chars: chars_of(pattern), pos: 0 }
    }

    /// Takes `ch` where it comes next.
    fn consume(&mut self, ch: char) -> (r: bool)
        requires
            old(self).wf(),
        ensures
            final(self).wf(),
            final(self).chars@ == old(self).chars@,
            r == (old(self).pos < old(self).chars@.len() && old(self).chars@[old(self).pos as int]
                == ch),
            r ==> final(self).pos == old(self).pos + 1,
            !r ==> final(self).pos == old(self).pos,
    {
        if self.pos < self.chars.len() && self.chars[self.pos] == ch {
            self.pos = self.pos + 1;
            true
        } else {
            false
        }
    }

    fn slice(&self, start: usize, end: usize) -> (r: String)
        requires
            start <= end <= self.chars@.len(),
        ensures
            r@ == self.chars@.subrange(start as int, end as int),
    {
        let mut out: Vec<char> = Vec::new();
        let mut i: usize = start;
        while i < end
            invariant
                start <= i <= end <= self.chars@.len(),
                out@ == self.chars@.subrange(start as int, i as int),
            decreases end - i,
        {
            out.push(self.chars[i]);
            i = i + 1;
            assert(out@ =~= self.chars@.subrange(start as int, i as int));
        }
        string_of(&out)
    }

    /// An argument: its formatter, then its parameters; an error where the formatter
    /// is malformed.
    fn argument(&mut self) -> (r: Piece)
        requires
            old(self).wf(),
        ensures
            final(self).wf(),
            final(self).chars@ == old(self).chars@,
            final(self).pos >= old(self).pos,
            final(self).pos == argument_end(old(self).chars@, old(self).pos as int),
            ({
                let s = old(self).chars@;
                let ne = name_end(s, old(self).pos as int);
                match arg_end(s, ne) {
                    Some(a) => r matches Piece::Argument { formatter, parameters } && formatter.name@
                        == s.subrange(old(self).pos as int, ne) && formatter.arg@ == arg_text(s, ne)
                        && parameters == parameters_at(s, a).0,
                    None => r matches Piece::Error(m) && m@ == arg_error(s, ne),
                }
            }),
    {
        let formatter = match self.formatter() {
            Ok(formatter) => formatter,
            Err(err) => return Piece::Error(err),
        };
        Piece::Argument { formatter, parameters: self.parameters() }
    }

    /// A name followed by an optional `(arg)`.
    fn formatter(&mut self) -> (r: Result<Formatter, String>)
        requires
            old(self).wf(),
        ensures
            final(self).wf(),
            final(self).chars@ == old(self).chars@,
            final(self).pos >= old(self).pos,
            ({
                let s = old(self).chars@;
                let ne = name_end(s, old(self).pos as int);
                match arg_end(s, ne) {
                    Some(a) => r matches Ok(f) && f.name@ == s.subrange(old(self).pos as int, ne)
                        && f.arg@ == arg_text(s, ne) && final(self).pos == a,
                    None => r matches Err(m) && m@ == arg_error(s, ne) && final(self).pos == s.len(),
                }
            }),
    {
        let name = self.name();
        let arg = self.arg()?;
        Ok(Formatter { name, arg })
    }

    /// An alphabetic character followed by alphanumeric ones; empty where the next
    /// character is not alphabetic.
    fn name(&mut self) -> (r: String)
        requires
            old(self).wf(),
        ensures
            final(self).wf(),
            final(self).chars@ == old(self).chars@,
            final(self).pos >= old(self).pos,
            ({
                let s = old(self).chars@;
                let p = old(self).pos as int;
                if p < s.len() && alphabetic(s[p]) {
                    final(self).pos == alphanumeric_end(s, p + 1) && r@ == s.subrange(
                        p,
                        final(self).pos as int,
                    )
                } else {
                    final(self).pos == p && r@ == Seq::<char>::empty()
                }
            }),
    {
        let start = self.pos;
        if self.pos >= self.chars.len() || !is_alphabetic(self.chars[self.pos]) {
            return String::new();
        }
        self.pos = self.pos + 1;
        while self.pos < self.chars.len() && is_alphanumeric(self.chars[self.pos])
            invariant
                start < self.pos <= self.chars@.len(),
                self.chars@ == old(self).chars@,
                start == old(self).pos,
                alphanumeric_end(self.chars@, start + 1) == alphanumeric_end(
                    self.chars@,
                    self.pos as int,
                ),
            decreases self.chars@.len() - self.pos,
        {
            self.pos = self.pos + 1;
        }
        proof {
            lemma_alphanumeric_end_bounds(self.chars@, start + 1);
        }
        self.slice(start, self.pos)
    }

    /// An optional `(arg)`; an error where the `)` is missing.
    fn arg(&mut self) -> (r: Result<String, String>)
        requires
            old(self).wf(),
        ensures
            final(self).wf(),
            final(self).chars@ == old(self).chars@,
            final(self).pos >= old(self).pos,
            ({
                let s = old(self).chars@;
                let p = old(self).pos as int;
                if p < s.len() && s[p] == '(' {
                    let c = close_paren(s, p + 1);
                    if c < s.len() {
                        r matches Ok(a) && a@ == s.subrange(p + 1, c) && final(self).pos == c + 1
                    } else {
                        r matches Err(m) && m@ == arg_error(s, p) && final(self).pos == s.len()
                    }
                } else {
                    r matches Ok(a) && a@ == Seq::<char>::empty() && final(self).pos == p
                }
            }),
    {
        if !self.consume('(') {
            return Ok(String::new());
        }
        let start = self.pos;
        while self.pos < self.chars.len() && self.chars[self.pos] != ')'
            invariant
                start <= self.pos <= self.chars@.len(),
                self.chars@ == old(self).chars@,
                start == old(self).pos + 1,
                close_paren(self.chars@, start as int) == close_paren(
                    self.chars@,
                    self.pos as int,
                ),
            decreases self.chars@.len() - self.pos,
        {
            self.pos = self.pos + 1;
        }
        if self.pos < self.chars.len() {
            let a = self.slice(start, self.pos);
            self.pos = self.pos + 1;
            Ok(a)
        } else if self.pos == start {
            Err(String::from_str("unclosed '('"))
        } else {
            Err(String::from_str("enclosed '('"))
        }
    }

    /// Parameters after an optional `:`: a fill character before `<` or `>`, the
    /// alignment, a width and a `.`-prefixed precision.
    fn parameters(&mut self) -> (r: Parameters)
        requires
            old(self).wf(),
        ensures
            final(self).wf(),
            final(self).chars@ == old(self).chars@,
            final(self).pos >= old(self).pos,
            r == parameters_at(old(self).chars@, old(self).pos as int).0,
            final(self).pos == parameters_at(old(self).chars@, old(self).pos as int).1,
    {
        let mut params = Parameters {
            fill: ' ',
            align: Alignment::Left,
            width: 0,
            precision: usize::MAX,
        };
        if !self.consume(':') {
            return params;
        }
        if self.chars.len() - self.pos > 1 {
            let after = self.chars[self.pos + 1];
            if after == '<' || after == '>' {
                params.fill = self.chars[self.pos];
                self.pos = self.pos + 1;
            }
        }
        if self.consume('<') {
            params.align = Alignment::Left;
        } else if self.consume('>') {
            params.align = Alignment::Right;
        }
        if let Some(width) = self.integer() {
            params.width = width;
        }
        if self.consume('.') {
            if let Some(precision) = self.integer() {
                params.precision = precision;
            }
        }
        params
    }

    /// The decimal number that comes next, saturated at the largest `usize`; `None`
    /// where no digit comes next.
    fn integer(&mut self) -> (r: Option<usize>)
        requires
            old(self).wf(),
        ensures
            final(self).wf(),
            final(self).chars@ == old(self).chars@,
            final(self).pos == digits_end(old(self).chars@, old(self).pos as int),
            final(self).pos >= old(self).pos,
            final(self).pos == old(self).pos ==> r is None,
            final(self).pos > old(self).pos ==> r == Some(
                saturate(number(old(self).chars@, old(self).pos as int, final(self).pos as int))
                    as usize,
            ),
    {
        let start = self.pos;
        let mut cur: usize = 0;
        while self.pos < self.chars.len() && '0' <= self.chars[self.pos] && self.chars[self.pos]
            <= '9'
            invariant
                start <= self.pos <= self.chars@.len(),
                self.chars@ == old(self).chars@,
                start == old(self).pos,
                digits_end(self.chars@, start as int) == digits_end(
                    self.chars@,
                    self.pos as int,
                ),
                cur == saturate(number(self.chars@, start as int, self.pos as int)),
            decreases self.chars@.len() - self.pos,
        {
            let c = self.chars[self.pos];
            let d = (c as u32 - '0' as u32) as usize;
            proof {
                lemma_saturate_step(number(self.chars@, start as int, self.pos as int), d as nat);
                assert(number(self.chars@, start as int, self.pos + 1) == number(
                    self.chars@,
                    start as int,
                    self.pos as int,
                ) * 10 + d);
            }
            let limit: usize = (usize::MAX - d) / 10;
            if cur > limit {
                assert(cur * 10 + d > usize::MAX) by (nonlinear_arith)
                    requires
                        cur > limit,
                        limit == (usize::MAX - d) / 10,
                        d < 10,
                ;
                cur = usize::MAX;
            } else {
                assert(cur * 10 + d <= usize::MAX) by (nonlinear_arith)
                    requires
                        cur <= limit,
                        limit == (usize::MAX - d) / 10,
                        d < 10,
                ;
                cur = cur * 10 + d;
            }
            self.pos = self.pos + 1;
        }
        proof {
            lemma_digits_end_bounds(self.chars@, start as int);
        }
        if self.pos > start {
            Some(cur)
        } else {
            None
        }
    }

    /// Literal text from `start` up to the next `{` or `}`.
    fn text(&mut self, start: usize) -> (r: Piece)
        requires
            old(self).wf(),
            start <= old(self).pos,
        ensures
            final(self).wf(),
            final(self).chars@ == old(self).chars@,
            final(self).pos == text_end(old(self).chars@, old(self).pos as int),
            old(self).pos < old(self).chars@.len() && old(self).chars@[old(self).pos as int] != '{'
                && old(self).chars@[old(self).pos as int] != '}' ==> final(self).pos > old(self).pos,
            r matches Piece::Text(t) && t@ == old(self).chars@.subrange(
                start as int,
                final(self).pos as int,
            ),
    {
        while self.pos < self.chars.len() && self.chars[self.pos] != '{' && self.chars[self.pos]
            != '}'
            invariant
                start <= self.pos <= self.chars@.len(),
                text_end(self.chars@, old(self).pos as int) == text_end(
                    self.chars@,
                    self.pos as int,
                ),
                self.chars@ == old(self).chars@,
            decreases self.chars@.len() - self.pos,
        {
            self.pos = self.pos + 1;
        }
        proof {
            let s0 = old(self).chars@;
            let p0 = old(self).pos as int;
            if p0 < s0.len() && s0[p0] != '{' && s0[p0] != '}' {
                lemma_text_end_bounds(s0, p0 + 1);
            }
        }
        Piece::Text(self.slice(start, self.pos))
    }

    /// The next piece of the pattern, or `None` at its end.
    pub fn next(&mut self) -> (r: Option<Piece>)
        requires
            old(self).wf(),
        ensures
            final(self).wf(),
            final(self).chars_spec() == old(self).chars_spec(),
            r is None <==> old(self).pos_spec() >= old(self).chars_spec().len(),
            r is Some ==> final(self).pos_spec() > old(self).pos_spec(),
            ({
                let s = old(self).chars_spec();
                let p = old(self).pos_spec();
                p < s.len() && s[p] != '{' && s[p] != '}' ==> (r matches Some(Piece::Text(t))
                    && final(self).pos_spec() == text_end(s, p) && t@ == s.subrange(
                    p,
                    final(self).pos_spec(),
                ))
            }),
            ({
                let s = old(self).chars_spec();
                let p = old(self).pos_spec();
                p + 1 < s.len() && s[p] == '{' && s[p + 1] == '{' ==> (r matches Some(
                    Piece::Text(t),
                ) && t@ == seq!['{'] && final(self).pos_spec() == p + 2)
            }),
            ({
                let s = old(self).chars_spec();
                let p = old(self).pos_spec();
                p + 1 < s.len() && s[p] == '}' && s[p + 1] == '}' ==> (r matches Some(
                    Piece::Text(t),
                ) && t@ == seq!['}'] && final(self).pos_spec() == p + 2)
            }),
            ({
                let s = old(self).chars_spec();
                let p = old(self).pos_spec();
                p < s.len() && s[p] == '}' && !(p + 1 < s.len() && s[p + 1] == '}') ==> (r matches Some(
                    Piece::Error(m),
                ) && m@ == "unmatched '}'"@ && final(self).pos_spec() == p + 1)
            }),
            ({
                let s = old(self).chars_spec();
                let p = old(self).pos_spec();
                let q = p + 1;
                let ne = name_end(s, q);
                let e = argument_end(s, q);
                p < s.len() && s[p] == '{' && !(q < s.len() && s[q] == '{') ==> match arg_end(
                    s,
                    ne,
                ) {
                    Some(a) if e < s.len() && s[e] == '}' => r matches Some(
                        Piece::Argument { formatter, parameters },
                    ) && formatter.name@ == s.subrange(q, ne) && formatter.arg@ == arg_text(s, ne)
                        && parameters == parameters_at(s, a).0 && final(self).pos_spec() == e + 1,
                    _ => r matches Some(Piece::Error(m)) && m@ == "expected '}'"@
                        && final(self).pos_spec() == s.len(),
                }
            }),
    {
        proof {
            reveal_strlit("{");
            reveal_strlit("}");
        }
        if self.pos < self.chars.len() {
            let c = self.chars[self.pos];
            {
                if c == '{' {
                    self.pos = self.pos + 1;
                    if self.consume('{') {
                        Some(Piece::Text(String::from_str("{")))
                    } else {
                        let piece = self.argument();
                        if self.consume('}') {
                            Some(piece)
                        } else {
                            self.pos = self.chars.len();
                            Some(Piece::Error(String::from_str("expected '}'")))
                        }
                    }
                } else if c == '}' {
                    self.pos = self.pos + 1;
                    if self.consume('}') {
                        Some(Piece::Text(String::from_str("}")))
                    } else {
                        Some(Piece::Error(String::from_str("unmatched '}'")))
                    }
                } else {
                    let start = self.pos;
                    Some(self.text(start))
                }
            }
        } else {
            None
        }
    }
}

} // verus!
