//! The cursor that the decoder moves over a text, one token at a time and
//! never backwards.

use vstd::prelude::*;
use crate::error::DecodeError;
use crate::number::{digit_test, is_digit, parse_int, parse_int_in_range};
use crate::text::{chars_of, string_of};

verus! {

/// The kinds of character run that make up a token.
#[derive(Clone, Copy, Debug, PartialEq, Eq, Structural)]
pub enum CharClass {
    /// Digits and both signs.
    Int,
    /// Digits and the plus sign.
    Unsigned,
    /// Digits, both signs and the decimal point.
    Float,
    /// Anything up to a comma or a closing bracket or brace.
    Plain,
    /// Anything up to a double quote.
    Name,
}

/// Whether a character belongs to a run of the class.
pub open spec fn in_class(c: char, class: CharClass) -> bool {
    match class {
        CharClass::Int => is_digit(c) || c == '+' || c == '-',
        CharClass::Unsigned => is_digit(c) || c == '+',
        CharClass::Float => is_digit(c) || c == '+' || c == '-' || c == '.',
        CharClass::Plain => c != '}' && c != ',' && c != ']',
        CharClass::Name => c != '"',
    }
}

/// Where the longest run of the class that starts at `pos` ends.
pub open spec fn run_end(text: Seq<char>, pos: int, class: CharClass) -> int
    decreases text.len() - pos,
{
    if pos < 0 || pos >= text.len() || !in_class(text[pos], class) {
        pos
    } else {
        run_end(text, pos + 1, class)
    }
}

/// The text `true`.
pub open spec fn true_text() -> Seq<char> {
    seq!['t', 'r', 'u', 'e']
}

/// The text `false`.
pub open spec fn false_text() -> Seq<char> {
    seq!['f', 'a', 'l', 's', 'e']
}

/// How many characters of `s` are digits.
pub open spec fn digit_count(s: Seq<char>) -> nat
    decreases s.len(),
{
    if s.len() == 0 {
        0
    } else {
        digit_count(s.drop_last()) + (if is_digit(s.last()) {
            1nat
        } else {
            0nat
        })
    }
}

/// How many characters of `s` are decimal points.
pub open spec fn point_count(s: Seq<char>) -> nat
    decreases s.len(),
{
    if s.len() == 0 {
        0
    } else {
        point_count(s.drop_last()) + (if s.last() == '.' {
            1nat
        } else {
            0nat
        })
    }
}

/// Whether the unsigned part of a decimal number is in order: digits with
/// at most one decimal point among them, and at least one digit.
pub open spec fn is_float_body(body: Seq<char>) -> bool {
    &&& forall|i: int| 0 <= i < body.len() ==> is_digit(#[trigger] body[i]) || body[i] == '.'
    &&& digit_count(body) >= 1
    &&& point_count(body) <= 1
}

/// Whether a token writes a decimal number with an optional fraction: an
/// optional sign, digits with at most one decimal point among them, and
/// at least one digit.
pub open spec fn is_float_text(s: Seq<char>) -> bool {
    if s.len() > 0 && (s[0] == '+' || s[0] == '-') {
        is_float_body(s.skip(1))
    } else {
        is_float_body(s)
    }
}

/// Reading one given character.
pub open spec fn spec_consume_char(text: Seq<char>, pos: int, c: char) -> Result<int, DecodeError> {
    if pos < 0 || pos >= text.len() {
        Err(DecodeError::UnexpectedEnd)
    } else if text[pos] == c {
        Ok(pos + 1)
    } else {
        Err(DecodeError::Malformed)
    }
}

/// Reading one of two given characters.
pub open spec fn spec_consume_either(text: Seq<char>, pos: int, a: char, b: char) -> Result<
    int,
    DecodeError,
> {
    if pos < 0 || pos >= text.len() {
        Err(DecodeError::UnexpectedEnd)
    } else if text[pos] == a || text[pos] == b {
        Ok(pos + 1)
    } else {
        Err(DecodeError::Malformed)
    }
}

/// Reading a given character if it is next.
pub open spec fn spec_consume_maybe(text: Seq<char>, pos: int, c: char) -> Result<
    int,
    DecodeError,
> {
    if pos < 0 || pos >= text.len() {
        Err(DecodeError::UnexpectedEnd)
    } else if text[pos] == c {
        Ok(pos + 1)
    } else {
        Ok(pos)
    }
}

/// Reading an integer between `lo` and `hi`: the longest run of the
/// class is the token.
pub open spec fn spec_consume_number(
    text: Seq<char>,
    pos: int,
    class: CharClass,
    signed: bool,
    lo: int,
    hi: int,
) -> Result<(int, int), DecodeError> {
    if pos < 0 || pos >= text.len() {
        Err(DecodeError::UnexpectedEnd)
    } else {
        let end = run_end(text, pos, class);
        match parse_int_in_range(text.subrange(pos, end), signed, lo, hi) {
            Ok(v) => Ok((v, end)),
            Err(e) => Err(e),
        }
    }
}

/// Reading an integer with the signed token class.
pub open spec fn spec_consume_int(text: Seq<char>, pos: int, signed: bool, lo: int, hi: int) -> Result<
    (int, int),
    DecodeError,
> {
    spec_consume_number(text, pos, CharClass::Int, signed, lo, hi)
}

/// Reading the text of a decimal number with an optional fraction.
pub open spec fn spec_consume_float(text: Seq<char>, pos: int) -> Result<
    (Seq<char>, int),
    DecodeError,
> {
    if pos < 0 || pos >= text.len() {
        Err(DecodeError::UnexpectedEnd)
    } else {
        let end = run_end(text, pos, CharClass::Float);
        let token = text.subrange(pos, end);
        if is_float_text(token) {
            Ok((token, end))
        } else {
            Err(DecodeError::Malformed)
        }
    }
}

/// Reading `true` or `false`: the token runs up to the next comma or
/// closing bracket or brace, or to the end of the text.
pub open spec fn spec_consume_bool(text: Seq<char>, pos: int) -> Result<(bool, int), DecodeError> {
    if pos < 0 || pos >= text.len() {
        Err(DecodeError::UnexpectedEnd)
    } else {
        let end = run_end(text, pos, CharClass::Plain);
        let token = text.subrange(pos, end);
        if token == true_text() {
            Ok((true, end))
        } else if token == false_text() {
            Ok((false, end))
        } else {
            Err(DecodeError::Malformed)
        }
    }
}

/// Reading a field's key: the name in double quotes and a colon after it.
pub open spec fn spec_consume_field(text: Seq<char>, pos: int, name: Seq<char>) -> Result<
    int,
    DecodeError,
> {
    match spec_consume_char(text, pos, '"') {
        Err(e) => Err(e),
        Ok(start) => {
            let end = run_end(text, start, CharClass::Name);
            if end >= text.len() {
                Err(DecodeError::UnexpectedEnd)
            } else if text.subrange(start, end) != name {
                Err(DecodeError::Malformed)
            } else {
                spec_consume_char(text, end + 1, ':')
            }
        },
    }
}

/// Reading the body of a string from `pos` on, with `acc` read so far: a
/// backslash gives the character after it, an unescaped double quote ends
/// the string. The result is the string and the place of the closing quote.
pub open spec fn string_scan(text: Seq<char>, pos: int, acc: Seq<char>) -> Result<
    (Seq<char>, int),
    DecodeError,
>
    decreases text.len() - pos,
{
    if pos < 0 || pos >= text.len() {
        Err(DecodeError::UnexpectedEnd)
    } else if text[pos] == '"' {
        Ok((acc, pos))
    } else if text[pos] == '\\' {
        if pos + 1 >= text.len() {
            Err(DecodeError::UnexpectedEnd)
        } else {
            string_scan(text, pos + 2, acc.push(text[pos + 1]))
        }
    } else {
        string_scan(text, pos + 1, acc.push(text[pos]))
    }
}

/// Reading a string in double quotes.
pub open spec fn spec_consume_string(text: Seq<char>, pos: int) -> Result<
    (Seq<char>, int),
    DecodeError,
> {
    match spec_consume_char(text, pos, '"') {
        Err(e) => Err(e),
        Ok(start) => match string_scan(text, start, Seq::empty()) {
            Err(e) => Err(e),
            Ok((s, quote)) => Ok((s, quote + 1)),
        },
    }
}

/// A run ends within the text, at or after its start, on a character
/// outside the class or at the end; all of the run is in the class.
pub proof fn lemma_run_end(text: Seq<char>, pos: int, class: CharClass)
    requires
        0 <= pos <= text.len(),
    ensures
        pos <= run_end(text, pos, class) <= text.len(),
        run_end(text, pos, class) < text.len() ==> !in_class(
            text[run_end(text, pos, class)],
            class,
        ),
        forall|i: int| pos <= i < run_end(text, pos, class) ==> in_class(#[trigger] text[i], class),
    decreases text.len() - pos,
{
    if pos < text.len() && in_class(text[pos], class) {
        lemma_run_end(text, pos + 1, class);
    }
}

/// A run that starts inside a run of the same class ends where that one ends.
pub proof fn lemma_run_end_step(text: Seq<char>, pos: int, mid: int, class: CharClass)
    requires
        0 <= pos <= mid <= text.len(),
        forall|i: int| pos <= i < mid ==> in_class(#[trigger] text[i], class),
    ensures
        run_end(text, pos, class) == run_end(text, mid, class),
    decreases mid - pos,
{
    if pos < mid {
        lemma_run_end_step(text, pos + 1, mid, class);
    }
}

/// The scanner's state: the text, the cursor, and a scratch buffer
/// that holds the token read last.
#[derive(Debug)]
pub struct JsonWalker {
    pub chars: Vec<char>,
    pub pos: usize,
    /// buffer used to simplify parsing of numbers and names
    pub buffer: Vec<char>,
}

/// The character at the cursor; the text must not have ended.
pub fn peek(walker: &JsonWalker) -> (r: Result<char, DecodeError>)
    ensures
        walker.pos < walker.chars@.len() ==> r == Ok::<char, DecodeError>(
            walker.chars@[walker.pos as int],
        ),
        walker.pos >= walker.chars@.len() ==> r == Err::<char, DecodeError>(
            DecodeError::UnexpectedEnd,
        ),
{
    if walker.pos < walker.chars.len() {
        Ok(walker.chars[walker.pos])
    } else {
        Err(DecodeError::UnexpectedEnd)
    }
}

/// The character at the cursor, or `None` at the end of the text.
pub fn peek_maybe(walker: &JsonWalker) -> (r: Option<char>)
    ensures
        walker.pos < walker.chars@.len() ==> r == Some(walker.chars@[walker.pos as int]),
        walker.pos >= walker.chars@.len() ==> r == None::<char>,
{
    if walker.pos < walker.chars.len() {
        Some(walker.chars[walker.pos])
    } else {
        None
    }
}

/// Whether a character belongs to a run of the class.
pub fn class_test(c: char, class: CharClass) -> (b: bool)
    ensures
        b == in_class(c, class),
{
    match class {
        CharClass::Int => digit_test(c) || c == '+' || c == '-',
        CharClass::Unsigned => digit_test(c) || c == '+',
        CharClass::Float => digit_test(c) || c == '+' || c == '-' || c == '.',
        CharClass::Plain => c != '}' && c != ',' && c != ']',
        CharClass::Name => c != '"',
    }
}

/// Whether two character sequences are the same.
pub fn same_chars(a: &Vec<char>, b: &Vec<char>) -> (r: bool)
    ensures
        r == (a@ == b@),
{
    if a.len() != b.len() {
        return false;
    }
    let mut i: usize = 0;
    while i < a.len()
        invariant
            i <= a.len(),
            a.len() == b.len(),
            forall|k: int| 0 <= k < i ==> a@[k] == b@[k],
        decreases a.len() - i,
    {
        if a[i] != b[i] {
            return false;
        }
        i += 1;
    }
    assert(a@ =~= b@);
    true
}

/// Whether a token writes a decimal number with an optional fraction.
#[verifier::loop_isolation(false)]
pub fn float_test(token: &Vec<char>) -> (b: bool)
    ensures
        b == is_float_text(token@),
{
    let start: usize = if token.len() > 0 && (token[0] == '+' || token[0] == '-') {
        1
    } else {
        0
    };
    let ghost body = token@.skip(start as int);
    proof {
        assert(token@.skip(0) =~= token@);
    }
    let mut digits: usize = 0;
    let mut points: usize = 0;
    let mut i: usize = start;
    while i < token.len()
        invariant
            start <= i <= token.len(),
            body == token@.skip(start as int),
            digits == digit_count(body.take(i - start)),
            points == point_count(body.take(i - start)),
            digits <= i - start,
            points <= i - start,
            forall|k: int| 0 <= k < i - start ==> is_digit(#[trigger] body[k]) || body[k] == '.',
        decreases token.len() - i,
    {
        let c: char = token[i];
        proof {
            assert(body.take(i + 1 - start).drop_last() =~= body.take(i - start));
            assert(body.take(i + 1 - start).last() == c);
            assert(body[i - start] == c);
        }
        if digit_test(c) {
            digits += 1;
        } else if c == '.' {
            points += 1;
        } else {
            proof {
                assert(!(is_digit(body[i - start]) || body[i - start] == '.'));
            }
            return false;
        }
        i += 1;
    }
    proof {
        assert(body.take(i - start) =~= body);
    }
    digits >= 1 && points <= 1
}

impl JsonWalker {
    /// The cursor lies within the text or at its end.
    pub open spec fn wf(&self) -> bool {
        self.pos <= self.chars@.len()
    }

    /// A walker at the start of a text.
    pub fn new(s: &str) -> (w: JsonWalker)
        ensures
            w.chars@ == s@,
            w.pos == 0,
            w.wf(),
    {
        JsonWalker { chars: chars_of(s), pos: 0, buffer: Vec::new() }
    }

    /// Moves the cursor over the longest run of the class and leaves the
    /// run in the buffer.
    pub fn consume_run(&mut self, class: CharClass)
        requires
            old(self).wf(),
        ensures
            final(self).wf(),
            final(self).chars == old(self).chars,
            final(self).pos == run_end(old(self).chars@, old(self).pos as int, class),
            final(self).buffer@ == old(self).chars@.subrange(
                old(self).pos as int,
                final(self).pos as int,
            ),
    {
        self.buffer = Vec::new();
        let ghost text = self.chars@;
        let ghost start = self.pos as int;
        loop
            invariant
                self.wf(),
                self.chars == old(self).chars,
                text == self.chars@,
                start == old(self).pos,
                start <= self.pos,
                self.buffer@ == text.subrange(start, self.pos as int),
                forall|i: int| start <= i < self.pos ==> in_class(#[trigger] text[i], class),
            ensures
                self.wf(),
                self.chars == old(self).chars,
                self.pos == run_end(text, start, class),
                self.buffer@ == text.subrange(start, self.pos as int),
            decreases self.chars.len() - self.pos,
        {
            if self.pos >= self.chars.len() {
                proof {
                    lemma_run_end_step(text, start, self.pos as int, class);
                }
                break;
            }
            let c: char = self.chars[self.pos];
            if !class_test(c, class) {
                proof {
                    lemma_run_end_step(text, start, self.pos as int, class);
                }
                break;
            }
            self.buffer.push(c);
            proof {
                assert(text.subrange(start, self.pos + 1) =~= text.subrange(
                    start,
                    self.pos as int,
                ).push(c));
            }
            self.pos = self.pos + 1;
        }
    }

    /// Reads the character `arg`.
    pub fn consume_char(&mut self, arg: char) -> (r: Result<(), DecodeError>)
        requires
            old(self).wf(),
        ensures
            final(self).wf(),
            final(self).chars == old(self).chars,
            match spec_consume_char(old(self).chars@, old(self).pos as int, arg) {
                Ok(p) => r is Ok && final(self).pos == p,
                Err(e) => r == Err::<(), DecodeError>(e) && final(self).pos == old(self).pos,
            },
    {
        if self.pos >= self.chars.len() {
            Err(DecodeError::UnexpectedEnd)
        } else if self.chars[self.pos] == arg {
            self.pos = self.pos + 1;
            Ok(())
        } else {
            Err(DecodeError::Malformed)
        }
    }

    /// Reads one character, which must be `a` or `b`.
    pub fn consume_either(&mut self, a: char, b: char) -> (r: Result<(), DecodeError>)
        requires
            old(self).wf(),
        ensures
            final(self).wf(),
            final(self).chars == old(self).chars,
            match spec_consume_either(old(self).chars@, old(self).pos as int, a, b) {
                Ok(p) => r is Ok && final(self).pos == p,
                Err(e) => r == Err::<(), DecodeError>(e) && final(self).pos == old(self).pos,
            },
    {
        if self.pos >= self.chars.len() {
            Err(DecodeError::UnexpectedEnd)
        } else if self.chars[self.pos] == a || self.chars[self.pos] == b {
            self.pos = self.pos + 1;
            Ok(())
        } else {
            Err(DecodeError::Malformed)
        }
    }

    /// Reads the character `c` if it is next; the text must not have ended.
    pub fn consume_maybe(&mut self, c: char) -> (r: Result<(), DecodeError>)
        requires
            old(self).wf(),
        ensures
            final(self).wf(),
            final(self).chars == old(self).chars,
            match spec_consume_maybe(old(self).chars@, old(self).pos as int, c) {
                Ok(p) => r is Ok && final(self).pos == p,
                Err(e) => r == Err::<(), DecodeError>(e) && final(self).pos == old(self).pos,
            },
    {
        if self.pos >= self.chars.len() {
            Err(DecodeError::UnexpectedEnd)
        } else {
            if self.chars[self.pos] == c {
                self.pos = self.pos + 1;
            }
            Ok(())
        }
    }

    /// Reads an integer token of the class and gives its value where it
    /// lies between `lo` and `hi`.
    pub fn consume_number(&mut self, class: CharClass, signed: bool, lo: i128, hi: i128) -> (r:
        Result<i128, DecodeError>)
        requires
            old(self).wf(),
        ensures
            final(self).wf(),
            final(self).chars == old(self).chars,
            match spec_consume_number(
                old(self).chars@,
                old(self).pos as int,
                class,
                signed,
                lo as int,
                hi as int,
            ) {
                Ok((v, p)) => r == Ok::<i128, DecodeError>(v as i128) && lo <= v <= hi
                    && final(self).pos == p,
                Err(e) => r == Err::<i128, DecodeError>(e),
            },
    {
        if self.pos >= self.chars.len() {
            return Err(DecodeError::UnexpectedEnd);
        }
        self.consume_run(class);
        parse_int(&self.buffer, signed, lo, hi)
    }

    /// Reads an integer between `lo` and `hi`; a minus sign is read only
    /// where `signed` holds.
    pub fn consume_int(&mut self, signed: bool, lo: i128, hi: i128) -> (r: Result<
        i128,
        DecodeError,
    >)
        requires
            old(self).wf(),
        ensures
            final(self).wf(),
            final(self).chars == old(self).chars,
            match spec_consume_int(
                old(self).chars@,
                old(self).pos as int,
                signed,
                lo as int,
                hi as int,
            ) {
                Ok((v, p)) => r == Ok::<i128, DecodeError>(v as i128) && lo <= v <= hi
                    && final(self).pos == p,
                Err(e) => r == Err::<i128, DecodeError>(e),
            },
    {
        self.consume_number(CharClass::Int, signed, lo, hi)
    }

    /// Reads a 32-bit signed integer.
    pub fn consume_i32(&mut self) -> (r: Result<i32, DecodeError>)
        requires
            old(self).wf(),
        ensures
            final(self).wf(),
            final(self).chars == old(self).chars,
            match spec_consume_number(
                old(self).chars@,
                old(self).pos as int,
                CharClass::Int,
                true,
                i32::MIN as int,
                i32::MAX as int,
            ) {
                Ok((v, p)) => r == Ok::<i32, DecodeError>(v as i32) && v == (v as i32) as int
                    && final(self).pos == p,
                Err(e) => r == Err::<i32, DecodeError>(e),
            },
    {
        match self.consume_number(CharClass::Int, true, i32::MIN as i128, i32::MAX as i128) {
            Ok(v) => Ok(v as i32),
            Err(e) => Err(e),
        }
    }

    /// Reads a 32-bit unsigned integer; its token holds no minus sign.
    pub fn consume_u32(&mut self) -> (r: Result<u32, DecodeError>)
        requires
            old(self).wf(),
        ensures
            final(self).wf(),
            final(self).chars == old(self).chars,
            match spec_consume_number(
                old(self).chars@,
                old(self).pos as int,
                CharClass::Unsigned,
                false,
                0,
                u32::MAX as int,
            ) {
                Ok((v, p)) => r == Ok::<u32, DecodeError>(v as u32) && v == (v as u32) as int
                    && final(self).pos == p,
                Err(e) => r == Err::<u32, DecodeError>(e),
            },
    {
        match self.consume_number(CharClass::Unsigned, false, 0, u32::MAX as i128) {
            Ok(v) => Ok(v as u32),
            Err(e) => Err(e),
        }
    }

    /// Reads the text of a decimal number with an optional fraction.
    pub fn consume_float(&mut self) -> (r: Result<String, DecodeError>)
        requires
            old(self).wf(),
        ensures
            final(self).wf(),
            final(self).chars == old(self).chars,
            match spec_consume_float(old(self).chars@, old(self).pos as int) {
                Ok((t, p)) => r is Ok && r->Ok_0@ == t && final(self).pos == p,
                Err(e) => r == Err::<String, DecodeError>(e),
            },
    {
        if self.pos >= self.chars.len() {
            return Err(DecodeError::UnexpectedEnd);
        }
        self.consume_run(CharClass::Float);
        if float_test(&self.buffer) {
            Ok(string_of(&self.buffer))
        } else {
            Err(DecodeError::Malformed)
        }
    }

    /// Reads the key of the field `name` and the colon after it.
    pub fn consume_field(&mut self, name: &str) -> (r: Result<(), DecodeError>)
        requires
            old(self).wf(),
        ensures
            final(self).wf(),
            final(self).chars == old(self).chars,
            match spec_consume_field(old(self).chars@, old(self).pos as int, name@) {
                Ok(p) => r is Ok && final(self).pos == p,
                Err(e) => r == Err::<(), DecodeError>(e),
            },
    {
        match self.consume_char('"') {
            Err(e) => {
                return Err(e);
            },
            Ok(()) => {},
        }
        self.consume_run(CharClass::Name);
        if self.pos >= self.chars.len() {
            return Err(DecodeError::UnexpectedEnd);
        }
        let wanted: Vec<char> = chars_of(name);
        if !same_chars(&self.buffer, &wanted) {
            return Err(DecodeError::Malformed);
        }
        proof {
            lemma_run_end(old(self).chars@, old(self).pos + 1, CharClass::Name);
        }
        match self.consume_char('"') {
            Err(e) => {
                return Err(e);
            },
            Ok(()) => {},
        }
        self.consume_char(':')
    }

    /// Reads a string in double quotes and undoes its escapes.
    #[verifier::loop_isolation(false)]
    pub fn consume_string(&mut self) -> (r: Result<String, DecodeError>)
        requires
            old(self).wf(),
        ensures
            final(self).wf(),
            final(self).chars == old(self).chars,
            match spec_consume_string(old(self).chars@, old(self).pos as int) {
                Ok((s, p)) => r is Ok && r->Ok_0@ == s && final(self).pos == p,
                Err(e) => r == Err::<String, DecodeError>(e),
            },
    {
        match self.consume_char('"') {
            Err(e) => {
                return Err(e);
            },
            Ok(()) => {},
        }
        self.buffer = Vec::new();
        let ghost text = self.chars@;
        let ghost start = self.pos as int;
        loop
            invariant
                self.wf(),
                self.chars == old(self).chars,
                text == self.chars@,
                start <= self.pos,
                string_scan(text, start, Seq::empty()) == string_scan(
                    text,
                    self.pos as int,
                    self.buffer@,
                ),
            decreases self.chars.len() - self.pos,
        {
            if self.pos >= self.chars.len() {
                return Err(DecodeError::UnexpectedEnd);
            }
            let c: char = self.chars[self.pos];
            if c == '"' {
                self.pos = self.pos + 1;
                return Ok(string_of(&self.buffer));
            }
            if c == '\\' {
                if self.pos + 1 >= self.chars.len() {
                    return Err(DecodeError::UnexpectedEnd);
                }
                let escaped: char = self.chars[self.pos + 1];
                self.buffer.push(escaped);
                self.pos = self.pos + 2;
            } else {
                self.buffer.push(c);
                self.pos = self.pos + 1;
            }
        }
    }

    /// Reads `true` or `false`.
    pub fn consume_bool(&mut self) -> (r: Result<bool, DecodeError>)
        requires
            old(self).wf(),
        ensures
            final(self).wf(),
            final(self).chars == old(self).chars,
            match spec_consume_bool(old(self).chars@, old(self).pos as int) {
                Ok((b, p)) => r == Ok::<bool, DecodeError>(b) && final(self).pos == p,
                Err(e) => r == Err::<bool, DecodeError>(e),
            },
    {
        if self.pos >= self.chars.len() {
            return Err(DecodeError::UnexpectedEnd);
        }
        self.consume_run(CharClass::Plain);
        let b: &Vec<char> = &self.buffer;
        if b.len() == 4 && b[0] == 't' && b[1] == 'r' && b[2] == 'u' && b[3] == 'e' {
            assert(b@ =~= true_text());
            Ok(true)
        } else if b.len() == 5 && b[0] == 'f' && b[1] == 'a' && b[2] == 'l' && b[3] == 's' && b[4]
            == 'e' {
            assert(b@ =~= false_text());
            Ok(false)
        } else {
            Err(DecodeError::Malformed)
        }
    }
}

} // verus!
