//! Numerals: the texts that denote a floating-point number.
//!
//! The engine never computes with the numbers in a data set. It decides which cells are
//! numbers and where they go, and carries them as they were written. A drawing backend reads
//! the value of a numeral when it needs one.
//!
//! The grammar is the one the standard library documents for reading a floating-point number:
//! an optional sign, and then either `inf`, `infinity` or `nan` in any letter case, or digits
//! with an optional point among, before or after them and an optional exponent.

use crate::text;
use crate::views;
use vstd::prelude::*;

verus! {

/// Whether a character is a sign.
pub open spec fn is_sign(c: char) -> bool {
    c == '+' || c == '-'
}

/// A text without its leading sign, if it has one.
pub open spec fn unsigned(s: Seq<char>) -> Seq<char> {
    if s.len() > 0 && is_sign(s.first()) {
        s.drop_first()
    } else {
        s
    }
}

/// Whether `c` is the lower-case letter `lower` in either case.
pub open spec fn same_letter(c: char, lower: char) -> bool {
    c == lower || c as u32 + 32 == lower as u32
}

/// Whether a text spells `word`, a word of lower-case letters, in any letter case.
pub open spec fn spells(s: Seq<char>, word: Seq<char>) -> bool {
    s.len() == word.len() && forall|i: int|
        0 <= i < s.len() ==> same_letter(#[trigger] s[i], word[i])
}

/// Digits with an optional point, and at least one digit.
pub open spec fn is_mantissa(s: Seq<char>) -> bool {
    match text::find(s, '.') {
        Some(i) => text::all_digits(s.take(i)) && text::all_digits(s.skip(i + 1)) && s.len() >= 2,
        None => text::all_digits(s) && s.len() >= 1,
    }
}

/// An optional sign and at least one digit.
pub open spec fn is_exponent(s: Seq<char>) -> bool {
    text::all_digits(unsigned(s)) && unsigned(s).len() >= 1
}

/// A mantissa, alone or with an exponent behind an `e` in either case.
pub open spec fn is_decimal(s: Seq<char>) -> bool {
    match text::find(s, 'e') {
        Some(i) => is_mantissa(s.take(i)) && is_exponent(s.skip(i + 1)),
        None => match text::find(s, 'E') {
            Some(i) => is_mantissa(s.take(i)) && is_exponent(s.skip(i + 1)),
            None => is_mantissa(s),
        },
    }
}

/// Whether a text denotes a floating-point number.
pub open spec fn is_numeral(s: Seq<char>) -> bool {
    ||| spells(unsigned(s), seq!['i', 'n', 'f'])
    ||| spells(unsigned(s), seq!['i', 'n', 'f', 'i', 'n', 'i', 't', 'y'])
    ||| spells(unsigned(s), seq!['n', 'a', 'n'])
    ||| is_decimal(unsigned(s))
}

fn skip_sign(chars: &Vec<char>, from: usize, to: usize) -> (r: usize)
    requires
        from <= to <= chars.len(),
    ensures
        from <= r <= to,
        chars@.subrange(r as int, to as int) == unsigned(chars@.subrange(from as int, to as int)),
{
    let ghost part = chars@.subrange(from as int, to as int);
    if from < to && (chars[from] == '+' || chars[from] == '-') {
        assert(part.drop_first() =~= chars@.subrange(from + 1, to as int));
        from + 1
    } else {
        from
    }
}

fn spells_word(chars: &Vec<char>, from: usize, to: usize, word: &Vec<char>) -> (r: bool)
    requires
        from <= to <= chars.len(),
        forall|i: int| 0 <= i < word.len() ==> 'a' <= #[trigger] word@[i] <= 'z',
    ensures
        r == spells(chars@.subrange(from as int, to as int), word@),
{
    let ghost part = chars@.subrange(from as int, to as int);
    if to - from != word.len() {
        return false;
    }
    let mut i: usize = 0;
    while i < word.len()
        invariant
            i <= word.len(),
            word.len() == to - from,
            from <= to <= chars.len(),
            part == chars@.subrange(from as int, to as int),
            forall|k: int| 0 <= k < word.len() ==> 'a' <= #[trigger] word@[k] <= 'z',
            forall|k: int| 0 <= k < i ==> same_letter(#[trigger] part[k], word@[k]),
        decreases word.len() - i,
    {
        assert(part[i as int] == chars@[from + i]);
        let c = chars[from + i];
        let w = word[i];
        assert('a' <= word@[i as int] <= 'z');
        if !(c == w || c as u32 == w as u32 - 32) {
            assert(!same_letter(part[i as int], word@[i as int]));
            return false;
        }
        i = i + 1;
    }
    true
}

fn mantissa(chars: &Vec<char>, from: usize, to: usize) -> (r: bool)
    requires
        from <= to <= chars.len(),
    ensures
        r == is_mantissa(chars@.subrange(from as int, to as int)),
{
    let ghost part = chars@.subrange(from as int, to as int);
    let dot = text::seek(chars, '.', from, to);
    if dot < to {
        assert(part.take(dot - from) =~= chars@.subrange(from as int, dot as int));
        assert(part.skip(dot - from + 1) =~= chars@.subrange(dot + 1, to as int));
        text::digits_only(chars, from, dot) && text::digits_only(chars, dot + 1, to) && to - from
            >= 2
    } else {
        text::digits_only(chars, from, to) && to > from
    }
}

fn scaled(chars: &Vec<char>, from: usize, at: usize, to: usize) -> (r: bool)
    requires
        from <= at < to <= chars.len(),
    ensures
        r == ({
            let part = chars@.subrange(from as int, to as int);
            is_mantissa(part.take(at - from)) && is_exponent(part.skip(at - from + 1))
        }),
{
    let ghost part = chars@.subrange(from as int, to as int);
    assert(part.take(at - from) =~= chars@.subrange(from as int, at as int));
    assert(part.skip(at - from + 1) =~= chars@.subrange(at + 1, to as int));
    let digits = skip_sign(chars, at + 1, to);
    mantissa(chars, from, at) && text::digits_only(chars, digits, to) && digits < to
}

/// Whether a text denotes a floating-point number.
pub fn denotes_number(s: &str) -> (r: bool)
    ensures
        r == is_numeral(s@),
{
    let chars = text::chars_of(s);
    let to = chars.len();
    assert(chars@.subrange(0, to as int) =~= s@);
    let from = skip_sign(&chars, 0, to);
    let inf = vec!['i', 'n', 'f'];
    let infinity = vec!['i', 'n', 'f', 'i', 'n', 'i', 't', 'y'];
    let nan = vec!['n', 'a', 'n'];
    assert(inf@ =~= seq!['i', 'n', 'f']);
    assert(infinity@ =~= seq!['i', 'n', 'f', 'i', 'n', 'i', 't', 'y']);
    assert(nan@ =~= seq!['n', 'a', 'n']);
    if spells_word(&chars, from, to, &inf) || spells_word(&chars, from, to, &infinity)
        || spells_word(&chars, from, to, &nan) {
        return true;
    }
    let lower = text::seek(&chars, 'e', from, to);
    if lower < to {
        return scaled(&chars, from, lower, to);
    }
    let upper = text::seek(&chars, 'E', from, to);
    if upper < to {
        return scaled(&chars, from, upper, to);
    }
    mantissa(&chars, from, to)
}

/// A number as it was written: a text that denotes one.
#[derive(Debug, PartialEq, Eq)]
pub struct Number {
    text: String,
}

impl View for Number {
    type V = Seq<char>;

    closed spec fn view(&self) -> Seq<char> {
        self.text@
    }
}

impl Clone for Number {
    fn clone(&self) -> (r: Self)
        ensures
            r == *self,
    {
        proof {
            use_type_invariant(self);
        }
        Number { text: self.text.clone() }
    }
}

impl Number {
    #[verifier::type_invariant]
    spec fn well_formed(self) -> bool {
        is_numeral(self.text@)
    }

    /// The number a text denotes, if it denotes one. White space is not skipped.
    pub fn parse(s: &str) -> (r: Option<Number>)
        ensures
            match r {
                Some(n) => is_numeral(s@) && n@ == s@,
                None => !is_numeral(s@),
            },
    {
        if denotes_number(s) {
            Some(Number { text: s.to_owned() })
        } else {
            None
        }
    }

    /// The text of the number, which denotes it.
    pub fn as_str(&self) -> (r: &str)
        ensures
            r@ == self@,
            is_numeral(r@),
    {
        proof {
            use_type_invariant(self);
        }
        self.text.as_str()
    }

    /// The whole number `n`.
    pub fn whole(n: u64) -> (r: Number)
        ensures
            r@ == text::decimal(n as nat),
    {
        let t = text::decimal_text(n);
        proof {
            law_decimal_is_numeral(n as nat);
        }
        Number { text: t }
    }
}

/// The decimal text of every whole number denotes a number.
pub proof fn law_decimal_is_numeral(n: nat)
    ensures
        is_numeral(text::decimal(n)),
{
    text::lemma_decimal(n);
    let s = text::decimal(n);
    assert(text::is_digit(s[0]));
    assert(unsigned(s) == s);
    text::lemma_find(s, 'e');
    text::lemma_find(s, 'E');
    text::lemma_find(s, '.');
    match text::find(s, 'e') {
        Some(i) => {
            assert(text::is_digit(s[i]));
        },
        None => {},
    }
    match text::find(s, 'E') {
        Some(i) => {
            assert(text::is_digit(s[i]));
        },
        None => {},
    }
    match text::find(s, '.') {
        Some(i) => {
            assert(text::is_digit(s[i]));
        },
        None => {},
    }
}

/// Copy a list of numbers.
pub fn copy_numbers(numbers: &Vec<Number>) -> (r: Vec<Number>)
    ensures
        r@ == numbers@,
{
    let mut out: Vec<Number> = Vec::new();
    let mut i: usize = 0;
    while i < numbers.len()
        invariant
            i <= numbers.len(),
            out@ == numbers@.take(i as int),
        decreases numbers.len() - i,
    {
        proof {
            views::lemma_take_push(numbers@, i as int);
        }
        out.push(numbers[i].clone());
        i = i + 1;
    }
    proof {
        views::lemma_take_all(numbers@);
    }
    out
}

// --- Laws -------------------------------------------------------------------------

/// A decimal number, taken apart: the digits in front of the point, those behind it where there is
/// a point, and, where there is an exponent, its letter and what follows.
pub struct Decimal {
    pub whole: Seq<char>,
    pub fraction: Option<Seq<char>>,
    pub exponent: Option<(char, Seq<char>)>,
}

/// Whether a text is a sign or nothing.
pub open spec fn is_optional_sign(s: Seq<char>) -> bool {
    s == Seq::<char>::empty() || s == seq!['+'] || s == seq!['-']
}

/// Whether a text is digits behind an optional sign.
pub open spec fn is_signed_digits(s: Seq<char>) -> bool {
    ||| s.len() >= 1 && text::all_digits(s)
    ||| s.len() >= 2 && (s[0] == '+' || s[0] == '-') && text::all_digits(s.skip(1))
}

impl Decimal {
    /// Whether the parts are those of a number: digits on either side of the point, at least one
    /// of them, and digits behind an optional sign for the exponent.
    pub open spec fn is_number(self) -> bool {
        &&& text::all_digits(self.whole)
        &&& self.fraction matches Some(f) ==> text::all_digits(f)
        &&& self.whole.len() > 0 || (self.fraction matches Some(f) && f.len() > 0)
        &&& self.exponent matches Some(e) ==> (e.0 == 'e' || e.0 == 'E') && is_signed_digits(e.1)
    }

    /// The digits and the point.
    pub open spec fn mantissa(self) -> Seq<char> {
        match self.fraction {
            Some(f) => self.whole + seq!['.'] + f,
            None => self.whole,
        }
    }

    /// The number as it is written.
    pub open spec fn written(self) -> Seq<char> {
        match self.exponent {
            Some(e) => self.mantissa() + seq![e.0] + e.1,
            None => self.mantissa(),
        }
    }
}

/// What follows an optional sign is left without it.
proof fn lemma_unsigned(sign: Seq<char>, rest: Seq<char>)
    requires
        is_optional_sign(sign),
        rest.len() > 0,
        !is_sign(rest[0]),
    ensures
        unsigned(sign + rest) == rest,
{
    if sign.len() == 0 {
        assert(sign + rest =~= rest);
    } else {
        assert((sign + rest).drop_first() =~= rest);
    }
}

proof fn lemma_mantissa(d: Decimal)
    requires
        d.is_number(),
    ensures
        is_mantissa(d.mantissa()),
        d.mantissa().len() > 0,
        !is_sign(d.mantissa()[0]),
        text::lacks(d.mantissa(), 'e'),
        text::lacks(d.mantissa(), 'E'),
{
    let m = d.mantissa();
    text::lemma_digits_lack(d.whole, '.');
    text::lemma_digits_lack(d.whole, 'e');
    text::lemma_digits_lack(d.whole, 'E');
    match d.fraction {
        Some(f) => {
            text::lemma_find_behind(d.whole, '.', f);
            text::lemma_digits_lack(f, 'e');
            text::lemma_digits_lack(f, 'E');
            text::lemma_joined_lack(d.whole, '.', f, 'e');
            text::lemma_joined_lack(d.whole, '.', f, 'E');
            if d.whole.len() > 0 {
                assert(m[0] == d.whole[0] && text::is_digit(d.whole[0]));
            } else {
                assert(m[0] == '.');
            }
        },
        None => {
            text::lemma_find_lacking(m, '.');
            assert(text::is_digit(m[0]));
        },
    }
}

proof fn lemma_exponent(s: Seq<char>)
    requires
        is_signed_digits(s),
    ensures
        is_exponent(s),
        text::lacks(s, 'e'),
{
    if text::all_digits(s) {
        assert(text::is_digit(s[0]));
        assert(unsigned(s) == s);
        text::lemma_digits_lack(s, 'e');
    } else {
        assert(s.drop_first() =~= s.skip(1));
        text::lemma_digits_lack(s.skip(1), 'e');
        assert forall|i: int| 0 <= i < s.len() implies #[trigger] s[i] != 'e' by {
            if i > 0 {
                assert(s[i] == s.skip(1)[i - 1]);
            }
        }
    }
}

/// Every decimal number denotes a number, with a sign in front or without: digits with a point
/// among, before or behind them or none, and an exponent behind an `e` in either case or none.
pub proof fn law_decimals_denote_numbers(sign: Seq<char>, d: Decimal)
    requires
        is_optional_sign(sign),
        d.is_number(),
    ensures
        is_numeral(sign + d.written()),
{
    let s = d.written();
    let m = d.mantissa();
    lemma_mantissa(d);
    match d.exponent {
        Some(e) => {
            assert(s[0] == m[0]);
            lemma_exponent(e.1);
            if e.0 == 'e' {
                text::lemma_find_behind(m, 'e', e.1);
            } else {
                text::lemma_joined_lack(m, 'E', e.1, 'e');
                text::lemma_find_lacking(s, 'e');
                text::lemma_find_behind(m, 'E', e.1);
            }
        },
        None => {
            text::lemma_find_lacking(s, 'e');
            text::lemma_find_lacking(s, 'E');
        },
    }
    lemma_unsigned(sign, s);
    assert(is_decimal(s));
}

/// The words for infinity and for what is no number denote numbers, in any letter case, with a sign
/// in front or without.
pub proof fn law_words_denote_numbers(sign: Seq<char>, word: Seq<char>)
    requires
        is_optional_sign(sign),
        spells(word, seq!['i', 'n', 'f']) || spells(
            word,
            seq!['i', 'n', 'f', 'i', 'n', 'i', 't', 'y'],
        ) || spells(word, seq!['n', 'a', 'n']),
    ensures
        is_numeral(sign + word),
{
    assert(same_letter(word[0], 'i') || same_letter(word[0], 'n'));
    lemma_unsigned(sign, word);
}

/// Nothing else denotes a number: what does is such a word or a decimal number, behind a sign or
/// not.
pub proof fn law_only_numbers_denote_numbers(s: Seq<char>) -> (r: (Seq<char>, Decimal))
    ensures
        is_numeral(s) ==> is_optional_sign(r.0) && exists|rest: Seq<char>|
            {
                &&& s == #[trigger] (r.0 + rest)
                &&& {
                    ||| spells(rest, seq!['i', 'n', 'f'])
                    ||| spells(rest, seq!['i', 'n', 'f', 'i', 'n', 'i', 't', 'y'])
                    ||| spells(rest, seq!['n', 'a', 'n'])
                    ||| r.1.is_number() && r.1.written() == rest
                }
            },
{
    let rest = unsigned(s);
    let sign = if s.len() > 0 && is_sign(s.first()) {
        seq![s.first()]
    } else {
        seq![]
    };
    assert(s =~= sign + rest);
    let d = lemma_decimal_parts(rest);
    assert(is_numeral(s) ==> s == sign + rest && {
        ||| spells(rest, seq!['i', 'n', 'f'])
        ||| spells(rest, seq!['i', 'n', 'f', 'i', 'n', 'i', 't', 'y'])
        ||| spells(rest, seq!['n', 'a', 'n'])
        ||| d.is_number() && d.written() == rest
    });
    (sign, d)
}

proof fn lemma_mantissa_parts(s: Seq<char>) -> (r: (Seq<char>, Option<Seq<char>>))
    ensures
        is_mantissa(s) ==> {
            let d = Decimal { whole: r.0, fraction: r.1, exponent: None };
            d.is_number() && d.mantissa() == s
        },
{
    text::lemma_find_parts(s, '.');
    match text::find(s, '.') {
        Some(i) => (s.take(i), Some(s.skip(i + 1))),
        None => (s, None),
    }
}

proof fn lemma_exponent_parts(s: Seq<char>)
    ensures
        is_exponent(s) ==> is_signed_digits(s),
{
    if s.len() > 0 && is_sign(s.first()) {
        assert(s.drop_first() =~= s.skip(1));
    }
}

proof fn lemma_decimal_parts(s: Seq<char>) -> (d: Decimal)
    ensures
        is_decimal(s) ==> d.is_number() && d.written() == s,
{
    text::lemma_find_parts(s, 'e');
    text::lemma_find_parts(s, 'E');
    match text::find(s, 'e') {
        Some(i) => {
            let m = lemma_mantissa_parts(s.take(i));
            lemma_exponent_parts(s.skip(i + 1));
            Decimal { whole: m.0, fraction: m.1, exponent: Some(('e', s.skip(i + 1))) }
        },
        None => match text::find(s, 'E') {
            Some(i) => {
                let m = lemma_mantissa_parts(s.take(i));
                lemma_exponent_parts(s.skip(i + 1));
                Decimal { whole: m.0, fraction: m.1, exponent: Some(('E', s.skip(i + 1))) }
            },
            None => {
                let m = lemma_mantissa_parts(s);
                Decimal { whole: m.0, fraction: m.1, exponent: None }
            },
        },
    }
}

/// A sign in front changes nothing of whether a text denotes a number.
pub proof fn law_signs_do_not_matter(s: Seq<char>)
    requires
        s.len() > 0,
        !is_sign(s[0]),
    ensures
        is_numeral(seq!['-'] + s) == is_numeral(s),
        is_numeral(seq!['+'] + s) == is_numeral(s),
{
    lemma_unsigned(seq!['-'], s);
    lemma_unsigned(seq!['+'], s);
    lemma_unsigned(Seq::<char>::empty(), s);
    assert(Seq::<char>::empty() + s =~= s);
}

} // verus!
