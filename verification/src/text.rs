//! Text as a sequence of characters: trimming, splitting, and decimal rendering.
//!
//! Every string the engine reads or writes is specified by its sequence of Unicode scalar
//! values, so a contract never depends on an encoding.

use crate::views;
use vstd::prelude::*;

verus! {

/// `String::push` appends one character at the end and changes nothing else.
pub assume_specification[ String::push ](s: &mut String, c: char)
    ensures
        final(s)@ == old(s)@.push(c),
;

/// Copy an optional string.
pub fn copy_opt(s: &Option<String>) -> (r: Option<String>)
    ensures
        r == *s,
{
    match s {
        Some(t) => Some(t.clone()),
        None => None,
    }
}

/// An optional borrowed text, owned.
pub fn own_opt(s: Option<&str>) -> (r: Option<String>)
    ensures
        views::opt_view(r) == (match s {
            Some(t) => Some(t@),
            None => None,
        }),
{
    match s {
        Some(t) => Some(t.to_owned()),
        None => None,
    }
}

/// Copy a list of strings.
pub fn copy_strings(strings: &Vec<String>) -> (r: Vec<String>)
    ensures
        r@ == strings@,
{
    let mut out: Vec<String> = Vec::new();
    let mut i: usize = 0;
    while i < strings.len()
        invariant
            i <= strings.len(),
            out@ == strings@.take(i as int),
        decreases strings.len() - i,
    {
        out.push(strings[i].clone());
        assert(strings@.take(i + 1) =~= strings@.take(i as int).push(strings@[i as int]));
        i = i + 1;
    }
    assert(strings@.take(strings.len() as int) =~= strings@);
    out
}

/// The characters of a string, in order.
pub fn chars_of(s: &str) -> (r: Vec<char>)
    ensures
        r@ == s@,
{
    let mut out: Vec<char> = Vec::new();
    for c in cs: s.chars()
        invariant
            out@ == cs.seq().take(cs.index() as int),
    {
        out.push(c);
    }
    out
}

/// The string made of `chars[from..to]`.
pub fn string_of(chars: &Vec<char>, from: usize, to: usize) -> (r: String)
    requires
        from <= to <= chars.len(),
    ensures
        r@ == chars@.subrange(from as int, to as int),
{
    let mut out = String::new();
    let mut i: usize = from;
    while i < to
        invariant
            from <= i <= to <= chars.len(),
            out@ == chars@.subrange(from as int, i as int),
        decreases to - i,
    {
        out.push(chars[i]);
        assert(chars@.subrange(from as int, i + 1) =~= chars@.subrange(from as int, i as int).push(
            chars@[i as int],
        ));
        i = i + 1;
    }
    out
}

/// The text `prefix`, then `name`, then `suffix`.
pub fn framed(prefix: &str, name: &str, suffix: &str) -> (r: String)
    ensures
        r@ == prefix@ + name@ + suffix@,
{
    let mut out = prefix.to_owned();
    out.append(name);
    out.append(suffix);
    out
}

/// Whether two strings hold the same characters.
pub fn same_text(a: &str, b: &str) -> (r: bool)
    ensures
        r == (a@ == b@),
{
    let left = chars_of(a);
    let right = chars_of(b);
    if left.len() != right.len() {
        return false;
    }
    let mut i: usize = 0;
    while i < left.len()
        invariant
            i <= left.len(),
            left.len() == right.len(),
            left@ == a@,
            right@ == b@,
            left@.take(i as int) == right@.take(i as int),
        decreases left.len() - i,
    {
        if left[i] != right[i] {
            return false;
        }
        assert(left@.take(i + 1) =~= left@.take(i as int).push(left@[i as int]));
        assert(right@.take(i + 1) =~= right@.take(i as int).push(right@[i as int]));
        i = i + 1;
    }
    assert(left@.take(i as int) =~= left@);
    assert(right@.take(i as int) =~= right@);
    true
}

// --- Positions in a list of texts -------------------------------------------------

/// The first position of `name` in `names`, if it occurs there.
pub open spec fn index_of(names: Seq<Seq<char>>, name: Seq<char>) -> Option<int>
    decreases names.len(),
{
    if names.len() == 0 {
        None
    } else {
        match index_of(names.drop_last(), name) {
            Some(i) => Some(i),
            None => if names.last() == name {
                Some(names.len() - 1)
            } else {
                None
            },
        }
    }
}

/// `index_of` finds the first occurrence, and nothing exactly when there is none.
pub proof fn lemma_index_of(names: Seq<Seq<char>>, name: Seq<char>)
    ensures
        match index_of(names, name) {
            Some(i) => {
                &&& 0 <= i < names.len()
                &&& names[i] == name
                &&& forall|j: int| 0 <= j < i ==> names[j] != name
            },
            None => forall|j: int| 0 <= j < names.len() ==> names[j] != name,
        },
    decreases names.len(),
{
    if names.len() > 0 {
        let front = names.drop_last();
        lemma_index_of(front, name);
        match index_of(front, name) {
            Some(i) => {
                assert(names[i] == front[i]);
                assert forall|j: int| 0 <= j < i implies names[j] != name by {
                    assert(names[j] == front[j]);
                }
            },
            None => {
                assert forall|j: int| 0 <= j < names.len() - 1 implies names[j] != name by {
                    assert(names[j] == front[j]);
                }
            },
        }
    }
}

/// Any first occurrence is what `index_of` returns.
pub proof fn lemma_index_of_first(names: Seq<Seq<char>>, name: Seq<char>, i: int)
    requires
        0 <= i < names.len(),
        names[i] == name,
        forall|j: int| 0 <= j < i ==> names[j] != name,
    ensures
        index_of(names, name) == Some(i),
{
    lemma_index_of(names, name);
}

/// The first position of `name` among `names`.
pub fn position(names: &Vec<String>, name: &str) -> (r: Option<usize>)
    ensures
        match r {
            Some(i) => index_of(views::views(names@), name@) == Some(i as int),
            None => index_of(views::views(names@), name@) is None,
        },
{
    let ghost all = views::views(names@);
    let mut i: usize = 0;
    while i < names.len()
        invariant
            i <= names.len(),
            all == views::views(names@),
            forall|j: int| 0 <= j < i ==> all[j] != name@,
        decreases names.len() - i,
    {
        assert(all[i as int] == names@[i as int]@);
        if same_text(names[i].as_str(), name) {
            proof {
                lemma_index_of_first(all, name@, i as int);
            }
            return Some(i);
        }
        i = i + 1;
    }
    proof {
        lemma_index_of(all, name@);
    }
    None
}

// --- Whitespace -------------------------------------------------------------------

/// The characters with the Unicode `White_Space` property.
pub open spec fn is_space(c: char) -> bool {
    let n = c as u32;
    ||| 0x09 <= n <= 0x0d
    ||| n == 0x20
    ||| n == 0x85
    ||| n == 0xa0
    ||| n == 0x1680
    ||| 0x2000 <= n <= 0x200a
    ||| n == 0x2028
    ||| n == 0x2029
    ||| n == 0x202f
    ||| n == 0x205f
    ||| n == 0x3000
}

/// Whether a character is white space.
pub fn is_whitespace(c: char) -> (r: bool)
    ensures
        r == is_space(c),
{
    let n: u32 = c as u32;
    (0x09 <= n && n <= 0x0d) || n == 0x20 || n == 0x85 || n == 0xa0 || n == 0x1680 || (0x2000 <= n
        && n <= 0x200a) || n == 0x2028 || n == 0x2029 || n == 0x202f || n == 0x205f || n == 0x3000
}

/// A text without its leading white space.
pub open spec fn trim_front(s: Seq<char>) -> Seq<char>
    decreases s.len(),
{
    if s.len() > 0 && is_space(s.first()) {
        trim_front(s.drop_first())
    } else {
        s
    }
}

/// A text without its trailing white space.
pub open spec fn trim_back(s: Seq<char>) -> Seq<char>
    decreases s.len(),
{
    if s.len() > 0 && is_space(s.last()) {
        trim_back(s.drop_last())
    } else {
        s
    }
}

/// A text without the white space around it.
pub open spec fn trimmed(s: Seq<char>) -> Seq<char> {
    trim_back(trim_front(s))
}

/// The bounds of the text left of `chars` by trimming.
pub fn trim_bounds(chars: &Vec<char>) -> (r: (usize, usize))
    ensures
        r.0 <= r.1 <= chars.len(),
        chars@.subrange(r.0 as int, r.1 as int) == trimmed(chars@),
{
    let n = chars.len();
    let mut from: usize = 0;
    assert(chars@.subrange(0, n as int) =~= chars@);
    while from < n && is_whitespace(chars[from])
        invariant
            from <= n,
            n == chars.len(),
            trim_front(chars@.subrange(from as int, n as int)) == trim_front(chars@),
        decreases n - from,
    {
        assert(chars@.subrange(from as int, n as int).drop_first() =~= chars@.subrange(
            from + 1,
            n as int,
        ));
        from = from + 1;
    }
    assert(chars@.subrange(from as int, n as int) == trim_front(chars@));
    let mut to: usize = n;
    while to > from && is_whitespace(chars[to - 1])
        invariant
            from <= to <= n,
            n == chars.len(),
            trim_back(chars@.subrange(from as int, to as int)) == trimmed(chars@),
        decreases to,
    {
        assert(chars@.subrange(from as int, to as int).drop_last() =~= chars@.subrange(
            from as int,
            to - 1,
        ));
        to = to - 1;
    }
    (from, to)
}

/// The text without the white space around it.
pub fn trim(s: &str) -> (r: &str)
    ensures
        r@ == trimmed(s@),
{
    let chars = chars_of(s);
    let (from, to) = trim_bounds(&chars);
    s.substring_char(from, to)
}

/// Trimming is idempotent.
pub proof fn law_trim_idempotent(s: Seq<char>)
    ensures
        trimmed(trimmed(s)) == trimmed(s),
{
    lemma_trim_front_stable(s);
    let f = trim_front(s);
    lemma_trim_back_prefix(f);
    let t = trim_back(f);
    if t.len() > 0 {
        assert(t.first() == f.first());
    }
    assert(trim_front(t) == t);
    lemma_trim_back_stable(f);
}

proof fn lemma_trim_front_stable(s: Seq<char>)
    ensures
        trim_front(s).len() > 0 ==> !is_space(trim_front(s).first()),
    decreases s.len(),
{
    if s.len() > 0 && is_space(s.first()) {
        lemma_trim_front_stable(s.drop_first());
    }
}

proof fn lemma_trim_back_stable(s: Seq<char>)
    ensures
        trim_back(trim_back(s)) == trim_back(s),
    decreases s.len(),
{
    if s.len() > 0 && is_space(s.last()) {
        lemma_trim_back_stable(s.drop_last());
    }
}

proof fn lemma_trim_back_prefix(s: Seq<char>)
    ensures
        trim_back(s).len() <= s.len(),
        trim_back(s) == s.take(trim_back(s).len() as int),
    decreases s.len(),
{
    if s.len() > 0 && is_space(s.last()) {
        let front = s.drop_last();
        lemma_trim_back_prefix(front);
        assert(s.take(trim_back(front).len() as int) =~= front.take(trim_back(front).len() as int));
    } else {
        assert(s.take(s.len() as int) =~= s);
    }
}

// --- Splitting --------------------------------------------------------------------

/// The first position of a character in a text, if it occurs there.
pub open spec fn find(s: Seq<char>, c: char) -> Option<int>
    decreases s.len(),
{
    if s.len() == 0 {
        None
    } else if s.first() == c {
        Some(0)
    } else {
        match find(s.drop_first(), c) {
            Some(i) => Some(i + 1),
            None => None,
        }
    }
}

/// `find` returns the first occurrence, and nothing exactly when there is none.
pub proof fn lemma_find(s: Seq<char>, c: char)
    ensures
        match find(s, c) {
            Some(i) => {
                &&& 0 <= i < s.len()
                &&& s[i] == c
                &&& forall|j: int| 0 <= j < i ==> s[j] != c
            },
            None => forall|j: int| 0 <= j < s.len() ==> s[j] != c,
        },
    decreases s.len(),
{
    if s.len() > 0 && s.first() != c {
        let rest = s.drop_first();
        lemma_find(rest, c);
        assert forall|j: int| 0 < j < s.len() implies s[j] == rest[j - 1] by {}
    }
}

/// The pieces of a text between occurrences of a separator.
pub open spec fn split(s: Seq<char>, sep: char) -> Seq<Seq<char>>
    decreases s.len(),
{
    match find(s, sep) {
        Some(i) => if 0 <= i < s.len() {
            seq![s.take(i)] + split(s.skip(i + 1), sep)
        } else {
            seq![s]
        },
        None => seq![s],
    }
}

/// The position of the first `c` in `chars[from..to]`, or `to` when there is none.
pub fn seek(chars: &Vec<char>, c: char, from: usize, to: usize) -> (r: usize)
    requires
        from <= to <= chars.len(),
    ensures
        from <= r <= to,
        find(chars@.subrange(from as int, to as int), c) == (if r < to {
            Some(r - from)
        } else {
            None
        }),
{
    let ghost part = chars@.subrange(from as int, to as int);
    let mut i: usize = from;
    while i < to
        invariant
            from <= i <= to <= chars.len(),
            part == chars@.subrange(from as int, to as int),
            forall|j: int| 0 <= j < i - from ==> part[j] != c,
        decreases to - i,
    {
        assert(part[i - from] == chars@[i as int]);
        if chars[i] == c {
            proof {
                lemma_find(part, c);
            }
            return i;
        }
        i = i + 1;
    }
    proof {
        lemma_find(part, c);
    }
    to
}

/// The bounds of the pieces of `chars[from..to]` between occurrences of `sep`.
pub fn split_bounds(chars: &Vec<char>, sep: char, from: usize, to: usize) -> (r: Vec<(usize, usize)>)
    requires
        from <= to <= chars.len(),
    ensures
        r.len() == split(chars@.subrange(from as int, to as int), sep).len(),
        forall|k: int|
            0 <= k < r.len() ==> from <= (#[trigger] r@[k]).0 <= r@[k].1 <= to && chars@.subrange(
                r@[k].0 as int,
                r@[k].1 as int,
            ) == split(chars@.subrange(from as int, to as int), sep)[k],
{
    let ghost whole = split(chars@.subrange(from as int, to as int), sep);
    let mut out: Vec<(usize, usize)> = Vec::new();
    let mut start: usize = from;
    loop
        invariant
            from <= start <= to <= chars.len(),
            whole == split(chars@.subrange(from as int, to as int), sep),
            out.len() + split(chars@.subrange(start as int, to as int), sep).len() == whole.len(),
            forall|k: int|
                0 <= k < out.len() ==> from <= (#[trigger] out@[k]).0 <= out@[k].1 <= to
                    && chars@.subrange(out@[k].0 as int, out@[k].1 as int) == whole[k],
            whole.skip(out.len() as int) == split(chars@.subrange(start as int, to as int), sep),
        decreases to - start,
    {
        let ghost rest = chars@.subrange(start as int, to as int);
        let end = seek(chars, sep, start, to);
        let ghost head = rest.take(end - start);
        assert(head =~= chars@.subrange(start as int, end as int));
        assert(split(rest, sep)[0] == whole.skip(out.len() as int)[0]);
        if end == to {
            assert(split(rest, sep) == seq![rest]);
            assert(rest == head);
            out.push((start, end));
            return out;
        }
        assert(rest.skip(end - start + 1) =~= chars@.subrange(end + 1, to as int));
        let ghost tail = split(rest.skip(end - start + 1), sep);
        assert(split(rest, sep) == seq![head] + tail);
        proof {
            let n = out.len() as int;
            assert(whole.skip(n + 1) =~= whole.skip(n).skip(1));
            assert((seq![head] + tail).skip(1) =~= tail);
        }
        out.push((start, end));
        start = end + 1;
    }
}

// --- Decimal digits ---------------------------------------------------------------

/// Whether a character is an ASCII decimal digit.
pub open spec fn is_digit(c: char) -> bool {
    '0' <= c <= '9'
}

/// Whether a text consists of ASCII decimal digits.
pub open spec fn all_digits(s: Seq<char>) -> bool {
    forall|i: int| 0 <= i < s.len() ==> is_digit(#[trigger] s[i])
}

/// The number a digit text denotes, in base ten.
pub open spec fn digits_value(s: Seq<char>) -> int
    decreases s.len(),
{
    if s.len() == 0 {
        0
    } else {
        10 * digits_value(s.drop_last()) + (s.last() as int - '0' as int)
    }
}

/// The character for a digit below ten.
pub open spec fn digit_char(d: nat) -> char {
    ('0' as int + d) as char
}

/// The decimal text of a number, without leading zeros.
pub open spec fn decimal(n: nat) -> Seq<char>
    decreases n,
{
    if n < 10 {
        seq![digit_char(n)]
    } else {
        decimal(n / 10).push(digit_char(n % 10))
    }
}

/// A text padded in front with zeros to at least `width` characters.
pub open spec fn zero_padded(s: Seq<char>, width: nat) -> Seq<char> {
    if s.len() >= width {
        s
    } else {
        Seq::new((width - s.len()) as nat, |i: int| '0') + s
    }
}

/// The decimal text of a number consists of digits that denote it, and has one more for each
/// power of ten that the number reaches.
pub proof fn lemma_decimal(n: nat)
    ensures
        all_digits(decimal(n)),
        digits_value(decimal(n)) == n,
        decimal(n).len() >= 1,
        n < 10 ==> decimal(n).len() == 1,
        10 <= n < 100 ==> decimal(n).len() == 2,
        100 <= n < 1000 ==> decimal(n).len() == 3,
        1000 <= n < 10_000 ==> decimal(n).len() == 4,
    decreases n,
{
    if n >= 10 {
        lemma_decimal(n / 10);
        let front = decimal(n / 10);
        let whole = decimal(n);
        assert(whole.drop_last() =~= front);
        assert forall|i: int| 0 <= i < whole.len() implies is_digit(#[trigger] whole[i]) by {
            if i < front.len() {
                assert(whole[i] == front[i]);
            }
        }
    } else {
        assert(decimal(n).drop_last() =~= seq![]);
        assert(digits_value(decimal(n).drop_last()) == 0);
    }
}

/// Zeros in front of a digit text change neither its value nor that it is one.
pub proof fn lemma_zero_padded(s: Seq<char>, width: nat)
    requires
        all_digits(s),
    ensures
        all_digits(zero_padded(s, width)),
        digits_value(zero_padded(s, width)) == digits_value(s),
        s.len() <= width ==> zero_padded(s, width).len() == width,
{
    if s.len() < width {
        let zeros = Seq::new((width - s.len()) as nat, |i: int| '0');
        lemma_leading_zeros(zeros, s);
        let whole = zeros + s;
        assert forall|i: int| 0 <= i < whole.len() implies is_digit(#[trigger] whole[i]) by {
            if i >= zeros.len() {
                assert(whole[i] == s[i - zeros.len()]);
            }
        }
    }
}

proof fn lemma_leading_zeros(zeros: Seq<char>, s: Seq<char>)
    requires
        forall|i: int| 0 <= i < zeros.len() ==> zeros[i] == '0',
    ensures
        digits_value(zeros + s) == digits_value(s),
    decreases zeros.len() + s.len(),
{
    let whole = zeros + s;
    if s.len() > 0 {
        lemma_leading_zeros(zeros, s.drop_last());
        assert(whole.drop_last() =~= zeros + s.drop_last());
        assert(whole.last() == s.last());
    } else if zeros.len() > 0 {
        lemma_leading_zeros(zeros.drop_last(), s);
        assert(whole.drop_last() =~= zeros.drop_last() + s);
    }
}

/// A text without the separator is its only piece.
pub proof fn lemma_split_one(s: Seq<char>, sep: char)
    requires
        forall|i: int| 0 <= i < s.len() ==> s[i] != sep,
    ensures
        split(s, sep) == seq![s],
{
    lemma_find(s, sep);
}

/// The pieces of a piece, a separator and a rest are the piece and the pieces of the rest.
pub proof fn lemma_split_cons(piece: Seq<char>, sep: char, rest: Seq<char>)
    requires
        forall|i: int| 0 <= i < piece.len() ==> piece[i] != sep,
    ensures
        split(piece + seq![sep] + rest, sep) == seq![piece] + split(rest, sep),
{
    let whole = piece + seq![sep] + rest;
    lemma_find(whole, sep);
    let i = piece.len() as int;
    assert(whole[i] == sep);
    match find(whole, sep) {
        Some(k) => {
            if k < i {
                assert(whole[k] == piece[k]);
            }
            assert(k == i);
            assert(whole.take(i) =~= piece);
            assert(whole.skip(i + 1) =~= rest);
        },
        None => {},
    }
}

/// Whether a character does not occur in a text.
pub open spec fn lacks(s: Seq<char>, c: char) -> bool {
    forall|i: int| 0 <= i < s.len() ==> #[trigger] s[i] != c
}

/// Digits hold no other character.
pub proof fn lemma_digits_lack(s: Seq<char>, c: char)
    requires
        all_digits(s),
        !is_digit(c),
    ensures
        lacks(s, c),
{
    assert forall|i: int| 0 <= i < s.len() implies #[trigger] s[i] != c by {
        assert(is_digit(s[i]));
    }
}

/// A character that occurs neither in two texts nor between them does not occur in both together.
pub proof fn lemma_joined_lack(a: Seq<char>, sep: char, b: Seq<char>, c: char)
    requires
        lacks(a, c),
        lacks(b, c),
        sep != c,
    ensures
        lacks(a + seq![sep] + b, c),
{
    let whole = a + seq![sep] + b;
    assert forall|i: int| 0 <= i < whole.len() implies #[trigger] whole[i] != c by {
        if i < a.len() {
            assert(whole[i] == a[i]);
        } else if i > a.len() {
            assert(whole[i] == b[i - a.len() - 1]);
        }
    }
}

/// Nothing is found of a character that does not occur.
pub proof fn lemma_find_lacking(s: Seq<char>, c: char)
    ensures
        lacks(s, c) <==> find(s, c) is None,
{
    lemma_find(s, c);
}

/// The first occurrence of a character is behind a text in which it does not occur.
pub proof fn lemma_find_behind(a: Seq<char>, c: char, b: Seq<char>)
    requires
        lacks(a, c),
    ensures
        find(a + seq![c] + b, c) == Some(a.len() as int),
        (a + seq![c] + b).take(a.len() as int) == a,
        (a + seq![c] + b).skip(a.len() as int + 1) == b,
{
    let whole = a + seq![c] + b;
    lemma_find(whole, c);
    assert(whole[a.len() as int] == c);
    if let Some(k) = find(whole, c) {
        if k < a.len() {
            assert(whole[k] == a[k]);
        }
    }
    assert(whole.take(a.len() as int) =~= a);
    assert(whole.skip(a.len() as int + 1) =~= b);
}

/// A text around an occurrence of a character.
pub proof fn lemma_find_parts(s: Seq<char>, c: char)
    ensures
        find(s, c) matches Some(i) ==> {
            &&& 0 <= i < s.len()
            &&& lacks(s.take(i), c)
            &&& s == s.take(i) + seq![c] + s.skip(i + 1)
        },
{
    lemma_find(s, c);
    if let Some(i) = find(s, c) {
        assert forall|j: int| 0 <= j < i implies #[trigger] s.take(i)[j] != c by {
            assert(s[j] != c);
        }
        assert(s =~= s.take(i) + seq![c] + s.skip(i + 1));
    }
}

/// Pieces with a separator between each two of them.
pub open spec fn rejoined(pieces: Seq<Seq<char>>, sep: char) -> Seq<char>
    decreases pieces.len(),
{
    if pieces.len() == 0 {
        seq![]
    } else if pieces.len() == 1 {
        pieces[0]
    } else {
        pieces[0] + seq![sep] + rejoined(pieces.skip(1), sep)
    }
}

/// Splitting cuts a text at every separator and loses nothing: no piece holds a separator, and the
/// pieces with separators between them are the text.
pub proof fn law_splitting_cuts_at_every_separator(s: Seq<char>, sep: char)
    ensures
        split(s, sep).len() >= 1,
        forall|k: int| 0 <= k < split(s, sep).len() ==> lacks(#[trigger] split(s, sep)[k], sep),
        rejoined(split(s, sep), sep) == s,
    decreases s.len(),
{
    lemma_find_parts(s, sep);
    lemma_find_lacking(s, sep);
    if let Some(i) = find(s, sep) {
        let rest = s.skip(i + 1);
        law_splitting_cuts_at_every_separator(rest, sep);
        let pieces = split(s, sep);
        assert(pieces == seq![s.take(i)] + split(rest, sep));
        assert(pieces.skip(1) =~= split(rest, sep));
        assert forall|k: int| 0 <= k < pieces.len() implies lacks(#[trigger] pieces[k], sep) by {
            if k > 0 {
                assert(pieces[k] == split(rest, sep)[k - 1]);
            }
        }
    }
}

/// Trimming takes white space off both ends and nothing else: what it takes off is white space,
/// and what is left, if anything, starts and ends with something else.
pub proof fn law_trimming_takes_white_space_off_the_ends(s: Seq<char>) -> (cut: (Seq<char>, Seq<char>))
    ensures
        s == cut.0 + trimmed(s) + cut.1,
        forall|i: int| 0 <= i < cut.0.len() ==> is_space(#[trigger] cut.0[i]),
        forall|i: int| 0 <= i < cut.1.len() ==> is_space(#[trigger] cut.1[i]),
        trimmed(s).len() > 0 ==> !is_space(trimmed(s).first()) && !is_space(trimmed(s).last()),
{
    let front = lemma_trim_front_parts(s);
    let f = trim_front(s);
    let back = lemma_trim_back_parts(f);
    lemma_trim_front_stable(s);
    let t = trimmed(s);
    assert(s =~= front + t + back);
    if t.len() > 0 {
        assert(f[0] == t[0]);
    }
    (front, back)
}

proof fn lemma_trim_front_parts(s: Seq<char>) -> (cut: Seq<char>)
    ensures
        s == cut + trim_front(s),
        forall|i: int| 0 <= i < cut.len() ==> is_space(#[trigger] cut[i]),
    decreases s.len(),
{
    if s.len() > 0 && is_space(s.first()) {
        let rest = lemma_trim_front_parts(s.drop_first());
        let cut = seq![s.first()] + rest;
        assert(s =~= seq![s.first()] + s.drop_first());
        assert(s =~= cut + trim_front(s.drop_first()));
        assert forall|i: int| 0 <= i < cut.len() implies is_space(#[trigger] cut[i]) by {
            if i > 0 {
                assert(cut[i] == rest[i - 1]);
            }
        }
        cut
    } else {
        assert(s =~= Seq::<char>::empty() + trim_front(s));
        seq![]
    }
}

proof fn lemma_trim_back_parts(s: Seq<char>) -> (cut: Seq<char>)
    ensures
        s == trim_back(s) + cut,
        forall|i: int| 0 <= i < cut.len() ==> is_space(#[trigger] cut[i]),
        trim_back(s).len() > 0 ==> !is_space(trim_back(s).last()),
    decreases s.len(),
{
    if s.len() > 0 && is_space(s.last()) {
        let rest = lemma_trim_back_parts(s.drop_last());
        let cut = rest.push(s.last());
        assert(s =~= s.drop_last().push(s.last()));
        assert(s =~= trim_back(s.drop_last()) + cut);
        cut
    } else {
        assert(s =~= trim_back(s) + Seq::<char>::empty());
        seq![]
    }
}

/// A text that starts and ends with something else than white space stays as it is.
pub proof fn lemma_trimmed_stays(s: Seq<char>)
    requires
        s.len() > 0,
        !is_space(s.first()),
        !is_space(s.last()),
    ensures
        trimmed(s) == s,
{
}

/// Whether `chars[from..to]` are all digits.
pub fn digits_only(chars: &Vec<char>, from: usize, to: usize) -> (r: bool)
    requires
        from <= to <= chars.len(),
    ensures
        r == all_digits(chars@.subrange(from as int, to as int)),
{
    let ghost part = chars@.subrange(from as int, to as int);
    let mut i: usize = from;
    while i < to
        invariant
            from <= i <= to <= chars.len(),
            part == chars@.subrange(from as int, to as int),
            forall|j: int| 0 <= j < i - from ==> is_digit(#[trigger] part[j]),
        decreases to - i,
    {
        assert(part[i - from] == chars@[i as int]);
        let c = chars[i];
        if !('0' <= c && c <= '9') {
            return false;
        }
        i = i + 1;
    }
    true
}

/// The number at most four digits denote.
pub fn short_value(chars: &Vec<char>, from: usize, to: usize) -> (r: u32)
    requires
        from <= to <= chars.len(),
        to - from <= 4,
        all_digits(chars@.subrange(from as int, to as int)),
    ensures
        r == digits_value(chars@.subrange(from as int, to as int)),
        r < 10000,
{
    let ghost part = chars@.subrange(from as int, to as int);
    let mut r: u32 = 0;
    let mut i: usize = from;
    let mut bound: u32 = 1;
    assert(part.take(0).len() == 0);
    while i < to
        invariant
            from <= i <= to <= chars.len(),
            to - from <= 4,
            part == chars@.subrange(from as int, to as int),
            all_digits(part),
            r == digits_value(part.take(i - from)),
            r < bound,
            i - from == 0 ==> bound == 1,
            i - from == 1 ==> bound == 10,
            i - from == 2 ==> bound == 100,
            i - from == 3 ==> bound == 1000,
            i - from == 4 ==> bound == 10000,
        decreases to - i,
    {
        proof {
            views::lemma_take_push(part, i - from);
            assert(part[i - from] == chars@[i as int]);
            assert(is_digit(part[i - from]));
        }
        let c: u32 = chars[i] as u32;
        r = 10 * r + (c - 48);
        bound = 10 * bound;
        i = i + 1;
    }
    assert(part.take(to - from) =~= part);
    r
}

/// The decimal text of a number.
pub fn decimal_text(n: u64) -> (r: String)
    ensures
        r@ == decimal(n as nat),
    decreases n,
{
    let digit: u8 = (n % 10) as u8;
    let c = (48 + digit) as char;
    assert(c == digit_char((n % 10) as nat));
    if n < 10 {
        let mut out = String::new();
        out.push(c);
        assert(out@ =~= seq![c]);
        out
    } else {
        let mut out = decimal_text(n / 10);
        out.push(c);
        out
    }
}

/// The text padded in front with zeros to at least `width` characters.
pub fn pad_zeros(s: String, width: usize) -> (r: String)
    ensures
        r@ == zero_padded(s@, width as nat),
{
    let n = s.as_str().unicode_len();
    let mut out = String::new();
    let mut i: usize = n;
    while i < width
        invariant
            n <= i,
            n < width ==> i <= width,
            n >= width ==> i == n,
            out@ == Seq::new((i - n) as nat, |k: int| '0'),
        decreases width - i,
    {
        out.push('0');
        i = i + 1;
        assert(out@ =~= Seq::new((i - n) as nat, |k: int| '0'));
    }
    out.append(s.as_str());
    assert(n >= width ==> out@ =~= s@);
    out
}

} // verus!
