//! Byte codes that can be told apart: an injective, self-delimiting encoding of the inputs that
//! a chart is drawn from.
//!
//! No code of a value is the beginning of the code of another value of the same type, so codes
//! can be written one behind the other and still be told apart.

use vstd::prelude::*;

verus! {

/// A value with a self-delimiting byte code.
pub trait Coded: Sized {
    /// The code of the value.
    spec fn code(self) -> Seq<u8>;

    /// Where two texts that start with a code are the same, the values are the same and so is
    /// what follows.
    proof fn prefix_free(a: Self, b: Self, r: Seq<u8>, s: Seq<u8>)
        requires
            a.code() + r == b.code() + s,
        ensures
            a == b,
            r == s,
    ;
}

/// Appending can be bracketed either way.
pub proof fn lemma_assoc(a: Seq<u8>, b: Seq<u8>, c: Seq<u8>)
    ensures
        (a + b) + c == a + (b + c),
{
    assert((a + b) + c =~= a + (b + c));
}

/// Texts that are the same and start with parts of one length have the same start and the same
/// rest.
proof fn lemma_same_length(a: Seq<u8>, b: Seq<u8>, r: Seq<u8>, s: Seq<u8>)
    requires
        a.len() == b.len(),
        a + r == b + s,
    ensures
        a == b,
        r == s,
{
    assert(a =~= (a + r).take(a.len() as int));
    assert(b =~= (b + s).take(b.len() as int));
    assert(r =~= (a + r).skip(a.len() as int));
    assert(s =~= (b + s).skip(b.len() as int));
}

/// A text starts with the first byte of its first part.
proof fn lemma_first(a: Seq<u8>, r: Seq<u8>)
    requires
        a.len() > 0,
    ensures
        (a + r)[0] == a[0],
{
}

impl Coded for u8 {
    open spec fn code(self) -> Seq<u8> {
        seq![self]
    }

    proof fn prefix_free(a: Self, b: Self, r: Seq<u8>, s: Seq<u8>) {
        lemma_same_length(a.code(), b.code(), r, s);
        assert(a.code()[0] == b.code()[0]);
    }
}

impl Coded for bool {
    open spec fn code(self) -> Seq<u8> {
        seq![
            if self {
                1u8
            } else {
                0u8
            },
        ]
    }

    proof fn prefix_free(a: Self, b: Self, r: Seq<u8>, s: Seq<u8>) {
        lemma_same_length(a.code(), b.code(), r, s);
        assert(a.code()[0] == b.code()[0]);
    }
}

impl Coded for u32 {
    open spec fn code(self) -> Seq<u8> {
        seq![
            (self % 256) as u8,
            ((self / 256) % 256) as u8,
            ((self / 65_536) % 256) as u8,
            (self / 16_777_216) as u8,
        ]
    }

    proof fn prefix_free(a: Self, b: Self, r: Seq<u8>, s: Seq<u8>) {
        lemma_same_length(a.code(), b.code(), r, s);
        assert(a.code()[0] == b.code()[0]);
        assert(a.code()[1] == b.code()[1]);
        assert(a.code()[2] == b.code()[2]);
        assert(a.code()[3] == b.code()[3]);
        assert(a / 16_777_216 == b / 16_777_216);
        assert((a / 65_536) % 256 == (b / 65_536) % 256);
        assert((a / 256) % 256 == (b / 256) % 256);
        assert(a % 256 == b % 256);
    }
}

impl Coded for u64 {
    open spec fn code(self) -> Seq<u8> {
        ((self % 0x1_0000_0000) as u32).code() + ((self / 0x1_0000_0000) as u32).code()
    }

    proof fn prefix_free(a: Self, b: Self, r: Seq<u8>, s: Seq<u8>) {
        let (al, ah) = ((a % 0x1_0000_0000) as u32, (a / 0x1_0000_0000) as u32);
        let (bl, bh) = ((b % 0x1_0000_0000) as u32, (b / 0x1_0000_0000) as u32);
        lemma_assoc(al.code(), ah.code(), r);
        lemma_assoc(bl.code(), bh.code(), s);
        u32::prefix_free(al, bl, ah.code() + r, bh.code() + s);
        u32::prefix_free(ah, bh, r, s);
    }
}

impl Coded for char {
    open spec fn code(self) -> Seq<u8> {
        (self as u32).code()
    }

    proof fn prefix_free(a: Self, b: Self, r: Seq<u8>, s: Seq<u8>) {
        vstd::utf8::char_u32_cast(a, a as u32);
        vstd::utf8::char_u32_cast(b, b as u32);
        u32::prefix_free(a as u32, b as u32, r, s);
    }
}

impl<A: Coded, B: Coded> Coded for (A, B) {
    open spec fn code(self) -> Seq<u8> {
        self.0.code() + self.1.code()
    }

    proof fn prefix_free(a: Self, b: Self, r: Seq<u8>, s: Seq<u8>) {
        lemma_assoc(a.0.code(), a.1.code(), r);
        lemma_assoc(b.0.code(), b.1.code(), s);
        A::prefix_free(a.0, b.0, a.1.code() + r, b.1.code() + s);
        B::prefix_free(a.1, b.1, r, s);
    }
}

impl<A: Coded, B: Coded, C: Coded> Coded for (A, B, C) {
    open spec fn code(self) -> Seq<u8> {
        self.0.code() + self.1.code() + self.2.code()
    }

    proof fn prefix_free(a: Self, b: Self, r: Seq<u8>, s: Seq<u8>) {
        <((A, B), C)>::prefix_free(((a.0, a.1), a.2), ((b.0, b.1), b.2), r, s);
    }
}

impl<A: Coded, B: Coded, C: Coded, D: Coded> Coded for (A, B, C, D) {
    open spec fn code(self) -> Seq<u8> {
        self.0.code() + self.1.code() + self.2.code() + self.3.code()
    }

    proof fn prefix_free(a: Self, b: Self, r: Seq<u8>, s: Seq<u8>) {
        <((A, B, C), D)>::prefix_free(((a.0, a.1, a.2), a.3), ((b.0, b.1, b.2), b.3), r, s);
    }
}

impl<T: Coded> Coded for Option<T> {
    open spec fn code(self) -> Seq<u8> {
        match self {
            Some(t) => seq![1u8] + t.code(),
            None => seq![0u8],
        }
    }

    proof fn prefix_free(a: Self, b: Self, r: Seq<u8>, s: Seq<u8>) {
        lemma_first(a.code(), r);
        lemma_first(b.code(), s);
        match (a, b) {
            (Some(x), Some(y)) => {
                lemma_assoc(seq![1u8], x.code(), r);
                lemma_assoc(seq![1u8], y.code(), s);
                u8::prefix_free(1u8, 1u8, x.code() + r, y.code() + s);
                T::prefix_free(x, y, r, s);
            },
            (None, None) => {
                u8::prefix_free(0u8, 0u8, r, s);
            },
            (Some(x), None) => {
                assert(a.code()[0] == 1u8);
                assert(b.code()[0] == 0u8);
            },
            (None, Some(y)) => {
                assert(a.code()[0] == 0u8);
                assert(b.code()[0] == 1u8);
            },
        }
    }
}

/// The code of a list: each element behind a one, and a zero at the end.
pub open spec fn list_code<T: Coded>(items: Seq<T>) -> Seq<u8>
    decreases items.len(),
{
    if items.len() == 0 {
        seq![0u8]
    } else {
        (1u8, items.first()).code() + list_code(items.drop_first())
    }
}

/// The first byte of a list's code tells whether the list is empty.
proof fn lemma_list_starts<T: Coded>(a: Seq<T>)
    ensures
        list_code(a).len() > 0,
        list_code(a)[0] == (if a.len() == 0 {
            0u8
        } else {
            1u8
        }),
{
    if a.len() > 0 {
        assert((1u8, a.first()).code()[0] == 1u8);
    }
}

proof fn lemma_list_prefix_free<T: Coded>(a: Seq<T>, b: Seq<T>, r: Seq<u8>, s: Seq<u8>)
    requires
        list_code(a) + r == list_code(b) + s,
    ensures
        a == b,
        r == s,
    decreases a.len(),
{
    lemma_list_starts(a);
    lemma_list_starts(b);
    lemma_first(list_code(a), r);
    lemma_first(list_code(b), s);
    if a.len() == 0 {
        assert(list_code(a) == 0u8.code());
        assert(list_code(b) == 0u8.code());
        u8::prefix_free(0u8, 0u8, r, s);
        assert(a =~= b);
    } else {
        let (x, y) = ((1u8, a.first()), (1u8, b.first()));
        let (ra, rb) = (list_code(a.drop_first()), list_code(b.drop_first()));
        lemma_assoc(x.code(), ra, r);
        lemma_assoc(y.code(), rb, s);
        <(u8, T)>::prefix_free(x, y, ra + r, rb + s);
        lemma_list_prefix_free(a.drop_first(), b.drop_first(), r, s);
        assert(a =~= seq![a.first()] + a.drop_first());
        assert(b =~= seq![b.first()] + b.drop_first());
    }
}

impl<T: Coded> Coded for Seq<T> {
    open spec fn code(self) -> Seq<u8> {
        list_code(self)
    }

    proof fn prefix_free(a: Self, b: Self, r: Seq<u8>, s: Seq<u8>) {
        lemma_list_prefix_free(a, b, r, s);
    }
}

/// A code determines its value.
pub proof fn law_code_is_injective<T: Coded>(a: T, b: T)
    requires
        a.code() == b.code(),
    ensures
        a == b,
{
    let none = Seq::<u8>::empty();
    assert(a.code() + none == b.code() + none);
    T::prefix_free(a, b, none, none);
}

} // verus!
