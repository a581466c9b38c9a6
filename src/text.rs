//! Text predicates shared by the gateway and the store.

use crate::order::{lemma_text_lt_concat, text_lt};
use vstd::prelude::*;

verus! {

/// `needle` occurs as a contiguous run of characters inside `hay`.
pub open spec fn seq_contains(hay: Seq<char>, needle: Seq<char>) -> bool {
    exists|i: int|
        0 <= i && i + needle.len() <= hay.len() && #[trigger] hay.subrange(i, i + needle.len())
            == needle
}

/// Whether `needle` occurs in `hay`.
pub fn text_contains(hay: &str, needle: &str) -> (r: bool)
    ensures
        r == seq_contains(hay@, needle@),
{
    let n = hay.unicode_len();
    let m = needle.unicode_len();
    if m > n {
        return false;
    }
    let mut i: usize = 0;
    while i <= n - m
        invariant
            n == hay@.len(),
            m == needle@.len(),
            m <= n,
            i <= n - m + 1,
            forall|j: int| 0 <= j < i ==> #[trigger] hay@.subrange(j, j + m) != needle@,
        decreases n - m + 1 - i,
    {
        let mut k: usize = 0;
        let mut same = true;
        while k < m && same
            invariant
                n == hay@.len(),
                m == needle@.len(),
                i + m <= n,
                k <= m,
                same ==> forall|t: int| 0 <= t < k ==> hay@[i + t] == needle@[t],
                !same ==> exists|t: int| 0 <= t < m && hay@[i + t] != needle@[t],
            decreases m - k + (if same { 1int } else { 0int }),
        {
            if hay.get_char(i + k) != needle.get_char(k) {
                same = false;
            } else {
                k = k + 1;
            }
        }
        if same {
            proof {
                assert(hay@.subrange(i as int, i + m) =~= needle@);
            }
            return true;
        }
        proof {
            let t = choose|t: int| 0 <= t < m && hay@[i + t] != needle@[t];
            assert(hay@.subrange(i as int, i + m)[t] != needle@[t]);
        }
        i = i + 1;
    }
    false
}

/// The character of a decimal digit.
pub open spec fn digit_char(d: int) -> char {
    if d == 0 {
        '0'
    } else if d == 1 {
        '1'
    } else if d == 2 {
        '2'
    } else if d == 3 {
        '3'
    } else if d == 4 {
        '4'
    } else if d == 5 {
        '5'
    } else if d == 6 {
        '6'
    } else if d == 7 {
        '7'
    } else if d == 8 {
        '8'
    } else {
        '9'
    }
}

/// The last `width` decimal digits of `n`, with leading zeros.
pub open spec fn padded(n: nat, width: nat) -> Seq<char>
    decreases width,
{
    if width == 0 {
        Seq::empty()
    } else {
        padded(n / 10, (width - 1) as nat).push(digit_char((n % 10) as int))
    }
}

/// Ten to the power `w`.
pub open spec fn pow10(w: nat) -> nat
    decreases w,
{
    if w == 0 {
        1
    } else {
        10 * pow10((w - 1) as nat)
    }
}

pub proof fn lemma_padded_len(n: nat, width: nat)
    ensures
        padded(n, width).len() == width,
    decreases width,
{
    if width > 0 {
        lemma_padded_len(n / 10, (width - 1) as nat);
    }
}

proof fn lemma_digit_order(d: int, e: int)
    requires
        0 <= d < 10,
        0 <= e < 10,
    ensures
        ((digit_char(d) as u32) < (digit_char(e) as u32)) == (d < e),
        (digit_char(d) == digit_char(e)) == (d == e),
{
    assert('0' as u32 == 48 && '1' as u32 == 49 && '2' as u32 == 50 && '3' as u32 == 51);
    assert('4' as u32 == 52 && '5' as u32 == 53 && '6' as u32 == 54 && '7' as u32 == 55);
    assert('8' as u32 == 56 && '9' as u32 == 57);
}

/// Zero-padded numbers of one width sort as the numbers do.
pub proof fn lemma_padded_order(n: nat, m: nat, width: nat)
    requires
        n < pow10(width),
        m < pow10(width),
    ensures
        text_lt(padded(n, width), padded(m, width)) == (n < m),
        (padded(n, width) == padded(m, width)) == (n == m),
    decreases width,
{
    if width == 0 {
        assert(padded(n, width) =~= padded(m, width));
    } else {
        let w1 = (width - 1) as nat;
        let (a, b) = (n / 10, m / 10);
        let (dn, dm) = ((n % 10) as int, (m % 10) as int);
        assert(a < pow10(w1) && b < pow10(w1)) by (nonlinear_arith)
            requires
                n < 10 * pow10(w1),
                m < 10 * pow10(w1),
                a == n / 10,
                b == m / 10,
        ;
        lemma_padded_order(a, b, w1);
        lemma_padded_len(a, w1);
        lemma_padded_len(b, w1);
        lemma_digit_order(dn, dm);
        let (pa, pb) = (padded(a, w1), padded(b, w1));
        let (ca, cb) = (seq![digit_char(dn)], seq![digit_char(dm)]);
        assert(padded(n, width) =~= pa + ca);
        assert(padded(m, width) =~= pb + cb);
        lemma_text_lt_concat(pa, ca, pb, cb);
        assert(text_lt(ca, cb) == (dn < dm)) by {
            assert(ca.len() == 1 && ca[0] == digit_char(dn));
            assert(cb.len() == 1 && cb[0] == digit_char(dm));
            assert(ca.drop_first() =~= Seq::<char>::empty());
            assert(cb.drop_first() =~= Seq::<char>::empty());
            assert(!text_lt(Seq::<char>::empty(), Seq::<char>::empty()));
        }
        assert((n < m) == (a < b || (a == b && dn < dm))) by (nonlinear_arith)
            requires
                a == n / 10,
                b == m / 10,
                dn == n % 10,
                dm == m % 10,
        ;
        if pa + ca == pb + cb {
            assert(pa =~= (pa + ca).subrange(0, w1 as int));
            assert(pb =~= (pb + cb).subrange(0, w1 as int));
            assert((pa + ca)[w1 as int] == digit_char(dn));
            assert((pb + cb)[w1 as int] == digit_char(dm));
        }
        assert((n == m) == (a == b && dn == dm)) by (nonlinear_arith)
            requires
                a == n / 10,
                b == m / 10,
                dn == n % 10,
                dm == m % 10,
        ;
    }
}

/// The decimal digits of `n`, without leading zeros.
pub open spec fn decimal(n: nat) -> Seq<char>
    decreases n,
{
    if n < 10 {
        seq![digit_char(n as int)]
    } else {
        decimal(n / 10).push(digit_char((n % 10) as int))
    }
}

/// The decimal text of a signed number, with a leading `-` when negative.
pub open spec fn signed_decimal(n: int) -> Seq<char> {
    if n < 0 {
        seq!['-'] + decimal((-n) as nat)
    } else {
        decimal(n as nat)
    }
}

fn digit_text(d: u64) -> (r: &'static str)
    requires
        d < 10,
    ensures
        r@ == seq![digit_char(d as int)],
{
    if d == 0 {
        proof { reveal_strlit("0"); }
        "0"
    } else if d == 1 {
        proof { reveal_strlit("1"); }
        "1"
    } else if d == 2 {
        proof { reveal_strlit("2"); }
        "2"
    } else if d == 3 {
        proof { reveal_strlit("3"); }
        "3"
    } else if d == 4 {
        proof { reveal_strlit("4"); }
        "4"
    } else if d == 5 {
        proof { reveal_strlit("5"); }
        "5"
    } else if d == 6 {
        proof { reveal_strlit("6"); }
        "6"
    } else if d == 7 {
        proof { reveal_strlit("7"); }
        "7"
    } else if d == 8 {
        proof { reveal_strlit("8"); }
        "8"
    } else {
        proof { reveal_strlit("9"); }
        "9"
    }
}

/// Appends the last `width` digits of `n`, zero-padded.
pub fn push_padded(s: &mut String, n: u64, width: usize)
    ensures
        final(s)@ == old(s)@ + padded(n as nat, width as nat),
    decreases width,
{
    if width > 0 {
        push_padded(s, n / 10, width - 1);
        s.append(digit_text(n % 10));
        proof {
            assert(final(s)@ =~= old(s)@ + padded(n as nat, width as nat));
        }
    } else {
        proof {
            assert(final(s)@ =~= old(s)@ + padded(n as nat, width as nat));
        }
    }
}

/// Appends the decimal digits of `n`.
pub fn push_decimal(s: &mut String, n: u64)
    ensures
        final(s)@ == old(s)@ + decimal(n as nat),
    decreases n,
{
    if n >= 10 {
        push_decimal(s, n / 10);
    }
    s.append(digit_text(n % 10));
    proof {
        assert(final(s)@ =~= old(s)@ + decimal(n as nat));
    }
}

/// The decimal text of `n`.
pub fn decimal_text(n: i64) -> (r: String)
    ensures
        r@ == signed_decimal(n as int),
{
    let mut s = String::new();
    if n < 0 {
        s.append("-");
        proof { reveal_strlit("-"); }
        let m: u64 = if n == i64::MIN {
            9223372036854775808u64
        } else {
            (-n) as u64
        };
        push_decimal(&mut s, m);
        proof {
            assert(s@ =~= signed_decimal(n as int));
        }
    } else {
        push_decimal(&mut s, n as u64);
        proof {
            assert(s@ =~= signed_decimal(n as int));
        }
    }
    s
}

} // verus!
