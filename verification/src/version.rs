//! Version numbers: dot-separated parts, compared in turn, as numbers when
//! both are made of digits and as text otherwise.

use vstd::prelude::*;

use crate::text::{chars_of, digits_value, is_digit};

verus! {

/// Lexicographic order of character sequences: -1, 0 or 1.
pub open spec fn lex_order(a: Seq<char>, b: Seq<char>) -> int
    decreases a.len(),
{
    if a.len() == 0 {
        if b.len() == 0 {
            0
        } else {
            -1
        }
    } else if b.len() == 0 {
        1
    } else if a[0] < b[0] {
        -1
    } else if a[0] > b[0] {
        1
    } else {
        lex_order(a.drop_first(), b.drop_first())
    }
}

/// -1, 0 or 1 as `x` is below, at or above zero.
pub open spec fn sign(x: int) -> int {
    if x < 0 {
        -1
    } else if x == 0 {
        0
    } else {
        1
    }
}

/// Every character is a decimal digit (true of the empty text, whose value
/// is 0).
pub open spec fn all_digits(p: Seq<char>) -> bool {
    forall|i: int| 0 <= i < p.len() ==> is_digit(#[trigger] p[i])
}

/// The parts of a text between its dots, in order; a text without dots is
/// one part.
pub open spec fn dot_parts(s: Seq<char>) -> Seq<Seq<char>>
    decreases s.len(),
{
    if s.len() == 0 {
        seq![Seq::<char>::empty()]
    } else {
        let p = dot_parts(s.drop_last());
        if s.last() == '.' {
            p.push(Seq::empty())
        } else {
            p.update(p.len() - 1, p.last().push(s.last()))
        }
    }
}

/// The order of two parts: by numeric value when both are digits, as text
/// otherwise.
pub open spec fn part_order(p: Seq<char>, q: Seq<char>) -> int {
    if all_digits(p) && all_digits(q) {
        sign(digits_value(p) - digits_value(q))
    } else {
        lex_order(p, q)
    }
}

/// The order of two versions given by their parts: the first part that
/// differs decides; a version that has run out of parts counts as having
/// an empty part, of value 0.
pub open spec fn version_order(a: Seq<Seq<char>>, b: Seq<Seq<char>>) -> int
    decreases a.len() + b.len(),
{
    if a.len() == 0 && b.len() == 0 {
        0
    } else {
        let x = if a.len() > 0 {
            a[0]
        } else {
            Seq::empty()
        };
        let y = if b.len() > 0 {
            b[0]
        } else {
            Seq::empty()
        };
        let c = part_order(x, y);
        if c != 0 {
            c
        } else {
            version_order(
                if a.len() > 0 {
                    a.drop_first()
                } else {
                    a
                },
                if b.len() > 0 {
                    b.drop_first()
                } else {
                    b
                },
            )
        }
    }
}

/// The parts of `a` from the `k`-th on (none when there are fewer).
pub open spec fn parts_from(a: Seq<Seq<char>>, k: int) -> Seq<Seq<char>> {
    if k <= a.len() {
        a.skip(k)
    } else {
        Seq::empty()
    }
}

/// `p` with zeros in front, `n` characters in all.
pub open spec fn padded(p: Seq<char>, n: int) -> Seq<char> {
    Seq::new(n as nat, |j: int| if j < n - p.len() { '0' } else { p[j - (n - p.len())] })
}

proof fn lemma_zeros_value(k: nat)
    ensures
        digits_value(Seq::new(k, |j: int| '0')) == 0,
    decreases k,
{
    if k > 0 {
        assert(Seq::new(k, |j: int| '0').drop_last() =~= Seq::new((k - 1) as nat, |j: int| '0'));
        lemma_zeros_value((k - 1) as nat);
    }
}

proof fn lemma_leading_zeros_value(k: nat, p: Seq<char>)
    ensures
        digits_value(Seq::new(k, |j: int| '0') + p) == digits_value(p),
    decreases p.len(),
{
    let z = Seq::new(k, |j: int| '0');
    if p.len() == 0 {
        assert(z + p =~= z);
        lemma_zeros_value(k);
    } else {
        assert((z + p).drop_last() =~= z + p.drop_last());
        assert((z + p).last() == p.last());
        lemma_leading_zeros_value(k, p.drop_last());
    }
}

proof fn lemma_padded_value(p: Seq<char>, n: int)
    requires
        n >= p.len(),
    ensures
        digits_value(padded(p, n)) == digits_value(p),
        padded(p, n).len() == n,
{
    let k = (n - p.len()) as nat;
    assert(padded(p, n) =~= Seq::new(k, |j: int| '0') + p);
    lemma_leading_zeros_value(k, p);
}

/// Numeric order of two runs of digits of any length.
fn digits_order(p: &Vec<char>, q: &Vec<char>) -> (r: i8)
    requires
        all_digits(p@),
        all_digits(q@),
    ensures
        r == sign(digits_value(p@) - digits_value(q@)),
{
    let n = if p.len() < q.len() {
        q.len()
    } else {
        p.len()
    };
    let ghost pp = padded(p@, n as int);
    let ghost qq = padded(q@, n as int);
    let mut res: i8 = 0;
    let mut j: usize = 0;
    assert(pp.take(0) =~= Seq::<char>::empty());
    assert(qq.take(0) =~= Seq::<char>::empty());
    while j < n
        invariant
            n >= p@.len(),
            n >= q@.len(),
            pp == padded(p@, n as int),
            qq == padded(q@, n as int),
            all_digits(p@),
            all_digits(q@),
            j <= n,
            res == sign(digits_value(pp.take(j as int)) - digits_value(qq.take(j as int))),
        decreases n - j,
    {
        let dp: u32 = if j < n - p.len() {
            0
        } else {
            assert(is_digit(p@[j - (n - p.len())]));
            (p[j - (n - p.len())] as u32) - ('0' as u32)
        };
        let dq: u32 = if j < n - q.len() {
            0
        } else {
            assert(is_digit(q@[j - (n - q.len())]));
            (q[j - (n - q.len())] as u32) - ('0' as u32)
        };
        proof {
            assert(pp.take(j + 1).drop_last() =~= pp.take(j as int));
            assert(qq.take(j + 1).drop_last() =~= qq.take(j as int));
            assert(pp.take(j + 1).last() == pp[j as int]);
            assert(qq.take(j + 1).last() == qq[j as int]);
            assert(digits_value(pp.take(j + 1)) == digits_value(pp.take(j as int)) * 10 + dp);
            assert(digits_value(qq.take(j + 1)) == digits_value(qq.take(j as int)) * 10 + dq);
            assert(dp <= 9 && dq <= 9);
        }
        if res == 0 {
            if dp < dq {
                res = -1;
            } else if dp > dq {
                res = 1;
            }
        }
        j = j + 1;
    }
    proof {
        assert(pp.take(n as int) =~= pp);
        assert(qq.take(n as int) =~= qq);
        lemma_padded_value(p@, n as int);
        lemma_padded_value(q@, n as int);
    }
    res
}

proof fn lemma_lex_order_range(a: Seq<char>, b: Seq<char>)
    ensures
        -1 <= lex_order(a, b) <= 1,
    decreases a.len(),
{
    if a.len() > 0 && b.len() > 0 && a[0] == b[0] {
        lemma_lex_order_range(a.drop_first(), b.drop_first());
    }
}

/// Lexicographic order of two runs of characters.
fn lex_chars(a: &Vec<char>, b: &Vec<char>) -> (r: i8)
    ensures
        r == lex_order(a@, b@),
{
    proof {
        lemma_lex_order_range(a@, b@);
    }
    let mut i: usize = 0;
    assert(a@.skip(0) =~= a@);
    assert(b@.skip(0) =~= b@);
    while i < a.len() && i < b.len() && a[i] == b[i]
        invariant
            i <= a@.len(),
            i <= b@.len(),
            lex_order(a@, b@) == lex_order(a@.skip(i as int), b@.skip(i as int)),
        decreases a@.len() - i,
    {
        assert(a@.skip(i as int).drop_first() =~= a@.skip(i + 1));
        assert(b@.skip(i as int).drop_first() =~= b@.skip(i + 1));
        i = i + 1;
    }
    if i == a.len() && i == b.len() {
        0
    } else if i == a.len() {
        -1
    } else if i == b.len() {
        1
    } else if a[i] < b[i] {
        -1
    } else {
        1
    }
}

fn is_all_digits(p: &Vec<char>) -> (r: bool)
    ensures
        r == all_digits(p@),
{
    let mut i: usize = 0;
    while i < p.len()
        invariant
            i <= p@.len(),
            forall|k: int| 0 <= k < i ==> is_digit(#[trigger] p@[k]),
        decreases p@.len() - i,
    {
        if !('0' <= p[i] && p[i] <= '9') {
            return false;
        }
        i = i + 1;
    }
    true
}

fn part_order_of(p: &Vec<char>, q: &Vec<char>) -> (r: i8)
    ensures
        r == part_order(p@, q@),
{
    if is_all_digits(p) && is_all_digits(q) {
        digits_order(p, q)
    } else {
        lex_chars(p, q)
    }
}

/// The abstract form of a list of parts.
pub open spec fn parts_view(v: Seq<Vec<char>>) -> Seq<Seq<char>> {
    Seq::new(v.len(), |i: int| v[i]@)
}

/// The parts of a text between its dots.
fn dot_parts_of(s: &str) -> (r: Vec<Vec<char>>)
    ensures
        parts_view(r@) == dot_parts(s@),
{
    let v = chars_of(s);
    let mut parts: Vec<Vec<char>> = Vec::new();
    let mut cur: Vec<char> = Vec::new();
    let mut i: usize = 0;
    assert(v@.take(0) =~= Seq::<char>::empty());
    assert(parts_view(parts@).push(cur@) =~= dot_parts(v@.take(0)));
    while i < v.len()
        invariant
            v@ == s@,
            i <= v@.len(),
            parts_view(parts@).push(cur@) == dot_parts(v@.take(i as int)),
        decreases v@.len() - i,
    {
        let ghost before = parts_view(parts@).push(cur@);
        assert(v@.take(i + 1).drop_last() =~= v@.take(i as int));
        assert(v@.take(i + 1).last() == v@[i as int]);
        if v[i] == '.' {
            let done = cur;
            parts.push(done);
            cur = Vec::new();
            assert(parts_view(parts@).push(cur@) =~= before.push(Seq::empty()));
        } else {
            cur.push(v[i]);
            assert(parts_view(parts@).push(cur@) =~= before.update(
                before.len() - 1,
                before.last().push(v@[i as int]),
            ));
        }
        i = i + 1;
    }
    assert(v@.take(v@.len() as int) =~= v@);
    parts.push(cur);
    parts
}

/// The order of two version texts: -1, 0 or 1, as `version_order` of their
/// parts.
pub fn version_order_of(x: &str, y: &str) -> (r: i8)
    ensures
        r == version_order(dot_parts(x@), dot_parts(y@)),
{
    let a = dot_parts_of(x);
    let b = dot_parts_of(y);
    let ghost av = parts_view(a@);
    let ghost bv = parts_view(b@);
    let n = if a.len() < b.len() {
        b.len()
    } else {
        a.len()
    };
    let mut k: usize = 0;
    assert(parts_from(av, 0) =~= av);
    assert(parts_from(bv, 0) =~= bv);
    while k < n
        invariant
            av == parts_view(a@),
            bv == parts_view(b@),
            av == dot_parts(x@),
            bv == dot_parts(y@),
            n == if a@.len() < b@.len() {
                b@.len()
            } else {
                a@.len()
            },
            k <= n,
            version_order(av, bv) == version_order(parts_from(av, k as int), parts_from(bv, k as int)),
        decreases n - k,
    {
        let empty: Vec<char> = Vec::new();
        let pa = if k < a.len() {
            &a[k]
        } else {
            &empty
        };
        let pb = if k < b.len() {
            &b[k]
        } else {
            &empty
        };
        let c = part_order_of(pa, pb);
        proof {
            let ta = parts_from(av, k as int);
            let tb = parts_from(bv, k as int);
            assert(ta.len() > 0 || tb.len() > 0);
            if k < a@.len() {
                assert(ta[0] == av[k as int]);
                assert(ta.drop_first() =~= parts_from(av, k + 1));
            } else {
                assert(ta =~= parts_from(av, k + 1));
            }
            if k < b@.len() {
                assert(tb[0] == bv[k as int]);
                assert(tb.drop_first() =~= parts_from(bv, k + 1));
            } else {
                assert(tb =~= parts_from(bv, k + 1));
            }
            assert(empty@ =~= Seq::<char>::empty());
        }
        if c != 0 {
            return c;
        }
        k = k + 1;
    }
    proof {
        assert(parts_from(av, n as int) =~= Seq::<Seq<char>>::empty());
        assert(parts_from(bv, n as int) =~= Seq::<Seq<char>>::empty());
    }
    0
}

/// The order of two versions is -1, 0 or 1.
pub proof fn law_version_order_is_a_sign(a: Seq<Seq<char>>, b: Seq<Seq<char>>)
    ensures
        -1 <= version_order(a, b) <= 1,
    decreases a.len() + b.len(),
{
    if a.len() > 0 || b.len() > 0 {
        let x = if a.len() > 0 {
            a[0]
        } else {
            Seq::empty()
        };
        let y = if b.len() > 0 {
            b[0]
        } else {
            Seq::empty()
        };
        lemma_lex_order_range(x, y);
        law_version_order_is_a_sign(
            if a.len() > 0 {
                a.drop_first()
            } else {
                a
            },
            if b.len() > 0 {
                b.drop_first()
            } else {
                b
            },
        );
    }
}


proof fn lemma_lex_order_flip(a: Seq<char>, b: Seq<char>)
    ensures
        lex_order(a, b) == -lex_order(b, a),
        lex_order(a, a) == 0,
    decreases a.len(),
{
    if a.len() > 0 && b.len() > 0 && a[0] == b[0] {
        lemma_lex_order_flip(a.drop_first(), b.drop_first());
    }
    if a.len() > 0 {
        lemma_lex_order_flip(a.drop_first(), a.drop_first());
    }
}

/// Comparing two versions the other way round gives the opposite answer.
pub proof fn law_version_order_flips(a: Seq<Seq<char>>, b: Seq<Seq<char>>)
    ensures
        version_order(a, b) == -version_order(b, a),
    decreases a.len() + b.len(),
{
    if a.len() > 0 || b.len() > 0 {
        let x = if a.len() > 0 {
            a[0]
        } else {
            Seq::empty()
        };
        let y = if b.len() > 0 {
            b[0]
        } else {
            Seq::empty()
        };
        lemma_lex_order_flip(x, y);
        let a1 = if a.len() > 0 {
            a.drop_first()
        } else {
            a
        };
        let b1 = if b.len() > 0 {
            b.drop_first()
        } else {
            b
        };
        law_version_order_flips(a1, b1);
    }
}

/// A version is equal to itself.
pub proof fn law_version_order_reflexive(a: Seq<Seq<char>>)
    ensures
        version_order(a, a) == 0,
    decreases a.len(),
{
    if a.len() > 0 {
        lemma_lex_order_flip(a[0], a[0]);
        law_version_order_reflexive(a.drop_first());
    }
}

} // verus!
