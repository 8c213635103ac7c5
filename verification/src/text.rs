//! Character-level text helpers: the characters of a string, comparisons,
//! and searches, each stated over the string's sequence of characters.
use vstd::prelude::*;

verus! {

/// The characters of `s`.
pub fn chars_of(s: &str) -> (r: Vec<char>)
    ensures
        r@ == s@,
{
    let n = s.unicode_len();
    let mut out: Vec<char> = Vec::new();
    let mut i: usize = 0;
    while i < n
        invariant
            n == s@.len(),
            i <= n,
            out@ == s@.take(i as int),
        decreases n - i,
    {
        out.push(s.get_char(i));
        i = i + 1;
        assert(out@ =~= s@.take(i as int));
    }
    assert(s@.take(n as int) =~= s@);
    out
}

/// `a` comes strictly before `b` in lexicographic order of their characters,
/// which is the order of their UTF-8 bytes.
pub open spec fn seq_less(a: Seq<char>, b: Seq<char>) -> bool {
    exists|k: int|
        #![trigger a.take(k), b.take(k)]
        0 <= k <= a.len() && k <= b.len() && a.take(k) == b.take(k) && ((k == a.len() && k
            < b.len()) || (k < a.len() && k < b.len() && (a[k] as u32) < (b[k] as u32)))
}

pub fn chars_less(a: &[char], b: &[char]) -> (r: bool)
    ensures
        r == seq_less(a@, b@),
{
    let mut i: usize = 0;
    while i < a.len() && i < b.len()
        invariant
            i <= a.len(),
            i <= b.len(),
            a@.take(i as int) == b@.take(i as int),
        decreases a.len() - i,
    {
        if a[i] != b[i] {
            let r = (a[i] as u32) < (b[i] as u32);
            if r {
                assert(a@.take(i as int) == b@.take(i as int));
            } else {
                assert forall|k: int|
                    0 <= k <= a@.len() && k <= b@.len() && a@.take(k) == b@.take(k) implies !((k
                    == a@.len() && k < b@.len()) || (k < a@.len() && k < b@.len() && (a@[k] as u32)
                    < (b@[k] as u32))) by {
                    if k > i {
                        assert(a@.take(k)[i as int] == b@.take(k)[i as int]);
                    } else if k < i {
                        assert(a@.take(i as int)[k] == b@.take(i as int)[k]);
                    }
                }
            }
            return r;
        }
        assert(a@.take(i + 1) =~= a@.take(i as int).push(a@[i as int]));
        assert(b@.take(i + 1) =~= b@.take(i as int).push(b@[i as int]));
        i = i + 1;
    }
    let r = i == a.len() && i < b.len();
    if r {
        assert(a@.take(i as int) == b@.take(i as int));
    } else {
        assert forall|k: int|
            0 <= k <= a@.len() && k <= b@.len() && a@.take(k) == b@.take(k) implies !((k
            == a@.len() && k < b@.len()) || (k < a@.len() && k < b@.len() && (a@[k] as u32) < (
            b@[k] as u32))) by {
            if k < i {
                assert(a@.take(i as int)[k] == b@.take(i as int)[k]);
            }
        }
    }
    r
}

/// Lexicographic order of two strings.
pub fn str_less(a: &str, b: &str) -> (r: bool)
    ensures
        r == seq_less(a@, b@),
{
    let ac = chars_of(a);
    let bc = chars_of(b);
    chars_less(ac.as_slice(), bc.as_slice())
}

/// `s` begins with `p`.
pub open spec fn has_prefix(s: Seq<char>, p: Seq<char>) -> bool {
    p.len() <= s.len() && s.take(p.len() as int) == p
}

/// `s` ends with `p`.
pub open spec fn has_suffix(s: Seq<char>, p: Seq<char>) -> bool {
    p.len() <= s.len() && s.skip(s.len() - p.len()) == p
}

/// `p` occurs in `s` at position `i`.
pub open spec fn occurs_at(s: Seq<char>, p: Seq<char>, i: int) -> bool {
    0 <= i && i + p.len() <= s.len() && s.subrange(i, i + p.len()) == p
}

/// `p` occurs somewhere in `s`.
pub open spec fn has_infix(s: Seq<char>, p: Seq<char>) -> bool {
    exists|i: int| #[trigger] occurs_at(s, p, i)
}

/// Whether `p` occurs in `s` at position `i`.
pub fn chars_occur_at(s: &[char], p: &[char], i: usize) -> (r: bool)
    ensures
        r == occurs_at(s@, p@, i as int),
{
    if i > s.len() || p.len() > s.len() - i {
        return false;
    }
    let n = s.len();
    let mut k: usize = 0;
    while k < p.len()
        invariant
            n == s@.len(),
            i + p@.len() <= s@.len(),
            k <= p@.len(),
            forall|j: int| 0 <= j < k ==> s@[i + j] == p@[j],
        decreases p.len() - k,
    {
        if s[i + k] != p[k] {
            assert(s@.subrange(i as int, i + p@.len())[k as int] != p@[k as int]);
            return false;
        }
        k = k + 1;
    }
    assert(s@.subrange(i as int, i + p@.len()) =~= p@);
    true
}

/// Whether `s` begins with `p`.
pub fn chars_start_with(s: &[char], p: &[char]) -> (r: bool)
    ensures
        r == has_prefix(s@, p@),
{
    let r = chars_occur_at(s, p, 0);
    assert(p@.len() <= s@.len() ==> s@.take(p@.len() as int) =~= s@.subrange(0, p@.len() as int));
    r
}

/// Whether `s` ends with `p`.
pub fn chars_end_with(s: &[char], p: &[char]) -> (r: bool)
    ensures
        r == has_suffix(s@, p@),
{
    if p.len() > s.len() {
        return false;
    }
    let r = chars_occur_at(s, p, s.len() - p.len());
    assert(s@.skip(s@.len() - p@.len()) =~= s@.subrange(s@.len() - p@.len(), s@.len() as int));
    r
}

/// The first position at which `p` occurs in `s`, if any.
pub fn chars_find(s: &[char], p: &[char]) -> (r: Option<usize>)
    ensures
        r is None <==> !has_infix(s@, p@),
        r matches Some(i) ==> occurs_at(s@, p@, i as int) && forall|j: int| 0 <= j < i ==> !occurs_at(s@, p@, j),
{
    if p.len() > s.len() {
        assert forall|j: int| !occurs_at(s@, p@, j) by {}
        return None;
    }
    let last = s.len() - p.len();
    let mut i: usize = 0;
    while i <= last
        invariant
            last + p@.len() == s@.len(),
            forall|j: int| 0 <= j < i ==> !occurs_at(s@, p@, j),
        decreases last + 1 - i,
    {
        if chars_occur_at(s, p, i) {
            return Some(i);
        }
        if i == last {
            assert forall|j: int| !occurs_at(s@, p@, j) by {
                if 0 <= j < i {
                } else if j == i {
                } else {
                }
            }
            return None;
        }
        i = i + 1;
    }
    None
}

/// Whether `p` occurs in `s`.
pub fn chars_contain(s: &[char], p: &[char]) -> (r: bool)
    ensures
        r == has_infix(s@, p@),
{
    chars_find(s, p).is_some()
}

/// Whether the characters of `s` are exactly those of `t`.
pub fn chars_equal(s: &[char], t: &[char]) -> (r: bool)
    ensures
        r == (s@ == t@),
{
    if s.len() != t.len() {
        return false;
    }
    let r = chars_occur_at(s, t, 0);
    assert(s@.subrange(0, t@.len() as int) =~= s@);
    r
}

/// Nothing comes before itself.
pub proof fn lemma_seq_less_irreflexive(a: Seq<char>)
    ensures
        !seq_less(a, a),
{
}

/// Two different character sequences are ordered one way or the other.
pub proof fn lemma_seq_less_total(a: Seq<char>, b: Seq<char>)
    requires
        a != b,
    ensures
        seq_less(a, b) || seq_less(b, a),
    decreases a.len(),
{
    if a.len() == 0 {
        assert(b.len() > 0) by {
            if b.len() == 0 {
                assert(a =~= b);
            }
        }
        assert(a.take(0) =~= b.take(0));
    } else if b.len() == 0 {
        assert(a.take(0) =~= b.take(0));
    } else if a[0] != b[0] {
        assert(a.take(0) =~= b.take(0));
        assert(b.take(0) =~= a.take(0));
        vstd::utf8::char_u32_cast(a[0], a[0] as u32);
        vstd::utf8::char_u32_cast(b[0], b[0] as u32);
        if (a[0] as u32) < (b[0] as u32) {
        } else {
            assert((b[0] as u32) < (a[0] as u32));
        }
    } else {
        let a1 = a.skip(1);
        let b1 = b.skip(1);
        assert(a1 != b1) by {
            if a1 == b1 {
                assert(a =~= seq![a[0]] + a1);
                assert(b =~= seq![b[0]] + b1);
            }
        }
        lemma_seq_less_total(a1, b1);
        if seq_less(a1, b1) {
            let k = choose|k: int|
                #![trigger a1.take(k), b1.take(k)]
                0 <= k <= a1.len() && k <= b1.len() && a1.take(k) == b1.take(k) && ((k == a1.len() && k
                    < b1.len()) || (k < a1.len() && k < b1.len() && (a1[k] as u32) < (b1[k] as u32)));
            assert(a.take(k + 1) =~= seq![a[0]] + a1.take(k));
            assert(b.take(k + 1) =~= seq![b[0]] + b1.take(k));
            assert(a.take(k + 1) == b.take(k + 1));
        } else {
            let k = choose|k: int|
                #![trigger b1.take(k), a1.take(k)]
                0 <= k <= b1.len() && k <= a1.len() && b1.take(k) == a1.take(k) && ((k == b1.len() && k
                    < a1.len()) || (k < b1.len() && k < a1.len() && (b1[k] as u32) < (a1[k] as u32)));
            assert(a.take(k + 1) =~= seq![a[0]] + a1.take(k));
            assert(b.take(k + 1) =~= seq![b[0]] + b1.take(k));
            assert(b.take(k + 1) == a.take(k + 1));
        }
    }
}

/// The order is transitive.
pub proof fn lemma_seq_less_transitive(a: Seq<char>, b: Seq<char>, c: Seq<char>)
    requires
        seq_less(a, b),
        seq_less(b, c),
    ensures
        seq_less(a, c),
{
    let k1 = choose|k: int|
        #![trigger a.take(k), b.take(k)]
        0 <= k <= a.len() && k <= b.len() && a.take(k) == b.take(k) && ((k == a.len() && k < b.len()) || (k
            < a.len() && k < b.len() && (a[k] as u32) < (b[k] as u32)));
    let k2 = choose|k: int|
        #![trigger b.take(k), c.take(k)]
        0 <= k <= b.len() && k <= c.len() && b.take(k) == c.take(k) && ((k == b.len() && k < c.len()) || (k
            < b.len() && k < c.len() && (b[k] as u32) < (c[k] as u32)));
    if k1 < k2 {
        assert(b.take(k1) =~= c.take(k2).take(k1));
        assert(b.take(k1) =~= b.take(k2).take(k1));
        assert(a.take(k1) == c.take(k1));
        if k1 < a.len() {
            assert(b.take(k2)[k1] == c.take(k2)[k1]);
        }
    } else if k2 < k1 {
        assert(a.take(k2) =~= a.take(k1).take(k2));
        assert(b.take(k2) =~= b.take(k1).take(k2));
        assert(a.take(k2) == c.take(k2));
        assert(a.take(k1)[k2] == b.take(k1)[k2]);
    } else {
        assert(a.take(k1) == c.take(k1));
    }
}

/// Ordered sequences differ.
pub proof fn lemma_seq_less_ne(a: Seq<char>, b: Seq<char>)
    requires
        seq_less(a, b),
    ensures
        a != b,
{
}

/// Whether two strings hold the same characters.
pub fn str_eq(a: &str, b: &str) -> (r: bool)
    ensures
        r == (a@ == b@),
{
    let ac = chars_of(a);
    let bc = chars_of(b);
    chars_equal(ac.as_slice(), bc.as_slice())
}

} // verus!
