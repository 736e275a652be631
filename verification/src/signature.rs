//! Tolerant equivalence between two wire-format type signatures.
//!
//! Marshalling may add or omit exactly one pair of outer struct parentheses
//! around an otherwise identical signature: a dictionary declared as `a{sv}`
//! may travel as `(a{sv})`. Two signatures are considered equivalent when,
//! after stripping at most one genuine outer pair from each side, the
//! remaining characters agree exactly. No further grammar validation is
//! performed; malformed input merely compares unequal.

use vstd::prelude::*;
use vstd::string::*;

verus! {

/// A wire-format type signature, held as an opaque character string.
///
/// The equivalence check is the only interpretation this crate gives to the
/// contents; signatures are assumed well formed and are never validated.
#[derive(Debug)]
pub struct TypeSignature {
    text: String,
}

impl View for TypeSignature {
    type V = Seq<char>;

    closed spec fn view(&self) -> Seq<char> {
        self.text@
    }
}

impl TypeSignature {
    /// Wraps a borrowed string as a signature.
    pub fn new(s: &str) -> (r: Self)
        ensures
            r@ == s@,
    {
        TypeSignature { text: s.to_owned() }
    }

    /// Wraps an owned string as a signature.
    pub fn from_string(s: String) -> (r: Self)
        ensures
            r@ == s@,
    {
        TypeSignature { text: s }
    }

    /// The signature's characters, unchanged.
    pub fn as_str(&self) -> (r: &str)
        ensures
            r@ == self@,
    {
        self.text.as_str()
    }

    /// An identical copy of the signature.
    pub fn duplicate(&self) -> (r: Self)
        ensures
            r@ == self@,
    {
        TypeSignature { text: self.text.clone() }
    }
}

/// One step of the nesting counter: `(` opens a level, `)` closes one only
/// when a level is open; a stray `)` at level zero is ignored rather than
/// driving the counter negative.
pub open spec fn balance_step(count: nat, c: char) -> nat {
    if c == '(' {
        count + 1
    } else if c == ')' && count != 0 {
        (count - 1) as nat
    } else {
        count
    }
}

/// The nesting counter over `s[i..]`, started at `count`.
pub open spec fn balance_from(s: Seq<char>, i: int, count: nat) -> nat
    decreases s.len() - i,
{
    if i < 0 || i >= s.len() {
        count
    } else {
        balance_from(s, i + 1, balance_step(count, s[i]))
    }
}

/// A sequence is self-balanced when the counter, run over all of it from
/// zero, ends at exactly zero. An interior like `i)(i` is not: the stray
/// closer is ignored and the later opener is never closed.
pub open spec fn interior_balanced(s: Seq<char>) -> bool {
    balance_from(s, 0, 0) == 0
}

/// The first and last characters form a genuine outer pair: they are
/// parentheses and the interior between them is self-balanced.
pub open spec fn strippable(s: Seq<char>) -> bool {
    &&& s.len() >= 2
    &&& s[0] == '('
    &&& s[s.len() - 1] == ')'
    &&& interior_balanced(s.subrange(1, s.len() - 1))
}

/// The signature with at most one genuine outer pair removed. Deceptive
/// outer parentheses (as around `(i)(i)`) are kept; the strip is applied
/// once, never recursively.
pub open spec fn stripped(s: Seq<char>) -> Seq<char> {
    if strippable(s) {
        s.subrange(1, s.len() - 1)
    } else {
        s
    }
}

/// Two signatures are equivalent when their stripped forms agree exactly:
/// they may differ by at most one layer of outer parentheses on either side,
/// and by nothing else.
pub open spec fn equivalent(lhs: Seq<char>, rhs: Seq<char>) -> bool {
    stripped(lhs) == stripped(rhs)
}

/// The character range of `s` that remains once at most one genuine outer
/// pair is removed.
fn strip_bounds(s: &str) -> (r: (usize, usize))
    ensures
        r.0 <= r.1 <= s@.len(),
        s@.subrange(r.0 as int, r.1 as int) == stripped(s@),
{
    let n = s.unicode_len();
    if n < 2 || s.get_char(0) != '(' || s.get_char(n - 1) != ')' {
        proof {
            assert(!strippable(s@));
            assert(s@.subrange(0, n as int) =~= s@);
        }
        return (0, n);
    }
    let ghost interior = s@.subrange(1, n - 1);
    let mut count: usize = 0;
    let mut j: usize = 1;
    while j < n - 1
        invariant
            1 <= j <= n - 1,
            n == s@.len(),
            2 <= n,
            count <= j - 1,
            interior == s@.subrange(1, n - 1),
            balance_from(interior, 0, 0) == balance_from(interior, j - 1, count as nat),
        decreases n - 1 - j,
    {
        let c = s.get_char(j);
        proof {
            assert(interior[j - 1] == s@[j as int]);
        }
        if c == '(' {
            count = count + 1;
        } else if c == ')' && count != 0 {
            count = count - 1;
        }
        j = j + 1;
    }
    proof {
        assert(balance_from(interior, j - 1, count as nat) == count as nat);
    }
    if count == 0 {
        proof {
            assert(strippable(s@));
        }
        (1, n - 1)
    } else {
        proof {
            assert(!strippable(s@));
            assert(s@.subrange(0, n as int) =~= s@);
        }
        (0, n)
    }
}

/// Exact equality of two character ranges.
fn ranges_eq(xs: &str, xlo: usize, xhi: usize, ys: &str, ylo: usize, yhi: usize) -> (r: bool)
    requires
        xlo <= xhi <= xs@.len(),
        ylo <= yhi <= ys@.len(),
    ensures
        r == (xs@.subrange(xlo as int, xhi as int) == ys@.subrange(ylo as int, yhi as int)),
{
    let ghost a = xs@.subrange(xlo as int, xhi as int);
    let ghost b = ys@.subrange(ylo as int, yhi as int);
    let xlen = xhi - xlo;
    let ylen = yhi - ylo;
    if xlen != ylen {
        proof {
            assert(a.len() != b.len());
        }
        return false;
    }
    let mut k: usize = 0;
    while k < xlen
        invariant
            k <= xlen,
            xlen == ylen,
            xhi == xlo + xlen,
            yhi == ylo + ylen,
            xlo + xlen <= xs@.len(),
            ylo + ylen <= ys@.len(),
            a == xs@.subrange(xlo as int, xlo + xlen),
            b == ys@.subrange(ylo as int, ylo + ylen),
            forall|t: int| 0 <= t < k ==> a[t] == b[t],
        decreases xlen - k,
    {
        let xc = xs.get_char(xlo + k);
        let yc = ys.get_char(ylo + k);
        proof {
            assert(a[k as int] == xs@[xlo + k]);
            assert(b[k as int] == ys@[ylo + k]);
        }
        if xc != yc {
            proof {
                assert(a[k as int] != b[k as int]);
            }
            return false;
        }
        k = k + 1;
    }
    proof {
        assert(a =~= b);
    }
    true
}

/// Whether the two signatures are equal up to one layer of
/// marshalling-introduced outer parentheses on either side.
///
/// Each side is stripped of at most one genuine outer pair, and the results
/// are compared for exact equality. The function is total: malformed or
/// truncated input compares unequal instead of failing.
pub fn signatures_are_eq(lhs: &TypeSignature, rhs: &TypeSignature) -> (r: bool)
    ensures
        r == equivalent(lhs@, rhs@),
{
    let ls = lhs.as_str();
    let rs = rhs.as_str();
    let (llo, lhi) = strip_bounds(ls);
    let (rlo, rhi) = strip_bounds(rs);
    ranges_eq(ls, llo, lhi, rs, rlo, rhi)
}

/// The diagnostic rendered when two signatures were expected to be
/// equivalent and are not.
pub open spec fn eq_failure_message(lhs: Seq<char>, rhs: Seq<char>) -> Seq<char> {
    "Signatures are not equal (Lhs: "@ + lhs + ", Rhs: "@ + rhs + ")"@
}

/// The diagnostic rendered when two signatures were expected to differ and
/// are equivalent.
pub open spec fn ne_failure_message(lhs: Seq<char>, rhs: Seq<char>) -> Seq<char> {
    "Signatures are equal (Lhs: "@ + lhs + ", Rhs: "@ + rhs + ")"@
}

/// Checks that the two signatures are equivalent; on failure both
/// signatures are rendered in the returned diagnostic.
pub fn assert_eq_signatures(lhs: &TypeSignature, rhs: &TypeSignature) -> (r: Result<(), String>)
    ensures
        r is Ok <==> equivalent(lhs@, rhs@),
        r matches Err(m) ==> m@ == eq_failure_message(lhs@, rhs@),
{
    if signatures_are_eq(lhs, rhs) {
        Ok(())
    } else {
        let mut m = ("Signatures are not equal (Lhs: ").to_owned();
        m.append(lhs.as_str());
        m.append(", Rhs: ");
        m.append(rhs.as_str());
        m.append(")");
        Err(m)
    }
}

/// Checks that the two signatures are not equivalent; on failure both
/// signatures are rendered in the returned diagnostic.
pub fn assert_ne_signatures(lhs: &TypeSignature, rhs: &TypeSignature) -> (r: Result<(), String>)
    ensures
        r is Ok <==> !equivalent(lhs@, rhs@),
        r matches Err(m) ==> m@ == ne_failure_message(lhs@, rhs@),
{
    if !signatures_are_eq(lhs, rhs) {
        Ok(())
    } else {
        let mut m = ("Signatures are equal (Lhs: ").to_owned();
        m.append(lhs.as_str());
        m.append(", Rhs: ");
        m.append(rhs.as_str());
        m.append(")");
        Err(m)
    }
}

/// The signature wrapped in one added pair of outer parentheses.
pub open spec fn wrap_once(s: Seq<char>) -> Seq<char> {
    seq!['('] + s + seq![')']
}

/// Equivalence is reflexive: every signature is equivalent to itself.
pub proof fn lemma_equivalent_reflexive(s: Seq<char>)
    ensures
        equivalent(s, s),
{
}

/// Equivalence is symmetric: the two sides may be swapped freely.
pub proof fn lemma_equivalent_symmetric(lhs: Seq<char>, rhs: Seq<char>)
    ensures
        equivalent(lhs, rhs) == equivalent(rhs, lhs),
{
}

/// A single added outer layer is tolerated: a signature whose own nesting is
/// balanced, and which does not itself shed an outer pair, is equivalent to
/// itself wrapped in one pair of parentheses.
pub proof fn lemma_wrap_once_equivalent(s: Seq<char>)
    requires
        interior_balanced(s),
        !strippable(s),
    ensures
        equivalent(s, wrap_once(s)),
{
    let w = wrap_once(s);
    assert(w.len() == s.len() + 2);
    assert(w[0] == '(');
    assert(w[w.len() - 1] == ')');
    assert(w.subrange(1, w.len() - 1) =~= s);
    assert(strippable(w));
    assert(stripped(w) == s);
    assert(stripped(s) == s);
}

/// The exact boundary of the tolerance: wrapping a signature in one pair of
/// parentheses leaves it equivalent precisely when its own nesting is
/// balanced and it does not itself shed an outer pair.
pub proof fn lemma_wrap_once_exact(s: Seq<char>)
    ensures
        equivalent(s, wrap_once(s)) <==> (interior_balanced(s) && !strippable(s)),
{
    let w = wrap_once(s);
    assert(w.len() == s.len() + 2);
    assert(w[0] == '(');
    assert(w[w.len() - 1] == ')');
    assert(w.subrange(1, w.len() - 1) =~= s);
    lemma_stripped_len(s);
    if interior_balanced(s) {
        assert(strippable(w));
        assert(stripped(w) == s);
        if strippable(s) {
            assert(stripped(s).len() != s.len());
        }
    } else {
        assert(!strippable(w));
        assert(stripped(s).len() < w.len());
    }
}

/// Stripping removes at most one pair of characters.
pub proof fn lemma_stripped_len(s: Seq<char>)
    ensures
        s.len() - 2 <= stripped(s).len() <= s.len(),
{
}

/// Two added outer layers are never tolerated: no signature is equivalent to
/// itself wrapped in two pairs of parentheses.
pub proof fn lemma_wrap_twice_not_equivalent(s: Seq<char>)
    ensures
        !equivalent(s, wrap_once(wrap_once(s))),
{
    let w2 = wrap_once(wrap_once(s));
    lemma_stripped_len(s);
    lemma_stripped_len(w2);
    assert(w2.len() == s.len() + 4);
    if equivalent(s, w2) {
        assert(stripped(s).len() == stripped(w2).len());
        assert(false);
    }
}

} // verus!
