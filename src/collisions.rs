use vstd::prelude::*;

verus! {

/// Cantor's pairing of `a` and `b`: `(a + b)(a + b + 1) / 2 + b`.
pub open spec fn cantor_pair(a: int, b: int) -> int {
    (a + b) * (a + b + 1) / 2 + b
}

/// Cantor's pairing of `a` and `b`, a number that no other pair maps to.
pub fn pair(a: u32, b: u32) -> (r: u32)
    requires
        (a + b) * (a + b + 1) <= u32::MAX,
    ensures
        r == cantor_pair(a as int, b as int),
{
    assert(a + b <= (a + b) * (a + b + 1)) by (nonlinear_arith)
        requires
            0 <= a,
            0 <= b,
    ;
    let s = a + b;
    assert(s * (s + 1) / 2 + b <= s * (s + 1)) by (nonlinear_arith)
        requires
            0 <= b <= s,
    ;
    assert(s + 1 <= u32::MAX) by (nonlinear_arith)
        requires
            0 <= s,
            s * (s + 1) <= u32::MAX,
    ;
    let t: u32 = s + 1;
    let product: u32 = s * t;
    product / 2 + b
}

/// Identifier of the unordered pair `{a, b}`: the Cantor pairing of the
/// smaller and the larger of the two.
pub open spec fn pair_id(a: int, b: int) -> int {
    if a < b {
        cantor_pair(a, b)
    } else {
        cantor_pair(b, a)
    }
}

/// The identifier of a pair does not depend on the order of its members.
pub proof fn lemma_pair_id_symmetric(a: int, b: int)
    ensures
        pair_id(a, b) == pair_id(b, a),
{
}

/// An identifier of the unordered pair `{a, b}`: the Cantor pairing of the
/// smaller and the larger of the two.
pub fn generate_id(a: u32, b: u32) -> (r: u32)
    requires
        (a + b) * (a + b + 1) <= u32::MAX,
    ensures
        r == pair_id(a as int, b as int),
{
    if a < b {
        pair(a, b)
    } else {
        assert((b + a) * (b + a + 1) == (a + b) * (a + b + 1));
        pair(b, a)
    }
}

} // verus!
