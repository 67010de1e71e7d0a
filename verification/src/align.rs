//! Alignment arithmetic: how far an address has to move forward to reach the
//! next multiple of an alignment.

use vstd::prelude::*;

verus! {

/// The number of filler bytes between `addr` and the first multiple of
/// `align` at or after it.
pub open spec fn padding_for(addr: nat, align: nat) -> nat {
    ((align - addr % align) % (align as int)) as nat
}

/// Moving `addr` forward by its padding lands on a multiple of `align`, the
/// padding is shorter than one alignment step, and it is zero exactly when
/// `addr` is aligned already.
pub proof fn lemma_padding_aligns(addr: nat, align: nat)
    requires
        align > 0,
    ensures
        padding_for(addr, align) < align,
        (addr + padding_for(addr, align)) % align == 0,
        padding_for(addr, align) == 0 <==> addr % align == 0,
{
    let a = align as int;
    let x = addr as int;
    let r = x % a;
    let p = (a - r) % a;
    assert(0 <= r < a && x == a * (x / a) + r) by (nonlinear_arith)
        requires
            a > 0,
            r == x % a,
    ;
    if r == 0 {
        assert(p == 0) by (nonlinear_arith)
            requires
                a > 0,
                p == (a - 0) % a,
        ;
        assert((x + 0) % a == 0);
    } else {
        assert(p == a - r) by (nonlinear_arith)
            requires
                0 < a - r < a,
                p == (a - r) % a,
        ;
        let q = x / a;
        assert((x + p) % a == 0) by (nonlinear_arith)
            requires
                a > 0,
                x + p == a * q + a,
        ;
    }
}

/// No shorter shift than the padding reaches a multiple of `align`.
pub proof fn lemma_padding_is_least(addr: nat, align: nat, shift: nat)
    requires
        align > 0,
        (addr + shift) % align == 0,
    ensures
        padding_for(addr, align) <= shift,
{
    lemma_padding_aligns(addr, align);
    let a = align as int;
    let x = addr as int;
    let s = shift as int;
    let p = padding_for(addr, align) as int;
    if s < p {
        // Both `x + s` and `x + p` are multiples of `a`, less than `a` apart.
        assert(false) by (nonlinear_arith)
            requires
                a > 0,
                0 <= s < p < a,
                (x + s) % a == 0,
                (x + p) % a == 0,
        {
            let qs = (x + s) / a;
            let qp = (x + p) / a;
            assert(x + s == a * qs);
            assert(x + p == a * qp);
            assert(p - s == a * (qp - qs));
            assert(qp - qs >= 1 || qp - qs <= 0);
        }
    }
}

/// The padding in front of `addr`, computed without leaving `usize`.
pub fn padding_at(addr: usize, align: usize) -> (padding: usize)
    requires
        align > 0,
    ensures
        padding == padding_for(addr as nat, align as nat),
{
    (align - addr % align) % align
}

} // verus!
