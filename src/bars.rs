//! Module sequences: runs of dark and light modules, and quiet zones.
use vstd::prelude::*;

verus! {

/// `n` light modules.
pub open spec fn light(n: nat) -> Seq<bool> {
    Seq::new(n, |k: int| false)
}

/// `n` modules of one shade.
pub open spec fn run(dark: bool, n: nat) -> Seq<bool> {
    Seq::new(n, |k: int| dark)
}

/// Element widths laid out left to right, alternating bar and space and
/// starting with a bar (even index = dark).
pub open spec fn runs(widths: Seq<int>) -> Seq<bool>
    decreases widths.len(),
{
    if widths.len() == 0 {
        Seq::empty()
    } else {
        runs(widths.drop_last()) + run((widths.len() - 1) % 2 == 0, widths.last() as nat)
    }
}

/// Appends `n` modules of one shade.
pub fn push_run(out: &mut Vec<bool>, dark: bool, n: usize)
    ensures
        final(out)@ == old(out)@ + run(dark, n as nat),
{
    let mut k: usize = 0;
    while k < n
        invariant
            k <= n,
            out@ == old(out)@ + run(dark, k as nat),
        decreases n - k,
    {
        out.push(dark);
        k += 1;
        assert(out@ =~= old(out)@ + run(dark, k as nat));
    }
}

/// Appends a quiet zone of `n` light modules.
pub fn push_light(out: &mut Vec<bool>, n: usize)
    ensures
        final(out)@ == old(out)@ + light(n as nat),
{
    push_run(out, false, n);
    assert(run(false, n as nat) =~= light(n as nat));
}

/// Appends every element of `bits`.
pub fn push_all(out: &mut Vec<bool>, bits: &[bool])
    ensures
        final(out)@ == old(out)@ + bits@,
{
    let mut k: usize = 0;
    while k < bits.len()
        invariant
            k <= bits@.len(),
            out@ == old(out)@ + bits@.subrange(0, k as int),
        decreases bits@.len() - k,
    {
        out.push(bits[k]);
        k += 1;
        assert(out@ =~= old(out)@ + bits@.subrange(0, k as int));
    }
    assert(bits@.subrange(0, bits@.len() as int) =~= bits@);
}

} // verus!
