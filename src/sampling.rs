//! Bounded, order-keeping reduction of a frame list.

use vstd::prelude::*;

verus! {

/// Distance between two picked frames when `n` frames are cut down to `max`.
/// Never zero, so picking never divides by zero.
pub open spec fn stride(n: nat, max: nat) -> nat {
    if max == 0 || n / max == 0 {
        1
    } else {
        n / max
    }
}

/// How many frames survive sampling.
pub open spec fn sample_len(n: nat, max: nat) -> nat {
    if n <= max {
        n
    } else {
        max
    }
}

/// Position in the input of the `i`-th picked frame.
pub open spec fn sample_index(n: nat, max: nat, i: int) -> int {
    if n <= max {
        i
    } else {
        i * stride(n, max)
    }
}

/// The frames kept from `frames` under the bound `max`: all of them when they
/// fit, else every `stride`-th frame from the first, `max` of them.
pub open spec fn sampled<T>(frames: Seq<T>, max: nat) -> Seq<T> {
    Seq::new(
        sample_len(frames.len(), max),
        |i: int| frames[sample_index(frames.len(), max, i)],
    )
}

/// Picks at most `max_frames` frames, evenly spread and in their order.
pub fn sample_frames(frames: &[String], max_frames: usize) -> (r: Vec<String>)
    ensures
        r@ == sampled(frames@, max_frames as nat),
{
    let n = frames.len();
    let mut out: Vec<String> = Vec::new();
    if n <= max_frames {
        let mut i: usize = 0;
        while i < n
            invariant
                n == frames@.len(),
                i <= n,
                out@ =~= frames@.subrange(0, i as int),
            decreases n - i,
        {
            out.push(frames[i].clone());
            i += 1;
        }
        proof {
            assert(out@ =~= sampled(frames@, max_frames as nat));
        }
        return out;
    }
    if max_frames == 0 {
        proof {
            assert(out@ =~= sampled(frames@, max_frames as nat));
        }
        return out;
    }
    let q: usize = n / max_frames;
    let step: usize = if q == 0 {
        1
    } else {
        q
    };
    proof {
        vstd::arithmetic::div_mod::lemma_fundamental_div_mod(n as int, max_frames as int);
        assert(step * max_frames <= n) by (nonlinear_arith)
            requires
                q == n / max_frames,
                step == if q == 0 { 1 } else { q },
                n > max_frames,
                max_frames > 0,
                n == max_frames * (n / max_frames) + n % max_frames,
                n % max_frames >= 0,
        ;
    }
    let mut k: usize = 0;
    while k < max_frames
        invariant
            n == frames@.len(),
            n > max_frames,
            step == stride(n as nat, max_frames as nat),
            step >= 1,
            step * max_frames <= n,
            k <= max_frames,
            out@.len() == k,
            forall|j: int| 0 <= j < k ==> out@[j] == frames@[j * step],
        decreases max_frames - k,
    {
        assert(k * step < n) by (nonlinear_arith)
            requires
                k < max_frames,
                step >= 1,
                step * max_frames <= n,
        ;
        let idx: usize = k * step;
        out.push(frames[idx].clone());
        k += 1;
    }
    proof {
        assert(out@ =~= sampled(frames@, max_frames as nat));
    }
    out
}

/// Sampling keeps at most `max` frames; the `i`-th kept frame is the input
/// frame at `sample_index(.., i)`, a position inside the input that grows
/// strictly with `i`, so the kept frames are in their original order; an input
/// that already fits comes back unchanged.
pub proof fn lemma_sample_bounded_ordered<T>(frames: Seq<T>, max: nat)
    ensures
        sampled(frames, max).len() <= max,
        stride(frames.len(), max) >= 1,
        forall|i: int|
            0 <= i < sampled(frames, max).len() ==> {
                let k = #[trigger] sample_index(frames.len(), max, i);
                &&& 0 <= k < frames.len()
                &&& sampled(frames, max)[i] == frames[k]
            },
        forall|i: int, j: int|
            0 <= i < j < sampled(frames, max).len() ==> #[trigger] sample_index(frames.len(), max, i)
                < #[trigger] sample_index(frames.len(), max, j),
        frames.len() <= max ==> sampled(frames, max) == frames,
{
    let n = frames.len();
    let s = stride(n, max);
    if n > max && max > 0 {
        vstd::arithmetic::div_mod::lemma_fundamental_div_mod(n as int, max as int);
        assert(s * max <= n) by (nonlinear_arith)
            requires
                s == if n / max == 0 { 1 } else { n / max },
                n == max * (n / max) + n % max,
                n % max >= 0,
                n > max,
        ;
    }
    assert forall|i: int| 0 <= i < sampled(frames, max).len() implies {
        let k = #[trigger] sample_index(n, max, i);
        &&& 0 <= k < n
        &&& sampled(frames, max)[i] == frames[k]
    } by {
        if n > max {
            assert(0 <= i * s < n) by (nonlinear_arith)
                requires
                    0 <= i < max,
                    s >= 1,
                    s * max <= n,
            ;
        }
    }
    assert forall|i: int, j: int| 0 <= i < j < sampled(frames, max).len() implies #[trigger] sample_index(n, max, i)
        < #[trigger] sample_index(n, max, j) by {
        if n > max {
            assert(i * s < j * s) by (nonlinear_arith)
                requires
                    0 <= i < j,
                    s >= 1,
            ;
        }
    }
    if n <= max {
        assert(sampled(frames, max) =~= frames);
    }
}

/// With a bound of zero nothing is kept, whatever the input.
pub proof fn lemma_sample_zero_bound<T>(frames: Seq<T>)
    ensures
        sampled(frames, 0) == Seq::<T>::empty(),
{
    assert(sampled(frames, 0) =~= Seq::<T>::empty());
}

} // verus!
