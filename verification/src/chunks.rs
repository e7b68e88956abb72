//! The chunking engine.
//!
//! Three generic primitives partition storage of any length into full
//! chunks of `w` lanes, apply a supplied kernel to every lane of every
//! full chunk, and finish the remainder of size `len % w` with the same
//! kernel in a scalar pass, so no access ever crosses the bounds. They
//! are the sole mechanism by which the tiered operations walk the
//! storage; every kernel in `kernels` is a thin adapter over one of
//! them.

use crate::model::fold_to;
use vstd::prelude::*;

verus! {

/// Applies the binary kernel `f` — which computes `op` on every pair of
/// lanes — chunk by chunk to two equal-length arrays, producing the
/// elementwise image.
pub(crate) fn zip_map_chunks<F: Fn(u16, u16) -> u16>(
    a: &Vec<u16>,
    b: &Vec<u16>,
    w: usize,
    f: &F,
    Ghost(op): Ghost<spec_fn(u16, u16) -> u16>,
) -> (out: Vec<u16>)
    requires
        a@.len() == b@.len(),
        1 <= w,
        forall|x: u16, y: u16| #[trigger] call_requires(*f, (x, y)),
        forall|x: u16, y: u16, r: u16| call_ensures(*f, (x, y), r) ==> r == op(x, y),
    ensures
        out@.len() == a@.len(),
        forall|i: int| 0 <= i < a@.len() ==> out@[i] == op(a@[i], b@[i]),
{
    let n = a.len();
    let mut out: Vec<u16> = Vec::new();
    let mut base: usize = 0;
    while n - base >= w
        invariant
            a@.len() == n,
            b@.len() == n,
            1 <= w,
            base <= n,
            out@.len() == base,
            forall|x: u16, y: u16| #[trigger] call_requires(*f, (x, y)),
            forall|x: u16, y: u16, r: u16| call_ensures(*f, (x, y), r) ==> r == op(x, y),
            forall|i: int| 0 <= i < base ==> out@[i] == op(a@[i], b@[i]),
        decreases n - base,
    {
        let mut j: usize = 0;
        while j < w
            invariant
                a@.len() == n,
                b@.len() == n,
                j <= w,
                base + w <= n,
                out@.len() == base + j,
                forall|x: u16, y: u16| #[trigger] call_requires(*f, (x, y)),
                forall|x: u16, y: u16, r: u16| call_ensures(*f, (x, y), r) ==> r == op(x, y),
                forall|i: int| 0 <= i < base + j ==> out@[i] == op(a@[i], b@[i]),
            decreases w - j,
        {
            out.push(f(a[base + j], b[base + j]));
            j += 1;
        }
        base += w;
    }
    while base < n
        invariant
            a@.len() == n,
            b@.len() == n,
            base <= n,
            out@.len() == base,
            forall|x: u16, y: u16| #[trigger] call_requires(*f, (x, y)),
            forall|x: u16, y: u16, r: u16| call_ensures(*f, (x, y), r) ==> r == op(x, y),
            forall|i: int| 0 <= i < base ==> out@[i] == op(a@[i], b@[i]),
        decreases n - base,
    {
        out.push(f(a[base], b[base]));
        base += 1;
    }
    out
}

/// Folds the kernel `f` — which computes the combining operation `op` —
/// across every lane of every full chunk and then across the remainder,
/// in index order, starting from `init`.
pub(crate) fn fold_chunks<A: Copy, F: Fn(A, u16) -> A>(
    s: &Vec<u16>,
    w: usize,
    init: A,
    f: &F,
    Ghost(op): Ghost<spec_fn(A, u16) -> A>,
) -> (out: A)
    requires
        1 <= w,
        forall|acc: A, x: u16| #[trigger] call_requires(*f, (acc, x)),
        forall|acc: A, x: u16, r: A| call_ensures(*f, (acc, x), r) ==> r == op(acc, x),
    ensures
        out == fold_to(s@, init, op, s@.len() as int),
{
    let n = s.len();
    let mut acc: A = init;
    let mut base: usize = 0;
    while n - base >= w
        invariant
            s@.len() == n,
            1 <= w,
            base <= n,
            acc == fold_to(s@, init, op, base as int),
            forall|a: A, x: u16| #[trigger] call_requires(*f, (a, x)),
            forall|a: A, x: u16, r: A| call_ensures(*f, (a, x), r) ==> r == op(a, x),
        decreases n - base,
    {
        let mut j: usize = 0;
        while j < w
            invariant
                s@.len() == n,
                j <= w,
                base + w <= n,
                acc == fold_to(s@, init, op, (base + j) as int),
                forall|a: A, x: u16| #[trigger] call_requires(*f, (a, x)),
                forall|a: A, x: u16, r: A| call_ensures(*f, (a, x), r) ==> r == op(a, x),
            decreases w - j,
        {
            acc = f(acc, s[base + j]);
            j += 1;
        }
        base += w;
    }
    while base < n
        invariant
            s@.len() == n,
            base <= n,
            acc == fold_to(s@, init, op, base as int),
            forall|a: A, x: u16| #[trigger] call_requires(*f, (a, x)),
            forall|a: A, x: u16, r: A| call_ensures(*f, (a, x), r) ==> r == op(a, x),
        decreases n - base,
    {
        acc = f(acc, s[base]);
        base += 1;
    }
    acc
}

/// Short-circuit universal reduction: true iff the predicate kernel `f`
/// — which decides `p` — holds on every pair of lanes. Each full chunk
/// is checked whole, a failing chunk ends the walk early, and the
/// remainder is checked lane by lane.
pub(crate) fn zip_all_chunks<F: Fn(u16, u16) -> bool>(
    a: &Vec<u16>,
    b: &Vec<u16>,
    w: usize,
    f: &F,
    Ghost(p): Ghost<spec_fn(u16, u16) -> bool>,
) -> (out: bool)
    requires
        a@.len() == b@.len(),
        1 <= w,
        forall|x: u16, y: u16| #[trigger] call_requires(*f, (x, y)),
        forall|x: u16, y: u16, r: bool| call_ensures(*f, (x, y), r) ==> r == p(x, y),
    ensures
        out == (forall|i: int| 0 <= i < a@.len() ==> #[trigger] p(a@[i], b@[i])),
{
    let n = a.len();
    let mut base: usize = 0;
    while n - base >= w
        invariant
            a@.len() == n,
            b@.len() == n,
            1 <= w,
            base <= n,
            forall|x: u16, y: u16| #[trigger] call_requires(*f, (x, y)),
            forall|x: u16, y: u16, r: bool| call_ensures(*f, (x, y), r) ==> r == p(x, y),
            forall|i: int| 0 <= i < base ==> #[trigger] p(a@[i], b@[i]),
        decreases n - base,
    {
        let mut j: usize = 0;
        let mut chunk_ok: bool = true;
        while j < w
            invariant
                a@.len() == n,
                b@.len() == n,
                j <= w,
                base + w <= n,
                forall|x: u16, y: u16| #[trigger] call_requires(*f, (x, y)),
                forall|x: u16, y: u16, r: bool| call_ensures(*f, (x, y), r) ==> r == p(x, y),
                chunk_ok == (forall|k: int| base <= k < base + j ==> #[trigger] p(a@[k], b@[k])),
            decreases w - j,
        {
            if !f(a[base + j], b[base + j]) {
                chunk_ok = false;
            }
            j += 1;
        }
        if !chunk_ok {
            return false;
        }
        base += w;
    }
    while base < n
        invariant
            a@.len() == n,
            b@.len() == n,
            base <= n,
            forall|x: u16, y: u16| #[trigger] call_requires(*f, (x, y)),
            forall|x: u16, y: u16, r: bool| call_ensures(*f, (x, y), r) ==> r == p(x, y),
            forall|i: int| 0 <= i < base ==> #[trigger] p(a@[i], b@[i]),
        decreases n - base,
    {
        if !f(a[base], b[base]) {
            return false;
        }
        base += 1;
    }
    true
}

/// Short-circuit existential reduction: true iff the predicate kernel
/// `f` — which decides `p` — holds on some pair of lanes. A chunk that
/// holds a witness ends the walk early.
pub(crate) fn zip_any_chunks<F: Fn(u16, u16) -> bool>(
    a: &Vec<u16>,
    b: &Vec<u16>,
    w: usize,
    f: &F,
    Ghost(p): Ghost<spec_fn(u16, u16) -> bool>,
) -> (out: bool)
    requires
        a@.len() == b@.len(),
        1 <= w,
        forall|x: u16, y: u16| #[trigger] call_requires(*f, (x, y)),
        forall|x: u16, y: u16, r: bool| call_ensures(*f, (x, y), r) ==> r == p(x, y),
    ensures
        out == (exists|i: int| 0 <= i < a@.len() && #[trigger] p(a@[i], b@[i])),
{
    let n = a.len();
    let mut base: usize = 0;
    while n - base >= w
        invariant
            a@.len() == n,
            b@.len() == n,
            1 <= w,
            base <= n,
            forall|x: u16, y: u16| #[trigger] call_requires(*f, (x, y)),
            forall|x: u16, y: u16, r: bool| call_ensures(*f, (x, y), r) ==> r == p(x, y),
            forall|i: int| 0 <= i < base ==> !#[trigger] p(a@[i], b@[i]),
        decreases n - base,
    {
        let mut j: usize = 0;
        let mut chunk_hit: bool = false;
        while j < w
            invariant
                a@.len() == n,
                b@.len() == n,
                j <= w,
                base + w <= n,
                forall|x: u16, y: u16| #[trigger] call_requires(*f, (x, y)),
                forall|x: u16, y: u16, r: bool| call_ensures(*f, (x, y), r) ==> r == p(x, y),
                chunk_hit == (exists|k: int| base <= k < base + j && #[trigger] p(a@[k], b@[k])),
            decreases w - j,
        {
            if f(a[base + j], b[base + j]) {
                chunk_hit = true;
            }
            j += 1;
        }
        if chunk_hit {
            return true;
        }
        base += w;
    }
    while base < n
        invariant
            a@.len() == n,
            b@.len() == n,
            base <= n,
            forall|x: u16, y: u16| #[trigger] call_requires(*f, (x, y)),
            forall|x: u16, y: u16, r: bool| call_ensures(*f, (x, y), r) ==> r == p(x, y),
            forall|i: int| 0 <= i < base ==> !#[trigger] p(a@[i], b@[i]),
        decreases n - base,
    {
        if f(a[base], b[base]) {
            return true;
        }
        base += 1;
    }
    false
}

} // verus!
