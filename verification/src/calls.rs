//! Calls of which a contract says what was called on what.

use vstd::prelude::*;

verus! {

/// What `f` returns.
pub(crate) fn call<R, F: FnOnce() -> R>(f: F) -> (r: R)
    requires
        call_requires(f, ()),
    ensures
        call_ensures(f, (), r),
{
    f()
}

/// What `f` returns on `a`.
pub(crate) fn call_on<A, R, F: FnOnce(A) -> R>(f: F, a: A) -> (r: R)
    requires
        call_requires(f, (a,)),
    ensures
        call_ensures(f, (a,), r),
{
    f(a)
}

/// What `f` returns on `a`, `b`, `c` and `d`.
pub(crate) fn call_on_all<A, B, C, D, R, F: FnOnce(A, B, C, D) -> R>(
    f: F,
    a: A,
    b: B,
    c: C,
    d: D,
) -> (r: R)
    requires
        call_requires(f, (a, b, c, d)),
    ensures
        call_ensures(f, (a, b, c, d), r),
{
    f(a, b, c, d)
}

} // verus!
