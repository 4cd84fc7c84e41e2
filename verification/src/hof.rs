//! Small higher-order helpers: calling a function value handed in by
//! the caller, under that value's own contract.

use vstd::prelude::*;

verus! {

use vstd::std_specs::ops::AddSpec;

/// Adds two values of any type with an addition operator. What the sum
/// is follows the type's own specification of its operator, where the
/// type has one.
pub fn add<T: core::ops::Add<Output = T>>(a: T, b: T) -> (r: T)
    requires
        a.add_req(b),
    ensures
        T::obeys_add_spec() ==> r == a.add_spec(b),
{
    a + b
}

/// Calls the given callback on the two arguments and hands its result
/// back; the callback's own contract carries over.
pub fn hook<F: Fn(u32, u32) -> u32>(callback: F, a: u32, b: u32) -> (r: u32)
    requires
        call_requires(callback, (a, b)),
    ensures
        call_ensures(callback, (a, b), r),
{
    callback(a, b)
}

/// Calls a closure through a shared reference; the closure's own
/// contract carries over.
pub fn hoc_fn<F: Fn()>(closure: &F)
    requires
        call_requires(*closure, ()),
    ensures
        call_ensures(*closure, (), ()),
{
    closure()
}

/// Calls a closure through a mutable reference; the closure's own
/// contract, taken at its state before the call, carries over.
pub fn hoc_fn_mut<F: FnMut()>(closure: &mut F)
    requires
        call_requires(*old(closure), ()),
    ensures
        call_ensures(*old(closure), (), ()),
{
    (closure)()
}

/// Calls a closure once, consuming it; the closure's own contract
/// carries over.
pub fn hoc_fn_once<F: FnOnce()>(closure: F)
    requires
        call_requires(closure, ()),
    ensures
        call_ensures(closure, (), ()),
{
    closure()
}

} // verus!
