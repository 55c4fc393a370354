//! The runtime's call-stack discipline: capacity checks, pushes and
//! pops, and the scoped guard that restores the stack top on every exit
//! path, normal or failing.

use vstd::prelude::*;

use crate::error::Error;
use crate::runtime::{Runtime, MAX_STACK};
use crate::value::Value;

verus! {

/// A record of the stack top at acquisition time; restoring the guard
/// truncates the stack back to it, whatever was pushed meanwhile.
#[derive(Debug, Clone, Copy, PartialEq, Eq, Structural)]
pub struct StackGuard {
    /// The stack length to restore.
    pub top: usize,
}

impl StackGuard {
    /// Captures the current stack top.
    pub fn new<T>(rt: &Runtime<T>) -> (g: StackGuard)
        ensures
            g.top == rt.stack@.len(),
    {
        StackGuard { top: rt.stack.len() }
    }
}

/// Checks that `n` more slots fit on the stack; fails with `StackError`
/// and changes nothing otherwise.
pub fn check_stack<T>(rt: &Runtime<T>, n: usize) -> (r: Result<(), Error>)
    ensures
        match r {
            Ok(()) => rt.stack@.len() + n <= MAX_STACK,
            Err(e) => rt.stack@.len() + n > MAX_STACK && e == Error::StackError,
        },
{
    if n <= MAX_STACK && rt.stack.len() <= MAX_STACK - n {
        Ok(())
    } else {
        Err(Error::StackError)
    }
}

/// Pushes a value onto the runtime's stack.
pub fn push_value<T>(rt: &mut Runtime<T>, v: Value)
    requires
        old(rt).stack@.len() < MAX_STACK,
    ensures
        final(rt).stack@ == old(rt).stack@.push(v),
        final(rt).objects == old(rt).objects,
        final(rt).shared == old(rt).shared,
        final(rt).registry == old(rt).registry,
{
    rt.stack.push(v);
}

/// Pops the topmost value off the runtime's stack.
pub fn pop_value<T>(rt: &mut Runtime<T>) -> (v: Value)
    requires
        old(rt).stack@.len() > 0,
    ensures
        v == old(rt).stack@.last(),
        final(rt).stack@ == old(rt).stack@.drop_last(),
        final(rt).objects == old(rt).objects,
        final(rt).shared == old(rt).shared,
        final(rt).registry == old(rt).registry,
{
    let v = rt.stack.pop();
    match v {
        Some(v) => v,
        None => unreached(),
    }
}

/// Restores the stack top recorded by the guard, discarding everything
/// pushed since. Calling this on every exit path keeps the stack
/// balanced across boundary-crossing calls.
pub fn restore<T>(rt: &mut Runtime<T>, g: StackGuard)
    requires
        g.top <= old(rt).stack@.len(),
    ensures
        final(rt).stack@ == old(rt).stack@.subrange(0, g.top as int),
        final(rt).objects == old(rt).objects,
        final(rt).shared == old(rt).shared,
        final(rt).registry == old(rt).registry,
{
    rt.stack.truncate(g.top);
}

/// Restoring a guard leaves exactly the stack it was taken on: whatever
/// a call pushed above the recorded top, after `restore` the stack is
/// the one the guard saw, on the normal path and on every failure path
/// alike.
pub proof fn lemma_guard_balances(s0: Seq<Value>, pushed: Seq<Value>, top: usize)
    requires
        top == s0.len(),
    ensures
        (s0 + pushed).subrange(0, top as int) == s0,
{
    assert((s0 + pushed).subrange(0, top as int) =~= s0);
}

} // verus!
