//! What the wrappers around a store decide before an operation reaches it.

use vstd::prelude::*;
use crate::options::ChaosOptions;
use crate::options::ThrottleOptions;
use crate::options::rate_is_set;

verus! {

/// What a caller asks of a store.
#[derive(Clone, Copy, Debug, PartialEq, Eq, Structural, Hash)]
pub enum Operation {
    Get,
    IsPresent,
    Put,
    Link,
}

impl Operation {
    /// The operation changes what the store holds.
    pub open spec fn spec_is_write(&self) -> bool {
        *self == Operation::Put || *self == Operation::Link
    }

    /// The operation changes what the store holds.
    #[verifier::when_used_as_spec(spec_is_write)]
    pub fn is_write(&self) -> (write: bool)
        ensures
            write == self.spec_is_write(),
    {
        match self {
            Operation::Put => true,
            Operation::Link => true,
            Operation::Get => false,
            Operation::IsPresent => false,
        }
    }
}

/// Why a wrapper did not let an operation through.
#[derive(Clone, Copy, Debug, PartialEq, Eq, Structural, Hash)]
pub enum Refusal {
    /// The store is read-only and the operation writes.
    ReadOnlyViolation,
    /// A fault was injected.
    ChaosInjected,
    /// The store is disabled by its configuration.
    Disabled,
}

impl Refusal {
    /// The message that belongs to the refusal.
    pub fn message(&self) -> (text: &'static str)
        ensures
            text@ == match *self {
                Refusal::ReadOnlyViolation => "The store is read-only"@,
                Refusal::ChaosInjected => "A fault was injected"@,
                Refusal::Disabled => "Disabled by configuration"@,
            },
    {
        match self {
            Refusal::ReadOnlyViolation => "The store is read-only",
            Refusal::ChaosInjected => "A fault was injected",
            Refusal::Disabled => "Disabled by configuration",
        }
    }
}

/// A disabled store refuses every operation.
pub fn disabled_gate(operation: Operation) -> (verdict: Result<(), Refusal>)
    ensures
        verdict == Err::<(), Refusal>(Refusal::Disabled),
{
    Err(Refusal::Disabled)
}

/// A read-only store refuses every write and lets every read through.
pub fn read_only_gate(operation: Operation) -> (verdict: Result<(), Refusal>)
    ensures
        verdict == if operation.spec_is_write() {
            Err::<(), Refusal>(Refusal::ReadOnlyViolation)
        } else {
            Ok::<(), Refusal>(())
        },
{
    if operation.is_write() {
        Err(Refusal::ReadOnlyViolation)
    } else {
        Ok(())
    }
}

/// The rate that holds for an operation: that of writes or that of reads.
pub open spec fn rate_for(read: Option<u32>, write: Option<u32>, operation: Operation) -> Option<
    u32,
> {
    let rate = if operation.spec_is_write() {
        write
    } else {
        read
    };
    if rate_is_set(rate) {
        rate
    } else {
        None
    }
}

fn pick_rate(read: Option<u32>, write: Option<u32>, operation: Operation) -> (rate: Option<u32>)
    ensures
        rate == rate_for(read, write, operation),
        rate matches Some(n) ==> n >= 1,
{
    let rate = if operation.is_write() {
        write
    } else {
        read
    };
    match rate {
        Some(n) => if n >= 1 {
            Some(n)
        } else {
            None
        },
        None => None,
    }
}

impl ChaosOptions {
    /// With the ratio `n` the draws that `n` divides are made to fail: one
    /// operation in `n` where the draws are spread evenly.
    pub open spec fn spec_injects_failure(&self, operation: Operation, draw: u32) -> bool {
        match rate_for(self.error_sample_ratio_read, self.error_sample_ratio_write, operation) {
            Some(n) => draw % n == 0,
            None => false,
        }
    }

    /// Whether the operation is made to fail, given the number drawn for it.
    /// The same draws give the same failures.
    #[verifier::when_used_as_spec(spec_injects_failure)]
    pub fn injects_failure(&self, operation: Operation, draw: u32) -> (fails: bool)
        ensures
            fails == self.spec_injects_failure(operation, draw),
    {
        match pick_rate(self.error_sample_ratio_read, self.error_sample_ratio_write, operation) {
            Some(n) => draw % n == 0,
            None => false,
        }
    }
}

/// A store with chaos refuses the operations that are made to fail.
pub fn chaos_gate(options: &ChaosOptions, operation: Operation, draw: u32) -> (verdict: Result<
    (),
    Refusal,
>)
    ensures
        verdict == if options.spec_injects_failure(operation, draw) {
            Err::<(), Refusal>(Refusal::ChaosInjected)
        } else {
            Ok::<(), Refusal>(())
        },
{
    if options.injects_failure(operation, draw) {
        Err(Refusal::ChaosInjected)
    } else {
        Ok(())
    }
}

impl ThrottleOptions {
    /// The bound, in operations per second, under which the operation falls:
    /// reads and writes are bounded apart.
    pub fn limit(&self, operation: Operation) -> (limit: Option<u32>)
        ensures
            limit == rate_for(self.read_qps, self.write_qps, operation),
    {
        pick_rate(self.read_qps, self.write_qps, operation)
    }
}

/// With the ratio one every operation fails, and without a ratio none does.
pub proof fn lemma_chaos_extremes(options: ChaosOptions, operation: Operation, draw: u32)
    ensures
        rate_for(options.error_sample_ratio_read, options.error_sample_ratio_write, operation)
            == Some(1u32) ==> options.spec_injects_failure(operation, draw),
        rate_for(options.error_sample_ratio_read, options.error_sample_ratio_write, operation)
            is None ==> !options.spec_injects_failure(operation, draw),
        !options.spec_has_chaos() ==> !options.spec_injects_failure(operation, draw),
{
}

} // verus!
