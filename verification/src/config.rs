//! Batching semantics: the configuration handed in and the part of it that a worker reads.
use vstd::prelude::*;

verus! {

/// A `u64` that is not zero.
#[derive(Debug, Clone, Copy)]
pub struct NonZeroU64 {
    value: u64,
}

impl NonZeroU64 {
    #[verifier::type_invariant]
    spec fn not_zero(self) -> bool {
        self.value != 0
    }

    /// The number held.
    pub closed spec fn value(&self) -> u64 {
        self.value
    }

    /// Holds `value`, or nothing where `value` is zero.
    pub fn new(value: u64) -> (number: Option<NonZeroU64>)
        ensures
            number is None <==> value == 0,
            number matches Some(n) ==> n.value() == value,
    {
        if value == 0 {
            None
        } else {
            Some(NonZeroU64 { value })
        }
    }

    /// The number held, which is never zero.
    pub fn get(&self) -> (value: u64)
        ensures
            value == self.value(),
            value > 0,
    {
        proof {
            use_type_invariant(*self);
        }
        self.value
    }
}

/// Config that defines the batching semantics. An inference batch fires at the first occurrence of
/// either the batch size being reached or the timeout.
///
/// Batch size is defined per worker in the pool. Multiple pool workers may be beneficial when the
/// machine has multiple devices, to maximize utilization.
///
/// Pool size defines the number of workers that inference requests are distributed across.
#[derive(Debug, Clone, Copy)]
pub struct BatcherConfig {
    /// Timeout defined in milliseconds.
    pub batch_timeout: NonZeroU64,
    /// Batch size per inference run.
    pub batch_size: NonZeroU64,
    /// The number of workers defined in the pool.
    pub pool_size: NonZeroU64,
}

/// The part of a [`BatcherConfig`] that every worker carries.
#[derive(Debug, Clone, Copy)]
pub struct InnerConfig {
    /// Batch timeout in milliseconds.
    pub timeout: u64,
    /// Batch size.
    pub size: u64,
}

impl From<BatcherConfig> for InnerConfig {
    fn from(conf: BatcherConfig) -> (inner: InnerConfig) {
        InnerConfig { timeout: conf.batch_timeout.get(), size: conf.batch_size.get() }
    }
}

impl vstd::std_specs::convert::FromSpecImpl<BatcherConfig> for InnerConfig {
    open spec fn obeys_from_spec() -> bool {
        true
    }

    open spec fn from_spec(conf: BatcherConfig) -> InnerConfig {
        InnerConfig { timeout: conf.batch_timeout.value(), size: conf.batch_size.value() }
    }
}

} // verus!
