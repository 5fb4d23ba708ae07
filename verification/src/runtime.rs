//! How the chain that hosts the ledger names and versions itself.

use vstd::prelude::*;

verus! {

/// A number of blocks.
pub type BlockNumber = u32;

/// An amount of the chain's currency, in its smallest unit.
pub type Balance = u128;

/// The average time between two blocks, in milliseconds.
pub const MILLISECS_PER_BLOCK: u64 = 12000;

/// The length of a slot for block production, in milliseconds. It cannot
/// change once the chain has started.
pub const SLOT_DURATION: u64 = MILLISECS_PER_BLOCK;

/// The blocks of a minute.
pub const MINUTES: BlockNumber = 60_000 / (MILLISECS_PER_BLOCK as BlockNumber);

/// The blocks of an hour.
pub const HOURS: BlockNumber = MINUTES * 60;

/// The blocks of a day.
pub const DAYS: BlockNumber = HOURS * 24;

/// One unit of the currency.
pub const UNIT: Balance = 1_000_000_000_000;

/// A thousandth of a unit.
pub const MILLIUNIT: Balance = 1_000_000_000;

/// A millionth of a unit.
pub const MICROUNIT: Balance = 1_000_000;

/// The least balance an account can hold.
pub const EXISTENTIAL_DEPOSIT: Balance = MILLIUNIT;

/// The reference time that one second of computation stands for.
pub const WEIGHT_REF_TIME_PER_SECOND: u64 = 1_000_000_000_000;

/// The reference time of the heaviest block: half a second of computation
/// at a block time of twelve seconds.
pub const MAXIMUM_BLOCK_REF_TIME: u64 = WEIGHT_REF_TIME_PER_SECOND / 2;

/// The share of a block's weight that its initialisation is expected to
/// use, in parts per billion: 5 percent.
pub const AVERAGE_ON_INITIALIZE_RATIO: u32 = 50_000_000;

/// The share of a block that ordinary calls may fill, in parts per billion:
/// 75 percent. The rest is left to operational calls.
pub const NORMAL_DISPATCH_RATIO: u32 = 750_000_000;

/// Name and version numbers of a runtime.
#[derive(Clone, Copy, PartialEq, Eq, Debug)]
pub struct RuntimeVersion {
    pub spec_name: &'static str,
    pub impl_name: &'static str,
    pub authoring_version: u32,
    pub spec_version: u32,
    pub impl_version: u32,
    pub transaction_version: u32,
    pub state_version: u8,
}

/// The version of this runtime.
pub fn version() -> (v: RuntimeVersion)
    ensures
        v.spec_name@ == "keiko"@,
        v.impl_name@ == "keiko"@,
        v.authoring_version == 1,
        v.spec_version == 1,
        v.impl_version == 0,
        v.transaction_version == 1,
        v.state_version == 1,
{
    RuntimeVersion {
        spec_name: "keiko",
        impl_name: "keiko",
        authoring_version: 1,
        spec_version: 1,
        impl_version: 0,
        transaction_version: 1,
        state_version: 1,
    }
}

} // verus!
