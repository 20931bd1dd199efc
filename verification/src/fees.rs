//! Fee rates by confirmation target.

use vstd::prelude::*;

verus! {

/// Fee rates in satoshis per virtual byte, by the number of blocks within
/// which a transaction should confirm.
#[derive(Clone, Copy, Debug, PartialEq, Eq)]
pub struct FeeRateEstimate {
    pub target_1_block: u32,
    pub target_3_block: u32,
    pub target_6_block: u32,
    pub target_144_block: u32,
    pub target_1008_block: u32,
}

/// What a fee rate is asked for.
#[derive(Clone, Copy, Debug, PartialEq, Eq, Structural)]
pub enum ConfirmationTarget {
    MaximumFeeEstimate,
    UrgentOnChainSweep,
    MinAllowedAnchorChannelRemoteFee,
    MinAllowedNonAnchorChannelRemoteFee,
    AnchorChannelFee,
    NonAnchorChannelFee,
    ChannelCloseMinimum,
    OutputSpendingFee,
}

/// A virtual byte weighs four units: a rate per virtual byte times 250 is
/// the rate per 1000 weight units.
pub const SAT_PER_KW_FACTOR: u32 = 250;

/// The rate of `fee_rates` that answers `confirmation_target`: what is
/// urgent confirms in the next block, an ordinary channel within six, what
/// can wait within 1008.
pub open spec fn rate_for(fee_rates: FeeRateEstimate, confirmation_target: ConfirmationTarget) -> u32 {
    match confirmation_target {
        ConfirmationTarget::MaximumFeeEstimate => fee_rates.target_1_block,
        ConfirmationTarget::UrgentOnChainSweep => fee_rates.target_1_block,
        ConfirmationTarget::OutputSpendingFee => fee_rates.target_1_block,
        ConfirmationTarget::NonAnchorChannelFee => fee_rates.target_6_block,
        ConfirmationTarget::AnchorChannelFee => fee_rates.target_1008_block,
        ConfirmationTarget::ChannelCloseMinimum => fee_rates.target_1008_block,
        ConfirmationTarget::MinAllowedNonAnchorChannelRemoteFee => fee_rates.target_1008_block,
        ConfirmationTarget::MinAllowedAnchorChannelRemoteFee => fee_rates.target_1008_block,
    }
}

/// The rates that stand in for a node's estimate.
pub fn rpc_estimate_smart_fee() -> (fee_rates: FeeRateEstimate)
    ensures
        fee_rates == (FeeRateEstimate {
            target_1_block: 6,
            target_3_block: 5,
            target_6_block: 5,
            target_144_block: 4,
            target_1008_block: 2,
        }),
{
    FeeRateEstimate {
        target_1_block: 6,
        target_3_block: 5,
        target_6_block: 5,
        target_144_block: 4,
        target_1008_block: 2,
    }
}

/// The fee rate for `confirmation_target` in satoshis per 1000 weight units.
pub fn get_est_sat_per_1000_weight(
    fee_rates: &FeeRateEstimate,
    confirmation_target: ConfirmationTarget,
) -> (rate: u32)
    requires
        rate_for(*fee_rates, confirmation_target) * SAT_PER_KW_FACTOR <= u32::MAX,
    ensures
        rate == rate_for(*fee_rates, confirmation_target) * SAT_PER_KW_FACTOR,
{
    match confirmation_target {
        ConfirmationTarget::MaximumFeeEstimate => fee_rates.target_1_block * SAT_PER_KW_FACTOR,
        ConfirmationTarget::UrgentOnChainSweep => fee_rates.target_1_block * SAT_PER_KW_FACTOR,
        ConfirmationTarget::OutputSpendingFee => fee_rates.target_1_block * SAT_PER_KW_FACTOR,
        ConfirmationTarget::NonAnchorChannelFee => fee_rates.target_6_block * SAT_PER_KW_FACTOR,
        ConfirmationTarget::AnchorChannelFee => fee_rates.target_1008_block * SAT_PER_KW_FACTOR,
        ConfirmationTarget::ChannelCloseMinimum => fee_rates.target_1008_block
            * SAT_PER_KW_FACTOR,
        ConfirmationTarget::MinAllowedNonAnchorChannelRemoteFee => fee_rates.target_1008_block
            * SAT_PER_KW_FACTOR,
        ConfirmationTarget::MinAllowedAnchorChannelRemoteFee => fee_rates.target_1008_block
            * SAT_PER_KW_FACTOR,
    }
}

} // verus!
