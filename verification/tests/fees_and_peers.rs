use payment_channel::fees::{
    get_est_sat_per_1000_weight, rpc_estimate_smart_fee, ConfirmationTarget, FeeRateEstimate,
};
use payment_channel::peer::{
    message_type, ChannelMessageHandler, HandlerKind, MessageHandler, MessageType,
    OnionMessageHandler, RoutingMessageHandler, TEST_CHANNEL_VALUE_SATOSHIS,
};

#[test]
fn estimate_holds_the_fixed_rates() {
    let rates = rpc_estimate_smart_fee();
    assert_eq!(
        rates,
        FeeRateEstimate {
            target_1_block: 6,
            target_3_block: 5,
            target_6_block: 5,
            target_144_block: 4,
            target_1008_block: 2,
        }
    );
}

#[test]
fn rates_are_scaled_to_1000_weight_units() {
    let rates = rpc_estimate_smart_fee();
    assert_eq!(get_est_sat_per_1000_weight(&rates, ConfirmationTarget::MaximumFeeEstimate), 1500);
    assert_eq!(get_est_sat_per_1000_weight(&rates, ConfirmationTarget::UrgentOnChainSweep), 1500);
    assert_eq!(get_est_sat_per_1000_weight(&rates, ConfirmationTarget::OutputSpendingFee), 1500);
    assert_eq!(get_est_sat_per_1000_weight(&rates, ConfirmationTarget::NonAnchorChannelFee), 1250);
    assert_eq!(get_est_sat_per_1000_weight(&rates, ConfirmationTarget::AnchorChannelFee), 500);
    assert_eq!(get_est_sat_per_1000_weight(&rates, ConfirmationTarget::ChannelCloseMinimum), 500);
    assert_eq!(
        get_est_sat_per_1000_weight(
            &rates,
            ConfirmationTarget::MinAllowedNonAnchorChannelRemoteFee
        ),
        500
    );
    assert_eq!(
        get_est_sat_per_1000_weight(&rates, ConfirmationTarget::MinAllowedAnchorChannelRemoteFee),
        500
    );
}

#[test]
fn each_target_reads_its_own_rate() {
    let rates = FeeRateEstimate {
        target_1_block: 100,
        target_3_block: 80,
        target_6_block: 60,
        target_144_block: 40,
        target_1008_block: 20,
    };
    assert_eq!(get_est_sat_per_1000_weight(&rates, ConfirmationTarget::UrgentOnChainSweep), 25_000);
    assert_eq!(get_est_sat_per_1000_weight(&rates, ConfirmationTarget::NonAnchorChannelFee), 15_000);
    assert_eq!(get_est_sat_per_1000_weight(&rates, ConfirmationTarget::AnchorChannelFee), 5_000);
}

#[test]
fn first_byte_decides_the_message_type() {
    assert_eq!(message_type(&[0x00]), Some(MessageType::OpenChannel));
    assert_eq!(message_type(&[0x01, 0xff]), Some(MessageType::NodeAnnouncement));
    assert_eq!(message_type(&[0x02, 0x00, 0x00]), Some(MessageType::OnionMessage));
    assert_eq!(message_type(&[0x03]), None);
    assert_eq!(message_type(&[0xff, 0x00]), None);
    assert_eq!(message_type(&[]), None);
    assert_eq!(TEST_CHANNEL_VALUE_SATOSHIS, 100_000_000);
}

#[test]
fn each_message_type_has_its_handler() {
    let handler = MessageHandler::new();
    assert_eq!(handler.channel_message_handler, ChannelMessageHandler {});
    assert_eq!(handler.route_message_handler, RoutingMessageHandler {});
    assert_eq!(handler.onion_message_handler, OnionMessageHandler {});
    assert_eq!(handler.handler_for(MessageType::OpenChannel), HandlerKind::Channel);
    assert_eq!(handler.handler_for(MessageType::NodeAnnouncement), HandlerKind::Routing);
    assert_eq!(handler.handler_for(MessageType::OnionMessage), HandlerKind::Onion);
}
