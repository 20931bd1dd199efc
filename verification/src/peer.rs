//! The messages of a peer and the handlers that take them.

use vstd::prelude::*;

verus! {

/// The kinds of message that a peer sends.
#[derive(Clone, Copy, Debug, PartialEq, Eq, Structural)]
pub enum MessageType {
    OpenChannel,
    NodeAnnouncement,
    OnionMessage,
}

/// The amount that an `open_channel` message of a test peer proposes.
pub const TEST_CHANNEL_VALUE_SATOSHIS: u64 = 100_000_000;

/// The kind of message that the first byte `tag` announces.
pub open spec fn type_of_tag(tag: u8) -> Option<MessageType> {
    if tag == 0x00 {
        Some(MessageType::OpenChannel)
    } else if tag == 0x01 {
        Some(MessageType::NodeAnnouncement)
    } else if tag == 0x02 {
        Some(MessageType::OnionMessage)
    } else {
        None
    }
}

/// The kind of the message `data`, which its first byte decides; `None` for
/// an empty message and for an unknown first byte.
pub fn message_type(data: &[u8]) -> (kind: Option<MessageType>)
    ensures
        kind == (if data@.len() == 0 {
            None
        } else {
            type_of_tag(data@[0])
        }),
{
    if data.len() == 0 {
        return None;
    }
    let tag: u8 = data[0];
    if tag == 0x00 {
        Some(MessageType::OpenChannel)
    } else if tag == 0x01 {
        Some(MessageType::NodeAnnouncement)
    } else if tag == 0x02 {
        Some(MessageType::OnionMessage)
    } else {
        None
    }
}

/// Takes the messages that open and fund a channel.
#[derive(Clone, Copy, Debug, PartialEq, Eq)]
pub struct ChannelMessageHandler {}

/// Takes the announcements of nodes and channels.
#[derive(Clone, Copy, Debug, PartialEq, Eq)]
pub struct RoutingMessageHandler {}

/// Takes onion messages.
#[derive(Clone, Copy, Debug, PartialEq, Eq)]
pub struct OnionMessageHandler {}

/// The handlers of a peer manager, one for each family of messages.
#[derive(Clone, Copy, Debug, PartialEq, Eq)]
pub struct MessageHandler {
    pub channel_message_handler: ChannelMessageHandler,
    pub route_message_handler: RoutingMessageHandler,
    pub onion_message_handler: OnionMessageHandler,
}

/// The families of messages, by the handler that takes them.
#[derive(Clone, Copy, Debug, PartialEq, Eq, Structural)]
pub enum HandlerKind {
    Channel,
    Routing,
    Onion,
}

impl MessageHandler {
    /// The three handlers.
    pub fn new() -> (handler: MessageHandler)
        ensures
            handler == (MessageHandler {
                channel_message_handler: ChannelMessageHandler {  },
                route_message_handler: RoutingMessageHandler {  },
                onion_message_handler: OnionMessageHandler {  },
            }),
    {
        MessageHandler {
            channel_message_handler: ChannelMessageHandler {  },
            route_message_handler: RoutingMessageHandler {  },
            onion_message_handler: OnionMessageHandler {  },
        }
    }

    /// The handler that takes messages of the kind `kind`.
    pub fn handler_for(&self, kind: MessageType) -> (handler: HandlerKind)
        ensures
            handler == (match kind {
                MessageType::OpenChannel => HandlerKind::Channel,
                MessageType::NodeAnnouncement => HandlerKind::Routing,
                MessageType::OnionMessage => HandlerKind::Onion,
            }),
    {
        match kind {
            MessageType::OpenChannel => HandlerKind::Channel,
            MessageType::NodeAnnouncement => HandlerKind::Routing,
            MessageType::OnionMessage => HandlerKind::Onion,
        }
    }
}

} // verus!
