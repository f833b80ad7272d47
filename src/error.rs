use vstd::prelude::*;

verus! {

/// Why an operation of the node or of one of its registries was refused.
#[derive(Debug, Clone, Copy, PartialEq, Eq, Structural)]
pub enum NodeError {
    /// A construction setting is missing its meaning or out of range.
    InvalidConfig,
    /// The text is not a well-formed multiaddress.
    InvalidAddress,
    /// A part of an address under construction is malformed or missing.
    InvalidComponent,
    /// The text is not a well-formed peer identifier.
    InvalidPeerId,
    /// The transport refused to listen on the address.
    BindFailure,
    /// The transport refused to dial the address.
    DialFailure,
    /// The publish/subscribe layer refused the message.
    PublishFailure,
    /// The publish/subscribe layer refused the subscription.
    SubscribeFailure,
    /// The topic was not subscribed.
    NotSubscribed,
    /// The hash table could not start the operation.
    DhtFailure,
    /// A scheduler is already running.
    AlreadyRunning,
    /// A scheduler still owns the engine.
    EngineBusy,
    /// No engine is present where one was expected.
    EngineUnavailable,
    /// No entry is registered under the given name.
    NotFound,
    /// A key or signature operation failed.
    KeyFailure,
}

} // verus!
