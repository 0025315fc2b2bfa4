//! A command/response protocol engine for AT-command-driven serial devices.
//!
//! The crate centres on the command/response correlation problem: commands are
//! serialized to the textual AT wire format and written to a transport, while
//! reply bytes arrive asynchronously on a raw byte stream with no framing. An
//! ingress-side classifier turns completed lines into solicited responses,
//! device errors, or unsolicited notifications (URCs), and bounded FIFO
//! channels carry the classified entries to the user-facing client state
//! machine, which correlates each terminal reply with the command that caused
//! it. All buffers and channels have fixed capacities.

use vstd::prelude::*;

mod client;
mod codec;
mod ingress;
mod commands;
mod error;
mod lengths;
mod mock;
mod queues;
mod responses;
mod traits;
mod urc;

pub use client::COM_CAPACITY;
pub use client::Client;
pub use client::ClientState;
pub use client::Config;
pub use client::Mode;
pub use client::RES_CAPACITY;
pub use client::URC_CAPACITY;
pub use ingress::BUF_CAPACITY;
pub use ingress::IngressItem;
pub use ingress::IngressItemView;
pub use ingress::IngressManager;
pub use ingress::IngressModel;
pub use ingress::IngressState;
pub use lengths::MixedEnumValue;
pub use mock::MockSerial;
pub use mock::MockTimer;

pub use lengths::LengthTester;
pub use lengths::MixedEnum;
pub use lengths::SimpleEnum;
pub use lengths::SimpleEnumU32;
pub use urc::MessageWaitingIndication;
pub use urc::Urc;
pub use urc::umwi_prefix_bytes;
pub use commands::TestRespStringCmd;
pub use commands::TestRespStringMixCmd;
pub use commands::TestRespVecCmd;

pub use commands::At;
pub use commands::AtNoReply;
pub use commands::ErrorTester;
pub use commands::Functionality;
pub use commands::InnerError;
pub use commands::ResetMode;
pub use commands::SetModuleFunctionality;
pub use commands::Test2Cmd;
pub use responses::NoResponse;
pub use responses::SocketDataValue;
pub use responses::TestResponseString;
pub use responses::TestResponseStringMixed;
pub use responses::TestResponseVec;
pub use responses::encode_socket_data;
pub use responses::encode_socket_data_mixed;

pub use traits::AtatCmd;
pub use traits::AtatLen;
pub use traits::AtatResp;
pub use traits::AtatUrc;

pub use error::Error;
pub use error::GenericError;
pub use error::InternalError;
pub use error::InternalErrorView;
pub use error::NbError;
pub use queues::BoundedQueue;
pub use traits::Timer;
pub use traits::Transport;

verus! {

/// A control directive sent from the client to the ingress manager over the
/// control channel.
#[derive(Clone, Copy, Debug, PartialEq, Eq, Structural)]
pub enum Command {
    /// Discard all in-flight parse state and return to idle classification.
    Reset,
    /// Enter the receiving-response state even though no command write has
    /// been observed, so that a command can preempt lingering partial input.
    ForceReceiveState,
}

} // verus!
