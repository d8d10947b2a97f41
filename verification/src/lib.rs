//! Command and session layer of a SIP-style video-surveillance control plane.
//!
//! The crate correlates outgoing requests with their replies through an
//! explicit [`table::CorrelationTable`], interprets the replies of bounded-wait
//! commands, and drives the INVITE negotiation that sets up a media session.
//! Building requests, moving bytes over the network and waiting on timers are
//! left to the caller; everything here is a function from plain values to
//! plain values with a machine-checked contract.
//!
//! - [`ident`]: the key of an exchange.
//! - [`table`]: the registry of pending waiters.
//! - [`sip`]: replies and deliveries as the commands read them.
//! - [`text`] and [`sdp`]: payload mappings and the codec table.
//! - [`cmd`]: the commands and the negotiation.
//! - [`error`]: the failures.
//! - [`laws`]: what holds of all of these together.

pub mod cmd;
pub mod error;
pub mod ident;
pub mod laws;
pub mod sdp;
pub mod sip;
pub mod table;
pub mod text;
