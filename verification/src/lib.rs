//! Streams that arrive as Ethernet frames, below IP. One frame is one
//! Stream: up to the MTU under Xmip's own `EtherType`, the addresses beside it.
//!
//! Most of the plant floor never reaches IP. `EtherCAT`, PROFINET's real-time
//! classes, GOOSE between protection relays — each is a Layer 2 protocol
//! with its own `EtherType`, and each needs the same thing: a frame put on a
//! wire and the frames that come back. This transport is that frame
//! ([`Frame`]) and that wire ([`Link`]), and a transport over both
//! ([`EthernetTransport`]) that carries a Stream under [`XMIP_ETHERTYPE`];
//! the protocols above reuse the frame and the link rather than knowing a
//! wire of their own.
//!
//! [`Loopback`] is an in-process wire that every test and every box drives.
//! The deployment route is the operating system's raw socket — `AF_PACKET` on
//! Linux, a BPF device on the BSDs and macOS, Npcap on Windows — which needs
//! a privilege; a node with the privilege implements [`Link`] over it and
//! everything above is unchanged. A raw socket pads a short payload to
//! [`MIN_PAYLOAD`] and the protocol above knows its own length; the
//! in-process link does not, and a Stream shorter than that comes back
//! whole.
//!
//! The origin URI carries what the header knew:
//! `ethernet://<link>/<source mac>?type=0x88b5`.
//!
//! What the functions return is stated in their contracts, over the models
//! [`FrameModel`](frame::FrameModel), [`Fault`](error::Fault) and
//! [`TransportModel`](transport::TransportModel); what holds of them together
//! is proved in [`laws`], [`laws_text`], [`laws_frame`] and
//! [`laws_transport`].

pub mod error;
pub mod frame;
pub mod laws;
pub mod laws_frame;
pub mod laws_text;
pub mod laws_transport;
pub mod link;
pub mod mac;
pub mod text;
pub mod transport;

pub use error::TransportError;
pub use frame::{Frame, JUMBO_MTU, MIN_PAYLOAD, MTU, XMIP_ETHERTYPE};
pub use link::{Link, Loopback};
pub use mac::Mac;
pub use transport::{Arrived, EthernetTransport};
