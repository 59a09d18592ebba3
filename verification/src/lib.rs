//! Transport core of a peer-to-peer overlay mesh.
//!
//! The crate gathers the verified logic of the mesh node: the link-health
//! monitor that paces keep-alive pings and publishes a smoothed round-trip
//! time, the handle-proxy transfer protocol that collapses multi-hop
//! forwarding chains, and the state machines of the serial link adapter
//! that frames a raw byte stream into link frames.  A few smaller services
//! of the node (fuzzer option handling, an in-memory file system, socket
//! files and assorted protocol types) live beside them.

pub mod basemgr;
pub mod child_view;
pub mod errno;
pub mod kms;
pub mod options;
pub mod ping_tracker;
pub mod proxy;
pub mod serial_link;
pub mod socket_file;
pub mod style;
pub mod tmpfs;
pub mod text;
