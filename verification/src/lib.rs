//! Decision logic of a micro-VM manager: network resource allocation, image
//! references and manifests, chunked artifact transport, and the plans that
//! the host-side driver carries out when it creates, starts and snapshots VMs.

pub mod chunking;
pub mod config;
pub mod error;
pub mod image;
pub mod network;
pub mod plan;
pub mod strmap;
pub mod text;
pub mod util;
pub mod vm;
