//! Core of a mining node: wire framing of the upstream protocol, the fabric
//! that hands work engines to mining backends, and the dispatcher of the
//! monitoring and control commands.

pub mod command;
pub mod framing;
pub mod json;
pub mod response;
pub mod work;
