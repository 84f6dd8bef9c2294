//! Core of a boundary layer that lets a managed host drive an embedded
//! columnar engine through a flat call surface.
//!
//! The engine itself is an external collaborator; what is verified here is
//! the machinery of the handoff:
//!
//! * an ownership protocol for opaque handles ([`handle`]),
//! * a fault barrier and a per-thread error channel ([`error_slot`], [`barrier`]),
//! * a columnar interchange bridge that moves tables as flat array/schema
//!   record pairs ([`column`], [`bridge`]),
//! * a host-callback protocol with an exactly-once cleanup guarantee
//!   ([`callback`]),
//! * exact-fit scalar extraction and text rendering at the data-access
//!   edge ([`extract`], [`render`]),
//! * the small code maps of the call surface ([`codes`]).

pub mod barrier;
pub mod bridge;
pub mod callback;
pub mod codes;
pub mod column;
pub mod error_slot;
pub mod extract;
pub mod handle;
pub mod render;
