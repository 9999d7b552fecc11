//! Shared memory buffers that are passed between peers by handle.
//!
//! - [`var_slot_pool`] is the pool of slots that the buffers live in; [`layout`] sizes it.
//! - [`shm_bytes`] is the buffer type, its wire form and its errors.
//! - [`reflect`] finds the buffers inside larger values, which [`facet_view`] reads by reflection.
//! - [`transfer`] sends and receives all buffers of a value.
//! - [`laws`] states what holds across operations, [`pool_laws`] what each operation does to the
//!   slots of a pool, and [`walk_laws`] what is found in a value.

pub mod facet_view;
pub mod laws;
pub mod layout;
pub mod pool_laws;
pub mod reflect;
pub mod shm_bytes;
pub mod transfer;
pub mod var_slot_pool;
pub mod walk_laws;
