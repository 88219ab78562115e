//! Building blocks for assembling a swap against a liquidity-book pool:
//! decoding of account records, derivation of auxiliary addresses, location
//! of the bin arrays an order will cross, and composition of the final
//! instruction list.

pub mod address;
pub mod bytes;
pub mod clock;
pub mod composer;
pub mod decode;
pub mod instruction;
pub mod layout;
pub mod locator;
pub mod pipeline;
pub mod state;
