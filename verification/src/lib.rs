//! Settlement of cross-chain token swaps: the Dutch-auction price of an
//! order, the split of what a taker pays into fees and the maker's share, the
//! premium for cancelling an expired order, the escrow that holds an order's
//! source amount, and the hash-time-lock escrow that releases the
//! destination amount for a secret or returns it after expiry.

pub mod auction;
pub mod constants;
pub mod encoding;
pub mod error;
pub mod escrow;
pub mod hashing;
pub mod math;
pub mod order;
pub mod pricing;
pub mod stellar;
pub mod transfer;
