//! An early-boot memory allocator over one contiguous region.
//!
//! Byte allocations grow forward from the low end of the region, page
//! allocations grow backward from the high end, and the two fronts never
//! cross:
//!
//! ```text
//! [ bytes-used | avail-area | pages-used ]
//! |            | -->    <-- |            |
//! start       b_pos        p_pos       end
//! ```
//!
//! The byte side counts its outstanding allocations and reclaims all of its
//! space at once when that count returns to zero. Pages are never reclaimed.
//!
//! [`EarlyAllocator`] offers its lifecycle, its byte side and its page side
//! through three traits, [`BaseAllocator`], [`ByteAllocator`] and
//! [`PageAllocator`], so that a caller can depend on just the part it uses.
pub mod early;
pub mod laws;

pub use early::{
    AllocError, AllocState, BaseAllocator, ByteAllocator, EarlyAllocator, PageAllocator,
};
