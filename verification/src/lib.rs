//! Two hand-built sequence containers over owned backing storage.
//!
//! [`ring::RingBuf`] is a fixed-capacity circular FIFO queue: logical
//! positions wrap modulo the capacity, and a push into a full queue is
//! rejected rather than overwriting a live element.
//!
//! [`deque::Deque`] is a growable double-ended queue: the live elements
//! occupy a contiguous range of the backing block, and when an insertion
//! at either end runs out of headroom the block is doubled and the live
//! range re-centered so both ends regain room.

pub mod deque;
pub mod ring;
