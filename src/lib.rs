//! Host-side staging caches that batch many small writes of plain data into
//! a few large device buffers, committed at caller-chosen flush points.

pub mod device;
pub mod staging;
pub mod aligned;
pub mod laws;
