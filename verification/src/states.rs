//! Persisted state records.

pub mod bitmap;
pub mod fee;
pub mod pool;
pub mod tick_bitmap;
pub mod tick_bitmap_laws;
