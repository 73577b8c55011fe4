//! Generation of 128-bit identifiers in six standard variants: time-based
//! (1 and its sortable reordering 6), name-based by hashing (3 and 5),
//! fully random (4), and Unix-millisecond sortable (7). Every variant
//! returns the canonical 36-character hyphenated lowercase text.

pub mod canonical;
pub mod ops;
pub mod upstream;
