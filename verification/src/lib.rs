//! Price comparison engine with a deduplicating membership filter and a
//! prefix index over product names.
//!
//! The library works on plain values: prices are integer cents, ratings are
//! tenths of a star, and names are byte strings. The surrounding program is
//! expected to convert wire formats to these values before calling in.

pub mod compare;
pub mod filter;
pub mod index;
pub mod service;
pub mod text;
