//! Datamoshing remux engine.
//!
//! The library plans and checks the sample reordering that produces the
//! datamosh glitch: for each track of a media container it computes a split
//! index from a tunable fraction, keeps the samples before the split in their
//! original order, and emits the remaining samples in a random permutation.
//! It also models the container and track metadata that a remux must carry
//! over unchanged, and the translation of a source track's raw description
//! into the destination track's settings.
//!
//! Each track is planned independently: the shuffled regions of two tracks
//! are drawn from separate random permutations, so audio and video fall out
//! of step inside the shuffled region. That is a documented property of the
//! effect, not an accident.

pub mod meta;
pub mod plan;
mod shuffle;
