//! Three models of state side by side.
//!
//! An [`ordinary::OrdinaryVariable`] holds a value that is fixed the moment it
//! is stored. A [`random::RandomBool`] holds only the probability of being true
//! and takes a value when it is first read; reading it is irreversible. A
//! [`joint::JointState`] holds one distribution for several boolean variables,
//! so that reading one of them tells about the others without deciding them.
//!
//! Probabilities and draws of a random boolean are binary64 numbers, which the
//! library holds as bit patterns: see [`binary64`].

pub mod binary64;
pub mod joint;
pub mod ordinary;
pub mod random;
mod rng;
