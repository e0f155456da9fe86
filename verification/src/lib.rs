//! A discrete-time simulator of a single elevator car.
//!
//! The car serves floor-to-floor travel requests under a replaceable
//! direction policy. [`model`] holds the mathematical state machine and
//! [`laws`] what is proved of it. [`elevator`] is the executable engine, which
//! carries out the transitions of the model. [`strategies`] holds the
//! policies, [`simulations`] the workload of a block of flats, [`score`] the
//! measure by which runs are compared, and [`render`] a picture of the engine
//! in text.

pub mod elevator;
pub mod laws;
pub mod model;
pub mod render;
pub mod score;
pub mod seqs;
pub mod simulations;
pub mod strategies;
