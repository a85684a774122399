pub mod geometry;
pub mod mob;
pub(crate) mod rng;
pub(crate) mod text;
pub mod sampler;
pub mod floor;
pub mod message;
pub mod turn;
