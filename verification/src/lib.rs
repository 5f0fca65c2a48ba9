pub mod colour;
pub mod gradient;
pub mod hint;
pub mod keys;
pub mod message;
pub mod rng;
pub mod session;
pub mod settings;
pub mod shake;
pub mod timer;
pub mod wordle;
pub mod words;
