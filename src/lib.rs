//! Log collection: producer registration, size-bounded rotating storage and
//! a windowed view over the rotated and live log segments.
pub mod auth;
pub mod clients;
pub mod logger;
pub mod rotation;
pub mod segments;
pub mod text;
pub mod window;
pub mod writer;
