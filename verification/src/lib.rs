pub mod json;
mod random;
pub mod session;
pub mod skill;
pub mod text;
pub mod webhook;
