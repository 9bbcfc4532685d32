pub mod card;
pub mod channel;
pub mod session;
pub mod text;
