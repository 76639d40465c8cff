pub mod account;
pub mod chatroom;
pub mod world;
