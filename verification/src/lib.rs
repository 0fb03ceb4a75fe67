pub mod fixed;
pub mod collision;
pub mod map;
pub mod input;
pub mod player;
