pub mod butterboard;
pub mod meboard;
