pub mod action;
pub mod battle;
pub mod chance;
pub mod character;
pub mod common;
pub mod condition;
pub mod effect;
pub mod encyclopedia;
pub mod error;
pub mod formula;
pub mod item;
pub mod map;
pub mod party;
pub mod scene;
pub mod sprite;
pub mod stats;
pub mod table;
pub mod text;
