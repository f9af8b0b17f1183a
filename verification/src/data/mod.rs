pub mod units;
pub mod strings;
pub mod level_special;
pub mod font;
pub mod reader;
pub mod animation;
pub mod objects;
pub mod level;
