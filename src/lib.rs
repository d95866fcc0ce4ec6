pub mod characters;
pub mod constants;
pub mod cursor;
pub mod device;
pub mod lemmas;
pub mod screen;
pub mod terminal;
