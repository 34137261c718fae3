pub mod adjective;
pub mod catalog;
pub mod conjugation;
pub mod entries;
pub mod index;
pub mod kana;
pub mod paths;
pub mod segment;
pub mod strutil;
