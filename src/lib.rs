//! Decoding of bit-packed talent loadout strings against a catalog of trait trees.

pub mod version;
pub mod talent_encoding;
pub mod bit_reader;
pub mod trait_tree;
pub mod talent_configuration;
pub mod theorems;
pub mod layout;
