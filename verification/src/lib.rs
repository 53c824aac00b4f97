//! Encoding of JavaScript syntax trees into the labelled trees and token
//! streams of the BinJS binary format.

pub mod kind;
pub mod tree;
pub mod js;
pub mod serialize;
pub mod json;
pub mod grammar;
pub mod token;
pub mod encode;
pub mod encode_laws;
pub mod tree_writer;
