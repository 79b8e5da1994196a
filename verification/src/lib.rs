//! Typed data model and codec for a robot/world simulation description
//! format: an element/attribute markup language describing simulated worlds,
//! models, links, joints and plugins. Decoding maps the textual form into
//! strongly typed structures, applying each field's default policy; encoding
//! writes them back out, round-trip stable (see `laws`).
//!
//! - `model` holds the typed tree and its mathematical images;
//! - `elem` a generic element tree, the codec's intermediate shape;
//! - `decode` the mapping element tree to document, with its error taxonomy;
//! - `encode` the mapping document to element tree;
//! - `num` the boolean and decimal field texts;
//! - `text` the writer from element trees to text;
//! - `xmlio` the pull parser boundary and the reader from text;
//! - `laws` the proved laws, the round-trip law above all.

pub mod decode;
pub mod elem;
pub mod encode;
pub mod laws;
pub mod model;
pub mod num;
pub mod text;
pub mod xmlio;
