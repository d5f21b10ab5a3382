//! Verified core of a Flash player: the SWF tag stream, movie clip
//! timelines and display lists, shape outlines and their conversion into
//! drawing paths, bitmap decoding, sound stream preloading, AVM1 value
//! comparisons, AVM2 class metadata and vector storage, and the CSS engine
//! of the HTML text renderer.

#![allow(unused_imports)]

pub mod audio;
pub mod avm1;
pub mod avm2;
pub mod bitmap;
pub mod css;
pub mod display_object;
pub mod font;
pub mod html;
pub mod shape_utils;
pub mod tag_decoder;
