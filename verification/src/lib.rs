//! Runtime reflection over described values, with a JSON codec driven
//! entirely by type descriptors.
//!
//! A [`descriptor::Type`] records the layout and the shape of a type. A
//! [`value::Value`] is what a descriptor lays out: a tree of plain values in
//! place of raw memory, so that every access through a descriptor is
//! checked. Containers are entered through dispatch tables
//! ([`vec::VecVtable`], [`map::HMVtable`], [`set::HSVtable`],
//! [`option::OptionVtable`]); the table of a skipped container creates an
//! empty container and refuses everything else.
//!
//! A view ([`reflections::ValueReflection`]) shows a value under its
//! descriptor, for reading ([`reflections_ref::reflect_ref`]) or for
//! writing ([`reflections_mut::reflect`]). The codec writes a value or a
//! view as text ([`json::encode`], [`json::value_to_json`]) and reads a
//! value back ([`json::from_json`]); [`law`] states what reading back
//! gives.
//!
//! Floating-point numbers are held as their decimal text. A mapping and a
//! set keep their entries in the order of insertion.

pub mod decode;
pub mod descriptor;
pub mod encode;
pub mod error;
pub mod json;
pub mod json_parse;
pub mod json_text;
pub mod law;
pub mod map;
pub mod mirror;
pub mod number;
pub mod option;
pub mod parser;
pub mod reflections;
pub mod reflections_mut;
pub mod reflections_ref;
pub mod round_trip;
pub mod set;
pub mod table;
pub mod text;
pub mod value;
pub mod vec;
