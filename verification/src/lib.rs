//! Translation of declarative mapping documents into executable operator
//! plans: a directed graph of data-transformation operators (source scan,
//! projection, extend, equi-join, serialization, sink), grown through a
//! stage-typed plan builder so that operators can only be attached in valid
//! sequences.

pub mod attrset;
pub mod laws;
pub mod model;
pub mod operators;
pub mod plan;
pub mod rename;
pub mod serializer_util;
pub mod names;
pub mod strmap;
pub mod translate;
