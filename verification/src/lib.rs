//! A client of the CMake file API: the requests that ask CMake for a
//! description of a build, and the reply in which CMake gives it.
//!
//! CMake answers in files. Below the build directory, a reply directory
//! holds an index document, which lists the objects of the reply, and one
//! document per object. The build model refers, by path and by position, to
//! further documents, one per directory and one per target.
//!
//! This crate holds the decisions and none of the input and output. The
//! caller lists the reply directory and reads the files that the crate
//! names; the crate decides which file is the index ([`reply::index_file`]),
//! reads documents strictly ([`decode`]), finds an object in the catalog
//! ([`reply::Reader`]) and resolves the references of the build model, one
//! document at a time and each at the position of its reference
//! ([`reply::Loading`]). For a query, it says which files are to be written
//! with what content ([`query::Writer`]).
//!
//! JSON texts are parsed and written by `serde_json`, and command lines are
//! cut into words by `shlex`. What these crates do is taken on trust where
//! they are called, in [`json`] and in [`objects::codemodel_v2::target`];
//! everything in between is proved against the trees that [`json::Json`]
//! describes.

pub mod decode;
pub mod index;
pub mod json;
pub mod objects;
pub mod query;
pub mod reply;
pub mod search;
pub mod text;
