//! Zero-copy geometry model for a binary 3D-mesh container format.
//!
//! A raw byte buffer is wrapped in bounds-checked views, reinterpreted as
//! strided sequences of fixed-width scalar elements, and described by a
//! vertex-layout vocabulary.  A one-pass importer parses the container's
//! bit-packed attribute declarations and slices vertex and index payloads
//! out of the original buffer without copying them.

pub mod asset;
pub mod buffer;
pub mod half;
pub mod importer;
pub mod index;
pub mod mesh;
pub mod omni;
pub mod resource;
pub mod sof;
pub mod typed_view;
pub mod untyped_view;
pub mod vertex;
