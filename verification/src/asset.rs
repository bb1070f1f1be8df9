//! The importer's output aggregate: the shared buffers a file was read
//! into, and the objects parsed out of it.

use crate::buffer::Buffer;
use crate::mesh::Mesh;
use std::sync::Arc;
use vstd::prelude::*;

verus! {

/// One parsed object.
#[derive(Debug, Clone)]
pub enum Object {
    Mesh(Mesh),
}

/// Everything one container file yields: the byte buffers the objects'
/// views borrow from, and the objects themselves.
#[derive(Debug, Clone)]
pub struct Asset {
    pub buffers: Vec<Arc<Buffer>>,
    pub objects: Vec<Object>,
}

} // verus!
