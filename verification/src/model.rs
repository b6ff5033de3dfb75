//! Upload-ready model data: raw vertex and index byte streams plus the
//! attribute layout that tells the renderer how to read them.

use vstd::prelude::*;

verus! {

/// The scalar type of a vertex attribute.
#[derive(Clone, Copy, Debug, PartialEq, Eq)]
pub enum AttributeType {
    Short,
    Float,
}

/// A per-vertex varying attribute: where it sits inside each vertex record.
#[derive(Clone, Copy, Debug, PartialEq, Eq)]
pub struct VaryingAttribute {
    pub dimension: u32,
    pub data_type: AttributeType,
    pub offset: u32,
}

/// One attribute slot: either a per-vertex stream or one shared constant.
#[derive(Clone, Copy, Debug, PartialEq, Eq)]
pub enum Attribute {
    Varying(VaryingAttribute),
    Short2((i16, i16)),
    Short3((i16, i16, i16)),
}

/// A decoded model, ready to hand to the rendering collaborator: the raw
/// vertex and index bytes, the attribute slot map, and the vertex stride.
#[derive(Clone, Debug, PartialEq)]
pub struct Model {
    pub vertex_data: Vec<u8>,
    pub index_data: Vec<u8>,
    pub attribute_map: Vec<(u32, Attribute)>,
    pub stride: u32,
}

impl Model {
    /// Packs the given byte streams and layout, unmodified.
    pub fn new(vertex: &[u8], index: &[u8], attribute_map: Vec<(u32, Attribute)>, stride: u32) -> (r:
        Model)
        ensures
            r.vertex_data@ == vertex@,
            r.index_data@ == index@,
            r.attribute_map == attribute_map,
            r.stride == stride,
    {
        Model {
            vertex_data: vstd::slice::slice_to_vec(vertex),
            index_data: vstd::slice::slice_to_vec(index),
            attribute_map,
            stride,
        }
    }

    /// The number of index entries.
    pub fn len(&self) -> (r: usize)
        ensures
            r == self.index_data@.len(),
    {
        self.index_data.len()
    }
}

} // verus!
