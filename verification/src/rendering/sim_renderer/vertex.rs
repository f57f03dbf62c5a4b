//! The vertex buffer of the simulation renderer: one vertex per cell, in a
//! GPU buffer that grows when the vertices no longer fit.
use vstd::prelude::*;

verus! {

/// Number of vertices the buffer is first made for.
pub const INITIAL_VERTICES: usize = 3_000_000;

/// Whether a buffer of `buffer_bytes` bytes must be replaced by a larger one
/// to hold `count` vertices of `vertex_bytes` bytes each.
pub fn needs_realloc(count: usize, vertex_bytes: usize, buffer_bytes: u64) -> (r: bool)
    requires
        count * vertex_bytes <= usize::MAX,
    ensures
        r == (count * vertex_bytes > buffer_bytes),
{
    let alloc_size = vertex_bytes * count;
    alloc_size as u64 > buffer_bytes
}

} // verus!
