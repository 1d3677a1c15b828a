//! The plain decisions around linking shader programs: which loaded shaders a
//! program refers to, and the blank buffer a driver writes an info log into.

use vstd::prelude::*;
use crate::assets::ShaderProgramAsset;
use crate::ids::{lookup, AssetError, IdLookupTable};

verus! {

/// The position, among `count` loaded assets, that `table` gives `id`, where it
/// gives one within range.
pub open spec fn index_in(table: Seq<(Seq<char>, nat)>, id: Seq<char>, count: nat) -> Option<nat> {
    match lookup(table, id) {
        Some(h) => if h < count {
            Some(h)
        } else {
            None
        },
        None => None,
    }
}

/// Finds the shader that `id` names among `count` loaded shaders.
pub fn shader_index(table: &IdLookupTable, id: &String, count: usize) -> (r: Result<usize, AssetError>)
    requires
        table.wf(),
    ensures
        r is Ok <==> index_in(table@, id@, count as nat) is Some,
        r matches Ok(i) ==> index_in(table@, id@, count as nat) == Some(i as nat),
        r matches Err(e) ==> e matches AssetError::UnknownAssetId { id: missing } && missing@ == id@,
{
    match table.get(id) {
        Some(h) => {
            if (h as usize) < count {
                Ok(h as usize)
            } else {
                Err(AssetError::UnknownAssetId { id: id.clone() })
            }
        },
        None => Err(AssetError::UnknownAssetId { id: id.clone() }),
    }
}

/// The positions of a program's vertex and fragment shader among `count`
/// loaded shaders, numbered by `table`. Fails on the first of the two ids, the
/// vertex shader's first, that names no loaded shader.
pub fn shader_indices(asset: &ShaderProgramAsset, table: &IdLookupTable, count: usize) -> (r: Result<
    (usize, usize),
    AssetError,
>)
    requires
        table.wf(),
    ensures
        r is Ok <==> index_in(table@, asset.vertex_shader_id@, count as nat) is Some && index_in(
            table@,
            asset.fragment_shader_id@,
            count as nat,
        ) is Some,
        r matches Ok((v, f)) ==> index_in(table@, asset.vertex_shader_id@, count as nat) == Some(
            v as nat,
        ) && index_in(table@, asset.fragment_shader_id@, count as nat) == Some(f as nat),
        r matches Err(e) ==> e matches AssetError::UnknownAssetId { id: missing } && if index_in(
            table@,
            asset.vertex_shader_id@,
            count as nat,
        ) is None {
            missing@ == asset.vertex_shader_id@
        } else {
            missing@ == asset.fragment_shader_id@
        },
{
    let v = match shader_index(table, &asset.vertex_shader_id, count) {
        Ok(v) => v,
        Err(e) => return Err(e),
    };
    let f = match shader_index(table, &asset.fragment_shader_id, count) {
        Ok(f) => f,
        Err(e) => return Err(e),
    };
    Ok((v, f))
}

/// `length` spaces, the buffer a driver fills with an info log.
pub fn whitespace_buffer(length: usize) -> (r: Vec<u8>)
    ensures
        r@ == Seq::new(length as nat, |i: int| 32u8),
{
    let mut buffer: Vec<u8> = Vec::new();
    let mut i: usize = 0;
    while i < length
        invariant
            i <= length,
            buffer@ == Seq::new(i as nat, |j: int| 32u8),
        decreases length - i,
    {
        buffer.push(32u8);
        i = i + 1;
        assert(buffer@ =~= Seq::new(i as nat, |j: int| 32u8));
    }
    buffer
}

} // verus!
