//! The records that describe assets once their metadata has been read.

use vstd::prelude::*;
use vstd::string::*;
use crate::ids::{id_views, table_of, AssetError, IdLookupTable, MAX_ASSETS};
use crate::kind::{find_last, last_index, lemma_last_index_bounds};

verus! {

/// The pipeline stage a shader is compiled for.
#[allow(non_camel_case_types)]
#[derive(Clone, Copy, Debug, PartialEq, Eq, Structural)]
pub enum ShaderType {
    FRAGMENT,
    VERTEX,
}

/// The OpenGL enumerant `GL_FRAGMENT_SHADER`.
pub const GL_FRAGMENT_SHADER: u32 = 0x8B30;

/// The OpenGL enumerant `GL_VERTEX_SHADER`.
pub const GL_VERTEX_SHADER: u32 = 0x8B31;

impl ShaderType {
    /// The OpenGL enumerant that names this shader type.
    pub fn to_gl(&self) -> (r: u32)
        ensures
            *self == ShaderType::FRAGMENT ==> r == GL_FRAGMENT_SHADER,
            *self == ShaderType::VERTEX ==> r == GL_VERTEX_SHADER,
    {
        match self {
            ShaderType::FRAGMENT => GL_FRAGMENT_SHADER,
            ShaderType::VERTEX => GL_VERTEX_SHADER,
        }
    }
}

/// `rel` read relative to the directory that holds the file `base`: an
/// absolute `rel` stands as it is, otherwise it follows `base` up to and with
/// its last `/`.
pub open spec fn resolved(base: Seq<char>, rel: Seq<char>) -> Seq<char> {
    if rel.len() > 0 && rel[0] == '/' {
        rel
    } else if last_index(base, '/') < 0 {
        rel
    } else {
        base.subrange(0, last_index(base, '/') + 1) + rel
    }
}

/// Reads `rel` relative to the directory of the file `base`.
pub fn resolve_relative(base: &str, rel: &str) -> (r: String)
    ensures
        r@ == resolved(base@, rel@),
{
    proof {
        lemma_last_index_bounds(base@, '/');
    }
    if rel.unicode_len() > 0 && rel.get_char(0) == '/' {
        return String::from_str(rel);
    }
    match find_last(base, '/') {
        None => String::from_str(rel),
        Some(k) => {
            let mut r = String::from_str(base.substring_char(0, k));
            r.append("/");
            r.append(rel);
            proof {
                reveal_strlit("/");
                assert(base@.subrange(0, k + 1) =~= base@.subrange(0, k as int) + "/"@);
            }
            r
        },
    }
}

/// The metadata of one shader source.
pub struct ShaderMeta {
    pub id: String,
    pub shader_type: ShaderType,
    pub source_path: String,
}

impl ShaderMeta {
    /// The same metadata with its source path read relative to the directory
    /// of the metadata file `meta_path`.
    pub fn rebased(self, meta_path: &str) -> (r: ShaderMeta)
        ensures
            r.id == self.id,
            r.shader_type == self.shader_type,
            r.source_path@ == resolved(meta_path@, self.source_path@),
    {
        let source_path = resolve_relative(meta_path, self.source_path.as_str());
        ShaderMeta { id: self.id, shader_type: self.shader_type, source_path }
    }
}

/// A shader asset: where its metadata lies and the sources it names.
pub struct ShaderAsset {
    pub asset_path: String,
    pub vertex_shader_source: String,
    pub fragment_shader_source: String,
}

/// The metadata of one shader program.
pub struct ShaderProgramMeta {
    pub id: String,
    pub vertex_shader_id: String,
    pub fragment_shader_id: String,
}

/// A shader program asset: the ids of the shaders it links.
pub struct ShaderProgramAsset {
    pub vertex_shader_id: String,
    pub fragment_shader_id: String,
}

/// The window settings read at start-up.
pub struct WindowConfig {
    pub title: String,
}

/// The metadata files of the shaders to load.
pub struct ShaderAssetManager {
    pub meta_paths: Vec<String>,
}

pub open spec fn program_ids(metas: Seq<ShaderProgramMeta>) -> Seq<String> {
    metas.map_values(|m: ShaderProgramMeta| m.id)
}

/// Numbers the shader programs by their ids in order and keeps, for each, the
/// ids of its shaders. Fails where there are `MAX_ASSETS` programs or more.
pub fn load_shader_program_assets(metas: &Vec<ShaderProgramMeta>) -> (r: Result<
    (IdLookupTable, Vec<ShaderProgramAsset>),
    AssetError,
>)
    ensures
        r is Err <==> metas@.len() >= MAX_ASSETS,
        r matches Err(e) ==> e == AssetError::CapacityExceeded,
        r matches Ok((t, assets)) ==> {
            &&& t.wf()
            &&& t@ == table_of(id_views(program_ids(metas@)))
            &&& assets@.len() == metas@.len()
            &&& forall|i: int|
                0 <= i < metas@.len() ==> (#[trigger] assets@[i]).vertex_shader_id@
                    == metas@[i].vertex_shader_id@ && assets@[i].fragment_shader_id@
                    == metas@[i].fragment_shader_id@
        },
{
    if let Err(e) = IdLookupTable::check_capacity(metas.len()) {
        return Err(e);
    }
    let n = metas.len();
    let mut ids: Vec<String> = Vec::new();
    let mut assets: Vec<ShaderProgramAsset> = Vec::new();
    let mut i: usize = 0;
    while i < n
        invariant
            n == metas@.len(),
            i <= n,
            ids@.len() == i,
            assets@.len() == i,
            forall|j: int| 0 <= j < i ==> (#[trigger] ids@[j])@ == metas@[j].id@,
            forall|j: int|
                0 <= j < i ==> (#[trigger] assets@[j]).vertex_shader_id@
                    == metas@[j].vertex_shader_id@ && assets@[j].fragment_shader_id@
                    == metas@[j].fragment_shader_id@,
        decreases n - i,
    {
        let m = &metas[i];
        ids.push(m.id.clone());
        assets.push(
            ShaderProgramAsset {
                vertex_shader_id: m.vertex_shader_id.clone(),
                fragment_shader_id: m.fragment_shader_id.clone(),
            },
        );
        i = i + 1;
    }
    assert(id_views(ids@) =~= id_views(program_ids(metas@)));
    match IdLookupTable::build(&ids) {
        Ok(t) => Ok((t, assets)),
        Err(e) => Err(e),
    }
}

} // verus!
