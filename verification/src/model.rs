//! A model: embedded meshes in both of their key-value dialects, references to mesh resources,
//! levels of detail and material groups.

use crate::buffer::{parse_kv3_buffers, parse_vbib_block, Buffer};
use crate::error::{Fault, MeshError};
use crate::kv::{Block, Resource, Value, CTRL};
use crate::mesh::{decode_scene_objects, require_i64, Mesh, SceneObject};
use crate::text::{join_item, join_key};
use vstd::prelude::*;

verus! {

/// Whether a mask holds a level.
pub open spec fn has_level(mask: i64, level: int) -> bool {
    mask & (1i64 << level) != 0
}

/// The union of masks.
pub open spec fn union_of(masks: Seq<i64>) -> i64
    decreases masks.len(),
{
    if masks.len() == 0 {
        0
    } else {
        union_of(masks.drop_last()) | masks.last()
    }
}

/// The first level from `from` on that a mask holds; 64 where there is none.
pub open spec fn first_level(mask: i64, from: int) -> int
    decreases 64 - from,
{
    if from >= 64 {
        64
    } else if has_level(mask, from) {
        from
    } else {
        first_level(mask, from + 1)
    }
}

/// The lowest level of a mask; 0 for the empty mask.
pub open spec fn lowest_of(mask: i64) -> int {
    if mask == 0 {
        0
    } else {
        first_level(mask, 0)
    }
}

/// The levels below `n` that a mask holds, in ascending order.
pub open spec fn levels_below(mask: i64, n: int) -> Seq<i64>
    decreases n,
{
    if n <= 0 {
        Seq::empty()
    } else if has_level(mask, n - 1) {
        levels_below(mask, n - 1).push((n - 1) as i64)
    } else {
        levels_below(mask, n - 1)
    }
}

/// A mask whose levels below `n` are clear and that holds none from `n` on is empty.
proof fn lemma_no_level(mask: i64, n: u64)
    requires
        n <= 64,
        first_level(mask, n as int) == 64,
        n < 63 ==> mask & (((1i64 << n) - 1) as i64) == 0,
        n == 63 ==> mask & 0x7FFF_FFFF_FFFF_FFFFi64 == 0,
        n == 64 ==> mask == 0,
    ensures
        mask == 0,
    decreases 64 - n,
{
    if n < 64 {
        assert(!has_level(mask, n as int));
        if n == 63 {
            assert(mask == 0) by (bit_vector)
                requires
                    mask & 0x7FFF_FFFF_FFFF_FFFFi64 == 0,
                    mask & (1i64 << 63u64) == 0,
            ;
        } else if n < 62 {
            assert(mask & (((1i64 << ((n + 1) as u64)) - 1) as i64) == 0) by (bit_vector)
                requires
                    n < 62,
                    mask & (((1i64 << n) - 1) as i64) == 0,
                    mask & (1i64 << n) == 0,
            ;
        } else {
            assert(mask & 0x7FFF_FFFF_FFFF_FFFFi64 == 0) by (bit_vector)
                requires
                    mask & (((1i64 << 62u64) - 1) as i64) == 0,
                    mask & (1i64 << 62u64) == 0,
            ;
        }
        lemma_no_level(mask, (n + 1) as u64);
    }
}

/// The lowest level of a mask is one that it holds, and no lower level is: the lowest level of a
/// model is one that has meshes.
pub proof fn lowest_level_is_held(mask: i64)
    requires
        mask != 0,
    ensures
        0 <= lowest_of(mask) < 64,
        has_level(mask, lowest_of(mask)),
        forall|k: int| 0 <= k < lowest_of(mask) ==> !has_level(mask, k),
{
    lemma_first_level(mask, 0);
    if first_level(mask, 0) == 64 {
        assert(mask & (((1i64 << 0u64) - 1) as i64) == 0) by (bit_vector);
        lemma_no_level(mask, 0);
    }
}

/// What a search for the first level finds.
proof fn lemma_first_level(mask: i64, from: int)
    requires
        0 <= from <= 64,
    ensures
        from <= first_level(mask, from) <= 64,
        first_level(mask, from) < 64 ==> has_level(mask, first_level(mask, from)),
        forall|k: int| from <= k < first_level(mask, from) ==> !has_level(mask, k),
    decreases 64 - from,
{
    if from < 64 && !has_level(mask, from) {
        lemma_first_level(mask, from + 1);
    }
}

/// Finds the lowest level of a mask.
pub fn lowest_level_of(mask: i64) -> (r: i64)
    ensures
        r == lowest_of(mask),
        0 <= r < 64,
{
    if mask == 0 {
        return 0;
    }
    proof {
        lowest_level_is_held(mask);
    }
    let mut level: i64 = 0;
    while mask & (1i64 << level) == 0
        invariant
            0 <= level < 64,
            first_level(mask, level as int) == first_level(mask, 0),
            0 <= first_level(mask, 0) < 64,
        decreases 64 - level,
    {
        assert(first_level(mask, level as int + 1) == first_level(mask, 0));
        level += 1;
    }
    level
}

/// The levels of detail of a model: which meshes belong to which level, and where the levels
/// switch.
#[derive(Debug, Clone)]
pub struct LodInfo {
    /// The mask of each mesh: bit N is set where the mesh is present in level N.
    pub mesh_lod_masks: Vec<i64>,
    /// The screen-size metric at which each level becomes active, as the bits of singles.
    pub switch_distances: Vec<u32>,
    /// The union of every mesh's mask.
    pub combined_mask: i64,
    /// The lowest level that has meshes; a lower level has more detail.
    pub lowest_level: i64,
    /// The levels that have meshes, in ascending order.
    pub available_levels: Vec<i64>,
}

/// A [`LodInfo`] as plain values.
pub struct LodView {
    pub mesh_lod_masks: Seq<i64>,
    pub switch_distances: Seq<u32>,
    pub combined_mask: i64,
    pub lowest_level: i64,
    pub available_levels: Seq<i64>,
}

impl View for LodInfo {
    type V = LodView;

    open spec fn view(&self) -> LodView {
        LodView {
            mesh_lod_masks: self.mesh_lod_masks@,
            switch_distances: self.switch_distances@,
            combined_mask: self.combined_mask,
            lowest_level: self.lowest_level,
            available_levels: self.available_levels@,
        }
    }
}

/// The integers among a list of values.
pub open spec fn integers_of(items: Seq<Value>) -> Seq<i64>
    decreases items.len(),
{
    if items.len() == 0 {
        Seq::empty()
    } else {
        match crate::kv::signed_of(items.last()) {
            Some(i) => integers_of(items.drop_last()).push(i),
            None => integers_of(items.drop_last()),
        }
    }
}

/// The singles among a list of values.
pub open spec fn singles_of(items: Seq<Value>) -> Seq<u32>
    decreases items.len(),
{
    if items.len() == 0 {
        Seq::empty()
    } else {
        match crate::kv::single_of(items.last()) {
            Some(i) => singles_of(items.drop_last()).push(i),
            None => singles_of(items.drop_last()),
        }
    }
}

/// The items of the list under `key`; none where there is no list.
pub open spec fn list_at(v: Value, key: Seq<char>) -> Seq<Value> {
    match crate::kv::items_at(v, key) {
        Some(a) => a,
        None => Seq::empty(),
    }
}

/// The levels of detail that a model's root describes.
pub open spec fn lod_of(root: Value) -> LodView {
    let masks = integers_of(list_at(root, "m_refLODGroupMasks"@));
    LodView {
        mesh_lod_masks: masks,
        switch_distances: singles_of(list_at(root, "m_lodGroupSwitchDistances"@)),
        combined_mask: union_of(masks),
        lowest_level: lowest_of(union_of(masks)) as i64,
        available_levels: levels_below(union_of(masks), 64),
    }
}

/// Collects the integers of the list under `key`.
fn read_integers(v: &Value, key: &str) -> (r: Vec<i64>)
    ensures
        r@ == integers_of(list_at(*v, key@)),
{
    let mut out: Vec<i64> = Vec::new();
    match v.get_array(key) {
        Some(items) => {
            let mut i: usize = 0;
            while i < items.len()
                invariant
                    i <= items@.len(),
                    out@ == integers_of(items@.take(i as int)),
                decreases items@.len() - i,
            {
                proof {
                    assert(items@.take(i + 1).drop_last() =~= items@.take(i as int));
                    assert(items@.take(i + 1).last() == items@[i as int]);
                }
                match items[i].as_i64() {
                    Some(n) => {
                        out.push(n);
                    },
                    None => {},
                }
                i += 1;
            }
            assert(items@.take(i as int) =~= items@);
        },
        None => {},
    }
    out
}

/// Collects the singles of the list under `key`.
fn read_singles(v: &Value, key: &str) -> (r: Vec<u32>)
    ensures
        r@ == singles_of(list_at(*v, key@)),
{
    let mut out: Vec<u32> = Vec::new();
    match v.get_array(key) {
        Some(items) => {
            let mut i: usize = 0;
            while i < items.len()
                invariant
                    i <= items@.len(),
                    out@ == singles_of(items@.take(i as int)),
                decreases items@.len() - i,
            {
                proof {
                    assert(items@.take(i + 1).drop_last() =~= items@.take(i as int));
                    assert(items@.take(i + 1).last() == items@[i as int]);
                }
                match items[i].as_f32() {
                    Some(n) => {
                        out.push(n);
                    },
                    None => {},
                }
                i += 1;
            }
            assert(items@.take(i as int) =~= items@);
        },
        None => {},
    }
    out
}

/// The mask of a mesh; 0 where the mesh has no entry.
pub open spec fn mask_of(masks: Seq<i64>, mesh_index: int) -> i64 {
    if mesh_index < masks.len() {
        masks[mesh_index]
    } else {
        0
    }
}

/// Whether a mesh is present in a level; one without an entry always is.
pub open spec fn in_level(masks: Seq<i64>, mesh_index: int, level: int) -> bool {
    mesh_index >= masks.len() || has_level(masks[mesh_index], level)
}

impl LodInfo {
    /// Reads the levels of detail of a model's root.
    pub fn from_kv3(root: &Value) -> (r: LodInfo)
        ensures
            r@ == lod_of(*root),
    {
        let mesh_lod_masks: Vec<i64> = read_integers(root, "m_refLODGroupMasks");
        let switch_distances: Vec<u32> = read_singles(root, "m_lodGroupSwitchDistances");
        let mut combined_mask: i64 = 0;
        let mut i: usize = 0;
        while i < mesh_lod_masks.len()
            invariant
                i <= mesh_lod_masks@.len(),
                combined_mask == union_of(mesh_lod_masks@.take(i as int)),
            decreases mesh_lod_masks@.len() - i,
        {
            proof {
                assert(mesh_lod_masks@.take(i + 1).drop_last() =~= mesh_lod_masks@.take(i as int));
                assert(mesh_lod_masks@.take(i + 1).last() == mesh_lod_masks@[i as int]);
            }
            combined_mask = combined_mask | mesh_lod_masks[i];
            i += 1;
        }
        assert(mesh_lod_masks@.take(i as int) =~= mesh_lod_masks@);
        let mut available_levels: Vec<i64> = Vec::new();
        let mut level: i64 = 0;
        while level < 64
            invariant
                0 <= level <= 64,
                available_levels@ == levels_below(combined_mask, level as int),
            decreases 64 - level,
        {
            if combined_mask & (1i64 << level) != 0 {
                available_levels.push(level);
            }
            level += 1;
        }
        LodInfo {
            lowest_level: lowest_level_of(combined_mask),
            mesh_lod_masks,
            switch_distances,
            combined_mask,
            available_levels,
        }
    }

    /// The mask of a mesh; 0 where the mesh has no entry.
    pub fn mesh_mask(&self, mesh_index: usize) -> (r: i64)
        ensures
            r == mask_of(self.mesh_lod_masks@, mesh_index as int),
    {
        if mesh_index < self.mesh_lod_masks.len() {
            self.mesh_lod_masks[mesh_index]
        } else {
            0
        }
    }

    /// Whether a mesh is present in a level; one without an entry always is.
    pub fn is_mesh_in_level(&self, mesh_index: usize, level: i64) -> (r: bool)
        requires
            0 <= level < 64,
        ensures
            r == in_level(self.mesh_lod_masks@, mesh_index as int, level as int),
    {
        mesh_index >= self.mesh_lod_masks.len() || self.mesh_lod_masks[mesh_index] & (1i64
            << level) != 0
    }
}

impl Default for LodInfo {
    fn default() -> (r: LodInfo)
        ensures
            r.mesh_lod_masks@.len() == 0,
            r.switch_distances@.len() == 0,
            r.combined_mask == 0,
            r.lowest_level == 0,
            r.available_levels@.len() == 0,
    {
        LodInfo {
            mesh_lod_masks: Vec::new(),
            switch_distances: Vec::new(),
            combined_mask: 0,
            lowest_level: 0,
            available_levels: Vec::new(),
        }
    }
}

/// A reference to a mesh resource. Slots that an embedded mesh fills are left out.
#[derive(Debug, Clone)]
pub struct RefMesh {
    pub mesh_index: usize,
    /// The path of the mesh, without the suffix of its compiled form.
    pub mesh_path: String,
    pub lod_mask: i64,
}

/// A [`RefMesh`] as plain values.
pub struct RefMeshView {
    pub mesh_index: usize,
    pub mesh_path: Seq<char>,
    pub lod_mask: i64,
}

impl View for RefMesh {
    type V = RefMeshView;

    open spec fn view(&self) -> RefMeshView {
        RefMeshView {
            mesh_index: self.mesh_index,
            mesh_path: self.mesh_path@,
            lod_mask: self.lod_mask,
        }
    }
}

/// A mesh that stands in the model's own resource.
#[derive(Debug, Clone)]
pub struct EmbeddedMesh {
    pub name: String,
    pub mesh_index: usize,
    pub lod_mask: i64,
    pub mesh: Mesh,
}

/// An [`EmbeddedMesh`] as plain values.
pub struct EmbeddedMeshView {
    pub name: Seq<char>,
    pub mesh_index: usize,
    pub lod_mask: i64,
    pub mesh: crate::mesh::MeshView,
}

impl View for EmbeddedMesh {
    type V = EmbeddedMeshView;

    open spec fn view(&self) -> EmbeddedMeshView {
        EmbeddedMeshView {
            name: self.name@,
            mesh_index: self.mesh_index,
            lod_mask: self.lod_mask,
            mesh: self.mesh@,
        }
    }
}

/// One skin of a model.
#[derive(Debug, Clone)]
pub struct MaterialGroup {
    pub name: String,
    pub materials: Vec<String>,
}

/// A [`MaterialGroup`] as plain values.
pub struct MaterialGroupView {
    pub name: Seq<char>,
    pub materials: Seq<Seq<char>>,
}

impl View for MaterialGroup {
    type V = MaterialGroupView;

    open spec fn view(&self) -> MaterialGroupView {
        MaterialGroupView { name: self.name@, materials: crate::text::texts(self.materials@) }
    }
}

/// A decoded model.
#[derive(Debug, Clone)]
pub struct Model {
    pub embedded_meshes: Vec<EmbeddedMesh>,
    pub ref_meshes: Vec<RefMesh>,
    pub lod: LodInfo,
    pub material_groups: Vec<MaterialGroup>,
}

/// A [`Model`] as plain values.
pub struct ModelView {
    pub embedded_meshes: Seq<EmbeddedMeshView>,
    pub ref_meshes: Seq<RefMeshView>,
    pub lod: LodView,
    pub material_groups: Seq<MaterialGroupView>,
}

/// The views of a list of embedded meshes.
pub open spec fn embedded_views(v: Seq<EmbeddedMesh>) -> Seq<EmbeddedMeshView> {
    Seq::new(v.len(), |i: int| v[i]@)
}

/// The views of a list of references.
pub open spec fn ref_views(v: Seq<RefMesh>) -> Seq<RefMeshView> {
    Seq::new(v.len(), |i: int| v[i]@)
}

/// The views of a list of groups.
pub open spec fn group_views(v: Seq<MaterialGroup>) -> Seq<MaterialGroupView> {
    Seq::new(v.len(), |i: int| v[i]@)
}

impl View for Model {
    type V = ModelView;

    open spec fn view(&self) -> ModelView {
        ModelView {
            embedded_meshes: embedded_views(self.embedded_meshes@),
            ref_meshes: ref_views(self.ref_meshes@),
            lod: self.lod@,
            material_groups: group_views(self.material_groups@),
        }
    }
}

impl Default for Model {
    fn default() -> (r: Model)
        ensures
            r.embedded_meshes@.len() == 0,
            r.ref_meshes@.len() == 0,
            r.material_groups@.len() == 0,
            r.lod.mesh_lod_masks@.len() == 0,
            r.lod.switch_distances@.len() == 0,
            r.lod.combined_mask == 0,
            r.lod.lowest_level == 0,
            r.lod.available_levels@.len() == 0,
    {
        Model {
            embedded_meshes: Vec::new(),
            ref_meshes: Vec::new(),
            lod: LodInfo::default(),
            material_groups: Vec::new(),
        }
    }
}

/// The block that an index names, among those that are not empty.
pub open spec fn named_block(resource: Resource, index: i64, path: Seq<char>) -> Result<
    Block,
    Fault,
> {
    let found = if crate::mesh::is_size(index) {
        crate::kv::filled_block(resource, index as int)
    } else {
        None
    };
    match found {
        Some(b) => Ok(b),
        None => Err(Fault::BlockNotFound { path, index }),
    }
}

/// Finds the block that an index names.
pub fn resolve_block<'a>(resource: &'a Resource, index: i64, path: &str) -> (r: Result<
    &'a Block,
    MeshError,
>)
    ensures
        match r {
            Ok(b) => named_block(*resource, index, path@) == Ok::<Block, Fault>(*b),
            Err(e) => named_block(*resource, index, path@) == Err::<Block, Fault>(crate::error::known(e@)),
        },
{
    if index >= 0 && index as u64 <= usize::MAX as u64 {
        match resource.block_by_filtered_index(index as usize) {
            Some(b) => {
                return Ok(b);
            },
            None => {},
        }
    }
    Err(MeshError::BlockNotFound { path: path.to_owned(), index })
}

/// The scene objects of a block's key-value tree.
pub open spec fn block_scenes(block: Block, path: Seq<char>) -> Result<
    Seq<Seq<crate::mesh::DrawCallView>>,
    Fault,
> {
    match block.tree {
        Err(message) => Err(Fault::Resource { path, message: message@ }),
        Ok(root) => crate::mesh::scene_objects_of(root, path),
    }
}

/// Decodes the scene objects of a block's key-value tree.
pub fn scene_objects_of(block: &Block, path: &str) -> (r: Result<Vec<SceneObject>, MeshError>)
    ensures
        crate::mesh::scene_outcome(r) == block_scenes(*block, path@),
{
    match &block.tree {
        Err(message) => Err(
            MeshError::Resource { path: path.to_owned(), message: message.clone() },
        ),
        Ok(root) => decode_scene_objects(root, path),
    }
}

/// The name under `key`; empty where there is none.
pub open spec fn name_at(v: Value, key: Seq<char>) -> Seq<char> {
    match crate::kv::string_at(v, key) {
        Some(s) => s@,
        None => Seq::empty(),
    }
}

/// Reads the name under `key`.
pub fn read_name(v: &Value, key: &str) -> (r: String)
    ensures
        r@ == name_at(*v, key@),
{
    match v.get_string(key) {
        Some(s) => s,
        None => {
            let s: String = String::new();
            assert(s@ =~= Seq::<char>::empty());
            s
        },
    }
}

/// A stored mesh index; one that is no size counts as 0.
pub open spec fn index_or_zero(i: i64) -> usize {
    if crate::mesh::is_size(i) {
        i as usize
    } else {
        0
    }
}

/// An embedded mesh, put together.
pub open spec fn embedded_from(
    name: Seq<char>,
    mesh_index: i64,
    masks: Seq<i64>,
    scenes: Seq<Seq<crate::mesh::DrawCallView>>,
    buffers: (Seq<crate::buffer::BufferView>, Seq<crate::buffer::BufferView>),
) -> EmbeddedMeshView {
    EmbeddedMeshView {
        name,
        mesh_index: index_or_zero(mesh_index),
        lod_mask: mask_of(masks, index_or_zero(mesh_index) as int),
        mesh: crate::mesh::MeshView {
            vertex_buffers: buffers.0,
            index_buffers: buffers.1,
            scene_objects: scenes,
        },
    }
}

/// An entry of the older dialect, whose buffers stand in a block of their own.
pub open spec fn embedded_with_block(
    resource: Resource,
    entry: Value,
    vbib: Value,
    masks: Seq<i64>,
    path: Seq<char>,
) -> Result<EmbeddedMeshView, Fault> {
    match (
        crate::mesh::required_i64(entry, "mesh_index"@, path),
        crate::mesh::required_i64(entry, "data_block"@, path),
        crate::kv::signed_of(vbib),
    ) {
        (Err(f), _, _) => Err(f),
        (_, Err(f), _) => Err(f),
        (_, _, None) => Err(
            Fault::WrongType {
                path: crate::text::key_path(path, "vbib_block"@),
                expected: "integer"@,
            },
        ),
        (Ok(mesh_index), Ok(data), Some(buffers_at)) => match named_block(
            resource,
            data,
            crate::text::key_path(path, "data_block"@),
        ) {
            Err(f) => Err(f),
            Ok(block) => match block_scenes(block, path) {
                Err(f) => Err(f),
                Ok(scenes) => match named_block(
                    resource,
                    buffers_at,
                    crate::text::key_path(path, "vbib_block"@),
                ) {
                    Err(f) => Err(f),
                    Ok(b) => match crate::buffer::vbib_block(b.bytes@) {
                        Err(f) => Err(f),
                        Ok(buffers) => Ok(
                            embedded_from(
                                name_at(entry, "name"@),
                                mesh_index,
                                masks,
                                scenes,
                                buffers,
                            ),
                        ),
                    },
                },
            },
        },
    }
}

/// An entry of the newer dialect, which lists its buffers itself.
pub open spec fn embedded_with_list(
    resource: Resource,
    entry: Value,
    masks: Seq<i64>,
    path: Seq<char>,
) -> Result<EmbeddedMeshView, Fault> {
    match (
        crate::mesh::required_i64(entry, "m_nMeshIndex"@, path),
        crate::mesh::required_i64(entry, "m_nDataBlock"@, path),
    ) {
        (Err(f), _) => Err(f),
        (_, Err(f)) => Err(f),
        (Ok(mesh_index), Ok(data)) => match named_block(
            resource,
            data,
            crate::text::key_path(path, "m_nDataBlock"@),
        ) {
            Err(f) => Err(f),
            Ok(block) => match block_scenes(block, path) {
                Err(f) => Err(f),
                Ok(scenes) => match crate::buffer::kv3_buffers(resource, entry, path) {
                    Err(f) => Err(f),
                    Ok(buffers) => Ok(
                        embedded_from(
                            name_at(entry, "m_Name"@),
                            mesh_index,
                            masks,
                            scenes,
                            buffers,
                        ),
                    ),
                },
            },
        },
    }
}

/// An embedded mesh, in the dialect that its entry is written in.
pub open spec fn embedded_mesh_of(
    resource: Resource,
    entry: Value,
    masks: Seq<i64>,
    path: Seq<char>,
) -> Result<EmbeddedMeshView, Fault> {
    match crate::kv::child(entry, "vbib_block"@) {
        Some(vbib) => embedded_with_block(resource, entry, vbib, masks, path),
        None => embedded_with_list(resource, entry, masks, path),
    }
}

/// Puts an embedded mesh together.
fn embed(
    name: String,
    mesh_index: i64,
    lod: &LodInfo,
    scene_objects: Vec<SceneObject>,
    buffers: (Vec<Buffer>, Vec<Buffer>),
) -> (r: EmbeddedMesh)
    ensures
        r@ == embedded_from(
            name@,
            mesh_index,
            lod.mesh_lod_masks@,
            crate::mesh::scene_object_views(scene_objects@),
            (
                crate::buffer::buffer_views(buffers.0@),
                crate::buffer::buffer_views(buffers.1@),
            ),
        ),
{
    let index: usize = if mesh_index >= 0 && mesh_index as u64 <= usize::MAX as u64 {
        mesh_index as usize
    } else {
        0
    };
    EmbeddedMesh {
        name,
        mesh_index: index,
        lod_mask: lod.mesh_mask(index),
        mesh: Mesh { vertex_buffers: buffers.0, index_buffers: buffers.1, scene_objects },
    }
}

/// Decodes an entry of the older dialect.
fn parse_with_block(
    resource: &Resource,
    entry: &Value,
    vbib: &Value,
    lod: &LodInfo,
    path: &str,
) -> (r: Result<EmbeddedMesh, MeshError>)
    ensures
        crate::error::outcome(r) == embedded_with_block(
            *resource,
            *entry,
            *vbib,
            lod.mesh_lod_masks@,
            path@,
        ),
{
    let name: String = read_name(entry, "name");
    let mesh_index: i64 = match require_i64(entry, "mesh_index", path) {
        Ok(i) => i,
        Err(e) => {
            return Err(e);
        },
    };
    let data: i64 = match require_i64(entry, "data_block", path) {
        Ok(i) => i,
        Err(e) => {
            return Err(e);
        },
    };
    let buffers_at: i64 = match vbib.as_i64() {
        Some(i) => i,
        None => {
            return Err(
                MeshError::WrongType { path: join_key(path, "vbib_block"), expected: "integer" },
            );
        },
    };
    let at: String = join_key(path, "data_block");
    let block: &Block = match resolve_block(resource, data, at.as_str()) {
        Ok(b) => b,
        Err(e) => {
            return Err(e);
        },
    };
    let scenes: Vec<SceneObject> = match scene_objects_of(block, path) {
        Ok(s) => s,
        Err(e) => {
            return Err(e);
        },
    };
    let at: String = join_key(path, "vbib_block");
    let block: &Block = match resolve_block(resource, buffers_at, at.as_str()) {
        Ok(b) => b,
        Err(e) => {
            return Err(e);
        },
    };
    match parse_vbib_block(block.bytes.as_slice()) {
        Ok(buffers) => Ok(embed(name, mesh_index, lod, scenes, buffers)),
        Err(e) => Err(e),
    }
}

/// Decodes an entry of the newer dialect.
fn parse_with_list(resource: &Resource, entry: &Value, lod: &LodInfo, path: &str) -> (r: Result<
    EmbeddedMesh,
    MeshError,
>)
    ensures
        crate::error::outcome(r) == embedded_with_list(
            *resource,
            *entry,
            lod.mesh_lod_masks@,
            path@,
        ),
{
    let name: String = read_name(entry, "m_Name");
    let mesh_index: i64 = match require_i64(entry, "m_nMeshIndex", path) {
        Ok(i) => i,
        Err(e) => {
            return Err(e);
        },
    };
    let data: i64 = match require_i64(entry, "m_nDataBlock", path) {
        Ok(i) => i,
        Err(e) => {
            return Err(e);
        },
    };
    let at: String = join_key(path, "m_nDataBlock");
    let block: &Block = match resolve_block(resource, data, at.as_str()) {
        Ok(b) => b,
        Err(e) => {
            return Err(e);
        },
    };
    let scenes: Vec<SceneObject> = match scene_objects_of(block, path) {
        Ok(s) => s,
        Err(e) => {
            return Err(e);
        },
    };
    match parse_kv3_buffers(resource, entry, path) {
        Ok(buffers) => Ok(embed(name, mesh_index, lod, scenes, buffers)),
        Err(e) => Err(e),
    }
}

/// Decodes an embedded mesh, in the dialect that its entry is written in.
pub fn parse_embedded_mesh(resource: &Resource, entry: &Value, lod: &LodInfo, path: &str) -> (r:
    Result<EmbeddedMesh, MeshError>)
    ensures
        crate::error::outcome(r) == embedded_mesh_of(
            *resource,
            *entry,
            lod.mesh_lod_masks@,
            path@,
        ),
{
    match entry.get("vbib_block") {
        Some(vbib) => parse_with_block(resource, entry, vbib, lod, path),
        None => parse_with_list(resource, entry, lod, path),
    }
}

/// The references among the slots: those with a path that is not empty.
pub open spec fn refs_of(items: Seq<Value>, masks: Seq<i64>) -> Seq<RefMeshView>
    decreases items.len(),
{
    if items.len() == 0 {
        Seq::empty()
    } else {
        let before = refs_of(items.drop_last(), masks);
        let i = items.len() - 1;
        match crate::kv::string_in(items.last()) {
            Some(s) => if s@.len() == 0 {
                before
            } else {
                before.push(
                    RefMeshView {
                        mesh_index: i as usize,
                        mesh_path: s@,
                        lod_mask: mask_of(masks, i),
                    },
                )
            },
            None => before,
        }
    }
}

/// Reads the references of a model.
fn read_refs(root: &Value, lod: &LodInfo) -> (r: Vec<RefMesh>)
    ensures
        ref_views(r@) == refs_of(list_at(*root, "m_refMeshes"@), lod.mesh_lod_masks@),
{
    let mut out: Vec<RefMesh> = Vec::new();
    assert(ref_views(out@) =~= Seq::<RefMeshView>::empty());
    match root.get_array("m_refMeshes") {
        Some(items) => {
            let mut i: usize = 0;
            while i < items.len()
                invariant
                    i <= items@.len(),
                    ref_views(out@) == refs_of(items@.take(i as int), lod.mesh_lod_masks@),
                decreases items@.len() - i,
            {
                proof {
                    assert(items@.take(i + 1).drop_last() =~= items@.take(i as int));
                    assert(items@.take(i + 1).last() == items@[i as int]);
                }
                match items[i].as_str() {
                    Some(s) => {
                        if s.as_str().unicode_len() > 0 {
                            let m: RefMesh = RefMesh {
                                mesh_index: i,
                                mesh_path: s.clone(),
                                lod_mask: lod.mesh_mask(i),
                            };
                            assert(ref_views(out@.push(m)) =~= ref_views(out@).push(m@));
                            out.push(m);
                        }
                    },
                    None => {},
                }
                i += 1;
            }
            assert(items@.take(i as int) =~= items@);
        },
        None => {},
    }
    out
}

/// One material group.
pub open spec fn group_of(v: Value) -> MaterialGroupView {
    MaterialGroupView {
        name: name_at(v, "m_name"@),
        materials: crate::text::texts(crate::kv::strings_at(v, "m_materials"@)),
    }
}

/// The material groups of a list.
pub open spec fn groups_of(items: Seq<Value>) -> Seq<MaterialGroupView> {
    Seq::new(items.len(), |i: int| group_of(items[i]))
}

/// Reads the material groups of a model.
fn read_groups(root: &Value) -> (r: Vec<MaterialGroup>)
    ensures
        group_views(r@) == groups_of(list_at(*root, "m_materialGroups"@)),
{
    let mut out: Vec<MaterialGroup> = Vec::new();
    match root.get_array("m_materialGroups") {
        Some(items) => {
            let mut i: usize = 0;
            while i < items.len()
                invariant
                    i <= items@.len(),
                    group_views(out@) == groups_of(items@.take(i as int)),
                decreases items@.len() - i,
            {
                let g: MaterialGroup = MaterialGroup {
                    name: read_name(&items[i], "m_name"),
                    materials: items[i].get_strings("m_materials"),
                };
                proof {
                    assert(group_views(out@.push(g)) =~= group_views(out@).push(g@));
                    assert(groups_of(items@.take(i + 1)) =~= groups_of(items@.take(i as int)).push(
                        g@,
                    ));
                }
                out.push(g);
                i += 1;
            }
            assert(items@.take(i as int) =~= items@);
        },
        None => {
            assert(group_views(out@) =~= groups_of(Seq::empty()));
        },
    }
    out
}

/// The embedded meshes of a list.
pub open spec fn embedded_step(
    resource: Resource,
    items: Seq<Value>,
    masks: Seq<i64>,
) -> spec_fn(int) -> Result<EmbeddedMeshView, Fault> {
    |i: int|
        embedded_mesh_of(
            resource,
            items[i],
            masks,
            crate::text::item_path("CTRL"@, "embedded_meshes"@, i),
        )
}

/// The embedded meshes of a model, which its control block lists.
pub open spec fn embedded_meshes_of(resource: Resource, masks: Seq<i64>) -> Result<
    Seq<EmbeddedMeshView>,
    Fault,
> {
    match crate::kv::block_from(resource.blocks@, CTRL@, 0) {
        None => Ok(Seq::empty()),
        Some(block) => match block.tree {
            Err(message) => Err(Fault::Resource { path: "CTRL"@, message: message@ }),
            Ok(root) => {
                let items = list_at(root, "embedded_meshes"@);
                crate::error::gather(embedded_step(resource, items, masks), items.len())
            },
        },
    }
}

/// Decodes the embedded meshes of a model.
fn read_embedded(resource: &Resource, lod: &LodInfo) -> (r: Result<Vec<EmbeddedMesh>, MeshError>)
    ensures
        match r {
            Ok(v) => embedded_meshes_of(*resource, lod.mesh_lod_masks@) == Ok::<
                Seq<EmbeddedMeshView>,
                Fault,
            >(embedded_views(v@)),
            Err(e) => embedded_meshes_of(*resource, lod.mesh_lod_masks@) == Err::<
                Seq<EmbeddedMeshView>,
                Fault,
            >(crate::error::known(e@)),
        },
{
    let mut out: Vec<EmbeddedMesh> = Vec::new();
    assert(embedded_views(out@) =~= Seq::<EmbeddedMeshView>::empty());
    let kind: [u8; 4] = CTRL;
    let block: &Block = match resource.block(&kind) {
        Some(b) => b,
        None => {
            return Ok(out);
        },
    };
    let root: &Value = match &block.tree {
        Ok(root) => root,
        Err(message) => {
            return Err(MeshError::Resource { path: "CTRL".to_owned(), message: message.clone() });
        },
    };
    let items: &Vec<Value> = match root.get_array("embedded_meshes") {
        Some(a) => a,
        None => {
            return Ok(out);
        },
    };
    let ghost step = embedded_step(*resource, items@, lod.mesh_lod_masks@);
    let mut i: usize = 0;
    while i < items.len()
        invariant
            i <= items@.len(),
            step == embedded_step(*resource, items@, lod.mesh_lod_masks@),
            embedded_meshes_of(*resource, lod.mesh_lod_masks@) == crate::error::gather(
                step,
                items@.len(),
            ),
            crate::error::gather(step, i as nat) == Ok::<Seq<EmbeddedMeshView>, Fault>(
                embedded_views(out@),
            ),
        decreases items@.len() - i,
    {
        let at: String = join_item("CTRL", "embedded_meshes", i);
        match parse_embedded_mesh(resource, &items[i], lod, at.as_str()) {
            Ok(m) => {
                proof {
                    assert(step(i as int) == Ok::<EmbeddedMeshView, Fault>(m@));
                    assert(embedded_views(out@.push(m)) =~= embedded_views(out@).push(m@));
                }
                out.push(m);
            },
            Err(e) => {
                proof {
                    assert(step(i as int) == Err::<EmbeddedMeshView, Fault>(crate::error::known(e@)));
                    crate::error::lemma_gather_refused(step, (i + 1) as nat, items@.len());
                }
                return Err(e);
            },
        }
        i += 1;
    }
    Ok(out)
}

/// The model of a resource.
pub open spec fn model_of(resource: Resource) -> Result<ModelView, Fault> {
    match resource.data {
        Err(message) => Err(Fault::Resource { path: "DATA"@, message: message@ }),
        Ok(root) => {
            let lod = lod_of(root);
            match embedded_meshes_of(resource, lod.mesh_lod_masks) {
                Err(f) => Err(f),
                Ok(embedded_meshes) => Ok(
                    ModelView {
                        embedded_meshes,
                        ref_meshes: refs_of(list_at(root, "m_refMeshes"@), lod.mesh_lod_masks),
                        lod,
                        material_groups: groups_of(list_at(root, "m_materialGroups"@)),
                    },
                ),
            }
        },
    }
}

/// Decodes a model from its resource: the data root, and the embedded meshes that the control
/// block lists.
pub fn decode_model(resource: &Resource) -> (r: Result<Model, MeshError>)
    ensures
        crate::error::outcome(r) == model_of(*resource),
{
    let root: &Value = match &resource.data {
        Ok(root) => root,
        Err(message) => {
            return Err(MeshError::Resource { path: "DATA".to_owned(), message: message.clone() });
        },
    };
    let lod: LodInfo = LodInfo::from_kv3(root);
    let ref_meshes: Vec<RefMesh> = read_refs(root, &lod);
    let material_groups: Vec<MaterialGroup> = read_groups(root);
    match read_embedded(resource, &lod) {
        Ok(embedded_meshes) => Ok(Model { embedded_meshes, ref_meshes, lod, material_groups }),
        Err(e) => Err(e),
    }
}

} // verus!
