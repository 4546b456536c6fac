//! What values are as plain values: each part of a value is the same part of what stands for it.

use vstd::prelude::*;

verus! {

/// An `InputLayoutField` is seen part by part.
pub proof fn an_input_layout_field_is_seen_as_it_is(x: crate::buffer::InputLayoutField)
    ensures
        x@.semantic_name == x.semantic_name@,
        x@.semantic_index == x.semantic_index,
        x@.format == x.format,
        x@.offset == x.offset,
{
}

/// A `Buffer` is seen part by part.
pub proof fn a_buffer_is_seen_as_it_is(x: crate::buffer::Buffer)
    ensures
        x@.element_count == x.element_count,
        x@.element_size == x.element_size,
        x@.fields == crate::buffer::field_views(x.fields@),
        x@.data == x.data@,
        x@.compression == x.compression,
{
}

/// A `FogSource` is seen part by part.
pub proof fn a_fog_source_is_seen_as_it_is(x: crate::environment::FogSource)
    ensures
        x@.angles == x.angles,
        x@.brightness_scale == x.brightness_scale,
        x@.material == crate::text::opt_text(x.material),
        x@.direct_texture == crate::text::opt_text(x.direct_texture),
{
}

/// An `EnvironmentResult` is seen part by part.
pub proof fn an_environment_result_is_seen_as_it_is(x: crate::environment::EnvironmentResult)
    ensures
        x@.sky_json == crate::material::opt_view(x.sky_json),
        x@.sky_cube_bytes == crate::environment::opt_bytes(x.sky_cube_bytes),
        x@.sky_fallback_files == crate::native_texture::file_views(x.sky_fallback_files@),
        x@.fog_json == crate::material::opt_view(x.fog_json),
        x@.fog_cube_bytes == crate::environment::opt_bytes(x.fog_cube_bytes),
        x@.post_json == crate::material::opt_view(x.post_json),
        x@.lut_bytes == crate::environment::opt_bytes(x.lut_bytes),
        x@.missing == crate::text::texts(x.missing@),
{
}

/// A `SharedEntry` is seen part by part.
pub proof fn a_shared_entry_is_seen_as_it_is(x: crate::export::SharedEntry)
    ensures
        x@.key == x.key@,
        x@.index == x.index,
        x@.overlay == x.overlay,
        x@.material == x.material,
        x@.shared == x.shared,
{
}

/// A `ProbeEntry` is seen part by part.
pub proof fn a_probe_entry_is_seen_as_it_is(x: crate::export::ProbeEntry)
    ensures
        x@.key == x.key@,
        x@.index == x.index,
        x@.overlay == x.overlay,
        x@.geometry == x.geometry,
        x@.center == x.center,
{
}

/// A `MaterialEntry` is seen part by part.
pub proof fn a_material_entry_is_seen_as_it_is(x: crate::export::MaterialEntry)
    ensures
        x@.path == x.path@,
        x@.tint == x.tint@,
        x@.material == x.material,
{
}

/// A `KnownMaterial` is seen part by part.
pub proof fn a_known_material_is_seen_as_it_is(x: crate::export::KnownMaterial)
    ensures
        x@.raw == x.raw@,
        x@.resolved == x.resolved@,
{
}

/// A `Ctx` is seen part by part.
pub proof fn a_ctx_is_seen_as_it_is(x: crate::export::Ctx)
    ensures
        x@.builder == x.builder@,
        x@.catalog == x.catalog@,
        x@.report == x.report@,
        x@.models == x.models@,
        x@.materials == crate::export::known_views(x.materials@),
        x@.gltf_materials == crate::export::entry_views(x.gltf_materials@),
        x@.meshes == crate::export::shared_views(x.meshes@),
        x@.probe_geometries == crate::export::probe_views(x.probe_geometries@),
{
}

/// A `DrawGeometry` is seen part by part.
pub proof fn a_draw_geometry_is_seen_as_it_is(x: crate::geometry::DrawGeometry)
    ensures
        x@.indices == x.indices@,
        x@.positions == crate::attributes::triples(x.positions@),
        x@.normals == crate::attributes::normal_views(x.normals@),
        x@.uv0 == x.uv0@,
        x@.uv1 == crate::geometry::opt_list(x.uv1),
        x@.blend == crate::geometry::opt_list(x.blend),
{
}

/// A `TextureRequest` is seen part by part.
pub proof fn a_texture_request_is_seen_as_it_is(x: crate::gltf_material::TextureRequest)
    ensures
        x@.path == x.path@,
        x@.role == x.role,
        x@.color_space == x.color_space,
{
}

/// A `LightmapFile` is seen part by part.
pub proof fn a_lightmap_file_is_seen_as_it_is(x: crate::lightmaps::LightmapFile)
    ensures
        x@.file_name == x.file_name@,
        x@.bytes == x.bytes@,
        x@.format == x.format@,
        x@.width == x.width,
        x@.height == x.height,
        x@.mip_level == x.mip_level,
        x@.sha256 == x.sha256@,
        x@.byte_length == x.byte_length,
{
}

/// A `LightmapRequest` is seen part by part.
pub proof fn a_lightmap_request_is_seen_as_it_is(x: crate::lightmaps::LightmapRequest)
    ensures
        x@.path == x.path@,
        x@.name == x.name@,
        x@.level == x.level,
{
}

/// A `Red2Info` is seen part by part.
pub proof fn a_red2_info_is_seen_as_it_is(x: crate::material::Red2Info)
    ensures
        x@.unlit == x.unlit,
        x@.translucent == x.translucent,
        x@.diffuse_albedo_texture == crate::text::opt_text(x.diffuse_albedo_texture),
{
}

/// A `RawMaterial` is seen part by part.
pub proof fn a_raw_material_is_seen_as_it_is(x: crate::material::RawMaterial)
    ensures
        x@.shader == x.shader@,
        x@.int_params == x.int_params@,
        x@.float_params == x.float_params@,
        x@.vector_params == x.vector_params@,
        x@.texture_params == x.texture_params@,
        x@.int_attributes == x.int_attributes@,
        x@.red2 == x.red2@,
{
}

/// A `LayerBlend` is seen part by part.
pub proof fn a_layer_blend_is_seen_as_it_is(x: crate::material::LayerBlend)
    ensures
        x@.layer2_color == crate::text::opt_text(x.layer2_color),
        x@.layer2_normal == crate::text::opt_text(x.layer2_normal),
        x@.blend_modulation == crate::text::opt_text(x.blend_modulation),
{
}

/// An `EnvHeightParams` is seen part by part.
pub proof fn an_env_height_params_is_seen_as_it_is(x: crate::material::EnvHeightParams)
    ensures
        x@.height_texture == crate::text::opt_text(x.height_texture),
        x@.roughness_contrast == x.roughness_contrast,
        x@.roughness_brightness == x.roughness_brightness,
        x@.ao_levels == x.ao_levels,
        x@.metalness_enabled == x.metalness_enabled,
        x@.color_csb == x.color_csb,
        x@.color_tint == x.color_tint,
        x@.color_correction_mode == x.color_correction_mode,
        x@.tint_mask_contrast == x.tint_mask_contrast,
        x@.tint_mask_brightness == x.tint_mask_brightness,
        x@.uv_scale == x.uv_scale,
        x@.uv_offset == x.uv_offset,
        x@.normal_contrast == x.normal_contrast,
        x@.uv_rotation == x.uv_rotation,
{
}

/// An `EnvLayer2` is seen part by part.
pub proof fn an_env_layer2_is_seen_as_it_is(x: crate::material::EnvLayer2)
    ensures
        x@.color2 == crate::text::opt_text(x.color2),
        x@.normal2 == crate::text::opt_text(x.normal2),
        x@.height == x.height@,
        x@.height_scale1 == x.height_scale1,
        x@.height_zero_point1 == x.height_zero_point1,
        x@.height_scale2 == x.height_scale2,
        x@.height_zero_point2 == x.height_zero_point2,
        x@.blend_softness2 == x.blend_softness2,
        x@.facing2 == x.facing2,
        x@.unsupported == crate::material::text_pairs(x.unsupported@),
{
}

/// A `SelfIllum` is seen part by part.
pub proof fn a_self_illum_is_seen_as_it_is(x: crate::material::SelfIllum)
    ensures
        x@.texture == x.texture@,
        x@.scale == x.scale,
        x@.brightness == x.brightness,
        x@.tint == x.tint,
        x@.albedo_factor == x.albedo_factor,
{
}

/// A `ResolvedMaterial` is seen part by part.
pub proof fn a_resolved_material_is_seen_as_it_is(x: crate::material::ResolvedMaterial)
    ensures
        x@.shader == x.shader@,
        x@.base_color_texture == crate::text::opt_text(x.base_color_texture),
        x@.normal_texture == crate::text::opt_text(x.normal_texture),
        x@.constant_black == x.constant_black,
        x@.alpha_mode == x.alpha_mode,
        x@.alpha_cutoff == x.alpha_cutoff,
        x@.double_sided == x.double_sided,
        x@.unlit == x.unlit,
        x@.material_says_overlay == x.material_says_overlay,
        x@.mod2x == x.mod2x,
        x@.color_tint == x.color_tint,
        x@.model_tint_amount == x.model_tint_amount,
        x@.tint_mask == x.tint_mask,
        x@.tint_mask_texture == crate::text::opt_text(x.tint_mask_texture),
        x@.layers == crate::material::opt_view(x.layers),
        x@.ao_texture == crate::text::opt_text(x.ao_texture),
        x@.metalness == x.metalness@,
        x@.no_specular_at_full_roughness == x.no_specular_at_full_roughness,
        x@.fog_enabled == x.fog_enabled,
        x@.self_illum == crate::material::opt_view(x.self_illum),
        x@.env_layer2 == crate::material::opt_view(x.env_layer2),
        x@.env1 == crate::material::opt_view(x.env1),
        x@.base_color_alpha_meaning == x.base_color_alpha_meaning@,
{
}

/// A `DrawCall` is seen part by part.
pub proof fn a_draw_call_is_seen_as_it_is(x: crate::mesh::DrawCall)
    ensures
        x@.material_path == crate::text::opt_text(x.material_path),
        x@.is_triangle_list == x.is_triangle_list,
        x@.base_vertex == x.base_vertex,
        x@.start_index == x.start_index,
        x@.index_count == x.index_count,
        x@.vertex_count == x.vertex_count,
        x@.index_buffer == x.index_buffer,
        x@.vertex_buffers == x.vertex_buffers@,
        x@.tint_color == crate::mesh::triple(x.tint_color),
        x@.alpha == x.alpha,
        x@.flags == x.flags@,
        x@.has_baked_lighting_from_lightmap == x.has_baked_lighting_from_lightmap,
{
}

/// A `Mesh` is seen part by part.
pub proof fn a_mesh_is_seen_as_it_is(x: crate::mesh::Mesh)
    ensures
        x@.vertex_buffers == crate::buffer::buffer_views(x.vertex_buffers@),
        x@.index_buffers == crate::buffer::buffer_views(x.index_buffers@),
        x@.scene_objects == crate::mesh::scene_object_views(x.scene_objects@),
{
}

/// A `LodInfo` is seen part by part.
pub proof fn a_lod_info_is_seen_as_it_is(x: crate::model::LodInfo)
    ensures
        x@.mesh_lod_masks == x.mesh_lod_masks@,
        x@.switch_distances == x.switch_distances@,
        x@.combined_mask == x.combined_mask,
        x@.lowest_level == x.lowest_level,
        x@.available_levels == x.available_levels@,
{
}

/// A `RefMesh` is seen part by part.
pub proof fn a_ref_mesh_is_seen_as_it_is(x: crate::model::RefMesh)
    ensures
        x@.mesh_index == x.mesh_index,
        x@.mesh_path == x.mesh_path@,
        x@.lod_mask == x.lod_mask,
{
}

/// An `EmbeddedMesh` is seen part by part.
pub proof fn an_embedded_mesh_is_seen_as_it_is(x: crate::model::EmbeddedMesh)
    ensures
        x@.name == x.name@,
        x@.mesh_index == x.mesh_index,
        x@.lod_mask == x.lod_mask,
        x@.mesh == x.mesh@,
{
}

/// A `MaterialGroup` is seen part by part.
pub proof fn a_material_group_is_seen_as_it_is(x: crate::model::MaterialGroup)
    ensures
        x@.name == x.name@,
        x@.materials == crate::text::texts(x.materials@),
{
}

/// A `Model` is seen part by part.
pub proof fn a_model_is_seen_as_it_is(x: crate::model::Model)
    ensures
        x@.embedded_meshes == crate::model::embedded_views(x.embedded_meshes@),
        x@.ref_meshes == crate::model::ref_views(x.ref_meshes@),
        x@.lod == x.lod@,
        x@.material_groups == crate::model::group_views(x.material_groups@),
{
}

/// A `RawMip` is seen part by part.
pub proof fn a_raw_mip_is_seen_as_it_is(x: crate::native_texture::RawMip)
    ensures
        x@.width == x.width,
        x@.height == x.height,
        x@.bytes == x.bytes@,
{
}

/// A `TextureEntry` is seen part by part.
pub proof fn a_texture_entry_is_seen_as_it_is(x: crate::native_texture::TextureEntry)
    ensures
        x@.path == x.path@,
        x@.format == x.format,
        x@.color_space == x.color_space,
        x@.codec == x.codec,
        x@.file_name == x.file_name@,
        x@.sha12 == x.sha12@,
        x@.levels == x.levels@,
        x@.byte_length == x.byte_length,
        x@.hash == x.hash@,
{
}

/// A `Ranked` is seen part by part.
pub proof fn a_ranked_is_seen_as_it_is(x: crate::order::Ranked)
    ensures
        x@.count == x.count,
        x@.name == x.name@,
        x@.index == x.index,
{
}

/// A `PlannedDraw` is seen part by part.
pub proof fn a_planned_draw_is_seen_as_it_is(x: crate::place::PlannedDraw)
    ensures
        x@.index == x.index,
        x@.material == x.material@,
{
}

/// A `MeshPick` is seen part by part.
pub proof fn a_mesh_pick_is_seen_as_it_is(x: crate::place::MeshPick)
    ensures
        x@.key == x.key@,
        x@.at == x.at@,
{
}

/// A `VolumeFields` is seen part by part.
pub proof fn a_volume_fields_is_seen_as_it_is(x: crate::probes::VolumeFields)
    ensures
        x@.handshake == x.handshake,
        x@.level == x.level,
        x@.box_mins == x.box_mins@,
        x@.box_maxs == x.box_maxs@,
        x@.atlas_size == x.atlas_size@,
        x@.atlas_offset == x.atlas_offset@,
{
}

/// A `Report` is seen part by part.
pub proof fn a_report_is_seen_as_it_is(x: crate::report::Report)
    ensures
        x@.counts == x.counts,
        x@.per_material == crate::report::named_views(x.per_material@),
        x@.tools_dropped == crate::report::named_views(x.tools_dropped@),
        x@.missing_resources == crate::text::texts(x.missing_resources@),
        x@.class_stats == crate::report::named_views(x.class_stats@),
        x@.material_extras == crate::report::numbered_views(x.material_extras@),
        x@.hidden_entities == crate::json::json_views(x.hidden_entities@),
        x@.unlit_used == x.unlit_used,
{
}

/// A `WorldDoc` is seen part by part.
pub proof fn a_world_doc_is_seen_as_it_is(x: crate::world::WorldDoc)
    ensures
        x@.entity_lumps == crate::text::texts(x.entity_lumps@),
        x@.world_node_prefixes == crate::text::texts(x.world_node_prefixes@),
        x@.lightmap_uv_scale == x.lightmap_uv_scale@,
        x@.light_maps == crate::text::texts(x.light_maps@),
{
}

/// A `SceneObjectRaw` is seen part by part.
pub proof fn a_scene_object_raw_is_seen_as_it_is(x: crate::world::SceneObjectRaw)
    ensures
        x@.renderable_model == crate::text::opt_text(x.renderable_model),
        x@.renderable == crate::text::opt_text(x.renderable),
        x@.transform == x.transform@,
        x@.tint == x.tint@,
        x@.is_overlay == x.is_overlay,
        x@.overlay_render_order == x.overlay_render_order,
        x@.layer_index == x.layer_index,
        x@.light_probe_volume_handshake == x.light_probe_volume_handshake,
{
}

/// A `FragmentRaw` is seen part by part.
pub proof fn a_fragment_raw_is_seen_as_it_is(x: crate::world::FragmentRaw)
    ensures
        x@.draw_call_index == x.draw_call_index,
        x@.has_transform == x.has_transform,
        x@.tint == crate::mesh::triple(x.tint),
        x@.lod_group_mask == x.lod_group_mask,
        x@.lod_setup_index == x.lod_setup_index,
        x@.light_probe_volume_handshake == x.light_probe_volume_handshake,
{
}

/// An `AggregateRaw` is seen part by part.
pub proof fn an_aggregate_raw_is_seen_as_it_is(x: crate::world::AggregateRaw)
    ensures
        x@.renderable_model == crate::text::opt_text(x.renderable_model),
        x@.fragments == crate::world::fragment_views(x.fragments@),
        x@.fragment_transforms == crate::world::transform_views(x.fragment_transforms@),
{
}

/// A `WorldNodeRaw` is seen part by part.
pub proof fn a_world_node_raw_is_seen_as_it_is(x: crate::world::WorldNodeRaw)
    ensures
        x@.scene_objects == crate::world::object_views(x.scene_objects@),
        x@.aggregates == crate::world::aggregate_views(x.aggregates@),
        x@.layer_names == crate::text::texts(x.layer_names@),
{
}

/// A `FragmentPlacement` is seen part by part.
pub proof fn a_fragment_placement_is_seen_as_it_is(x: crate::world::FragmentPlacement)
    ensures
        x@.draw_call_index == x.draw_call_index,
        x@.transform == x.transform@,
        x@.tint == x.tint@,
        x@.light_probe_volume_handshake == x.light_probe_volume_handshake,
{
}

/// A list is seen item by item.
pub proof fn triples_are_seen_in_order(v: Seq<[u32; 3]>, i: int)
    requires
        0 <= i < v.len(),
    ensures
        crate::attributes::triples(v).len() == v.len(),
        crate::attributes::triples(v)[i] == v[i]@,
{
}

/// A list is seen item by item.
pub proof fn normal_views_are_seen_in_order(v: Seq<crate::attributes::Normal>, i: int)
    requires
        0 <= i < v.len(),
    ensures
        crate::attributes::normal_views(v).len() == v.len(),
        crate::attributes::normal_views(v)[i] == v[i]@,
{
}

/// A list is seen item by item.
pub proof fn field_views_are_seen_in_order(v: Seq<crate::buffer::InputLayoutField>, i: int)
    requires
        0 <= i < v.len(),
    ensures
        crate::buffer::field_views(v).len() == v.len(),
        crate::buffer::field_views(v)[i] == v[i]@,
{
}

/// A list is seen item by item.
pub proof fn buffer_views_are_seen_in_order(v: Seq<crate::buffer::Buffer>, i: int)
    requires
        0 <= i < v.len(),
    ensures
        crate::buffer::buffer_views(v).len() == v.len(),
        crate::buffer::buffer_views(v)[i] == v[i]@,
{
}

/// A list is seen item by item.
pub proof fn part_lists_are_seen_in_order(v: Seq<Vec<Option<u32>>>, i: int)
    requires
        0 <= i < v.len(),
    ensures
        crate::cables::part_lists(v).len() == v.len(),
        crate::cables::part_lists(v)[i] == v[i]@,
{
}

/// A list is seen item by item.
pub proof fn shared_views_are_seen_in_order(v: Seq<crate::export::SharedEntry>, i: int)
    requires
        0 <= i < v.len(),
    ensures
        crate::export::shared_views(v).len() == v.len(),
        crate::export::shared_views(v)[i] == v[i]@,
{
}

/// A list is seen item by item.
pub proof fn probe_views_are_seen_in_order(v: Seq<crate::export::ProbeEntry>, i: int)
    requires
        0 <= i < v.len(),
    ensures
        crate::export::probe_views(v).len() == v.len(),
        crate::export::probe_views(v)[i] == v[i]@,
{
}

/// A list is seen item by item.
pub proof fn material_entries_are_seen_in_order(v: Seq<crate::export::MaterialEntry>, i: int)
    requires
        0 <= i < v.len(),
    ensures
        crate::export::entry_views(v).len() == v.len(),
        crate::export::entry_views(v)[i] == v[i]@,
{
}

/// A list is seen item by item.
pub proof fn json_views_are_seen_in_order(v: Seq<crate::json::Json>, i: int)
    requires
        0 <= i < v.len(),
    ensures
        crate::json::json_views(v).len() == v.len(),
        crate::json::json_views(v)[i] == v[i]@,
{
}

/// A list is seen item by item.
pub proof fn request_views_are_seen_in_order(v: Seq<crate::lightmaps::LightmapRequest>, i: int)
    requires
        0 <= i < v.len(),
    ensures
        crate::lightmaps::request_views(v).len() == v.len(),
        crate::lightmaps::request_views(v)[i] == v[i]@,
{
}

/// A list is seen item by item.
pub proof fn draw_call_views_are_seen_in_order(v: Seq<crate::mesh::DrawCall>, i: int)
    requires
        0 <= i < v.len(),
    ensures
        crate::mesh::draw_call_views(v).len() == v.len(),
        crate::mesh::draw_call_views(v)[i] == v[i]@,
{
}

/// A list is seen item by item.
pub proof fn scene_object_views_are_seen_in_order(v: Seq<crate::mesh::SceneObject>, i: int)
    requires
        0 <= i < v.len(),
    ensures
        crate::mesh::scene_object_views(v).len() == v.len(),
        crate::mesh::scene_object_views(v)[i] == v[i]@,
{
}

/// A list is seen item by item.
pub proof fn embedded_views_are_seen_in_order(v: Seq<crate::model::EmbeddedMesh>, i: int)
    requires
        0 <= i < v.len(),
    ensures
        crate::model::embedded_views(v).len() == v.len(),
        crate::model::embedded_views(v)[i] == v[i]@,
{
}

/// A list is seen item by item.
pub proof fn ref_views_are_seen_in_order(v: Seq<crate::model::RefMesh>, i: int)
    requires
        0 <= i < v.len(),
    ensures
        crate::model::ref_views(v).len() == v.len(),
        crate::model::ref_views(v)[i] == v[i]@,
{
}

/// A list is seen item by item.
pub proof fn group_views_are_seen_in_order(v: Seq<crate::model::MaterialGroup>, i: int)
    requires
        0 <= i < v.len(),
    ensures
        crate::model::group_views(v).len() == v.len(),
        crate::model::group_views(v)[i] == v[i]@,
{
}

/// A list is seen item by item.
pub proof fn mip_views_are_seen_in_order(v: Seq<crate::native_texture::RawMip>, i: int)
    requires
        0 <= i < v.len(),
    ensures
        crate::native_texture::mip_views(v).len() == v.len(),
        crate::native_texture::mip_views(v)[i] == v[i]@,
{
}

/// A list is seen item by item.
pub proof fn texture_entries_are_seen_in_order(
    v: Seq<crate::native_texture::TextureEntry>,
    i: int,
)
    requires
        0 <= i < v.len(),
    ensures
        crate::native_texture::entry_views(v).len() == v.len(),
        crate::native_texture::entry_views(v)[i] == v[i]@,
{
}

/// A list is seen item by item.
pub proof fn rank_views_are_seen_in_order(v: Seq<crate::order::Ranked>, i: int)
    requires
        0 <= i < v.len(),
    ensures
        crate::order::rank_views(v).len() == v.len(),
        crate::order::rank_views(v)[i] == v[i]@,
{
}

/// A list is seen item by item.
pub proof fn plan_views_are_seen_in_order(v: Seq<crate::place::PlannedDraw>, i: int)
    requires
        0 <= i < v.len(),
    ensures
        crate::place::plan_views(v).len() == v.len(),
        crate::place::plan_views(v)[i] == v[i]@,
{
}

/// A list is seen item by item.
pub proof fn pick_views_are_seen_in_order(v: Seq<crate::place::MeshPick>, i: int)
    requires
        0 <= i < v.len(),
    ensures
        crate::place::pick_views(v).len() == v.len(),
        crate::place::pick_views(v)[i] == v[i]@,
{
}

/// A list is seen item by item.
pub proof fn texts_are_seen_in_order(v: Seq<String>, i: int)
    requires
        0 <= i < v.len(),
    ensures
        crate::text::texts(v).len() == v.len(),
        crate::text::texts(v)[i] == v[i]@,
{
}

/// A list is seen item by item.
pub proof fn fragment_views_are_seen_in_order(v: Seq<crate::world::FragmentRaw>, i: int)
    requires
        0 <= i < v.len(),
    ensures
        crate::world::fragment_views(v).len() == v.len(),
        crate::world::fragment_views(v)[i] == v[i]@,
{
}

/// A list is seen item by item.
pub proof fn transform_views_are_seen_in_order(v: Seq<crate::world::Transform>, i: int)
    requires
        0 <= i < v.len(),
    ensures
        crate::world::transform_views(v).len() == v.len(),
        crate::world::transform_views(v)[i] == v[i]@,
{
}

/// A list is seen item by item.
pub proof fn object_views_are_seen_in_order(v: Seq<crate::world::SceneObjectRaw>, i: int)
    requires
        0 <= i < v.len(),
    ensures
        crate::world::object_views(v).len() == v.len(),
        crate::world::object_views(v)[i] == v[i]@,
{
}

/// A list is seen item by item.
pub proof fn aggregate_views_are_seen_in_order(v: Seq<crate::world::AggregateRaw>, i: int)
    requires
        0 <= i < v.len(),
    ensures
        crate::world::aggregate_views(v).len() == v.len(),
        crate::world::aggregate_views(v)[i] == v[i]@,
{
}

/// A list is seen item by item.
pub proof fn placement_views_are_seen_in_order(v: Seq<crate::world::FragmentPlacement>, i: int)
    requires
        0 <= i < v.len(),
    ensures
        crate::world::placement_views(v).len() == v.len(),
        crate::world::placement_views(v)[i] == v[i]@,
{
}

/// A document is seen as what it holds, item by item and member by member.
pub proof fn a_document_is_seen_as_what_it_holds(j: crate::json::Json, i: int)
    ensures
        match j {
            crate::json::Json::Null => j@ == crate::json::JsonView::Null,
            crate::json::Json::Bool(b) => j@ == crate::json::JsonView::Bool(b),
            crate::json::Json::Int(n) => j@ == crate::json::JsonView::Int(n),
            crate::json::Json::UInt(n) => j@ == crate::json::JsonView::UInt(n),
            crate::json::Json::Single(f) => j@ == crate::json::JsonView::Single(f),
            crate::json::Json::Double(f) => j@ == crate::json::JsonView::Double(f),
            crate::json::Json::Str(s) => j@ == crate::json::JsonView::Str(s@),
            crate::json::Json::Array(v) => j@ matches crate::json::JsonView::Array(w) && w.len()
                == v@.len() && (0 <= i < v@.len() ==> w[i] == v@[i]@),
            crate::json::Json::Object(v) => j@ matches crate::json::JsonView::Object(w) && w.len()
                == v@.len() && (0 <= i < v@.len() ==> w[i].0 == v@[i].0@ && w[i].1 == v@[i].1@),
        },
{
}

/// Values that may be missing are seen where they are there.
pub proof fn what_may_be_missing_is_seen_where_it_is_there(
    s: Option<String>,
    j: Option<crate::json::Json>,
    t: Option<crate::world::Transform>,
    n: Option<[u32; 3]>,
    b: Option<Vec<u8>>,
)
    ensures
        s matches Some(x) ==> crate::text::opt_text(s) == Some(x@),
        s is None ==> crate::text::opt_text(s) is None,
        j matches Some(x) ==> crate::material::opt_view(j) == Some(x@),
        j is None ==> crate::material::opt_view(j) is None,
        t matches Some(x) ==> crate::world::opt_transform(t) == Some(x@),
        t is None ==> crate::world::opt_transform(t) is None,
        n matches Some(x) ==> crate::mesh::triple(n) == Some(x@),
        n is None ==> crate::mesh::triple(n) is None,
        b matches Some(x) ==> crate::environment::opt_bytes(b) == Some(x@),
        b is None ==> crate::environment::opt_bytes(b) is None,
{
}

/// Files, named values and numbered documents are seen pair by pair.
pub proof fn pairs_are_seen_in_order(
    f: Seq<(String, Vec<u8>)>,
    v: Seq<(String, u64)>,
    j: Seq<(u32, crate::json::Json)>,
    m: Seq<(String, crate::json::Json)>,
    i: int,
)
    ensures
        crate::native_texture::file_views(f).len() == f.len(),
        0 <= i < f.len() ==> crate::native_texture::file_views(f)[i] == (f[i].0@, f[i].1@),
        crate::report::named_views(v).len() == v.len(),
        0 <= i < v.len() ==> crate::report::named_views(v)[i] == (v[i].0@, v[i].1),
        crate::report::numbered_views(j).len() == j.len(),
        0 <= i < j.len() ==> crate::report::numbered_views(j)[i] == (j[i].0, j[i].1@),
        crate::json::member_views(m).len() == m.len(),
        0 <= i < m.len() ==> crate::json::member_views(m)[i] == (m[i].0@, m[i].1@),
{
}

/// A choice is seen as the same choice of plain values.
pub proof fn choices_are_seen_as_they_are(
    f: crate::mesh::DrawCallFlags,
    n: crate::attributes::Normal,
    s: crate::material::MetalnessSource,
)
    ensures
        match f {
            crate::mesh::DrawCallFlags::Unset => f@ == crate::mesh::FlagsView::Unset,
            crate::mesh::DrawCallFlags::Named(t) => f@ == crate::mesh::FlagsView::Named(t@),
            crate::mesh::DrawCallFlags::Int(i) => f@ == crate::mesh::FlagsView::Int(i),
        },
        match n {
            crate::attributes::Normal::Plain(t) => n@ == crate::attributes::NormalView::Plain(t@),
            crate::attributes::Normal::Bytes { normal, tangent, positive } => n@ == (
            crate::attributes::NormalView::Bytes { normal, tangent, positive }),
            crate::attributes::Normal::Frame { x, y, turn, positive } => n@ == (
            crate::attributes::NormalView::Frame { x, y, turn, positive }),
        },
        match s {
            crate::material::MetalnessSource::Texture(t) => s@
                == crate::material::MetalnessView::Texture(t@),
            crate::material::MetalnessSource::Scalar(v) => s@
                == crate::material::MetalnessView::Scalar(v),
        },
{
}

} // verus!
