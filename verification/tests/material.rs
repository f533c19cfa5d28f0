use voxel_world::material::{
    chunk_material_options, normal_map_is_two_component, shader_flags, stack_texture_layers, AlphaBlend,
    ArrayTextureMaterialKey, ChunkLayer, Face, MaterialOptions, NormalMapFormat, ShaderFlags,
};

#[test]
fn default_material_is_fogged_and_opaque() {
    let options = MaterialOptions::default();
    assert_eq!(options.cull_mode, Some(Face::Back));
    let flags = shader_flags(&options, None);
    assert_eq!(
        flags,
        ShaderFlags {
            base_color_texture: false,
            emissive_texture: false,
            metallic_roughness_texture: false,
            occlusion_texture: false,
            double_sided: false,
            unlit: false,
            fog_enabled: true,
            two_component_normal_map: false,
            flip_normal_map_y: false,
            alpha_mode: AlphaBlend::Opaque,
        }
    );
}

#[test]
fn textures_switch_on_their_flags() {
    let options = MaterialOptions {
        has_emissive_texture: true,
        has_occlusion_texture: true,
        double_sided: true,
        unlit: true,
        fog_enabled: false,
        alpha_mode: AlphaBlend::Mask,
        ..MaterialOptions::default()
    };
    let flags = shader_flags(&options, None);
    assert!(flags.emissive_texture && flags.occlusion_texture && flags.double_sided && flags.unlit);
    assert!(!flags.base_color_texture && !flags.metallic_roughness_texture && !flags.fog_enabled);
    assert_eq!(flags.alpha_mode, AlphaBlend::Mask);
}

#[test]
fn normal_map_flags_need_a_normal_map() {
    let without = MaterialOptions { flip_normal_map_y: true, ..MaterialOptions::default() };
    let flags = shader_flags(&without, Some(NormalMapFormat::Rg8Unorm));
    assert!(!flags.flip_normal_map_y && !flags.two_component_normal_map);

    let with = MaterialOptions { has_normal_map_texture: true, flip_normal_map_y: true, ..MaterialOptions::default() };
    let flags = shader_flags(&with, Some(NormalMapFormat::Bc5RgUnorm));
    assert!(flags.flip_normal_map_y && flags.two_component_normal_map);
    let flags = shader_flags(&with, Some(NormalMapFormat::Other));
    assert!(flags.flip_normal_map_y && !flags.two_component_normal_map);
    // a normal map that is not loaded yet gives no format
    let flags = shader_flags(&with, None);
    assert!(!flags.two_component_normal_map);
}

#[test]
fn two_component_formats() {
    assert!(normal_map_is_two_component(NormalMapFormat::Rg8Unorm));
    assert!(normal_map_is_two_component(NormalMapFormat::Rg16Unorm));
    assert!(normal_map_is_two_component(NormalMapFormat::Bc5RgUnorm));
    assert!(normal_map_is_two_component(NormalMapFormat::EacRg11Unorm));
    assert!(!normal_map_is_two_component(NormalMapFormat::Other));
}

#[test]
fn pipeline_key_of_a_material() {
    let options = MaterialOptions { has_normal_map_texture: true, cull_mode: None, ..MaterialOptions::default() };
    let key = ArrayTextureMaterialKey::from_options(&options, -3);
    assert_eq!(key, ArrayTextureMaterialKey { normal_map: true, cull_mode: None, depth_bias: -3 });
}

#[test]
fn chunk_layers_use_the_block_texture_opaquely() {
    for layer in [ChunkLayer::Opaque, ChunkLayer::Transparent] {
        let options = chunk_material_options(layer);
        assert!(options.has_base_color_texture);
        assert_eq!(options.alpha_mode, AlphaBlend::Opaque);
        assert_eq!(options, MaterialOptions { has_base_color_texture: true, ..MaterialOptions::default() });
        let flags = shader_flags(&options, None);
        assert!(flags.base_color_texture && flags.fog_enabled);
    }
}

#[test]
fn layers_are_stacked_in_order() {
    let layers = vec![vec![1u8, 2, 3, 4], vec![], vec![5u8, 6, 7, 8]];
    assert_eq!(stack_texture_layers(&layers), vec![1, 2, 3, 4, 5, 6, 7, 8]);
    assert!(stack_texture_layers(&vec![]).is_empty());
}
