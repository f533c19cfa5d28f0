use vstd::prelude::*;

verus! {

/// A face of a triangle, as the renderer culls it.
#[derive(Clone, Copy, Debug, PartialEq, Eq, Hash, Structural)]
pub enum Face {
    Front,
    Back,
}

/// How the material's alpha channel is used. A mask's cutoff is a float and
/// is carried beside the material's options, not in them.
#[derive(Clone, Copy, Debug, PartialEq, Eq, Structural)]
pub enum AlphaBlend {
    Opaque,
    Mask,
    Blend,
    Premultiplied,
    Add,
    Multiply,
}

/// The format of a loaded normal map texture, as far as the material tells
/// formats apart: the two-component unorm formats by name, any other format
/// as `Other`.
#[derive(Clone, Copy, Debug, PartialEq, Eq, Structural)]
pub enum NormalMapFormat {
    Rg8Unorm,
    Rg16Unorm,
    Bc5RgUnorm,
    EacRg11Unorm,
    Other,
}

/// The plain (non-colour, non-float) settings of an array-texture material:
/// which textures it has and how it is drawn.
#[derive(Clone, Copy, Debug, PartialEq, Eq, Structural)]
pub struct MaterialOptions {
    pub has_base_color_texture: bool,
    pub has_emissive_texture: bool,
    pub has_metallic_roughness_texture: bool,
    pub has_occlusion_texture: bool,
    pub has_normal_map_texture: bool,
    pub flip_normal_map_y: bool,
    pub double_sided: bool,
    pub cull_mode: Option<Face>,
    pub unlit: bool,
    pub fog_enabled: bool,
    pub alpha_mode: AlphaBlend,
}

/// The settings of a new material: no textures, back faces culled, lit,
/// fogged and opaque.
pub open spec fn default_options() -> MaterialOptions {
    MaterialOptions {
        has_base_color_texture: false,
        has_emissive_texture: false,
        has_metallic_roughness_texture: false,
        has_occlusion_texture: false,
        has_normal_map_texture: false,
        flip_normal_map_y: false,
        double_sided: false,
        cull_mode: Some(Face::Back),
        unlit: false,
        fog_enabled: true,
        alpha_mode: AlphaBlend::Opaque,
    }
}

impl Default for MaterialOptions {
    fn default() -> (options: Self)
        ensures
            options == default_options(),
            !options.has_base_color_texture,
            !options.has_emissive_texture,
            !options.has_metallic_roughness_texture,
            !options.has_occlusion_texture,
            !options.has_normal_map_texture,
            !options.flip_normal_map_y,
            !options.double_sided,
            options.cull_mode == Some(Face::Back),
            !options.unlit,
            options.fog_enabled,
            options.alpha_mode == AlphaBlend::Opaque,
    {
        MaterialOptions {
            has_base_color_texture: false,
            has_emissive_texture: false,
            has_metallic_roughness_texture: false,
            has_occlusion_texture: false,
            has_normal_map_texture: false,
            flip_normal_map_y: false,
            double_sided: false,
            cull_mode: Some(Face::Back),
            unlit: false,
            fog_enabled: true,
            alpha_mode: AlphaBlend::Opaque,
        }
    }
}

/// The flags of the material's shader uniform, one per feature the shader
/// switches on, and the alpha mode it blends with.
#[derive(Clone, Copy, Debug, PartialEq, Eq, Structural)]
pub struct ShaderFlags {
    pub base_color_texture: bool,
    pub emissive_texture: bool,
    pub metallic_roughness_texture: bool,
    pub occlusion_texture: bool,
    pub double_sided: bool,
    pub unlit: bool,
    pub fog_enabled: bool,
    pub two_component_normal_map: bool,
    pub flip_normal_map_y: bool,
    pub alpha_mode: AlphaBlend,
}

/// The formats that store a normal map in two components.
pub open spec fn is_two_component(format: NormalMapFormat) -> bool {
    format != NormalMapFormat::Other
}

/// Whether a normal map of this format stores only two components.
pub fn normal_map_is_two_component(format: NormalMapFormat) -> (two: bool)
    ensures
        two == is_two_component(format),
        two == (format == NormalMapFormat::Rg8Unorm || format == NormalMapFormat::Rg16Unorm || format
            == NormalMapFormat::Bc5RgUnorm || format == NormalMapFormat::EacRg11Unorm),
{
    match format {
        NormalMapFormat::Rg8Unorm | NormalMapFormat::Rg16Unorm | NormalMapFormat::Bc5RgUnorm
        | NormalMapFormat::EacRg11Unorm => true,
        NormalMapFormat::Other => false,
    }
}

/// The shader flags of a material. `normal_map_format` is the format of its
/// normal map texture when that texture is loaded, `None` otherwise. Each
/// texture the material has switches on its flag; the normal map's flags
/// are set only when the material has a normal map.
pub fn shader_flags(options: &MaterialOptions, normal_map_format: Option<NormalMapFormat>) -> (flags: ShaderFlags)
    ensures
        flags.base_color_texture == options.has_base_color_texture,
        flags.emissive_texture == options.has_emissive_texture,
        flags.metallic_roughness_texture == options.has_metallic_roughness_texture,
        flags.occlusion_texture == options.has_occlusion_texture,
        flags.double_sided == options.double_sided,
        flags.unlit == options.unlit,
        flags.fog_enabled == options.fog_enabled,
        flags.two_component_normal_map == (options.has_normal_map_texture && match normal_map_format {
            Some(format) => is_two_component(format),
            None => false,
        }),
        flags.two_component_normal_map == (options.has_normal_map_texture && match normal_map_format {
            Some(format) => format != NormalMapFormat::Other,
            None => false,
        }),
        flags.flip_normal_map_y == (options.has_normal_map_texture && options.flip_normal_map_y),
        flags.alpha_mode == options.alpha_mode,
{
    let mut flags = ShaderFlags {
        base_color_texture: false,
        emissive_texture: false,
        metallic_roughness_texture: false,
        occlusion_texture: false,
        double_sided: false,
        unlit: false,
        fog_enabled: false,
        two_component_normal_map: false,
        flip_normal_map_y: false,
        alpha_mode: options.alpha_mode,
    };
    if options.has_base_color_texture {
        flags.base_color_texture = true;
    }
    if options.has_emissive_texture {
        flags.emissive_texture = true;
    }
    if options.has_metallic_roughness_texture {
        flags.metallic_roughness_texture = true;
    }
    if options.has_occlusion_texture {
        flags.occlusion_texture = true;
    }
    if options.double_sided {
        flags.double_sided = true;
    }
    if options.unlit {
        flags.unlit = true;
    }
    if options.fog_enabled {
        flags.fog_enabled = true;
    }
    if options.has_normal_map_texture {
        if let Some(format) = normal_map_format {
            if normal_map_is_two_component(format) {
                flags.two_component_normal_map = true;
            }
        }
        if options.flip_normal_map_y {
            flags.flip_normal_map_y = true;
        }
    }
    flags
}

/// What distinguishes one render pipeline of the material from another.
#[derive(Clone, Copy, Debug, PartialEq, Eq, Hash, Structural)]
pub struct ArrayTextureMaterialKey {
    pub normal_map: bool,
    pub cull_mode: Option<Face>,
    pub depth_bias: i32,
}

impl ArrayTextureMaterialKey {
    /// The pipeline key of a material; `depth_bias` is the material's depth
    /// bias already converted to an integer.
    pub fn from_options(options: &MaterialOptions, depth_bias: i32) -> (key: Self)
        ensures
            key.normal_map == options.has_normal_map_texture,
            key.cull_mode == options.cull_mode,
            key.depth_bias == depth_bias,
    {
        ArrayTextureMaterialKey {
            normal_map: options.has_normal_map_texture,
            cull_mode: options.cull_mode,
            depth_bias,
        }
    }
}

/// The two materials a chunk is drawn with.
#[derive(Clone, Copy, Debug, PartialEq, Eq, Structural)]
pub enum ChunkLayer {
    Opaque,
    Transparent,
}

/// The settings of a chunk material: a new material with the block texture
/// array as its base colour texture. Both layers are drawn opaque, since
/// alpha blending does not work with the array texture.
pub fn chunk_material_options(layer: ChunkLayer) -> (options: MaterialOptions)
    ensures
        options == (MaterialOptions { has_base_color_texture: true, ..default_options() }),
        options.has_base_color_texture,
        !options.has_emissive_texture,
        !options.has_metallic_roughness_texture,
        !options.has_occlusion_texture,
        !options.has_normal_map_texture,
        !options.flip_normal_map_y,
        !options.double_sided,
        options.cull_mode == Some(Face::Back),
        !options.unlit,
        options.fog_enabled,
        options.alpha_mode == AlphaBlend::Opaque,
{
    let _ = layer;
    let mut options = MaterialOptions::default();
    options.has_base_color_texture = true;
    options.alpha_mode = AlphaBlend::Opaque;
    options
}

/// The pixel data of a texture array: the layers' data one after another,
/// in the order of the layers.
pub fn stack_texture_layers(layers: &Vec<Vec<u8>>) -> (data: Vec<u8>)
    ensures
        data@ == layers@.map_values(|layer: Vec<u8>| layer@).flatten(),
{
    let mut data: Vec<u8> = Vec::new();
    let mut i: usize = 0;
    while i < layers.len()
        invariant
            i <= layers.len(),
            data@ == layers@.take(i as int).map_values(|layer: Vec<u8>| layer@).flatten(),
        decreases layers.len() - i,
    {
        let ghost before = data@;
        data.extend_from_slice(layers[i].as_slice());
        proof {
            assert(data@ =~= before + layers[i as int]@);
            assert(layers@.take(i + 1).map_values(|layer: Vec<u8>| layer@) =~= layers@.take(
                i as int,
            ).map_values(|layer: Vec<u8>| layer@).push(layers[i as int]@));
            layers@.take(i as int).map_values(|layer: Vec<u8>| layer@).lemma_flatten_push(layers[i as int]@);
        }
        i = i + 1;
    }
    assert(layers@.take(layers.len() as int) =~= layers@);
    data
}

/// A new material has no textures, does not flip its normal map's Y
/// channel, is single-sided with back faces culled, lit, fogged and opaque.
pub proof fn lemma_default_settings()
    ensures
        !default_options().has_base_color_texture,
        !default_options().has_emissive_texture,
        !default_options().has_metallic_roughness_texture,
        !default_options().has_occlusion_texture,
        !default_options().has_normal_map_texture,
        !default_options().flip_normal_map_y,
        !default_options().double_sided,
        default_options().cull_mode == Some(Face::Back),
        !default_options().unlit,
        default_options().fog_enabled,
        default_options().alpha_mode == AlphaBlend::Opaque,
{
}

/// A material stores its normal map in two components exactly when the map
/// has one of the two-component unorm formats.
pub proof fn lemma_two_component_formats(format: NormalMapFormat)
    ensures
        is_two_component(format) <==> (format == NormalMapFormat::Rg8Unorm || format == NormalMapFormat::Rg16Unorm
            || format == NormalMapFormat::Bc5RgUnorm || format == NormalMapFormat::EacRg11Unorm),
{
}

} // verus!
