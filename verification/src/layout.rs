//! Hand-written GPU buffer layout descriptors and the fixed render-pipeline
//! configuration this library supplies to the rendering collaborator.
//!
//! The vertex record is position, normal, UV, tangent — three, three, two and
//! four 32-bit scalars, in that order, tightly packed.  The sprite instance
//! record is the tint followed by the frame index.

use vstd::prelude::*;

verus! {

/// The scalar shape of one vertex attribute.
#[derive(Clone, Copy, PartialEq, Eq, Structural, Debug)]
pub enum VertexFormat {
    Float2,
    Float3,
    Float4,
    Uint,
}

impl VertexFormat {
    /// The attribute's size in bytes: each scalar is 32 bits wide.
    pub fn byte_size(&self) -> (r: usize)
        ensures
            r == self.size_spec(),
    {
        match self {
            VertexFormat::Float2 => 8,
            VertexFormat::Float3 => 12,
            VertexFormat::Float4 => 16,
            VertexFormat::Uint => 4,
        }
    }

    pub open spec fn size_spec(self) -> usize {
        match self {
            VertexFormat::Float2 => 8usize,
            VertexFormat::Float3 => 12usize,
            VertexFormat::Float4 => 16usize,
            VertexFormat::Uint => 4usize,
        }
    }
}

/// One attribute of a GPU-visible record: its name, byte offset and shape.
#[derive(Clone, Copy, Debug)]
pub struct AttributeLayout {
    pub name: &'static str,
    pub offset: usize,
    pub format: VertexFormat,
}

/// The vertex record's layout: position, normal, UV, tangent, tightly
/// packed, 48 bytes per vertex.
pub fn vertex_layout() -> (r: Vec<AttributeLayout>)
    ensures
        r@.len() == 4,
        r@[0].name@ == "Vertex_Position"@ && r@[0].offset == 0 && r@[0].format
            == VertexFormat::Float3,
        r@[1].name@ == "Vertex_Normal"@ && r@[1].offset == 12 && r@[1].format
            == VertexFormat::Float3,
        r@[2].name@ == "Vertex_Uv"@ && r@[2].offset == 24 && r@[2].format == VertexFormat::Float2,
        r@[3].name@ == "Vertex_Tangent"@ && r@[3].offset == 32 && r@[3].format
            == VertexFormat::Float4,
        forall|i: int|
            0 < i < 4 ==> (#[trigger] r@[i]).offset == r@[i - 1].offset + r@[i
                - 1].format.size_spec(),
{
    let mut r: Vec<AttributeLayout> = Vec::new();
    r.push(AttributeLayout { name: "Vertex_Position", offset: 0, format: VertexFormat::Float3 });
    r.push(AttributeLayout { name: "Vertex_Normal", offset: 12, format: VertexFormat::Float3 });
    r.push(AttributeLayout { name: "Vertex_Uv", offset: 24, format: VertexFormat::Float2 });
    r.push(AttributeLayout { name: "Vertex_Tangent", offset: 32, format: VertexFormat::Float4 });
    r
}

/// The byte stride of one packed vertex record.
pub fn vertex_stride() -> (r: usize)
    ensures
        r == 48,
{
    48
}

/// The sprite instance record's layout: the tint (four 32-bit components)
/// then the frame index, 20 bytes per instance.
pub fn sprite_instance_layout() -> (r: Vec<AttributeLayout>)
    ensures
        r@.len() == 2,
        r@[0].name@ == "ShadedAtlasSprite_color"@ && r@[0].offset == 0 && r@[0].format
            == VertexFormat::Float4,
        r@[1].name@ == "ShadedAtlasSprite_index"@ && r@[1].offset == 16 && r@[1].format
            == VertexFormat::Uint,
{
    let mut r: Vec<AttributeLayout> = Vec::new();
    r.push(
        AttributeLayout { name: "ShadedAtlasSprite_color", offset: 0, format: VertexFormat::Float4 },
    );
    r.push(
        AttributeLayout { name: "ShadedAtlasSprite_index", offset: 16, format: VertexFormat::Uint },
    );
    r
}

#[derive(Clone, Copy, PartialEq, Eq, Structural, Debug)]
pub enum BlendFactor {
    One,
    SrcAlpha,
    OneMinusSrcAlpha,
}

#[derive(Clone, Copy, PartialEq, Eq, Structural, Debug)]
pub enum BlendOperation {
    Add,
}

#[derive(Clone, Copy, PartialEq, Eq, Structural, Debug)]
pub enum CompareFunction {
    Less,
}

#[derive(Clone, Copy, PartialEq, Eq, Structural, Debug)]
pub enum FrontFace {
    Ccw,
}

#[derive(Clone, Copy, PartialEq, Eq, Structural, Debug)]
pub enum CullMode {
    NoCulling,
}

#[derive(Clone, Copy, PartialEq, Eq, Structural, Debug)]
pub struct BlendState {
    pub src_factor: BlendFactor,
    pub dst_factor: BlendFactor,
    pub operation: BlendOperation,
}

/// The fixed rasterization, blend and depth configuration of the sprite
/// pipeline.
#[derive(Clone, Copy, PartialEq, Eq, Structural, Debug)]
pub struct PipelineConfig {
    pub color_blend: BlendState,
    pub alpha_blend: BlendState,
    pub depth_compare: CompareFunction,
    pub depth_write_enabled: bool,
    pub front_face: FrontFace,
    pub cull_mode: CullMode,
}

/// Alpha blending over the color channel, additive over the alpha channel,
/// depth test `Less` with depth writes, counter-clockwise front faces and no
/// culling.
pub fn shaded_sheet_pipeline_config() -> (r: PipelineConfig)
    ensures
        r.color_blend == (BlendState {
            src_factor: BlendFactor::SrcAlpha,
            dst_factor: BlendFactor::OneMinusSrcAlpha,
            operation: BlendOperation::Add,
        }),
        r.alpha_blend == (BlendState {
            src_factor: BlendFactor::One,
            dst_factor: BlendFactor::One,
            operation: BlendOperation::Add,
        }),
        r.depth_compare == CompareFunction::Less,
        r.depth_write_enabled,
        r.front_face == FrontFace::Ccw,
        r.cull_mode == CullMode::NoCulling,
{
    PipelineConfig {
        color_blend: BlendState {
            src_factor: BlendFactor::SrcAlpha,
            dst_factor: BlendFactor::OneMinusSrcAlpha,
            operation: BlendOperation::Add,
        },
        alpha_blend: BlendState {
            src_factor: BlendFactor::One,
            dst_factor: BlendFactor::One,
            operation: BlendOperation::Add,
        },
        depth_compare: CompareFunction::Less,
        depth_write_enabled: true,
        front_face: FrontFace::Ccw,
        cull_mode: CullMode::NoCulling,
    }
}

/// The render-graph node that streams atlas data.
pub fn shaded_sheet_node_name() -> (r: &'static str)
    ensures
        r@ == "shaded_sheet"@,
{
    "shaded_sheet"
}

/// The render-graph node that streams per-instance sprite data.
pub fn shaded_sheet_sprite_node_name() -> (r: &'static str)
    ensures
        r@ == "shaded_sheet_sprite"@,
{
    "shaded_sheet_sprite"
}

} // verus!
