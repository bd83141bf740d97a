use shaded_sprite::layout::{
    shaded_sheet_node_name, shaded_sheet_pipeline_config, shaded_sheet_sprite_node_name,
    sprite_instance_layout, vertex_layout, vertex_stride, BlendFactor, BlendOperation,
    CompareFunction, CullMode, FrontFace, VertexFormat,
};

#[test]
fn vertex_record_is_position_normal_uv_tangent() {
    let layout = vertex_layout();
    assert_eq!(layout.len(), 4);
    let names: Vec<&str> = layout.iter().map(|a| a.name).collect();
    assert_eq!(names, vec!["Vertex_Position", "Vertex_Normal", "Vertex_Uv", "Vertex_Tangent"]);
    let offsets: Vec<usize> = layout.iter().map(|a| a.offset).collect();
    assert_eq!(offsets, vec![0, 12, 24, 32]);
    assert_eq!(layout[3].format, VertexFormat::Float4);
    assert_eq!(layout[3].offset + layout[3].format.byte_size(), vertex_stride());
}

#[test]
fn vertex_record_is_tightly_packed() {
    let layout = vertex_layout();
    for w in layout.windows(2) {
        assert_eq!(w[0].offset + w[0].format.byte_size(), w[1].offset);
    }
}

#[test]
fn instance_record_is_color_then_index() {
    let layout = sprite_instance_layout();
    assert_eq!(layout.len(), 2);
    assert_eq!(layout[0].name, "ShadedAtlasSprite_color");
    assert_eq!(layout[0].offset, 0);
    assert_eq!(layout[0].format.byte_size(), 16);
    assert_eq!(layout[1].name, "ShadedAtlasSprite_index");
    assert_eq!(layout[1].offset, 16);
    assert_eq!(layout[1].format, VertexFormat::Uint);
}

#[test]
fn pipeline_blends_alpha_over_and_adds_the_secondary_channel() {
    let config = shaded_sheet_pipeline_config();
    assert_eq!(config.color_blend.src_factor, BlendFactor::SrcAlpha);
    assert_eq!(config.color_blend.dst_factor, BlendFactor::OneMinusSrcAlpha);
    assert_eq!(config.color_blend.operation, BlendOperation::Add);
    assert_eq!(config.alpha_blend.src_factor, BlendFactor::One);
    assert_eq!(config.alpha_blend.dst_factor, BlendFactor::One);
    assert_eq!(config.depth_compare, CompareFunction::Less);
    assert!(config.depth_write_enabled);
    assert_eq!(config.front_face, FrontFace::Ccw);
    assert_eq!(config.cull_mode, CullMode::NoCulling);
}

#[test]
fn node_names_are_fixed() {
    assert_eq!(shaded_sheet_node_name(), "shaded_sheet");
    assert_eq!(shaded_sheet_sprite_node_name(), "shaded_sheet_sprite");
}
