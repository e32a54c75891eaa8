use vstd::prelude::*;

verus! {

/// `VK_PRIMITIVE_TOPOLOGY_TRIANGLE_LIST`.
pub const TOPOLOGY_TRIANGLE_LIST: i32 = 3;
/// `VK_PRIMITIVE_TOPOLOGY_TRIANGLE_STRIP`.
pub const TOPOLOGY_TRIANGLE_STRIP: i32 = 4;
/// `VK_CULL_MODE_BACK_BIT`.
pub const CULL_MODE_BACK: u32 = 2;
/// `VK_CULL_MODE_NONE`.
pub const CULL_MODE_NONE: u32 = 0;
/// `VK_FRONT_FACE_COUNTER_CLOCKWISE`.
pub const FRONT_FACE_COUNTER_CLOCKWISE: i32 = 0;
/// `VK_FRONT_FACE_CLOCKWISE`.
pub const FRONT_FACE_CLOCKWISE: i32 = 1;
/// `VK_SAMPLE_COUNT_1_BIT`.
pub const SAMPLE_COUNT_1: u32 = 1;
/// `VK_COLOR_COMPONENT_R_BIT | G | B | A`.
pub const COLOR_COMPONENT_RGBA: u32 = 15;
/// `VK_LOGIC_OP_COPY`.
pub const LOGIC_OP_COPY: i32 = 3;
/// `VK_COMPARE_OP_NEVER`, the default.
pub const COMPARE_OP_NEVER: i32 = 0;
/// `VK_COMPARE_OP_LESS`.
pub const COMPARE_OP_LESS: i32 = 1;

/// How a depth buffer is used. The depth bounds are `0.0` to `1.0` once the
/// depth test is on, both `0.0` before.
#[derive(Clone, Copy)]
pub struct DepthStencilSettings {
    pub depth_test: bool,
    pub depth_write: bool,
    pub depth_compare_op: i32,
    pub depth_bounds_test: bool,
    pub stencil_test: bool,
}

/// The fixed-function settings of a graphics pipeline, other than its shaders,
/// viewport and layout. Line width and minimum sample shading are `1.0`, depth
/// bias factors `0.0`.
pub struct GraphicsPipelineInfoBuilder {
    pub topology: i32,
    pub primitive_restart: bool,
    pub depth_clamp: bool,
    pub rasterizer_discard: bool,
    pub cull_mode: u32,
    pub front_face: i32,
    pub depth_bias: bool,
    pub sample_shading: bool,
    pub rasterization_samples: u32,
    pub alpha_to_coverage: bool,
    pub alpha_to_one: bool,
    pub color_write_mask: u32,
    pub blend: bool,
    pub logic_op: i32,
    pub depth_stencil: DepthStencilSettings,
}

impl GraphicsPipelineInfoBuilder {
    /// Triangle lists, back faces culled, counter-clockwise front faces, one
    /// sample per pixel, all colors written without blending, no depth test.
    pub fn new() -> (b: Self)
        ensures
            b.topology == TOPOLOGY_TRIANGLE_LIST && !b.primitive_restart,
            !b.depth_clamp && !b.rasterizer_discard,
            b.cull_mode == CULL_MODE_BACK && b.front_face == FRONT_FACE_COUNTER_CLOCKWISE,
            !b.depth_bias && !b.sample_shading && b.rasterization_samples == SAMPLE_COUNT_1,
            !b.alpha_to_coverage && !b.alpha_to_one,
            b.color_write_mask == COLOR_COMPONENT_RGBA && !b.blend && b.logic_op == LOGIC_OP_COPY,
            b.depth_stencil == (DepthStencilSettings {
                depth_test: false, depth_write: false, depth_compare_op: COMPARE_OP_NEVER,
                depth_bounds_test: false, stencil_test: false,
            }),
    {
        GraphicsPipelineInfoBuilder {
            topology: TOPOLOGY_TRIANGLE_LIST,
            primitive_restart: false,
            depth_clamp: false,
            rasterizer_discard: false,
            cull_mode: CULL_MODE_BACK,
            front_face: FRONT_FACE_COUNTER_CLOCKWISE,
            depth_bias: false,
            sample_shading: false,
            rasterization_samples: SAMPLE_COUNT_1,
            alpha_to_coverage: false,
            alpha_to_one: false,
            color_write_mask: COLOR_COMPONENT_RGBA,
            blend: false,
            logic_op: LOGIC_OP_COPY,
            depth_stencil: DepthStencilSettings {
                depth_test: false,
                depth_write: false,
                depth_compare_op: COMPARE_OP_NEVER,
                depth_bounds_test: false,
                stencil_test: false,
            },
        }
    }

    /// The settings of `new`, but with no face culled and clockwise front
    /// faces, as the triangle and mesh pipelines are drawn.
    pub fn without_culling() -> (b: Self)
        ensures
            b.topology == TOPOLOGY_TRIANGLE_LIST && !b.primitive_restart,
            !b.depth_clamp && !b.rasterizer_discard,
            b.cull_mode == CULL_MODE_NONE && b.front_face == FRONT_FACE_CLOCKWISE,
            !b.depth_bias && !b.sample_shading && b.rasterization_samples == SAMPLE_COUNT_1,
            !b.alpha_to_coverage && !b.alpha_to_one,
            b.color_write_mask == COLOR_COMPONENT_RGBA && !b.blend && b.logic_op == LOGIC_OP_COPY,
            b.depth_stencil == (DepthStencilSettings {
                depth_test: false, depth_write: false, depth_compare_op: COMPARE_OP_NEVER,
                depth_bounds_test: false, stencil_test: false,
            }),
    {
        let mut b = Self::new();
        b.cull_mode = CULL_MODE_NONE;
        b.front_face = FRONT_FACE_CLOCKWISE;
        b
    }

    /// Switches to triangle strips with primitive restart, as OBJ meshes are drawn.
    pub fn set_obj_compatible(&mut self) -> (r: &mut Self)
        ensures
            r.topology == TOPOLOGY_TRIANGLE_STRIP,
            r.primitive_restart,
            *r == (GraphicsPipelineInfoBuilder { topology: TOPOLOGY_TRIANGLE_STRIP, primitive_restart: true, ..*old(self) }),
            *final(self) == *final(r),
    {
        self.topology = TOPOLOGY_TRIANGLE_STRIP;
        self.primitive_restart = true;
        self
    }

    /// Turns on the depth test: nearer fragments pass and are written.
    pub fn set_depth_stencil(&mut self) -> (r: &mut Self)
        ensures
            *r == (GraphicsPipelineInfoBuilder {
                depth_stencil: DepthStencilSettings {
                    depth_test: true, depth_write: true, depth_compare_op: COMPARE_OP_LESS,
                    depth_bounds_test: false, stencil_test: false,
                },
                ..*old(self)
            }),
            *final(self) == *final(r),
    {
        self.depth_stencil = DepthStencilSettings {
            depth_test: true,
            depth_write: true,
            depth_compare_op: COMPARE_OP_LESS,
            depth_bounds_test: false,
            stencil_test: false,
        };
        self
    }
}

} // verus!
