//! Descriptions of GPU resources and fixed-function state for the render
//! hardware interface: plain data that a device turns into resources.
//! The device and command-buffer interfaces themselves, and the pipeline and
//! rasterizer descriptions (which carry shaders as trait objects and depth
//! bias as floats), live with the renderer outside this library.

use vstd::prelude::*;

verus! {

/// Description of a buffer.
#[derive(Debug, Clone)]
pub struct BufferDesc {
    pub size: u64,
    pub usage: BufferUsage,
    pub memory_type: MemoryType,
}

#[derive(Debug, Clone, Copy, PartialEq, Eq, Structural)]
pub enum BufferUsage {
    Vertex,
    Index,
    Uniform,
    Storage,
    Constant,
}

#[derive(Debug, Clone, Copy, PartialEq, Eq, Structural)]
pub enum MemoryType {
    /// Reachable by the GPU only (fast).
    DeviceLocal,
    /// Reachable by CPU and GPU (slower for the GPU).
    HostVisible,
    /// Written by the CPU, copied to the GPU.
    Upload,
}

/// Description of a texture.
#[derive(Debug, Clone)]
pub struct TextureDesc {
    pub width: u32,
    pub height: u32,
    pub depth: u32,
    pub format: TextureFormat,
    pub usage: TextureUsage,
    pub mip_levels: u32,
    pub array_layers: u32,
}

#[derive(Debug, Clone, Copy, PartialEq, Eq, Structural)]
pub enum TextureFormat {
    RGBA8Unorm,
    RGBA8Srgb,
    BGRA8Unorm,
    BGRA8Srgb,
    R32Float,
    R32G32Float,
    R32G32B32Float,
    R32G32B32A32Float,
    D24UnormS8Uint,
    D32FloatS8Uint,
}

#[derive(Debug, Clone, Copy, PartialEq, Eq, Structural)]
pub enum TextureUsage {
    Sampled,
    Storage,
    ColorAttachment,
    DepthStencilAttachment,
    TransferSrc,
    TransferDst,
}

/// Description of a shader.
#[derive(Debug, Clone)]
pub struct ShaderDesc {
    pub stage: ShaderStage,
    /// SPIR-V bytecode.
    pub code: Vec<u32>,
    pub entry_point: String,
}

#[derive(Debug, Clone, Copy, PartialEq, Eq, Structural)]
pub enum ShaderStage {
    Vertex,
    Fragment,
    Geometry,
    Compute,
    Hull,
    Domain,
}

/// Layout of the vertex input.
#[derive(Debug, Clone)]
pub struct InputLayout {
    pub elements: Vec<InputElement>,
}

#[derive(Debug, Clone)]
pub struct InputElement {
    pub semantic: String,
    pub format: InputFormat,
    pub offset: u32,
    pub binding: u32,
}

#[derive(Debug, Clone, Copy, PartialEq, Eq, Structural)]
pub enum InputFormat {
    Float,
    Float2,
    Float3,
    Float4,
    Byte4,
    UByte4,
    Short2,
    UShort2,
    Short4,
    UShort4,
}

#[derive(Debug, Clone, Copy, PartialEq, Eq, Structural)]
pub enum FillMode {
    Solid,
    Wireframe,
}

#[derive(Debug, Clone, Copy, PartialEq, Eq, Structural)]
pub enum CullMode {
    /// Draw both faces.
    NoCull,
    Front,
    Back,
}

#[derive(Debug, Clone, Copy, PartialEq, Eq, Structural)]
pub enum FrontFace {
    Clockwise,
    CounterClockwise,
}

#[derive(Debug, Clone)]
pub struct BlendState {
    pub render_targets: Vec<RenderTargetBlendDesc>,
}

#[derive(Debug, Clone)]
pub struct RenderTargetBlendDesc {
    pub blend_enable: bool,
    pub src_blend: Blend,
    pub dest_blend: Blend,
    pub blend_op: BlendOp,
    pub src_blend_alpha: Blend,
    pub dest_blend_alpha: Blend,
    pub blend_op_alpha: BlendOp,
    pub render_target_write_mask: u8,
}

#[derive(Debug, Clone, Copy, PartialEq, Eq, Structural)]
pub enum Blend {
    Zero,
    One,
    SrcColor,
    InvSrcColor,
    SrcAlpha,
    InvSrcAlpha,
    DestAlpha,
    InvDestAlpha,
    DestColor,
    InvDestColor,
    SrcAlphaSat,
    BlendFactor,
    InvBlendFactor,
    Src1Color,
    InvSrc1Color,
    Src1Alpha,
    InvSrc1Alpha,
}

#[derive(Debug, Clone, Copy, PartialEq, Eq, Structural)]
pub enum BlendOp {
    Add,
    Subtract,
    RevSubtract,
    Min,
    Max,
}

#[derive(Debug, Clone)]
pub struct DepthStencilState {
    pub depth_enable: bool,
    pub depth_write_mask: DepthWriteMask,
    pub depth_func: ComparisonFunc,
    pub stencil_enable: bool,
    pub stencil_read_mask: u8,
    pub stencil_write_mask: u8,
    pub front_face: StencilOpDesc,
    pub back_face: StencilOpDesc,
}

#[derive(Debug, Clone, Copy, PartialEq, Eq, Structural)]
pub enum DepthWriteMask {
    Zero,
    All,
}

#[derive(Debug, Clone, Copy, PartialEq, Eq, Structural)]
pub enum ComparisonFunc {
    Never,
    Less,
    Equal,
    LessEqual,
    Greater,
    NotEqual,
    GreaterEqual,
    Always,
}

#[derive(Debug, Clone)]
pub struct StencilOpDesc {
    pub stencil_fail_op: StencilOp,
    pub stencil_depth_fail_op: StencilOp,
    pub stencil_pass_op: StencilOp,
    pub stencil_func: ComparisonFunc,
}

#[derive(Debug, Clone, Copy, PartialEq, Eq, Structural)]
pub enum StencilOp {
    Keep,
    Zero,
    Replace,
    IncrSat,
    DecrSat,
    Invert,
    Incr,
    Decr,
}

#[derive(Debug, Clone, Copy, PartialEq, Eq, Structural)]
pub enum PrimitiveTopology {
    TriangleList,
    TriangleStrip,
    LineList,
    LineStrip,
    PointList,
}

/// Error of a render device.
#[derive(Debug)]
pub enum RHIError {
    InvalidArgument(String),
    OutOfMemory,
    DeviceLost,
    InitializationFailed(String),
}

#[derive(Debug, Clone, Copy, PartialEq, Eq, Structural)]
pub enum IndexFormat {
    Uint16,
    Uint32,
}

/// A view through which a render target is cleared.
pub trait RenderTargetView {

}

/// A view through which a depth-stencil buffer is cleared.
pub trait DepthStencilView {

}

#[derive(Debug, Clone, Copy, PartialEq, Eq, Structural)]
pub enum ClearFlags {
    Depth,
    Stencil,
    DepthStencil,
}

/// A GPU buffer, as command buffers take it.
pub trait Buffer {

}

/// A GPU texture, as command buffers take it.
pub trait Texture {

}

/// A compiled shader.
pub trait Shader {

}

/// A compiled pipeline state.
pub trait PipelineState {

}

/// A set of resource bindings.
pub trait DescriptorSet {

}

/// A change of state that a resource has to go through before its next use.
#[derive(Debug, Clone)]
pub enum ResourceBarrier {
    Transition { resource: ResourceHandle, state_before: ResourceState, state_after: ResourceState },
    UAV { resource: ResourceHandle },
    Alias { resource_before: ResourceHandle, resource_after: ResourceHandle },
}

#[derive(Debug, Clone)]
pub struct ResourceHandle {
    pub id: u64,
}

#[derive(Debug, Clone, Copy, PartialEq, Eq, Structural)]
pub enum ResourceState {
    Common,
    VertexAndConstantBuffer,
    IndexBuffer,
    RenderTarget,
    UnorderedAccess,
    DepthWrite,
    DepthRead,
    NonPixelShaderResource,
    PixelShaderResource,
    StreamOut,
    IndirectArgument,
    CopyDest,
    CopySource,
    ResolveDest,
    ResolveSource,
    Present,
    GenericRead,
    AccelerationStructure,
}

} // verus!
