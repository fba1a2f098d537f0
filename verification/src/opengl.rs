//! The OpenGL render device. OpenGL runs commands as they are issued, so the
//! device hands out object names and records what each resource was made
//! from; command buffers are empty.

use vstd::prelude::*;
use crate::rhi::{BufferDesc, RHIError, ShaderDesc, ShaderStage, TextureDesc, TextureFormat};

verus! {

/// An OpenGL device.
pub struct OpenGLDevice {}

/// A buffer object of an OpenGL device.
pub struct OpenGLBuffer {
    buffer_id: u32,
    size: u64,
}

/// A texture object of an OpenGL device.
pub struct OpenGLTexture {
    texture_id: u32,
    width: u32,
    height: u32,
    format: TextureFormat,
}

/// A shader object of an OpenGL device.
pub struct OpenGLShader {
    shader_id: u32,
    stage: ShaderStage,
}

/// A program object of an OpenGL device.
pub struct OpenGLPipeline {
    program_id: u32,
}

/// A command buffer of an OpenGL device: OpenGL runs commands at once, so
/// there is nothing to record.
pub struct OpenGLCommandBuffer {}

/// The object name that the device gives every resource it creates.
pub open spec fn gl_object_name() -> u32 {
    1
}

impl OpenGLBuffer {
    pub closed spec fn spec_id(&self) -> u32 {
        self.buffer_id
    }

    pub closed spec fn spec_size(&self) -> u64 {
        self.size
    }

    /// The buffer's OpenGL name.
    pub fn buffer_id(&self) -> (r: u32)
        ensures
            r == self.spec_id(),
    {
        self.buffer_id
    }

    /// The buffer's size in bytes.
    pub fn size(&self) -> (r: u64)
        ensures
            r == self.spec_size(),
    {
        self.size
    }
}

impl OpenGLTexture {
    pub closed spec fn spec_id(&self) -> u32 {
        self.texture_id
    }

    pub closed spec fn spec_width(&self) -> u32 {
        self.width
    }

    pub closed spec fn spec_height(&self) -> u32 {
        self.height
    }

    pub closed spec fn spec_format(&self) -> TextureFormat {
        self.format
    }

    /// The texture's OpenGL name.
    pub fn texture_id(&self) -> (r: u32)
        ensures
            r == self.spec_id(),
    {
        self.texture_id
    }

    pub fn width(&self) -> (r: u32)
        ensures
            r == self.spec_width(),
    {
        self.width
    }

    pub fn height(&self) -> (r: u32)
        ensures
            r == self.spec_height(),
    {
        self.height
    }

    pub fn format(&self) -> (r: TextureFormat)
        ensures
            r == self.spec_format(),
    {
        self.format
    }
}

impl OpenGLShader {
    pub closed spec fn spec_id(&self) -> u32 {
        self.shader_id
    }

    pub closed spec fn spec_stage(&self) -> ShaderStage {
        self.stage
    }

    /// The shader's OpenGL name.
    pub fn shader_id(&self) -> (r: u32)
        ensures
            r == self.spec_id(),
    {
        self.shader_id
    }

    pub fn stage(&self) -> (r: ShaderStage)
        ensures
            r == self.spec_stage(),
    {
        self.stage
    }
}

impl OpenGLPipeline {
    pub closed spec fn spec_id(&self) -> u32 {
        self.program_id
    }

    /// The program's OpenGL name.
    pub fn program_id(&self) -> (r: u32)
        ensures
            r == self.spec_id(),
    {
        self.program_id
    }
}

impl OpenGLDevice {
    /// A device on the current OpenGL context.
    pub fn new() -> Self {
        OpenGLDevice {  }
    }

    /// Creates a buffer of `desc.size` bytes.
    pub fn create_buffer(&self, desc: &BufferDesc) -> (r: Result<OpenGLBuffer, RHIError>)
        ensures
            r matches Ok(b) && b.spec_id() == gl_object_name() && b.spec_size() == desc.size,
    {
        Ok(OpenGLBuffer { buffer_id: 1, size: desc.size })
    }

    /// Creates a texture of the size and format that `desc` gives.
    pub fn create_texture(&self, desc: &TextureDesc) -> (r: Result<OpenGLTexture, RHIError>)
        ensures
            r matches Ok(t) && t.spec_id() == gl_object_name() && t.spec_width() == desc.width
                && t.spec_height() == desc.height && t.spec_format() == desc.format,
    {
        Ok(OpenGLTexture {
            texture_id: 1,
            width: desc.width,
            height: desc.height,
            format: desc.format,
        })
    }

    /// Creates a shader for the stage that `desc` gives.
    pub fn create_shader(&self, desc: &ShaderDesc) -> (r: Result<OpenGLShader, RHIError>)
        ensures
            r matches Ok(s) && s.spec_id() == gl_object_name() && s.spec_stage() == desc.stage,
    {
        Ok(OpenGLShader { shader_id: 1, stage: desc.stage })
    }

    /// Creates the program object of a pipeline.
    pub fn create_program(&self) -> (r: Result<OpenGLPipeline, RHIError>)
        ensures
            r matches Ok(p) && p.spec_id() == gl_object_name(),
    {
        Ok(OpenGLPipeline { program_id: 1 })
    }

    /// A command buffer to record into.
    pub fn get_command_buffer(&self) -> OpenGLCommandBuffer {
        OpenGLCommandBuffer {  }
    }

    /// Runs recorded commands: OpenGL has already run them.
    pub fn submit_commands(&self, cmd_buffer: OpenGLCommandBuffer) {
    }

    /// Waits until the device has finished its work.
    pub fn wait_idle(&self) {
    }
}

} // verus!
