use rtgc_siberian_cities::opengl::OpenGLDevice;
use rtgc_siberian_cities::rhi::{
    BufferDesc, BufferUsage, MemoryType, ShaderDesc, ShaderStage, TextureDesc, TextureFormat, TextureUsage,
};

#[test]
fn buffer_keeps_its_size() {
    let device = OpenGLDevice::new();
    let desc = BufferDesc { size: 4096, usage: BufferUsage::Vertex, memory_type: MemoryType::DeviceLocal };
    let buffer = device.create_buffer(&desc).unwrap();
    assert_eq!(buffer.size(), 4096);
    assert_eq!(buffer.buffer_id(), 1);
}

#[test]
fn texture_keeps_size_and_format() {
    let device = OpenGLDevice::new();
    let desc = TextureDesc {
        width: 640,
        height: 480,
        depth: 1,
        format: TextureFormat::BGRA8Srgb,
        usage: TextureUsage::Sampled,
        mip_levels: 1,
        array_layers: 1,
    };
    let texture = device.create_texture(&desc).unwrap();
    assert_eq!((texture.width(), texture.height()), (640, 480));
    assert_eq!(texture.format(), TextureFormat::BGRA8Srgb);
    assert_eq!(texture.texture_id(), 1);
}

#[test]
fn shader_and_program() {
    let device = OpenGLDevice::new();
    let desc = ShaderDesc { stage: ShaderStage::Fragment, code: vec![0x0723_0203], entry_point: "main".to_string() };
    let shader = device.create_shader(&desc).unwrap();
    assert_eq!(shader.stage(), ShaderStage::Fragment);
    assert_eq!(shader.shader_id(), 1);
    let program = device.create_program().unwrap();
    assert_eq!(program.program_id(), 1);
    let commands = device.get_command_buffer();
    device.submit_commands(commands);
    device.wait_idle();
}
