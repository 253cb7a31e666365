use visor::draw::{DrawState, FrameContent, FrameItem, FullscreenShaderId};
use visor::shader::{
    compile_fullscreen_shader, uniform_layout, ShaderError, UniformBuffer, UniformVariable, WgslMember, WgslType,
    WgslTypeInner,
};

const VERTEX: &str = "@vertex
fn vs_main(@builtin(vertex_index) i: u32) -> @builtin(position) vec4<f32> {
    let x = f32(i32(i) - 1);
    let y = f32(i32(i & 1u) * 2 - 1);
    return vec4<f32>(x, y, 0.0, 1.0);
}";

const FRAGMENT: &str = "struct Uniforms {
    time: f32,
    color: vec4<f32>,
}

@group(0) @binding(0) var<uniform> u: Uniforms;

@fragment
fn fs_main() -> @location(0) vec4<f32> {
    return u.color * u.time;
}
";

fn compiled() -> UniformBuffer {
    match compile_fullscreen_shader(VERTEX, FRAGMENT) {
        Ok(p) => {
            assert!(p.source.starts_with(VERTEX));
            assert!(p.source.ends_with(FRAGMENT));
            assert_eq!(p.source.len(), VERTEX.len() + 1 + FRAGMENT.len());
            p.uniforms
        }
        Err(e) => panic!("{}", e.message()),
    }
}

#[test]
fn uniform_layout_of_the_uniforms_struct() {
    let u = compiled();
    assert_eq!(u.uniform("time"), Some(UniformVariable { offset: 0, size: 4 }));
    assert_eq!(u.uniform("color"), Some(UniformVariable { offset: 16, size: 16 }));
    assert_eq!(u.uniform("speed"), None);
    assert_eq!(u.bytes(), &vec![0u8; 32]);
}

#[test]
fn setting_a_uniform_writes_its_bytes() {
    let mut u = compiled();
    assert!(!u.take_changed());
    let value = 2.5f32.to_ne_bytes();
    assert!(u.set_uniform("time", value).is_ok());
    assert_eq!(&u.bytes()[0..4], &value);
    assert_eq!(&u.bytes()[4..], &vec![0u8; 28][..]);
    assert_eq!(u.take_upload(), Some(u.bytes().clone()));
    assert_eq!(u.take_upload(), None);
}

#[test]
fn unknown_uniform_is_refused() {
    let mut u = compiled();
    let before = u.bytes().clone();
    match u.set_uniform("speed", [1, 2, 3, 4]) {
        Err(e) => assert_eq!(e.message(), "Shader uniform speed not found"),
        Ok(()) => panic!("expected an error"),
    }
    assert_eq!(u.bytes(), &before);
    assert!(!u.take_changed());
}

#[test]
fn invalid_wgsl_is_a_parse_error() {
    match compile_fullscreen_shader(VERTEX, "fn fs_main( {") {
        Err(ShaderError::Parse(m)) => {
            assert!(!m.is_empty());
            assert_eq!(ShaderError::Parse(m.clone()).message(), format!("Could not parse WGSL shader: {}", m));
        }
        _ => panic!("expected a parse error"),
    }
}

#[test]
fn shader_error_messages() {
    assert_eq!(
        ShaderError::InvalidSyntax("x".to_string()).message(),
        "Could not load shader due to invalid WGSL syntax: x"
    );
    assert_eq!(ShaderError::Validation("y".to_string()).message(), "WGSL shader validation error: y");
}

#[test]
fn shader_lifecycle_in_draw_state() {
    let mut s: DrawState<(), u8> = DrawState::new();
    s.set_size(320, 200);
    match s.load_fullscreen_shader("bad.wgsl", "fn (".to_string()) {
        Err(ShaderError::InvalidSyntax(_)) => {}
        _ => panic!("expected a syntax error"),
    }
    let id = FullscreenShaderId::new("fx.wgsl").0;
    assert!(!s.has_fullscreen_shader(id));
    let req = s.load_fullscreen_shader("fx.wgsl", FRAGMENT.to_string()).ok().unwrap();
    assert_eq!((req.id, req.width, req.height), (id, 320, 200));
    assert_eq!(req.source, FRAGMENT);
    assert!(s.has_fullscreen_shader(id));
    // still being built: drawing and uniforms are accepted and do nothing
    s.start_drawing_fullscreen_shader(0, id);
    assert!(s.set_fullscreen_shader_uniform(id, "time", [1, 0, 0, 0]).is_ok());
    assert_eq!(s.fullscreen_shaders_to_render(), Vec::<u32>::new());
    assert_eq!(s.take_uniform_upload(id), None);
    // built
    s.fullscreen_shader_loaded(id, compiled());
    assert_eq!(s.fullscreen_shaders_to_render(), vec![id]);
    assert!(s.set_fullscreen_shader_uniform(id, "time", [1, 2, 3, 4]).is_ok());
    let upload = s.take_uniform_upload(id).unwrap();
    assert_eq!(&upload[0..4], &[1, 2, 3, 4]);
    assert_eq!(s.take_uniform_upload(id), None);
    assert!(s.set_fullscreen_shader_uniform(id, "nope", [0; 4]).is_err());
    // a new update: not drawn until drawn again
    s.reset();
    assert_eq!(s.fullscreen_shaders_to_render(), Vec::<u32>::new());
    s.start_drawing_fullscreen_shader(0, id);
    assert_eq!(s.fullscreen_shaders_to_render(), vec![id]);
    assert_eq!(s.frame(), vec![FrameItem { draw_id: 0, content: FrameContent::FullscreenShader { id, loaded: true } }]);
}

fn member(name: Option<&str>, ty: usize, offset: u32) -> WgslMember {
    WgslMember { name: name.map(|n| n.to_string()), ty, offset }
}

#[test]
fn layout_of_a_type_table() {
    let types = vec![
        WgslType { name: None, inner: WgslTypeInner::Scalar },
        WgslType { name: None, inner: WgslTypeInner::Vector(2) },
        WgslType { name: None, inner: WgslTypeInner::Vector(3) },
        WgslType {
            name: Some("Other".to_string()),
            inner: WgslTypeInner::Struct { span: 64, members: vec![member(Some("ignored"), 0, 0)] },
        },
        WgslType {
            name: Some("Uniforms".to_string()),
            inner: WgslTypeInner::Struct {
                span: 36,
                members: vec![
                    member(Some("t"), 0, 0),
                    member(Some("xy"), 1, 8),
                    member(None, 0, 16),
                    member(Some("rgb"), 2, 16),
                    member(Some("far"), 99, 32),
                ],
            },
        },
        WgslType { name: Some("Uniforms".to_string()), inner: WgslTypeInner::Other },
    ];
    let layout = uniform_layout(&types);
    assert_eq!(layout.struct_size, 36);
    assert_eq!(layout.uniforms.len(), 4);
    assert_eq!(layout.uniforms.get("t"), Some(&UniformVariable { offset: 0, size: 4 }));
    assert_eq!(layout.uniforms.get("xy"), Some(&UniformVariable { offset: 8, size: 8 }));
    assert_eq!(layout.uniforms.get("rgb"), Some(&UniformVariable { offset: 16, size: 12 }));
    assert_eq!(layout.uniforms.get("far"), Some(&UniformVariable { offset: 32, size: 4 }));
    assert_eq!(layout.uniforms.get("ignored"), None);
    let buffer = UniformBuffer::from_layout(layout);
    assert_eq!(buffer.bytes().len(), 48);
}

#[test]
fn only_four_byte_uniforms_take_a_value() {
    let mut s: DrawState<(), u8> = DrawState::new();
    let id = s.load_fullscreen_shader("fx.wgsl", FRAGMENT.to_string()).ok().unwrap().id;
    assert!(s.can_set_fullscreen_shader_uniform(id, "color"));
    s.fullscreen_shader_loaded(id, compiled());
    assert!(s.can_set_fullscreen_shader_uniform(id, "time"));
    assert!(!s.can_set_fullscreen_shader_uniform(id, "color"));
    assert!(s.can_set_fullscreen_shader_uniform(id, "missing"));
}

#[test]
fn module_that_fails_validation() {
    let fragment = "struct Uniforms {
    weights: array<f32, 4>,
}

@group(0) @binding(0) var<uniform> u: Uniforms;

@fragment
fn fs_main() -> @location(0) vec4<f32> {
    return vec4<f32>(u.weights[0], 0.0, 0.0, 1.0);
}
";
    match compile_fullscreen_shader(VERTEX, fragment) {
        Err(ShaderError::Validation(m)) => assert!(!m.is_empty()),
        Err(e) => panic!("unexpected error: {}", e.message()),
        Ok(_) => panic!("expected a validation error"),
    }
}
