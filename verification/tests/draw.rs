use std::hash::{DefaultHasher, Hash, Hasher};

use visor::draw::{DrawPlugin, DrawState, FrameContent, FrameItem, FullscreenShaderId, ShapeKind, SketchSizes};

const FRAGMENT: &str = "@fragment\nfn fs_main() -> @location(0) vec4<f32> { return vec4<f32>(1.0, 0.0, 0.0, 1.0); }\n";

#[test]
fn draw_ids_and_clamping() {
    let mut s: DrawState<&'static str, u8> = DrawPlugin::new_sketch_state();
    assert_eq!(s.store_draw("translated"), 1);
    assert_eq!(s.store_draw("rotated"), 2);
    assert_eq!(s.clamp_draw_id(0), 0);
    assert_eq!(s.clamp_draw_id(2), 2);
    assert_eq!(s.clamp_draw_id(3), 0);
    assert_eq!(s.draw_for(1), Some(&"translated"));
    assert_eq!(s.draw_for(0), None);
    assert_eq!(s.draw_for(9), None);
    s.reset();
    assert_eq!(s.clamp_draw_id(1), 0);
    assert_eq!(s.store_draw("again"), 1);
}

#[test]
fn shapes_and_frame_order() {
    let mut s: DrawState<&'static str, u8> = DrawState::new();
    s.store_draw("t");
    let a = s.start_drawing_shape(ShapeKind::Ellipse, 1);
    let b = s.start_drawing_shape(ShapeKind::Rect, 7);
    assert_eq!((a, b), (1, 2));
    s.store_shape_command(a, 10);
    s.store_shape_command(a, 11);
    s.store_shape_command(b, 20);
    let shader = s.load_fullscreen_shader("glow.wgsl", FRAGMENT.to_string()).ok().unwrap().id;
    s.start_drawing_fullscreen_shader(0, shader);
    assert!(s.has_shape(a));
    assert!(!s.has_shape(3));
    assert_eq!(s.shape(a).commands, vec![10, 11]);
    assert_eq!(s.shape(a).kind, ShapeKind::Ellipse);
    assert_eq!(s.shape(b).draw_id, 0);
    assert_eq!(
        s.frame(),
        vec![
            FrameItem { draw_id: 1, content: FrameContent::Shape(1) },
            FrameItem { draw_id: 0, content: FrameContent::Shape(2) },
            FrameItem { draw_id: 0, content: FrameContent::FullscreenShader { id: shader, loaded: false } },
        ]
    );
    s.clear_shape_commands();
    assert!(!s.has_shape(a));
    s.reset();
    assert_eq!(s.frame(), vec![]);
    assert_eq!(s.start_drawing_shape(ShapeKind::Path, 0), 1);
}

#[test]
fn two_shader_passes_without_shape_between() {
    let mut s: DrawState<(), u8> = DrawState::new();
    let first = s.load_fullscreen_shader("a.wgsl", FRAGMENT.to_string()).ok().unwrap().id;
    let second = s.load_fullscreen_shader("b.wgsl", FRAGMENT.to_string()).ok().unwrap().id;
    s.start_drawing_fullscreen_shader(0, first);
    s.start_drawing_fullscreen_shader(0, second);
    assert_eq!(
        s.frame(),
        vec![
            FrameItem { draw_id: 0, content: FrameContent::FullscreenShader { id: second, loaded: false } },
            FrameItem { draw_id: 0, content: FrameContent::FullscreenShader { id: second, loaded: false } },
        ]
    );
}

#[test]
fn size_is_recorded() {
    let mut s: DrawState<(), u8> = DrawState::new();
    assert_eq!((s.width(), s.height()), (0, 0));
    s.set_size(640, 480);
    assert_eq!((s.width(), s.height()), (640, 480));
}

#[test]
fn shader_id_is_hash_of_path() {
    let mut h = DefaultHasher::new();
    "shaders/glow.wgsl".hash(&mut h);
    let expected = h.finish() as u32;
    assert_eq!(FullscreenShaderId::new("shaders/glow.wgsl").0, expected);
    assert_eq!(FullscreenShaderId::new("a.wgsl"), FullscreenShaderId::new("a.wgsl"));
    assert_ne!(FullscreenShaderId::new("a.wgsl"), FullscreenShaderId::new("b.wgsl"));
}

#[test]
fn resized_sketches_are_those_seen_with_another_size() {
    let mut sizes = SketchSizes::new();
    assert_eq!(sizes.update(&vec![(1, 640, 480), (2, 0, 0)]), vec![]);
    assert_eq!(sizes.size_of(1), Some((640, 480)));
    assert_eq!(sizes.update(&vec![(1, 640, 480), (2, 800, 600), (3, 10, 10)]), vec![(2, 800, 600)]);
    assert_eq!(sizes.size_of(2), Some((800, 600)));
    assert_eq!(sizes.size_of(3), Some((10, 10)));
    assert_eq!(sizes.size_of(4), None);
}
