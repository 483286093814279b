use iced_inspector::action::Action;
use iced_inspector::backend::{Backend, Mode};
use iced_inspector::offscreen::SourceTexture;
use iced_inspector::quad::{
    instance_batches, instance_buffer_layout, prepare_batch, scissor, PixelBounds, QuadUniforms,
    MAX_INSTANCES,
};

#[test]
fn scissor_counts_rows_from_the_bottom() {
    let s = scissor(PixelBounds { x: 10, y: 20, width: 100, height: 50 }, 600);
    assert_eq!((s.x, s.y, s.width, s.height), (10, 530, 100, 50));
    let full = scissor(PixelBounds { x: 0, y: 0, width: 800, height: 600 }, 600);
    assert_eq!(full.y, 0);
}

#[test]
fn scissor_wraps_values_beyond_i32_as_a_cast_does() {
    let s = scissor(PixelBounds { x: u32::MAX, y: 0, width: 1, height: 0 }, 0);
    assert_eq!(s.x, -1);
}

#[test]
fn no_instances_need_no_batch() {
    assert!(instance_batches(0).is_empty());
}

#[test]
fn batches_hold_at_most_the_maximum() {
    assert_eq!(instance_batches(1), vec![(0, 1)]);
    assert_eq!(instance_batches(MAX_INSTANCES), vec![(0, MAX_INSTANCES)]);
    assert_eq!(
        instance_batches(MAX_INSTANCES + 1),
        vec![(0, MAX_INSTANCES), (MAX_INSTANCES, MAX_INSTANCES + 1)]
    );
    assert_eq!(
        instance_batches(250_000),
        vec![(0, 100_000), (100_000, 200_000), (200_000, 250_000)]
    );
}

#[test]
fn each_quad_is_two_triangles_over_its_four_vertices() {
    let instances = ['a', 'b', 'c'];
    let batch = prepare_batch(&instances, 1, 3);
    assert_eq!(
        batch.vertices,
        vec![('b', 0), ('b', 1), ('b', 2), ('b', 3), ('c', 0), ('c', 1), ('c', 2), ('c', 3)]
    );
    assert_eq!(batch.indices, vec![0, 1, 2, 2, 1, 3, 4, 5, 6, 6, 5, 7]);
    assert_eq!(batch.index_count, 12);
    assert_eq!(batch.index_bytes.len(), 48);
    let expected: Vec<u8> = batch.indices.iter().flat_map(|i| i.to_ne_bytes()).collect();
    assert_eq!(batch.index_bytes, expected);
}

#[test]
fn an_empty_batch_has_no_vertices_or_indices() {
    let instances: [u8; 0] = [];
    let batch = prepare_batch(&instances, 0, 0);
    assert!(batch.vertices.is_empty());
    assert!(batch.indices.is_empty());
    assert!(batch.index_bytes.is_empty());
    assert_eq!(batch.index_count, 0);
}

#[test]
fn the_largest_batch_indexes_its_last_vertex() {
    let instances = vec![0u8; MAX_INSTANCES];
    let batch = prepare_batch(&instances, 0, MAX_INSTANCES);
    assert_eq!(batch.index_count, 600_000);
    assert_eq!(*batch.indices.last().unwrap(), 399_999);
    assert!(batch.indices.iter().all(|&i| 0 <= i && i < 400_000));
}

#[test]
fn instance_buffer_sizes_and_offsets() {
    let layout = instance_buffer_layout(MAX_INSTANCES, 60);
    assert_eq!(layout.vertex_bytes, 24_000_000);
    assert_eq!(layout.index_bytes, 2_400_000);
    assert_eq!(layout.stride, 60);
    let offsets: Vec<i32> = layout.attributes.iter().map(|a| a.offset).collect();
    assert_eq!(offsets, vec![0, 8, 16, 32, 48, 52, 56, 60]);
    let components: Vec<i32> = layout.attributes.iter().map(|a| a.components).collect();
    assert_eq!(components, vec![2, 2, 4, 4, 1, 1, 1, 1]);
    let locations: Vec<u32> = layout.attributes.iter().map(|a| a.location).collect();
    assert_eq!(locations, (0..8).collect::<Vec<u32>>());
}

#[test]
fn the_index_buffer_holds_six_indices_per_quad() {
    let layout = instance_buffer_layout(3, 60);
    assert_eq!(layout.vertex_bytes, 720);
    assert_eq!(layout.index_bytes, 72);
}

#[test]
fn a_full_batch_fits_the_buffers() {
    let layout = instance_buffer_layout(MAX_INSTANCES, 60);
    let instances = vec![0u8; MAX_INSTANCES];
    let batch = prepare_batch(&instances, 0, MAX_INSTANCES);
    assert!(batch.index_bytes.len() <= layout.index_bytes as usize);
    assert!(batch.vertices.len() * 60 <= layout.vertex_bytes as usize);
}

#[test]
fn target_height_is_uploaded_only_when_it_changes() {
    let mut u = QuadUniforms::new();
    assert!(!u.update_target_height(0));
    assert!(u.update_target_height(600));
    assert!(!u.update_target_height(600));
    assert!(u.update_target_height(480));
}

#[test]
fn a_texture_is_made_for_the_first_frame_and_when_the_size_changes() {
    let mut t = SourceTexture::new();
    assert_eq!(t.size(), None);
    assert!(t.prepare(800, 600));
    assert_eq!(t.size(), Some((800, 600)));
    assert!(!t.prepare(800, 600));
    assert!(t.prepare(800, 601));
    assert!(t.prepare(1024, 601));
    assert_eq!(t.size(), Some((1024, 601)));
}

#[test]
fn a_backend_draws_with_the_embedded_renderer() {
    let b = Backend::new(16);
    assert_eq!(b.mode(), Mode::Embedded);
    assert_eq!(b.default_size(), 16);
}

#[test]
fn mapping_an_action_keeps_its_kind() {
    type A<M> = Action<u32, String, char, M>;
    let future: A<u8> = Action::Future(2);
    match future.map(|f| f * 10, |c: String| c.len(), |m: u8| m as u64) {
        Action::Future(f) => assert_eq!(f, 20),
        _ => panic!("kind changed"),
    }
    let clip: A<u8> = Action::Clipboard("abc".to_string());
    match clip.map(|f| f * 10, |c: String| c.len(), |m: u8| m as u64) {
        Action::Clipboard(c) => assert_eq!(c, 3),
        _ => panic!("kind changed"),
    }
    let window: A<u8> = Action::Window('w');
    match window.map(|f| f * 10, |c: String| c.len(), |m: u8| m as u64) {
        Action::Window(w) => assert_eq!(w, 'w'),
        _ => panic!("kind changed"),
    }
    let read: A<u8> = Action::ReadFramebuffer { x: 1, y: 2, width: 3, height: 4, message: 7 };
    match read.map(|f| f * 10, |c: String| c.len(), |m: u8| m as u64 + 1) {
        Action::ReadFramebuffer { x, y, width, height, message } => {
            assert_eq!((x, y, width, height, message), (1, 2, 3, 4, 8u64))
        }
        _ => panic!("kind changed"),
    }
}

#[test]
fn mapping_with_identities_gives_back_the_action() {
    let read: Action<u32, String, char, u8> =
        Action::ReadFramebuffer { x: 5, y: 6, width: 7, height: 8, message: 9 };
    match read.map(|f| f, |c| c, |m| m) {
        Action::ReadFramebuffer { x, y, width, height, message } => {
            assert_eq!((x, y, width, height, message), (5, 6, 7, 8, 9))
        }
        _ => panic!("kind changed"),
    }
}

#[test]
fn mapping_twice_is_mapping_once_with_both_functions() {
    let a: Action<u32, String, char, u8> = Action::Future(3);
    let twice = a.map(|f| f + 1, |c: String| c, |m| m).map(|f| f * 2, |c: String| c, |m| m);
    let b: Action<u32, String, char, u8> = Action::Future(3);
    let once = b.map(|f| (f + 1) * 2, |c: String| c, |m| m);
    match (twice, once) {
        (Action::Future(x), Action::Future(y)) => assert_eq!((x, y), (8, 8)),
        _ => panic!("kind changed"),
    }
}
