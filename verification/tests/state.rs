use gstudy::canvas::{Canvas, PrepareActions};
use gstudy::executor::{Executor, ModuleCommand};
use gstudy::gpu_buffer::{
    BufferPosition, ByteRange, GpuInputMainBuffer, GpuInputUniformBuffers, GpuMainBuffer,
};
use gstudy::modules::ModuleInfo;
use gstudy::scene::{MaterialHandle, Scene};

#[test]
fn canvas_starts_opaque_black() {
    let c = Canvas::new(2, 1);
    assert_eq!(c.size(), (2, 1));
    assert_eq!(c.texture_data(), &vec![0, 0, 0, 255, 0, 0, 0, 255]);
    assert_eq!(c.display_frame(), None);
}

#[test]
fn canvas_draws_and_clears_pixels() {
    let mut c = Canvas::new(2, 2);
    c.draw_pixel(1, 1, [1, 2, 3, 4]);
    assert_eq!(&c.texture_data()[12..16], &[1, 2, 3, 4]);
    assert_eq!(&c.texture_data()[8..12], &[0, 0, 0, 255]);
    c.clear([9, 8, 7, 6]);
    assert!(c.texture_data().chunks(4).all(|p| p == [9, 8, 7, 6]));
}

#[test]
fn canvas_layers_cycle_after_upload() {
    let mut c = Canvas::new(1, 1);
    assert_eq!(c.writer_frame(), None);
    let a = c.prepare_texture();
    assert_eq!(a, PrepareActions { download_from: None, create_texture: true, upload: true });
    assert_eq!(c.writer_frame(), None);
    c.upload_done();
    assert_eq!(c.writer_frame(), Some(1));
    assert_eq!(c.display_frame(), Some(1));
    assert_eq!(c.writer_frame(), Some(2));
    assert_eq!(c.writer_frame(), Some(0));
    assert_eq!(c.writer_frame(), Some(1));
}

#[test]
fn canvas_download_protocol() {
    let mut c = Canvas::new(1, 1);
    assert_eq!(c.download_ok(), None);
    assert_eq!(c.request_download_texture(), Some(()));
    assert_eq!(c.request_download_texture(), None);
    assert_eq!(c.download_ok(), Some(false));
    let a = c.prepare_texture();
    assert_eq!(a.download_from, None);
    let a = c.prepare_texture();
    assert_eq!(a.download_from, Some(0));
    c.download_finished(&vec![5, 6, 7, 8]);
    assert_eq!(c.download_ok(), Some(true));
    assert_eq!(c.texture_data(), &vec![5, 6, 7, 8]);
    c.clean_download_state();
    assert_eq!(c.download_ok(), None);
}

#[test]
fn main_buffer_grows_to_request() {
    let mut b = GpuMainBuffer::new(None);
    assert_eq!(b.size(), 2097152);
    assert!(!b.make_sure(1000));
    assert!(b.make_sure(3000000));
    assert_eq!(b.size(), 3000000);
    assert!(!b.make_sure(3000000));
    assert_eq!(b.size(), 3000000);
}

#[test]
fn main_buffer_reports_oversize_every_500_requests() {
    let mut b = GpuMainBuffer::new(None);
    for _ in 0..499 {
        assert!(!b.make_sure(10));
    }
    // The initial size is still among the last 101 sizes only at first.
    assert!(b.make_sure(10));
    assert_eq!(b.size(), 2097152);
}

#[test]
fn input_buffer_places_copies_aligned() {
    let mut b = GpuInputMainBuffer::new(None);
    assert_eq!(b.copy_stage(5), ByteRange { start: 0, end: 5 });
    assert_eq!(b.copy_stage(8), ByteRange { start: 8, end: 16 });
    b.set_alignment(256);
    assert_eq!(b.copy_stage(1), ByteRange { start: 16, end: 17 });
    assert_eq!(b.copy_stage(1), ByteRange { start: 256, end: 257 });
    b.recall();
    assert_eq!(b.copy_stage(3), ByteRange { start: 0, end: 3 });
    assert!(b.make_sure(3000000));
    assert_eq!(b.main_size(), 3000256);
}

#[test]
fn uniform_buffers_count_and_placement() {
    let mut u = GpuInputUniformBuffers::new(None, 1024, 256);
    assert!(u.make_sure(3, 100));
    assert_eq!(u.buffers(), 2);
    assert!(!u.make_sure(1, 256));
    assert_eq!(u.copy_stage(100), BufferPosition { index: 0, range: ByteRange { start: 0, end: 100 } });
    assert_eq!(u.copy_stage(700), BufferPosition { index: 0, range: ByteRange { start: 256, end: 956 } });
    assert_eq!(u.copy_stage(10), BufferPosition { index: 1, range: ByteRange { start: 0, end: 10 } });
    u.recall();
    assert_eq!(u.copy_stage(10), BufferPosition { index: 0, range: ByteRange { start: 0, end: 10 } });
}

fn info(name: &'static str) -> ModuleInfo {
    ModuleInfo { name, desc: "" }
}

#[test]
fn executor_switches_modules() {
    let mut e = Executor::new(vec![info("ray tracing"), info("software renderer")]);
    assert_eq!(e.match_module("software renderer"), Some(1));
    assert_eq!(e.match_module("none"), None);
    assert_eq!(e.run("ray tracing"), vec![ModuleCommand::Run(0)]);
    assert_eq!(e.run("software renderer"), vec![ModuleCommand::Stop(0), ModuleCommand::Run(1)]);
    assert_eq!(e.pause(), ModuleCommand::Pause(1));
    assert_eq!(e.resume(), ModuleCommand::Resume(1));
    assert_eq!(e.stop(), ModuleCommand::Stop(1));
    assert_eq!(e.restart(), vec![ModuleCommand::Stop(1), ModuleCommand::Run(1)]);
    assert_eq!(e.list().len(), 2);
}

#[test]
fn scene_gives_ids_and_groups_objects() {
    let mut s: Scene<&str> = Scene::new();
    let mut m = MaterialHandle { identity: 100, type_key: 7, id: 0 };
    let a = s.add_object("a", &mut m);
    assert_eq!(a, 1);
    assert_eq!(m.id, 2);
    assert_eq!(s.get_material(2), Some(100));
    let b = s.add_object("b", &mut m);
    assert_eq!(b, 3);
    assert_eq!(s.get_object(3), Some(&"b"));
    let groups = s.load_material_objects();
    assert_eq!(groups.get(&7).unwrap().get_objects_from_material(2), &vec![1, 3]);
    let other = MaterialHandle { identity: 200, type_key: 7, id: 2 };
    assert!(!s.can_add(&other));
    assert!(s.delete_object(1));
}

use gstudy::ui::{
    BufferCache, BufferItem, DynRenderState, Rect, RenderStage, SpanTooLarge, SpanWrite, TextureId,
};

#[test]
fn ui_meshes_pack_into_spans() {
    let mut cache = BufferCache::new();
    let mut indices = vec![0, 1, 2, 1, 2, 3];
    let spans = cache.add(&mut indices, 4, 20).unwrap();
    assert_eq!(
        spans,
        vec![SpanWrite {
            item: BufferItem { index_buffer: 0, vertex_buffer: 0, base_index: 0, base_vertex: 0, index_count: 6 },
            index_start: 0,
            index_end: 6,
            vertex_start: 0,
            vertex_end: 4,
            index_byte_offset: 0,
            vertex_byte_offset: 0,
        }]
    );
    assert_eq!(cache.buffer_counts(), (1, 1));
    let mut more = vec![5, 6, 7];
    let spans = cache.add(&mut more, 8, 20).unwrap();
    assert_eq!(more, vec![0, 1, 2]);
    assert_eq!(spans[0].item.base_index, 8);
    assert_eq!(spans[0].item.base_vertex, 160);
    assert_eq!(spans[0].index_byte_offset, 32);
    assert_eq!((spans[0].vertex_start, spans[0].vertex_end), (5, 8));
    cache.reset();
    let mut again = vec![2, 3, 4];
    let spans = cache.add(&mut again, 5, 20).unwrap();
    assert_eq!(spans[0].item.base_index, 0);
    assert_eq!(again, vec![0, 1, 2]);
}

#[test]
fn oversized_triangle_is_refused() {
    let mut cache = BufferCache::new();
    let mut indices = vec![0, 1048576, 1];
    assert_eq!(cache.add(&mut indices, 1048577, 20), Err(SpanTooLarge));
}

#[test]
fn small_buffers_move_on_when_full() {
    let mut cache = BufferCache::with_capacity(16, 16);
    let mut a = vec![0, 1, 2, 1, 2, 3];
    cache.add(&mut a, 4, 20).unwrap();
    let mut b = vec![0, 1, 2, 3, 4, 5];
    let spans = cache.add(&mut b, 6, 20).unwrap();
    assert_eq!(spans.len(), 1);
    assert_eq!(spans[0].item.base_index, 8);
    assert_eq!(spans[0].item.index_count, 6);
    let mut c = vec![0, 1, 2];
    let spans = cache.add(&mut c, 3, 20).unwrap();
    assert_eq!(
        spans[0].item,
        BufferItem { index_buffer: 1, vertex_buffer: 1, base_index: 0, base_vertex: 0, index_count: 3 }
    );
    assert_eq!(cache.buffer_counts(), (2, 2));
}

#[test]
fn spans_tile_the_mesh_and_rebase_their_indices() {
    let mut cache = BufferCache::with_capacity(16, 8);
    let mut indices: Vec<u32> = (0..12).collect();
    let spans = cache.add(&mut indices, 12, 20).unwrap();
    assert_eq!(spans.len(), 2);
    assert_eq!((spans[0].index_start, spans[0].index_end, spans[0].vertex_start), (0, 6, 0));
    assert_eq!((spans[1].index_start, spans[1].index_end, spans[1].vertex_start), (6, 12, 6));
    assert_eq!(spans[1].item.index_buffer, 1);
    assert_eq!(spans[1].item.vertex_buffer, 0);
    assert_eq!(spans[1].item.base_vertex, 160);
    assert_eq!(indices, vec![0, 1, 2, 3, 4, 5, 0, 1, 2, 3, 4, 5]);
}

#[test]
fn triangle_refused_near_the_end_of_a_buffer() {
    let mut cache = BufferCache::with_capacity(16, 16);
    let mut a = vec![0, 1, 2, 1, 2, 3];
    cache.add(&mut a, 4, 20).unwrap();
    let mut b = vec![0, 1, 2];
    assert!(cache.add(&mut b, 3, 20).is_ok());
    let mut c = vec![0, 1, 2];
    assert_eq!(cache.add(&mut c, 3, 20), Err(SpanTooLarge));
}

#[test]
fn frame_draws_follow_committed_meshes() {
    let mut d = DynRenderState::new();
    let rect = Rect { x: 1, y: 2, width: 3, height: 4 };
    let mut a = vec![4, 5, 6];
    d.commit(&mut a, 7, 20, rect, TextureId::User(9)).unwrap();
    let mut b = vec![0, 1, 2];
    d.commit(&mut b, 3, 20, rect, TextureId::Egui).unwrap();
    assert_eq!(a, vec![0, 1, 2]);
    assert_eq!(
        d.stages,
        vec![
            RenderStage {
                vertex_buffer: 0,
                index_buffer: 0,
                rect,
                count_idx: 3,
                base_vertex: 0,
                base_index: 0,
                texture_id: TextureId::User(9),
            },
            RenderStage {
                vertex_buffer: 0,
                index_buffer: 0,
                rect,
                count_idx: 3,
                base_vertex: 80,
                base_index: 4,
                texture_id: TextureId::Egui,
            },
        ]
    );
    d.new_frame();
    assert!(d.stages.is_empty());
}

use gstudy::renderer::SurfaceSize;
use gstudy::scene::ResourceManager;

#[test]
fn resource_manager_keeps_scenes_by_id() {
    let mut rm: ResourceManager<String> = ResourceManager::new();
    let a = rm.insert("a".to_string());
    let b = rm.insert("b".to_string());
    assert_eq!((a, b), (0, 1));
    assert_eq!(rm.take(b), "b");
    assert_eq!(rm.take(a), "a");
}

#[test]
fn surface_ignores_empty_and_unchanged_sizes() {
    let mut s = SurfaceSize { width: 100, height: 50 };
    assert!(!s.resize(0, 10));
    assert!(!s.resize(100, 50));
    assert!(s.resize(200, 50));
    assert_eq!(s, SurfaceSize { width: 200, height: 50 });
}

#[test]
fn canvas_flush_marks_texture_for_upload() {
    let mut c = Canvas::new(1, 1);
    assert!(!c.flush_texture(true));
    c.prepare_texture();
    c.upload_done();
    assert!(!c.flush_texture(false));
    assert_eq!(c.writer_frame(), Some(1));
    assert!(c.flush_texture(true));
    assert_eq!(c.writer_frame(), None);
    c.upload_done();
    assert_eq!(c.writer_frame(), Some(2));
}
