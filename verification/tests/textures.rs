use wgpu_renderer::buckets::Buckets;
use wgpu_renderer::ffi::{WgrBlend, WgrDraw2DBatch, WgrSampler2D};
use wgpu_renderer::gfx2d::flat::{flat_pipeline, Gfx2d};
use wgpu_renderer::gfx2d::textures as flat;
use wgpu_renderer::index::KeyIndex;
use wgpu_renderer::slots::HandleTable;
use wgpu_renderer::textures::{
    downsample_rgba8, mip_chain_len, write_rgba8_mip_chain, SharedTextures, TextureData,
    TextureFormat, TextureRegistry,
};

fn rgba(width: u32, height: u32, bytes: &[u8]) -> TextureData<'_> {
    TextureData { width, height, format: TextureFormat::Rgba8, mip_count: 1, gen_mips: false, bytes }
}

#[test]
fn handles_come_and_go() {
    let mut t = HandleTable::new();
    let a = t.insert((1, 2, 3));
    let b = t.insert((4, 5, 6));
    assert_ne!(a, 0);
    assert_ne!(a, b);
    assert_eq!(t.len(), 2);
    assert_eq!(t.get(a), Some((1, 2, 3)));
    assert_eq!(t.get(b), Some((4, 5, 6)));
    t.set(a, (7, 8, 9));
    assert_eq!(t.get(a), Some((7, 8, 9)));
    t.remove(a);
    assert_eq!(t.get(a), None);
    assert_eq!(t.get(b), Some((4, 5, 6)));
    assert_eq!(t.len(), 1);
    let c = t.insert((0, 0, 0));
    assert_ne!(c, a);
    assert_eq!(t.get(a), None);
    t.set(a, (1, 1, 1));
    assert_eq!(t.get(c), Some((0, 0, 0)));
    assert_eq!(t.get(0), None);
    t.remove(0);
    assert_eq!(t.len(), 2);
}

#[test]
fn keys_are_found_again() {
    let mut k = KeyIndex::new();
    let key = (1, 2, 3, 4, 5, 6, 7);
    assert_eq!(k.get(&key), None);
    k.insert(key, 9);
    assert_eq!(k.get(&key), Some(9));
    assert_eq!(k.get(&(1, 2, 3, 4, 5, 6, 8)), None);
    k.insert(key, 10);
    assert_eq!(k.get(&key), Some(10));
    k.clear();
    assert_eq!(k.get(&key), None);
}

#[test]
fn likes_are_gathered_in_order() {
    let (a, b) = ((1, 0, 0, 0, 0, 0, 0), (2, 0, 0, 0, 0, 0, 0));
    let mut buckets = Buckets::new();
    buckets.push(b, 5);
    buckets.push(a, 6);
    buckets.push(b, 4);
    assert_eq!(buckets.take(), [vec![5, 4], vec![6]]);
    assert!(buckets.take().is_empty());
    buckets.push(a, 1);
    assert_eq!(buckets.take(), [vec![1]]);
}

#[test]
fn formats_have_their_numbers() {
    assert_eq!(TextureFormat::from_i32(0), Some(TextureFormat::Rgba8));
    assert_eq!(TextureFormat::from_i32(1), Some(TextureFormat::Bc1));
    assert_eq!(TextureFormat::from_i32(2), Some(TextureFormat::Bc2));
    assert_eq!(TextureFormat::from_i32(3), Some(TextureFormat::Bc3));
    assert_eq!(TextureFormat::from_i32(4), None);
    assert_eq!(TextureFormat::from_i32(-1), None);
    assert!(!TextureFormat::Rgba8.is_block_compressed());
    assert!(TextureFormat::Bc1.is_block_compressed());
}

#[test]
fn blocks_are_counted_whole() {
    assert_eq!(TextureFormat::Rgba8.bytes_per_row(5), 20);
    assert_eq!(TextureFormat::Bc1.bytes_per_row(5), 16);
    assert_eq!(TextureFormat::Bc2.bytes_per_row(5), 32);
    assert_eq!(TextureFormat::Bc3.bytes_per_row(4), 16);
    assert_eq!(TextureFormat::Rgba8.rows(5), 5);
    assert_eq!(TextureFormat::Bc3.rows(5), 2);
    assert_eq!(TextureFormat::Rgba8.expected_len(5, 3), 60);
    assert_eq!(TextureFormat::Bc1.expected_len(5, 3), 16);
    assert_eq!(TextureFormat::Bc3.expected_len(5, 5), 64);
}

#[test]
fn chains_end_at_one_pixel() {
    assert_eq!(mip_chain_len(1, 1), 1);
    assert_eq!(mip_chain_len(0, 0), 1);
    assert_eq!(mip_chain_len(2, 1), 2);
    assert_eq!(mip_chain_len(256, 128), 9);
    assert_eq!(mip_chain_len(3, 3), 2);
    assert_eq!(mip_chain_len(u32::MAX, 1), 32);
}

#[test]
fn neighbours_are_averaged() {
    let src = [0, 4, 8, 12, 4, 8, 12, 16, 8, 12, 16, 20, 13, 17, 21, 25];
    assert_eq!(downsample_rgba8(&src, 2, 2, 1, 1), [6, 10, 14, 18]);
    let row = [10, 10, 10, 10, 21, 21, 21, 21];
    assert_eq!(downsample_rgba8(&row, 2, 1, 1, 1), [16, 16, 16, 16]);
    let odd = [1; 12];
    assert_eq!(downsample_rgba8(&odd, 3, 1, 2, 1), [1; 8]);
    assert_eq!(downsample_rgba8(&odd, 3, 1, u32::MAX, 0), []);
}

#[test]
fn odd_sides_are_halved_down() {
    let base: Vec<u8> = (0..100).map(|i| (i / 20 * 10 + i / 4 % 5) as u8).collect();
    let writes = write_rgba8_mip_chain(0, 5, 5, mip_chain_len(5, 5), &base);
    let sizes: Vec<(u32, u32)> = writes.iter().map(|w| (w.width, w.height)).collect();
    assert_eq!(sizes, [(5, 5), (2, 2), (1, 1)]);
    assert_eq!(writes[0].data, base);
    assert_eq!(writes[1].data, [6, 6, 6, 6, 8, 8, 8, 8, 26, 26, 26, 26, 28, 28, 28, 28]);
    assert_eq!(writes[2].data, [17; 4]);
    let thin = write_rgba8_mip_chain(0, 7, 1, 3, &[50; 28]);
    let sizes: Vec<(u32, u32)> = thin.iter().map(|w| (w.width, w.height)).collect();
    assert_eq!(sizes, [(7, 1), (3, 1), (1, 1)]);
}

#[test]
fn an_even_picture_stays_even() {
    let writes = write_rgba8_mip_chain(2, 8, 4, 4, &[200; 128]);
    assert_eq!(writes.len(), 4);
    let sizes: Vec<(u32, u32)> = writes.iter().map(|w| (w.width, w.height)).collect();
    assert_eq!(sizes, [(8, 4), (4, 2), (2, 1), (1, 1)]);
    for (level, w) in writes.iter().enumerate() {
        assert_eq!((w.layer, w.mip_level), (2, level as u32));
        assert_eq!(w.bytes_per_row, 4 * w.width);
        assert_eq!(w.rows_per_image, w.height);
        assert!(w.data.iter().all(|&b| b == 200));
    }
}

#[test]
fn pictures_are_taken_or_refused() {
    let bytes = [1u8; 64];
    assert!(rgba(4, 4, &bytes).upload(false).is_some());
    assert!(rgba(4, 4, &bytes[..63]).upload(false).is_none());
    assert!(rgba(0, 4, &bytes).upload(false).is_none());
    let mut t = rgba(4, 4, &bytes);
    t.format = TextureFormat::Bc1;
    assert!(t.upload(false).is_none());
    let writes = t.upload(true).unwrap();
    assert_eq!(writes.len(), 1);
    assert_eq!((writes[0].bytes_per_row, writes[0].rows_per_image), (8, 1));
    t.mip_count = 3;
    let writes = t.upload(true).unwrap();
    assert_eq!(writes.len(), 3);
    let mut g = rgba(4, 4, &bytes);
    g.gen_mips = true;
    assert_eq!(g.upload(false).unwrap().len(), 3);
}

#[test]
fn sizes_that_cannot_be_counted_are_told_apart() {
    let bytes = [0u8; 4];
    assert!(rgba(1, 1, &bytes).is_countable(true));
    assert!(!rgba(u32::MAX, 1, &bytes).is_countable(true));
    assert!(!rgba(0x1_0000, 0x1_0000, &bytes).is_countable(true));
    assert!(rgba(0, 5, &bytes).is_countable(true));
}

#[test]
fn textures_take_places_and_give_them_back() {
    let bytes = [9u8; 16];
    let mut t = SharedTextures::new(false, 3, false);
    assert_eq!(t.bindless_views(), [0, 0, 0]);
    assert_eq!(t.ensure_bindless(), None);
    let a = t.create(&rgba(2, 2, &bytes)).handle;
    let b = t.create(&rgba(2, 2, &bytes)).handle;
    let c = t.create(&rgba(2, 2, &bytes)).handle;
    assert_eq!((t.texture_slot(a), t.texture_slot(b), t.texture_slot(c)), (1, 2, 0));
    assert_eq!(t.len(), 3);
    assert_eq!(t.ensure_bindless(), Some(vec![0, a, b]));
    assert_eq!(t.ensure_bindless(), None);
    t.destroy(a);
    assert_eq!(t.get(a).is_none(), true);
    assert_eq!(t.ensure_bindless(), Some(vec![0, 0, b]));
    let d = t.create(&rgba(2, 2, &bytes)).handle;
    assert_eq!(t.texture_slot(d), 1);
    assert_ne!(d, a);
    assert_eq!(t.bindless_views(), [0, d, b]);
    assert_eq!(t.texture_view(d), d);
    assert_eq!(t.texture_bind(a), 0);
    assert_eq!(t.texture_bind(0), 0);
    assert_eq!(t.sampler_bind(7), 7);
    assert_eq!(t.sampler_bind(8), 0);
    assert!(!t.bc_supported());
    t.destroy(0);
    assert_eq!(t.len(), 3);
}

#[test]
fn a_refused_texture_keeps_its_place_free() {
    let bytes = [9u8; 16];
    let mut t = SharedTextures::new(false, 8, true);
    assert_eq!(t.create(&rgba(0, 2, &bytes)).handle, 0);
    let a = t.create(&rgba(2, 2, &bytes)).handle;
    assert_eq!(t.texture_slot(a), 1);
    assert_eq!(t.bindless_views(), [0, a]);
}

#[test]
fn pixels_are_replaced_whole() {
    let bytes = [9u8; 16];
    let mut t = SharedTextures::new(false, 8, true);
    let a = t.create(&rgba(2, 2, &bytes)).handle;
    let w = t.update_rgba(a, &bytes).unwrap();
    assert_eq!((w.width, w.height, w.bytes_per_row, w.rows_per_image), (2, 2, 8, 2));
    assert_eq!(w.data, bytes);
    assert!(t.update_rgba(a, &bytes[..15]).is_none());
    assert!(t.update_rgba(0, &bytes).is_none());
    let mut r = TextureRegistry::new(true);
    let up = r.create(&rgba(2, 2, &bytes), 5);
    assert_eq!(r.get(up.handle).unwrap().slot, 5);
    assert!(r.update_rgba(up.handle, &bytes).is_some());
    r.destroy(up.handle);
    assert_eq!(r.len(), 0);
    assert!(r.update_rgba(up.handle, &bytes).is_none());
}

#[test]
fn flat_pictures_are_taken_or_refused() {
    let bytes = [0u8; 64];
    assert_eq!(flat::TexFormat::from_i32(3), Some(flat::TexFormat::Bc3));
    assert_eq!(flat::TexFormat::from_i32(4), None);
    assert!(flat::TexFormat::Bc2.is_block_compressed());
    assert_eq!(flat::TexFormat::Bc1.bytes_per_row(9), 24);
    assert_eq!(flat::TexFormat::Bc1.rows(9), 3);
    assert_eq!(flat::TexFormat::Rgba8.expected_len(3, 3), 36);
    let mut r = flat::TextureRegistry::new(false);
    let data = |format: flat::TexFormat, width: u32| flat::TextureData { width, height: 4, format, bytes: &bytes };
    assert_eq!(r.create(&data(flat::TexFormat::Bc1, 4)).0, 0);
    assert_eq!(r.create(&data(flat::TexFormat::Rgba8, 5)).0, 0);
    assert_eq!(r.create(&data(flat::TexFormat::Rgba8, 0)).0, 0);
    assert_eq!(r.create(&data(flat::TexFormat::Bc3, u32::MAX)).0, 0);
    let thin = flat::TextureData {
        width: u32::MAX,
        height: 0,
        format: flat::TexFormat::Rgba8,
        bytes: &bytes,
    };
    assert_eq!(r.create(&thin).0, 0);
    let (h, w) = r.create(&data(flat::TexFormat::Rgba8, 4));
    let w = w.unwrap();
    assert_eq!((w.width, w.height, w.bytes_per_row, w.rows), (4, 4, 16, 4));
    assert_eq!(r.get(h).unwrap().width, 4);
    assert!(r.update_rgba(h, &bytes).is_some());
    assert!(r.update_rgba(h, &bytes[1..]).is_none());
    r.destroy(h);
    assert!(r.get(h).is_none());
    assert!(r.get(0).is_none());
    assert!(r.update_rgba(h, &bytes).is_none());
}

#[test]
fn formats_count_alike() {
    for v in 0..=3 {
        let f = flat::TexFormat::from_i32(v).unwrap();
        let shared = TextureFormat::from_i32(v).unwrap();
        for (w, h) in [(1, 1), (4, 4), (5, 9), (17, 3)] {
            assert_eq!(f.expected_len(w, h), shared.expected_len(w, h));
            if v > 0 {
                let (wide, high) = (w.div_ceil(4) * 4, h.div_ceil(4) * 4);
                assert_eq!(f.expected_len(wide, high), f.expected_len(w, h));
            }
        }
    }
    assert_eq!(flat::TexFormat::Bc1.expected_len(5, 9), 48);
    assert_eq!(flat::TexFormat::Bc2.expected_len(5, 9), 96);
    assert_eq!(flat::TexFormat::Bc3.expected_len(5, 9), 96);
}

#[test]
fn flat_batches_find_their_pipelines() {
    let mut g = Gfx2d::new();
    let mut b = WgrDraw2DBatch {
        texture_id: 3,
        first_vertex: 6,
        vertex_count: 12,
        blend: WgrBlend::Additive,
        sampler: WgrSampler2D(5),
        depth: 2,
    };
    assert!(g.draw_one(&b).is_none());
    assert!(!g.prepare(0));
    assert!(g.prepare(100));
    assert!(!g.prepare(2048));
    assert!(g.prepare(2049));
    let d = g.draw_one(&b).unwrap();
    assert_eq!((d.texture, d.sampler, d.first_vertex, d.end_vertex), (3, 5, 6, 18));
    let p = flat_pipeline(d.depth_set, d.blend_set);
    assert!(p.depth.unwrap().write);
    b.depth = 77;
    b.blend = WgrBlend::Shadow;
    let plain = g.draw_one(&b).unwrap();
    assert_ne!(plain.depth_set, d.depth_set);
    assert_ne!(plain.blend_set, d.blend_set);
    assert!(!flat_pipeline(plain.depth_set, plain.blend_set).depth.unwrap().write);
    b.vertex_count = 0;
    assert!(g.draw_one(&b).is_none());
    assert_eq!(g.globals([1, 2], [3, 4, 5]), [1, 2, 0, 0, 3, 4, 5, 0]);
}
