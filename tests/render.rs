use aseprite_reader::raw::{
    AsepriteBlendMode, AsepriteColor, AsepriteColorDepth, AsepriteLayerType, AsepritePixel,
    RawAseprite, RawAsepriteCel, RawAsepriteChunk, RawAsepriteFrame, RawAsepriteHeader,
    RawAsepritePaletteEntry,
};
use image::Pixel;

use aseprite_reader::{image_for_frame, Aseprite, AsepriteError, AsepriteInvalidError, Canvas};

const RED: [u8; 4] = [255, 0, 0, 255];
const CLEAR: [u8; 4] = [0, 0, 0, 0];

fn rgba(p: [u8; 4]) -> AsepritePixel {
    AsepritePixel::RGBA(AsepriteColor { red: p[0], green: p[1], blue: p[2], alpha: p[3] })
}

fn layer(name: &str, layer_type: AsepriteLayerType, visible: bool) -> RawAsepriteChunk {
    RawAsepriteChunk::Layer {
        flags: if visible { 1 } else { 0 },
        layer_type,
        layer_child: 0,
        width: 0,
        height: 0,
        blend_mode: AsepriteBlendMode::Normal,
        opacity: 255,
        name: name.to_string(),
    }
}

fn cel(layer_index: u16, x: i16, y: i16, w: u16, h: u16, pixels: Vec<AsepritePixel>) -> RawAsepriteChunk {
    RawAsepriteChunk::Cel {
        layer_index,
        x,
        y,
        opacity: 255,
        z_index: 0,
        cel: RawAsepriteCel::Raw { width: w, height: h, pixels },
    }
}

fn linked(layer_index: u16, frame_position: u16) -> RawAsepriteChunk {
    RawAsepriteChunk::Cel {
        layer_index,
        x: 1,
        y: 1,
        opacity: 255,
        z_index: 0,
        cel: RawAsepriteCel::Linked { frame_position },
    }
}

fn document(depth: AsepriteColorDepth, frames: Vec<Vec<RawAsepriteChunk>>) -> Aseprite {
    let header = RawAsepriteHeader { width: 4, height: 3, color_depth: depth, flags: 1, transparent_palette: 0 };
    let frames = frames.into_iter().map(|chunks| RawAsepriteFrame { duration_ms: 50, chunks }).collect();
    Aseprite::from_raw(RawAseprite { header, frames }).unwrap()
}

fn expected(width: usize, height: usize, painted: &[(usize, usize, [u8; 4])]) -> Vec<Vec<[u8; 4]>> {
    let mut rows = vec![vec![CLEAR; width]; height];
    for &(x, y, p) in painted {
        rows[y][x] = p;
    }
    rows
}

#[test]
fn red_block_over_transparent_canvas() {
    let doc = document(AsepriteColorDepth::RGBA, vec![vec![
        layer("A", AsepriteLayerType::Normal, true),
        layer("G", AsepriteLayerType::Group, true),
        cel(0, 0, 0, 2, 2, vec![rgba(RED); 4]),
    ]]);
    let image = image_for_frame(&doc, 0).unwrap();
    assert_eq!(image.width, 4);
    assert_eq!(image.height, 3);
    assert_eq!(image.rows, expected(4, 3, &[(0, 0, RED), (1, 0, RED), (0, 1, RED), (1, 1, RED)]));
}

#[test]
fn hidden_layer_equals_removed_layer() {
    let green = [0, 255, 0, 255];
    let with_hidden = document(AsepriteColorDepth::RGBA, vec![vec![
        layer("A", AsepriteLayerType::Normal, true),
        layer("B", AsepriteLayerType::Normal, false),
        cel(0, 0, 0, 1, 1, vec![rgba(RED)]),
        cel(1, 0, 0, 2, 1, vec![rgba(green); 2]),
    ]]);
    let without = document(AsepriteColorDepth::RGBA, vec![vec![
        layer("A", AsepriteLayerType::Normal, true),
        cel(0, 0, 0, 1, 1, vec![rgba(RED)]),
    ]]);
    let a = image_for_frame(&with_hidden, 0).unwrap();
    let b = image_for_frame(&without, 0).unwrap();
    assert_eq!(a, b);
    assert_eq!(a.rows, expected(4, 3, &[(0, 0, RED)]));
}

#[test]
fn cel_offset_is_applied_and_clipped() {
    let doc = document(AsepriteColorDepth::RGBA, vec![vec![
        layer("A", AsepriteLayerType::Normal, true),
        cel(0, -1, 2, 3, 2, vec![rgba(RED); 6]),
    ]]);
    let image = image_for_frame(&doc, 0).unwrap();
    assert_eq!(image.rows, expected(4, 3, &[(0, 2, RED), (1, 2, RED)]));
}

#[test]
fn upper_layer_is_painted_over_lower() {
    let half_blue = [0, 0, 255, 128];
    let doc = document(AsepriteColorDepth::RGBA, vec![vec![
        layer("A", AsepriteLayerType::Normal, true),
        layer("B", AsepriteLayerType::Normal, true),
        cel(0, 0, 0, 1, 1, vec![rgba(RED)]),
        cel(1, 0, 0, 1, 1, vec![rgba(half_blue)]),
    ]]);
    let image = image_for_frame(&doc, 0).unwrap();
    let p = image.get_pixel(0, 0);
    assert_ne!(p, RED);
    assert_ne!(p, half_blue);
    let mut over = image::Rgba(RED);
    over.blend(&image::Rgba(half_blue));
    assert_eq!(p, over.0);
    assert!(p[0] > 0 && p[2] > 0);
}

#[test]
fn linked_cel_uses_earlier_pixels_at_its_own_position() {
    let doc = document(AsepriteColorDepth::RGBA, vec![
        vec![layer("A", AsepriteLayerType::Normal, true), cel(0, 0, 0, 1, 1, vec![rgba(RED)])],
        vec![linked(0, 1)],
    ]);
    let image = image_for_frame(&doc, 1).unwrap();
    assert_eq!(image.rows, expected(4, 3, &[(1, 1, RED)]));
    let single = doc.get_image_by_layer_frame(&0, &1).unwrap().unwrap();
    assert_eq!(single.rows, vec![vec![RED]]);
}

#[test]
fn double_link_is_an_integrity_error() {
    let doc = document(AsepriteColorDepth::RGBA, vec![
        vec![layer("A", AsepriteLayerType::Normal, true), linked(0, 7)],
        vec![linked(0, 1)],
    ]);
    let err = AsepriteError::InvalidConfiguration(AsepriteInvalidError::InvalidFrame(7));
    assert_eq!(doc.resolve_cel(0, 1).unwrap_err(), err);
    assert_eq!(image_for_frame(&doc, 1).unwrap_err(), err);
    assert_eq!(doc.get_frame(1).unwrap().get_image_by_layer(&0).unwrap_err(), err);
}

#[test]
fn dangling_link_fails_a_merged_frame() {
    let doc = document(AsepriteColorDepth::RGBA, vec![vec![layer("A", AsepriteLayerType::Normal, true), linked(0, 3)]]);
    let err = AsepriteError::InvalidConfiguration(AsepriteInvalidError::InvalidFrame(3));
    assert_eq!(image_for_frame(&doc, 0).unwrap_err(), err);
    assert_eq!(doc.resolve_frame_cel(0, 0).unwrap_err(), err);
    assert_eq!(doc.get_frame(0).unwrap().get_images().unwrap_err(), err);
}

#[test]
fn dangling_link_is_not_found_for_one_layer() {
    let doc = document(AsepriteColorDepth::RGBA, vec![vec![layer("A", AsepriteLayerType::Normal, true), linked(0, 3)]]);
    assert!(doc.resolve_cel(0, 0).unwrap().is_none());
    assert!(doc.get_image_by_layer_frame(&0, &0).unwrap().is_none());
    assert!(doc.get_frame(0).unwrap().get_image_by_layer(&0).unwrap().is_none());
}

#[test]
fn missing_cel_is_not_an_error() {
    let doc = document(AsepriteColorDepth::RGBA, vec![vec![layer("A", AsepriteLayerType::Normal, true)]]);
    assert!(doc.resolve_cel(0, 0).unwrap().is_none());
    assert!(doc.get_image_by_layer_frame(&0, &0).unwrap().is_none());
    assert_eq!(image_for_frame(&doc, 0).unwrap(), Canvas::new(4, 3));
}

#[test]
fn indexed_pixels_resolve_through_the_palette() {
    let doc = document(AsepriteColorDepth::Indexed, vec![vec![
        RawAsepriteChunk::Palette {
            palette_size: 2,
            from_color: 0,
            to_color: 1,
            entries: vec![
                RawAsepritePaletteEntry { color: AsepriteColor { red: 0, green: 0, blue: 0, alpha: 255 }, name: None },
                RawAsepritePaletteEntry { color: AsepriteColor { red: 255, green: 0, blue: 0, alpha: 255 }, name: None },
            ],
        },
        layer("A", AsepriteLayerType::Normal, true),
        cel(0, 0, 0, 2, 1, vec![AsepritePixel::Indexed(1), AsepritePixel::Indexed(0)]),
    ]]);
    let image = doc.get_image_by_layer_frame(&0, &0).unwrap().unwrap();
    assert_eq!(image.rows, vec![vec![RED, CLEAR]]);
}

#[test]
fn palette_index_out_of_range_is_an_error() {
    let doc = document(AsepriteColorDepth::Indexed, vec![vec![
        layer("A", AsepriteLayerType::Normal, true),
        cel(0, 0, 0, 1, 1, vec![AsepritePixel::Indexed(4)]),
    ]]);
    assert_eq!(
        image_for_frame(&doc, 0).unwrap_err(),
        AsepriteError::InvalidConfiguration(AsepriteInvalidError::InvalidPaletteIndex(4))
    );
}

#[test]
fn short_pixel_block_is_an_error() {
    let doc = document(AsepriteColorDepth::RGBA, vec![vec![
        layer("A", AsepriteLayerType::Normal, true),
        cel(0, 0, 0, 2, 2, vec![rgba(RED); 3]),
    ]]);
    assert_eq!(
        doc.get_image_by_layer_frame(&0, &0).unwrap_err(),
        AsepriteError::InvalidConfiguration(AsepriteInvalidError::InvalidPixelData(3))
    );
}

#[test]
fn grayscale_pixels_have_equal_channels() {
    let doc = document(AsepriteColorDepth::Grayscale, vec![vec![
        layer("A", AsepriteLayerType::Normal, true),
        cel(0, 0, 0, 1, 1, vec![AsepritePixel::Grayscale { intensity: 90, alpha: 255 }]),
    ]]);
    let image = doc.get_image_by_layer_frame(&0, &0).unwrap().unwrap();
    assert_eq!(image.rows, vec![vec![[90, 90, 90, 255]]]);
}

#[test]
fn frame_images_skip_groups_and_empty_layers() {
    let doc = document(AsepriteColorDepth::RGBA, vec![vec![
        layer("A", AsepriteLayerType::Normal, true),
        layer("G", AsepriteLayerType::Group, true),
        layer("B", AsepriteLayerType::Normal, false),
        layer("C", AsepriteLayerType::Normal, true),
        cel(0, 2, 2, 1, 1, vec![rgba(RED)]),
        cel(2, 0, 0, 1, 2, vec![rgba(RED); 2]),
    ]]);
    let images = doc.get_frame(0).unwrap().get_images().unwrap();
    assert_eq!(images.len(), 2);
    assert_eq!(images[&0].rows, vec![vec![RED]]);
    assert_eq!(images[&2].rows, vec![vec![RED], vec![RED]]);
}

#[test]
fn frame_range_images_in_order() {
    let doc = document(AsepriteColorDepth::RGBA, vec![
        vec![layer("A", AsepriteLayerType::Normal, true), cel(0, 0, 0, 1, 1, vec![rgba(RED)])],
        vec![cel(0, 3, 2, 1, 1, vec![rgba(RED)])],
    ]);
    let images = doc.frames().get_for(&(0..2)).get_images().unwrap();
    assert_eq!(images.len(), 2);
    assert_eq!(images[0].rows, expected(4, 3, &[(0, 0, RED)]));
    assert_eq!(images[1].rows, expected(4, 3, &[(3, 2, RED)]));
    assert!(doc.frames().get_for(&(1..1)).get_images().unwrap().is_empty());
}
