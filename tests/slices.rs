use aseprite_reader::raw::{
    AsepriteBlendMode, AsepriteColor, AsepriteColorDepth, AsepriteLayerType, AsepriteNinePatchInfo,
    AsepritePixel, RawAseprite, RawAsepriteCel, RawAsepriteChunk, RawAsepriteFrame,
    RawAsepriteHeader, RawAsepriteSlice,
};
use aseprite_reader::slice::nine_patch_region;
use aseprite_reader::{Aseprite, NineSlice};

fn pixel(i: u8) -> AsepritePixel {
    AsepritePixel::RGBA(AsepriteColor { red: i, green: 0, blue: 0, alpha: 255 })
}

/// A 4 by 4 canvas whose pixel at (x, y) has red value `y * 4 + x`, with one slice.
fn document(key: RawAsepriteSlice) -> Aseprite {
    let header = RawAsepriteHeader { width: 4, height: 4, color_depth: AsepriteColorDepth::RGBA, flags: 1, transparent_palette: 0 };
    let chunks = vec![
        RawAsepriteChunk::Layer {
            flags: 1,
            layer_type: AsepriteLayerType::Normal,
            layer_child: 0,
            width: 0,
            height: 0,
            blend_mode: AsepriteBlendMode::Normal,
            opacity: 255,
            name: "A".to_string(),
        },
        RawAsepriteChunk::Cel {
            layer_index: 0,
            x: 0,
            y: 0,
            opacity: 255,
            z_index: 0,
            cel: RawAsepriteCel::Raw { width: 4, height: 4, pixels: (0..16).map(pixel).collect() },
        },
        RawAsepriteChunk::Slice { name: "S".to_string(), slices: vec![key] },
    ];
    Aseprite::from_raw(RawAseprite { header, frames: vec![RawAsepriteFrame { duration_ms: 10, chunks }] }).unwrap()
}

fn reds(rows: &[Vec<[u8; 4]>]) -> Vec<Vec<u8>> {
    rows.iter().map(|r| r.iter().map(|p| p[0]).collect()).collect()
}

#[test]
fn slice_image_is_cropped_with_negative_origin_clamped() {
    let doc = document(RawAsepriteSlice { frame: 0, x_origin: -2, y_origin: 1, width: 2, height: 2, nine_patch_info: None });
    let slices = doc.slices();
    let images = slices.get_images(slices.get_all()).unwrap();
    assert_eq!(images.len(), 1);
    assert_eq!(reds(&images[0].image.rows), vec![vec![4, 5], vec![8, 9]]);
    assert!(images[0].nine_slices.is_none());
}

#[test]
fn slice_crop_stops_at_the_canvas_edge() {
    let doc = document(RawAsepriteSlice { frame: 0, x_origin: 3, y_origin: 2, width: 5, height: 5, nine_patch_info: None });
    let slices = doc.slices();
    let images = slices.get_images(slices.get_all()).unwrap();
    assert_eq!(reds(&images[0].image.rows), vec![vec![11], vec![15]]);
}

#[test]
fn nine_patch_parts_tile_the_slice() {
    let info = AsepriteNinePatchInfo { x_center: 1, y_center: 1, width: 2, height: 1 };
    let doc = document(RawAsepriteSlice { frame: 0, x_origin: 0, y_origin: 0, width: 4, height: 4, nine_patch_info: Some(info) });
    let slices = doc.slices();
    let images = slices.get_images(slices.get_all()).unwrap();
    let parts = images[0].nine_slices.as_ref().unwrap();
    assert_eq!(parts.len(), 9);
    let part = |n: NineSlice| reds(&parts.iter().find(|(k, _)| *k == n).unwrap().1.rows);
    assert_eq!(part(NineSlice::TopLeft), vec![vec![0]]);
    assert_eq!(part(NineSlice::TopCenter), vec![vec![1, 2]]);
    assert_eq!(part(NineSlice::TopRight), vec![vec![3]]);
    assert_eq!(part(NineSlice::LeftCenter), vec![vec![4]]);
    assert_eq!(part(NineSlice::Center), vec![vec![5, 6]]);
    assert_eq!(part(NineSlice::RightCenter), vec![vec![7]]);
    assert_eq!(part(NineSlice::BottomLeft), vec![vec![8], vec![12]]);
    assert_eq!(part(NineSlice::BottomCenter), vec![vec![9, 10], vec![13, 14]]);
    assert_eq!(part(NineSlice::BottomRight), vec![vec![11], vec![15]]);
    let area: usize = parts.iter().map(|(_, c)| (c.width * c.height) as usize).sum();
    assert_eq!(area, 16);
}

#[test]
fn nine_patch_regions_follow_the_table() {
    let info = AsepriteNinePatchInfo { x_center: 2, y_center: 3, width: 5, height: 4 };
    assert_eq!(nine_patch_region(10, 9, &info, NineSlice::TopLeft), (0, 0, 2, 3));
    assert_eq!(nine_patch_region(10, 9, &info, NineSlice::TopCenter), (2, 0, 5, 3));
    assert_eq!(nine_patch_region(10, 9, &info, NineSlice::TopRight), (7, 0, 3, 3));
    assert_eq!(nine_patch_region(10, 9, &info, NineSlice::LeftCenter), (0, 3, 2, 4));
    assert_eq!(nine_patch_region(10, 9, &info, NineSlice::Center), (2, 3, 5, 4));
    assert_eq!(nine_patch_region(10, 9, &info, NineSlice::RightCenter), (7, 3, 3, 4));
    assert_eq!(nine_patch_region(10, 9, &info, NineSlice::BottomLeft), (0, 7, 2, 2));
    assert_eq!(nine_patch_region(10, 9, &info, NineSlice::BottomCenter), (2, 7, 5, 2));
    assert_eq!(nine_patch_region(10, 9, &info, NineSlice::BottomRight), (7, 7, 3, 2));
}

#[test]
fn nine_patch_overhanging_center_is_held_in_the_slice() {
    let info = AsepriteNinePatchInfo { x_center: -1, y_center: 2, width: 9, height: 1 };
    assert_eq!(nine_patch_region(4, 4, &info, NineSlice::TopLeft), (0, 0, 0, 2));
    assert_eq!(nine_patch_region(4, 4, &info, NineSlice::Center), (0, 2, 4, 1));
    assert_eq!(nine_patch_region(4, 4, &info, NineSlice::RightCenter), (4, 2, 0, 1));
}

#[test]
fn slice_of_a_missing_frame_is_blank() {
    let doc = document(RawAsepriteSlice { frame: 3, x_origin: 0, y_origin: 0, width: 1, height: 1, nine_patch_info: None });
    let slices = doc.slices();
    let images = slices.get_images(slices.get_all()).unwrap();
    assert_eq!(images[0].image.rows, vec![vec![[0, 0, 0, 0]]]);
}
