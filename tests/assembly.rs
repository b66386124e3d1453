use aseprite_reader::raw::{
    AsepriteAnimationDirection, AsepriteBlendMode, AsepriteColor, AsepriteColorDepth,
    AsepriteLayerType, AsepritePixel, RawAseprite, RawAsepriteCel, RawAsepriteChunk,
    RawAsepriteFrame, RawAsepriteHeader, RawAsepritePaletteEntry, RawAsepriteSlice, RawAsepriteTag,
    RawAsepriteUserData,
};
use aseprite_reader::{Aseprite, AsepritePalette, AsepriteWarning};

fn color(r: u8, g: u8, b: u8, a: u8) -> AsepriteColor {
    AsepriteColor { red: r, green: g, blue: b, alpha: a }
}

fn header(flags: u32) -> RawAsepriteHeader {
    RawAsepriteHeader {
        width: 4,
        height: 3,
        color_depth: AsepriteColorDepth::RGBA,
        flags,
        transparent_palette: 0,
    }
}

fn layer(name: &str, layer_type: AsepriteLayerType, child: u16, opacity: u8) -> RawAsepriteChunk {
    RawAsepriteChunk::Layer {
        flags: 1,
        layer_type,
        layer_child: child,
        width: 0,
        height: 0,
        blend_mode: AsepriteBlendMode::Normal,
        opacity,
        name: name.to_string(),
    }
}

fn user_data(text: &str, c: AsepriteColor) -> RawAsepriteChunk {
    RawAsepriteChunk::UserData { data: RawAsepriteUserData { text: text.to_string(), color: c } }
}

fn tag(from: u16, to: u16, name: &str) -> RawAsepriteTag {
    RawAsepriteTag { from, to, anim_direction: AsepriteAnimationDirection::Forward, name: name.to_string() }
}

fn raw_cel(layer_index: u16, w: u16, h: u16) -> RawAsepriteChunk {
    RawAsepriteChunk::Cel {
        layer_index,
        x: 0,
        y: 0,
        opacity: 255,
        z_index: 0,
        cel: RawAsepriteCel::Raw {
            width: w,
            height: h,
            pixels: vec![AsepritePixel::RGBA(color(1, 2, 3, 255)); (w as usize) * (h as usize)],
        },
    }
}

fn document(flags: u32, frames: Vec<Vec<RawAsepriteChunk>>) -> Aseprite {
    let frames = frames
        .into_iter()
        .map(|chunks| RawAsepriteFrame { duration_ms: 100, chunks })
        .collect();
    Aseprite::from_raw(RawAseprite { header: header(flags), frames }).unwrap()
}

#[test]
fn palette_fills_around_explicit_entries() {
    let red = color(255, 0, 0, 255);
    let palette = AsepritePalette::from_raw(5, 2, vec![RawAsepritePaletteEntry { color: red, name: None }]);
    let clear = color(0, 0, 0, 0);
    assert_eq!(palette.entries, vec![clear, clear, red, clear, clear]);
}

#[test]
fn palette_entries_past_the_size_are_dropped() {
    let a = color(1, 1, 1, 1);
    let b = color(2, 2, 2, 2);
    let palette = AsepritePalette::from_raw(2, 1, vec![
        RawAsepritePaletteEntry { color: a, name: None },
        RawAsepritePaletteEntry { color: b, name: None },
    ]);
    assert_eq!(palette.entries, vec![color(0, 0, 0, 0), a]);
}

#[test]
fn tag_range_is_half_open() {
    let doc = document(0, vec![vec![RawAsepriteChunk::Tags { tags: vec![tag(1, 1, "One"), tag(0, 0, "Zero")] }]]);
    let tags = doc.tags();
    let one = tags.get(&0).unwrap();
    assert_eq!(one.frames, 1..1);
    assert!(one.frames.is_empty());
    let zero = tags.get(&1).unwrap();
    assert_eq!(zero.frames, 0..0);
    assert_ne!(one.frames, zero.frames);
    assert!(tags.get(&2).is_none());
}

#[test]
fn tag_user_data_attaches_in_order() {
    let a = color(10, 0, 0, 255);
    let b = color(20, 0, 0, 255);
    let c = color(30, 0, 0, 255);
    let doc = document(0, vec![vec![
        RawAsepriteChunk::Tags { tags: vec![tag(0, 1, "First"), tag(1, 2, "Second"), tag(2, 3, "Third")] },
        user_data("one", a),
        user_data("two", b),
        user_data("three", c),
        user_data("extra", a),
    ]]);
    let all = doc.tags().all();
    assert_eq!(all.len(), 3);
    assert_eq!(all[0].user_data, "one");
    assert_eq!(all[0].color, a);
    assert_eq!(all[1].user_data, "two");
    assert_eq!(all[1].color, b);
    assert_eq!(all[2].user_data, "three");
    assert_eq!(all[2].color, c);
}

#[test]
fn tag_indices_continue_across_chunks() {
    let doc = document(0, vec![
        vec![RawAsepriteChunk::Tags { tags: vec![tag(0, 1, "A")] }],
        vec![RawAsepriteChunk::Tags { tags: vec![tag(0, 1, "B"), tag(1, 2, "C")] }, user_data("b", color(0, 0, 0, 0))],
    ]);
    let all = doc.tags().all();
    assert_eq!(all.iter().map(|t| t.index).collect::<Vec<_>>(), vec![0, 1, 2]);
    assert_eq!(all[0].user_data, "");
    assert_eq!(all[1].user_data, "b");
    assert_eq!(all[2].user_data, "");
}

#[test]
fn layer_indices_follow_arrival_order() {
    let doc = document(1, vec![
        vec![layer("Bottom", AsepriteLayerType::Normal, 0, 255), layer("Group", AsepriteLayerType::Group, 0, 255)],
        vec![layer("Top", AsepriteLayerType::Normal, 1, 128)],
    ]);
    let layers = doc.layers();
    let names: Vec<&str> = layers.inner().iter().map(|l| l.name()).collect();
    assert_eq!(names, vec!["Bottom", "Group", "Top"]);
    for (i, l) in layers.inner().iter().enumerate() {
        assert_eq!(l.index(), i);
    }
    assert_eq!(layers.get_by_id(2).unwrap().opacity(), Some(128));
    assert_eq!(layers.get_by_id(1).unwrap().opacity(), None);
    assert!(layers.get_by_id(3).is_none());
}

#[test]
fn layer_opacity_needs_the_header_flag() {
    let doc = document(0, vec![vec![layer("A", AsepriteLayerType::Normal, 0, 77)]]);
    assert_eq!(doc.get_layer_by_index(&0).unwrap().opacity(), None);
    let doc = document(1, vec![vec![layer("A", AsepriteLayerType::Normal, 0, 77)]]);
    assert_eq!(doc.get_layer_by_index(&0).unwrap().opacity(), Some(77));
}

#[test]
fn user_data_goes_to_the_last_entity() {
    let c = color(9, 8, 7, 6);
    let doc = document(1, vec![vec![
        user_data("dropped", c),
        layer("A", AsepriteLayerType::Normal, 0, 255),
        user_data("layer text", c),
        raw_cel(0, 1, 1),
        user_data("cel text", c),
        RawAsepriteChunk::Palette { palette_size: 1, from_color: 0, to_color: 0, entries: vec![] },
        user_data("palette text", c),
    ]]);
    let a = doc.get_layer_by_name("A").unwrap();
    assert_eq!(a.user_data(), "layer text");
    let cel = doc.get_cel(&0, &0).unwrap();
    assert_eq!(cel.user_data, "cel text");
    assert_eq!(cel.color, c);
}

#[test]
fn cel_frames_count_per_layer() {
    let doc = document(1, vec![
        vec![layer("A", AsepriteLayerType::Normal, 0, 255), layer("B", AsepriteLayerType::Normal, 0, 255), raw_cel(1, 1, 1)],
        vec![raw_cel(0, 2, 1), raw_cel(1, 1, 2)],
    ]);
    assert_eq!(doc.get_cel(&0, &0).unwrap().get_size(), Some([2, 1]));
    assert!(doc.get_cel(&0, &1).is_none());
    assert_eq!(doc.get_cel(&1, &1).unwrap().get_size(), Some([1, 2]));
    assert!(doc.get_cel(&5, &0).is_none());
}

#[test]
fn unsupported_chunks_are_recorded() {
    let doc = document(0, vec![vec![RawAsepriteChunk::ColorProfile], vec![RawAsepriteChunk::CelExtra]]);
    assert_eq!(doc.warnings(), &[AsepriteWarning::UnsupportedColorProfile(0), AsepriteWarning::UnsupportedCelExtra(1)]);
    assert_eq!(doc.frame_count(), 2);
    assert_eq!(doc.frame_infos().len(), 2);
    assert_eq!(doc.frame_infos()[1].delay_ms, 100);
}

#[test]
fn later_slice_keys_replace_earlier_ones() {
    let key = |frame: u32, x: i32| RawAsepriteSlice {
        frame,
        x_origin: x,
        y_origin: 0,
        width: 2,
        height: 2,
        nine_patch_info: None,
    };
    let doc = document(0, vec![vec![
        RawAsepriteChunk::Slice { name: "S".to_string(), slices: vec![key(0, 1), key(0, 2)] },
        RawAsepriteChunk::Slice { name: "T".to_string(), slices: vec![key(0, 5)] },
        RawAsepriteChunk::Slice { name: "S".to_string(), slices: vec![key(0, 3)] },
    ]]);
    let slices = doc.slices();
    assert_eq!(slices.get_all().len(), 2);
    assert_eq!(slices.get_by_name("S").unwrap().position_x, 3);
    assert_eq!(slices.get_by_name("T").unwrap().position_x, 5);
    assert!(slices.get_by_name("U").is_none());
}

#[test]
fn frame_lookups_check_bounds() {
    let doc = document(0, vec![vec![], vec![]]);
    assert!(doc.get_frame(1).is_some());
    assert!(doc.get_frame(2).is_none());
    let frames = doc.frames();
    assert_eq!(frames.count(), 2);
    assert_eq!(frames.get(1).get_infos().unwrap().delay_ms, 100);
    assert!(frames.get(2).get_infos().is_err());
    assert_eq!(frames.get_for(&(0..2)).get_infos().unwrap().len(), 2);
    assert!(frames.get_for(&(1..3)).get_infos().is_err());
}
