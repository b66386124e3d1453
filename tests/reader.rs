use aseprite_reader::raw::{
    AsepriteAnimationDirection, AsepriteBlendMode, AsepriteColor, AsepriteColorDepth,
    AsepriteLayerType, AsepritePixel, RawAseprite, RawAsepriteCel, RawAsepriteChunk,
    RawAsepriteFrame, RawAsepriteHeader, RawAsepriteTag, RawAsepriteUserData,
};
use aseprite_reader::Aseprite;

use AsepriteLayerType::{Group as G, Normal as N};

fn layer(name: &str, layer_type: AsepriteLayerType, child: u16) -> RawAsepriteChunk {
    let (blend_mode, opacity) = if name == "Day" { (AsepriteBlendMode::SoftLight, 128) } else { (AsepriteBlendMode::Normal, 255) };
    RawAsepriteChunk::Layer {
        flags: if name == "Night" { 0 } else { 1 },
        layer_type,
        layer_child: child,
        width: 0,
        height: 0,
        blend_mode,
        opacity,
        name: name.to_string(),
    }
}

fn user_data(text: &str) -> RawAsepriteChunk {
    RawAsepriteChunk::UserData {
        data: RawAsepriteUserData { text: text.to_string(), color: AsepriteColor { red: 0, green: 0, blue: 0, alpha: 0 } },
    }
}

fn cel(layer_index: u16, opacity: u8, z_index: i16) -> RawAsepriteChunk {
    let px = AsepritePixel::RGBA(AsepriteColor { red: 200, green: 100, blue: 50, alpha: 255 });
    RawAsepriteChunk::Cel {
        layer_index,
        x: 0,
        y: 0,
        opacity,
        z_index,
        cel: RawAsepriteCel::Raw { width: 2, height: 2, pixels: vec![px; 4] },
    }
}

fn tag(from: u16, to: u16, name: &str) -> RawAsepriteTag {
    RawAsepriteTag { from, to, anim_direction: AsepriteAnimationDirection::Forward, name: name.to_string() }
}

/// A two-frame document with the layers, cels, user data and tags of a table scene.
fn complex() -> Aseprite {
    let mut first = vec![
        layer("BG1", N, 0),
        user_data("LayerBG1UserData"),
        layer("BG2", N, 0),
        layer("BG3", N, 0),
        layer("Table", G, 0),
        layer("Col1BG", N, 1),
        layer("Col1", G, 1),
        user_data("LayerCol1UserData"),
        layer("Col1Row1", N, 2),
        layer("Col2BG", N, 1),
        layer("Col2", G, 1),
        layer("Col2Row1", N, 2),
        layer("Col3BG", N, 1),
        layer("Col3", G, 1),
        layer("Col3Row1", N, 2),
        layer("Filter", G, 0),
        layer("Day", N, 1),
        layer("Night", N, 1),
        layer("Watermark", N, 0),
        RawAsepriteChunk::Tags { tags: vec![tag(0, 1, "FrameAllTag"), tag(0, 0, "Frame1Tag"), tag(1, 1, "Frame2Tag")] },
        user_data("FrameAllTagUserData"),
        user_data(""),
        user_data("Frame2TagUserData"),
    ];
    first.extend(vec![
        cel(0, 255, 0),
        user_data("CelBG1Frame1UserData"),
        cel(4, 255, 0),
        user_data("CelCol1BGFrame1UserData"),
        cel(6, 255, 0),
        cel(12, 255, 0),
    ]);
    let second = vec![cel(0, 128, 0), user_data("CelBG1Frame2UserData"), cel(12, 255, -20)];
    let header = RawAsepriteHeader { width: 16, height: 16, color_depth: AsepriteColorDepth::RGBA, flags: 1, transparent_palette: 0 };
    let frames = vec![
        RawAsepriteFrame { duration_ms: 100, chunks: first },
        RawAsepriteFrame { duration_ms: 100, chunks: second },
    ];
    Aseprite::from_raw(RawAseprite { header, frames }).unwrap()
}

#[test]
fn test_check_aseprite_reader_result() {
    let aseprite = complex();

    let col2row1_layer = aseprite.get_layer_by_name("Col2Row1").unwrap();
    let col2row1_layer_group_ids = aseprite.find_layer_belong_groups(col2row1_layer.index());
    let col2row1_layer_group: Vec<&str> = col2row1_layer_group_ids
        .into_iter()
        .map(|index| aseprite.get_layer_by_index(&index).unwrap().name())
        .collect();
    assert_eq!(col2row1_layer_group, vec!["Col2", "Table"]);

    {
        let layer = aseprite.get_layer_by_name("BG1").unwrap();
        let frame_2_cel = aseprite.get_cel(&layer.index(), &1).unwrap();

        assert_eq!(frame_2_cel.opacity, 128);
    }

    {
        let layer = aseprite.get_layer_by_name("Col1").unwrap();

        assert_eq!(layer.user_data(), "LayerCol1UserData");
    }

    {
        let layer = aseprite.get_layer_by_name("BG1").unwrap();
        let layer_index = layer.index();
        let layer_image = aseprite.get_image_by_layer_frame(&layer_index, &0).unwrap().unwrap();
        assert_eq!(layer_image.rows, vec![vec![[200, 100, 50, 255]; 2]; 2]);
        assert_eq!(layer.user_data(), "LayerBG1UserData");
    }

    {
        let layer = aseprite.get_layer_by_name("Col3Row1").unwrap();
        let layer_index = layer.index();
        let layer_cel = aseprite.get_cel(&layer_index, &1).unwrap();

        assert_eq!(layer_cel.z_index, -20);
    }

    for layer in aseprite.layers().inner() {
        let layer_index = layer.index();
        match layer.name() {
            "BG1" => {
                let cel = aseprite.get_cel(&layer_index, &0).unwrap();
                assert_eq!(cel.user_data, "CelBG1Frame1UserData");
                let cel = aseprite.get_cel(&layer_index, &1).unwrap();
                assert_eq!(cel.user_data, "CelBG1Frame2UserData");

                assert_eq!(layer.blend_mode(), AsepriteBlendMode::Normal);
                assert_eq!(layer.opacity(), Some(255));
            }
            "Col1BG" => {
                let cel = aseprite.get_cel(&layer_index, &0).unwrap();
                assert_eq!(cel.user_data, "CelCol1BGFrame1UserData");
            }
            "Day" => {
                assert_eq!(layer.blend_mode(), AsepriteBlendMode::SoftLight);
                assert_eq!(layer.opacity(), Some(128));
            }
            "Night" => {
                assert!(!layer.is_visible());
            }
            _ => {}
        }
    }

    for tag in aseprite.tags().all() {
        match tag.name.as_str() {
            "FrameAllTag" => {
                assert_eq!(tag.frames, 0..1);
                assert_eq!(tag.user_data, "FrameAllTagUserData");
            }
            "Frame1Tag" => {
                assert_eq!(tag.frames, 0..0);
            }
            "Frame2Tag" => {
                assert_eq!(tag.frames, 1..1);
                assert_eq!(tag.user_data, "Frame2TagUserData");
            }
            _ => {}
        }
    }
}
