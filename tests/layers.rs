use aseprite_reader::raw::{
    AsepriteBlendMode, AsepriteColorDepth, AsepriteLayerType, RawAseprite, RawAsepriteChunk,
    RawAsepriteFrame, RawAsepriteHeader,
};
use aseprite_reader::{build_layer_tree, Aseprite, AsepriteError, AsepriteInvalidError, LayerTreeNode};

fn layer(name: &str, layer_type: AsepriteLayerType, child: u16) -> RawAsepriteChunk {
    RawAsepriteChunk::Layer {
        flags: 1,
        layer_type,
        layer_child: child,
        width: 0,
        height: 0,
        blend_mode: if name == "Day" { AsepriteBlendMode::SoftLight } else { AsepriteBlendMode::Normal },
        opacity: 255,
        name: name.to_string(),
    }
}

fn document(layers: &[(&str, AsepriteLayerType, u16)]) -> Aseprite {
    let chunks = layers.iter().map(|(n, t, c)| layer(n, *t, *c)).collect();
    let header = RawAsepriteHeader { width: 8, height: 8, color_depth: AsepriteColorDepth::RGBA, flags: 1, transparent_palette: 0 };
    Aseprite::from_raw(RawAseprite { header, frames: vec![RawAsepriteFrame { duration_ms: 100, chunks }] }).unwrap()
}

use AsepriteLayerType::{Group as G, Normal as N};

/// The layer stack of a table scene: three backgrounds, a table group with three columns,
/// a filter group and a watermark.
fn table_scene() -> Aseprite {
    document(&[
        ("BG1", N, 0),
        ("BG2", N, 0),
        ("BG3", N, 0),
        ("Table", G, 0),
        ("Col1BG", N, 1),
        ("Col1", G, 1),
        ("Col1Row1", N, 2),
        ("Col2BG", N, 1),
        ("Col2", G, 1),
        ("Col2Row1", N, 2),
        ("Col3BG", N, 1),
        ("Col3", G, 1),
        ("Col3Row1", N, 2),
        ("Filter", G, 0),
        ("Day", N, 1),
        ("Night", N, 1),
        ("Watermark", N, 0),
    ])
}

fn flatten<'a>(nodes: &[LayerTreeNode<'a>], depth: u16, out: &mut Vec<(String, u16)>) {
    for node in nodes {
        out.push((node.name().to_string(), depth));
        flatten(node.children(), depth + 1, out);
    }
}

#[test]
fn check_build_layer_tree() {
    let aseprite = table_scene();
    let layer_tree = aseprite.layer_tree().unwrap();

    assert_eq!(layer_tree.len(), 6);

    for (index, layer) in layer_tree.iter().enumerate() {
        match index {
            0 => {
                assert!(layer.is_normal());
                assert_eq!(layer.name(), "BG1");
            }
            1 => {
                assert!(layer.is_normal());
                assert_eq!(layer.name(), "BG2");
            }
            2 => {
                assert!(layer.is_normal());
                assert_eq!(layer.name(), "BG3");
            }
            3 => {
                assert!(layer.is_group());
                assert_eq!(layer.name(), "Table");

                match layer {
                    LayerTreeNode::Group(_, tree) => {
                        for (index, layer) in tree.iter().enumerate() {
                            match index {
                                0 => {
                                    assert!(layer.is_normal());
                                    assert_eq!(layer.name(), "Col1BG");
                                }
                                1 => {
                                    assert!(layer.is_group());
                                    assert_eq!(layer.name(), "Col1");
                                }
                                2 => {
                                    assert!(layer.is_normal());
                                    assert_eq!(layer.name(), "Col2BG");
                                }
                                3 => {
                                    assert!(layer.is_group());
                                    assert_eq!(layer.name(), "Col2");
                                }
                                4 => {
                                    assert!(layer.is_normal());
                                    assert_eq!(layer.name(), "Col3BG");
                                }
                                5 => {
                                    assert!(layer.is_group());
                                    assert_eq!(layer.name(), "Col3");
                                }
                                _ => assert!(false),
                            }
                        }
                    }
                    _ => assert!(false),
                }
            }
            4 => {
                assert!(layer.is_group());
                assert_eq!(layer.name(), "Filter");
            }
            5 => {
                assert!(layer.is_normal());
                assert_eq!(layer.name(), "Watermark");
            }
            _ => assert!(false),
        }
    }
}

#[test]
fn tree_flattens_back_to_the_layer_list() {
    let aseprite = table_scene();
    let tree = aseprite.layer_tree().unwrap();
    let mut flat = Vec::new();
    flatten(&tree, 0, &mut flat);
    let expected: Vec<(String, u16)> = aseprite
        .layers()
        .inner()
        .iter()
        .map(|l| (l.name().to_string(), l.child_level()))
        .collect();
    assert_eq!(flat, expected);
}

#[test]
fn misplaced_layer_fails_the_tree() {
    let doc = document(&[("A", N, 0), ("B", N, 1)]);
    assert_eq!(
        doc.layer_tree().unwrap_err(),
        AsepriteError::InvalidConfiguration(AsepriteInvalidError::InvalidLayer(1))
    );
    let doc = document(&[("A", N, 2)]);
    assert_eq!(
        build_layer_tree(doc.layers().inner()).unwrap_err(),
        AsepriteError::InvalidConfiguration(AsepriteInvalidError::InvalidLayer(0))
    );
}

#[test]
fn groups_containing_a_layer() {
    let aseprite = table_scene();
    let col2row1_layer = aseprite.get_layer_by_name("Col2Row1").unwrap();
    let col2row1_layer_group_ids = aseprite.find_layer_belong_groups(col2row1_layer.index());
    let col2row1_layer_group: Vec<&str> = col2row1_layer_group_ids
        .into_iter()
        .map(|index| aseprite.get_layer_by_index(&index).unwrap().name())
        .collect();
    assert_eq!(col2row1_layer_group, vec!["Col2", "Table"]);

    let layers = aseprite.layers();
    assert_eq!(layers.find_belong_groups(layers.get_by_name("Night").unwrap().index()), vec![13]);
    assert!(layers.find_belong_groups(0).is_empty());
    assert!(layers.find_belong_groups(99).is_empty());
}

#[test]
fn layer_getters() {
    let aseprite = table_scene();
    let day = aseprite.get_layer_by_name("Day").unwrap();
    assert_eq!(day.blend_mode(), AsepriteBlendMode::SoftLight);
    assert_eq!(day.opacity(), Some(255));
    assert!(day.is_visible());
    assert_eq!(day.child_level(), 1);
    let table = aseprite.get_layer_by_name("Table").unwrap();
    assert!(table.is_group());
    assert_eq!(table.blend_mode(), AsepriteBlendMode::Normal);
    assert_eq!(table.opacity(), None);
    assert!(aseprite.get_layer_by_name("Nothing").is_none());
}

fn ancestors<'a>(nodes: &[LayerTreeNode<'a>], chain: &mut Vec<usize>, out: &mut Vec<(usize, Vec<usize>)>) {
    for node in nodes {
        let index = match node {
            LayerTreeNode::Group(g, _) => g.index,
            LayerTreeNode::Normal(l) => l.index,
        };
        let mut innermost_first = chain.clone();
        innermost_first.reverse();
        out.push((index, innermost_first));
        chain.push(index);
        ancestors(node.children(), chain, out);
        chain.pop();
    }
}

#[test]
fn group_chains_match_the_tree() {
    let aseprite = table_scene();
    let tree = aseprite.layer_tree().unwrap();
    let mut found = Vec::new();
    ancestors(&tree, &mut Vec::new(), &mut found);
    assert_eq!(found.len(), aseprite.layers().inner().len());
    for (index, chain) in found {
        assert_eq!(aseprite.find_layer_belong_groups(index), chain);
    }
}
