use vstd::prelude::*;

use crate::raw::{AsepriteBlendMode, AsepriteColor, AsepriteLayerType, RawAsepriteUserData};

verus! {

/// A layer that groups the layers nested below it.
#[derive(Debug, Clone)]
pub struct GroupLayer {
    pub name: String,
    /// Position among all layers, in arrival order, from the bottom of the stack.
    pub index: usize,
    pub visible: bool,
    /// How many groups enclose the layer.
    pub child_level: u16,
    pub color: AsepriteColor,
    pub user_data: String,
}

/// A layer that holds cels.
#[derive(Debug, Clone)]
pub struct NormalLayer {
    pub name: String,
    /// Position among all layers, in arrival order, from the bottom of the stack.
    pub index: usize,
    pub blend_mode: AsepriteBlendMode,
    /// Present only where the document enables layer opacity.
    pub opacity: Option<u8>,
    pub visible: bool,
    /// How many groups enclose the layer.
    pub child_level: u16,
    pub color: AsepriteColor,
    pub user_data: String,
}

/// A layer of the document.
#[derive(Debug, Clone)]
pub enum AsepriteLayer {
    Group(GroupLayer),
    Normal(NormalLayer),
}

/// The mathematical value of a layer.
pub struct LayerView {
    pub is_group: bool,
    pub name: Seq<char>,
    pub index: usize,
    pub blend_mode: AsepriteBlendMode,
    pub opacity: Option<u8>,
    pub visible: bool,
    pub child_level: u16,
    pub color: AsepriteColor,
    pub user_data: Seq<char>,
}

impl View for AsepriteLayer {
    type V = LayerView;

    open spec fn view(&self) -> LayerView {
        match self {
            AsepriteLayer::Group(g) => LayerView {
                is_group: true,
                name: g.name@,
                index: g.index,
                blend_mode: AsepriteBlendMode::Normal,
                opacity: None,
                visible: g.visible,
                child_level: g.child_level,
                color: g.color,
                user_data: g.user_data@,
            },
            AsepriteLayer::Normal(n) => LayerView {
                is_group: false,
                name: n.name@,
                index: n.index,
                blend_mode: n.blend_mode,
                opacity: n.opacity,
                visible: n.visible,
                child_level: n.child_level,
                color: n.color,
                user_data: n.user_data@,
            },
        }
    }
}

impl LayerView {
    /// The layer that a layer chunk creates: no color, no text.
    pub open spec fn fresh(
        index: usize,
        name: Seq<char>,
        layer_type: AsepriteLayerType,
        visible: bool,
        blend_mode: AsepriteBlendMode,
        opacity: Option<u8>,
        child_level: u16,
    ) -> LayerView {
        let is_group = layer_type == AsepriteLayerType::Group;
        LayerView {
            is_group,
            name,
            index,
            blend_mode: if is_group { AsepriteBlendMode::Normal } else { blend_mode },
            opacity: if is_group { None } else { opacity },
            visible,
            child_level,
            color: AsepriteColor::spec_transparent(),
            user_data: Seq::empty(),
        }
    }

    /// The layer with the color and text of a user data chunk attached.
    pub open spec fn with_user_data(self, data: RawAsepriteUserData) -> LayerView {
        LayerView { color: data.color, user_data: data.text@, ..self }
    }
}


/// The spec view of a list of layers.
pub open spec fn layers_view(layers: Seq<AsepriteLayer>) -> Seq<LayerView> {
    layers.map_values(|l: AsepriteLayer| l@)
}

/// Index of the nearest group layer below position `cur` whose child level is `level`.
pub open spec fn group_below(layers: Seq<LayerView>, cur: int, level: int) -> Option<int>
    decreases cur,
{
    if cur <= 0 || cur > layers.len() {
        None
    } else if layers[cur - 1].is_group && layers[cur - 1].child_level == level {
        Some(cur - 1)
    } else {
        group_below(layers, cur - 1, level)
    }
}

/// The groups that enclose a layer at position `cur` with child level `level`, innermost
/// first: for each level above it, the nearest group below the previous one found. The
/// chain ends early where no such group exists.
pub open spec fn group_chain(layers: Seq<LayerView>, cur: int, level: int) -> Seq<usize>
    decreases level,
{
    if level <= 0 {
        Seq::empty()
    } else {
        match group_below(layers, cur, level - 1) {
            None => Seq::empty(),
            Some(g) => seq![g as usize] + group_chain(layers, g, level - 1),
        }
    }
}

/// The groups that enclose layer `id`, innermost first; none for an unknown layer.
pub open spec fn belong_groups(layers: Seq<LayerView>, id: int) -> Seq<usize> {
    if 0 <= id < layers.len() {
        group_chain(layers, id, layers[id].child_level as int)
    } else {
        Seq::empty()
    }
}

/// The first layer named `name`.
pub open spec fn first_named(layers: Seq<LayerView>, name: Seq<char>, i: int) -> bool {
    &&& 0 <= i < layers.len()
    &&& layers[i].name == name
    &&& forall|j: int| 0 <= j < i ==> #[trigger] layers[j].name != name
}

/// Finds the nearest group layer below position `cur` with child level `level`.
fn find_group_below(layers: &Vec<AsepriteLayer>, cur: usize, level: u16) -> (r: Option<usize>)
    requires
        cur <= layers@.len(),
    ensures
        match r {
            Some(g) => group_below(layers_view(layers@), cur as int, level as int) == Some(g as int) && g < cur,
            None => group_below(layers_view(layers@), cur as int, level as int) is None,
        },
{
    let ghost v = layers_view(layers@);
    let mut j = cur;
    while j > 0
        invariant
            j <= cur <= layers@.len(),
            v == layers_view(layers@),
            group_below(v, cur as int, level as int) == group_below(v, j as int, level as int),
        decreases j,
    {
        assert(layers@[j - 1]@ == v[j - 1]);
        if layers[j - 1].is_group() && layers[j - 1].child_level() == level {
            return Some(j - 1);
        }
        j -= 1;
    }
    None
}

/// The groups that enclose layer `id`, innermost first; see [`belong_groups`].
pub fn groups_containing(layers: &Vec<AsepriteLayer>, id: usize) -> (r: Vec<usize>)
    ensures
        r@ == belong_groups(layers_view(layers@), id as int),
{
    let ghost v = layers_view(layers@);
    let mut result: Vec<usize> = Vec::new();
    if id >= layers.len() {
        return result;
    }
    assert(layers@[id as int]@ == v[id as int]);
    let mut level = layers[id].child_level();
    let mut cur = id;
    while level > 0
        invariant
            v == layers_view(layers@),
            cur <= layers@.len(),
            result@ + group_chain(v, cur as int, level as int) == belong_groups(v, id as int),
        decreases level,
    {
        match find_group_below(layers, cur, level - 1) {
            None => {
                assert(result@ + group_chain(v, cur as int, level as int) =~= result@);
                return result;
            },
            Some(g) => {
                let ghost before = result@;
                result.push(g);
                assert(result@ + group_chain(v, g as int, level - 1) =~= before + group_chain(v, cur as int, level as int));
                cur = g;
                level -= 1;
            },
        }
    }
    assert(result@ + group_chain(v, cur as int, level as int) =~= result@);
    result
}

/// The first layer named `name`, if there is one.
pub fn layer_named<'a>(layers: &'a Vec<AsepriteLayer>, name: &str) -> (r: Option<&'a AsepriteLayer>)
    ensures
        r is None <==> forall|i: int| 0 <= i < layers@.len() ==> #[trigger] layers_view(layers@)[i].name != name@,
        r matches Some(l) ==> exists|i: int| first_named(layers_view(layers@), name@, i) && l@ == layers_view(layers@)[i],
{
    let ghost v = layers_view(layers@);
    let wanted: String = name.to_owned();
    let mut i: usize = 0;
    while i < layers.len()
        invariant
            i <= layers@.len(),
            v == layers_view(layers@),
            wanted@ == name@,
            forall|j: int| 0 <= j < i ==> #[trigger] v[j].name != name@,
        decreases layers@.len() - i,
    {
        assert(layers@[i as int]@ == v[i as int]);
        if layers[i].name_is(&wanted) {
            assert(first_named(v, name@, i as int));
            return Some(&layers[i]);
        }
        i += 1;
    }
    None
}

/// Read access to the layers of a document.
#[derive(Debug)]
pub struct AsepriteLayers<'a> {
    layers: &'a Vec<AsepriteLayer>,
}

impl<'a> AsepriteLayers<'a> {
    /// The layers, by index.
    pub closed spec fn spec_layers(&self) -> Seq<LayerView> {
        layers_view(self.layers@)
    }

    pub(crate) fn new(layers: &'a Vec<AsepriteLayer>) -> (r: Self)
        ensures
            r.spec_layers() == layers_view(layers@),
    {
        AsepriteLayers { layers }
    }

    /// The first layer with the given name, if there is one.
    pub fn get_by_name(&self, name: &str) -> (r: Option<&'a AsepriteLayer>)
        ensures
            r is None <==> forall|i: int| 0 <= i < self.spec_layers().len() ==> #[trigger] self.spec_layers()[i].name != name@,
            r matches Some(l) ==> exists|i: int| first_named(self.spec_layers(), name@, i) && l@ == self.spec_layers()[i],
    {
        layer_named(self.layers, name)
    }

    /// The layer with the given index, if there is one.
    pub fn get_by_id(&self, id: usize) -> (r: Option<&'a AsepriteLayer>)
        ensures
            r is Some <==> id < self.spec_layers().len(),
            r matches Some(l) ==> l@ == self.spec_layers()[id as int],
    {
        if id < self.layers.len() {
            Some(&self.layers[id])
        } else {
            None
        }
    }

    /// All layers, by index.
    pub fn inner(&self) -> (r: &'a Vec<AsepriteLayer>)
        ensures
            layers_view(r@) == self.spec_layers(),
    {
        self.layers
    }

    /// The groups that enclose layer `id`, innermost first.
    pub fn find_belong_groups(&self, id: usize) -> (r: Vec<usize>)
        ensures
            r@ == belong_groups(self.spec_layers(), id as int),
    {
        groups_containing(self.layers, id)
    }
}

impl AsepriteLayer {
    /// Creates the layer that a layer chunk describes; a group keeps no blend mode or opacity.
    pub fn new(
        index: usize,
        name: String,
        layer_type: AsepriteLayerType,
        visible: bool,
        blend_mode: AsepriteBlendMode,
        opacity: Option<u8>,
        child_level: u16,
    ) -> (r: Self)
        ensures
            r@ == LayerView::fresh(index, name@, layer_type, visible, blend_mode, opacity, child_level),
    {
        match layer_type {
            AsepriteLayerType::Normal => AsepriteLayer::Normal(
                NormalLayer {
                    name,
                    index,
                    blend_mode,
                    opacity,
                    visible,
                    child_level,
                    color: AsepriteColor::default(),
                    user_data: String::new(),
                },
            ),
            AsepriteLayerType::Group => AsepriteLayer::Group(
                GroupLayer {
                    name,
                    index,
                    visible,
                    child_level,
                    color: AsepriteColor::default(),
                    user_data: String::new(),
                },
            ),
        }
    }

    /// The name of the layer.
    pub fn name(&self) -> (r: &str)
        ensures
            r@ == self@.name,
    {
        match self {
            AsepriteLayer::Group(GroupLayer { name, .. }) => name.as_str(),
            AsepriteLayer::Normal(NormalLayer { name, .. }) => name.as_str(),
        }
    }

    /// Whether the layer's name is `name`.
    pub fn name_is(&self, name: &String) -> (r: bool)
        ensures
            r == (self@.name == name@),
    {
        match self {
            AsepriteLayer::Group(GroupLayer { name: n, .. }) => n.eq(name),
            AsepriteLayer::Normal(NormalLayer { name: n, .. }) => n.eq(name),
        }
    }

    /// The index of the layer.
    pub fn index(&self) -> (r: usize)
        ensures
            r == self@.index,
    {
        match self {
            AsepriteLayer::Group(GroupLayer { index, .. }) => *index,
            AsepriteLayer::Normal(NormalLayer { index, .. }) => *index,
        }
    }

    /// Whether the layer is visible.
    pub fn is_visible(&self) -> (r: bool)
        ensures
            r == self@.visible,
    {
        match self {
            AsepriteLayer::Group(GroupLayer { visible, .. }) => *visible,
            AsepriteLayer::Normal(NormalLayer { visible, .. }) => *visible,
        }
    }

    /// How many groups enclose the layer.
    pub fn child_level(&self) -> (r: u16)
        ensures
            r == self@.child_level,
    {
        match self {
            AsepriteLayer::Group(GroupLayer { child_level, .. }) => *child_level,
            AsepriteLayer::Normal(NormalLayer { child_level, .. }) => *child_level,
        }
    }

    /// The blend mode of a normal layer; `Normal` for a group.
    pub fn blend_mode(&self) -> (r: AsepriteBlendMode)
        ensures
            r == self@.blend_mode,
    {
        match self {
            AsepriteLayer::Group(..) => AsepriteBlendMode::Normal,
            AsepriteLayer::Normal(NormalLayer { blend_mode, .. }) => *blend_mode,
        }
    }

    /// The opacity of a normal layer, where the document enables it; `None` for a group.
    pub fn opacity(&self) -> (r: Option<u8>)
        ensures
            r == self@.opacity,
    {
        match self {
            AsepriteLayer::Group(..) => None,
            AsepriteLayer::Normal(NormalLayer { opacity, .. }) => *opacity,
        }
    }

    /// Whether the layer is a group.
    pub fn is_group(&self) -> (r: bool)
        ensures
            r == self@.is_group,
    {
        match self {
            AsepriteLayer::Group(..) => true,
            AsepriteLayer::Normal(..) => false,
        }
    }

    /// Attaches the color and text of a user data chunk.
    pub fn apply_raw_user_data(&mut self, value: RawAsepriteUserData)
        ensures
            final(self)@ == old(self)@.with_user_data(value),
    {
        match self {
            AsepriteLayer::Group(GroupLayer { color, user_data, .. }) => {
                *color = value.color;
                *user_data = value.text;
            },
            AsepriteLayer::Normal(NormalLayer { color, user_data, .. }) => {
                *color = value.color;
                *user_data = value.text;
            },
        }
    }

    /// The text of the layer's user data.
    pub fn user_data(&self) -> (r: &str)
        ensures
            r@ == self@.user_data,
    {
        match self {
            AsepriteLayer::Group(GroupLayer { user_data, .. }) => user_data.as_str(),
            AsepriteLayer::Normal(NormalLayer { user_data, .. }) => user_data.as_str(),
        }
    }
}

} // verus!
