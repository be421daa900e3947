use vstd::prelude::*;

verus! {

/// Kind of a layout element.
#[derive(Clone, Copy, Debug, PartialEq, Eq, Structural)]
pub enum ElementType {
    Text,
    StaticImage,
    Graph,
    ConditionalImage,
}

/// Horizontal placement of rendered text inside its element.
#[derive(Clone, Copy, Debug, PartialEq, Eq, Structural)]
pub enum TextAlign {
    Left,
    Center,
    Right,
}

/// Vertical placement of rendered text inside its element.
#[derive(Clone, Copy, Debug, PartialEq, Eq, Structural)]
pub enum VerticalAlign {
    Top,
    Center,
    Bottom,
}

/// How a graph draws its values.
#[derive(Clone, Copy, Debug, PartialEq, Eq, Structural)]
pub enum GraphType {
    Line,
    LineFill,
}

#[derive(Clone, Debug)]
pub struct TextConfig {
    pub sensor_id: String,
    pub format: String,
    pub font_family: String,
    pub font_size: u32,
    /// Hex RGBA, e.g. `#ffffffff`.
    pub font_color: String,
    pub alignment: TextAlign,
    pub vertical_alignment: VerticalAlign,
    pub width: u32,
    pub height: u32,
}

#[derive(Clone, Debug)]
pub struct ImageConfig {
    /// File path or HTTP(S) URL.
    pub image_path: String,
    pub width: u32,
    pub height: u32,
}

#[derive(Clone, Debug)]
pub struct GraphConfig {
    pub sensor_id: String,
    pub min_value: i64,
    pub max_value: i64,
    pub width: u32,
    pub height: u32,
    pub graph_type: GraphType,
    pub graph_color: String,
    pub graph_stroke_width: u32,
    pub background_color: String,
}

#[derive(Clone, Debug)]
pub struct ConditionalImageConfig {
    pub sensor_id: String,
    pub sensor_value: String,
    /// Zip archive path or HTTP(S) URL.
    pub images_path: String,
    pub width: u32,
    pub height: u32,
}

/// One drawable unit of a layout.
#[derive(Clone, Debug)]
pub struct ElementConfig {
    pub id: String,
    pub name: String,
    pub element_type: ElementType,
    pub x: i32,
    pub y: i32,
    pub text_config: Option<TextConfig>,
    pub image_config: Option<ImageConfig>,
    pub graph_config: Option<GraphConfig>,
    pub conditional_image_config: Option<ConditionalImageConfig>,
}

/// The layout served to one display.
#[derive(Clone, Debug)]
pub struct DisplayConfig {
    pub resolution_width: u32,
    pub resolution_height: u32,
    pub elements: Vec<ElementConfig>,
}

impl TextConfig {
    pub fn duplicate(&self) -> (r: Self)
        ensures
            r == *self,
    {
        TextConfig {
            sensor_id: self.sensor_id.clone(),
            format: self.format.clone(),
            font_family: self.font_family.clone(),
            font_size: self.font_size,
            font_color: self.font_color.clone(),
            alignment: self.alignment,
            vertical_alignment: self.vertical_alignment,
            width: self.width,
            height: self.height,
        }
    }
}

impl ImageConfig {
    pub fn duplicate(&self) -> (r: Self)
        ensures
            r == *self,
    {
        ImageConfig { image_path: self.image_path.clone(), width: self.width, height: self.height }
    }
}

impl GraphConfig {
    pub fn duplicate(&self) -> (r: Self)
        ensures
            r == *self,
    {
        GraphConfig {
            sensor_id: self.sensor_id.clone(),
            min_value: self.min_value,
            max_value: self.max_value,
            width: self.width,
            height: self.height,
            graph_type: self.graph_type,
            graph_color: self.graph_color.clone(),
            graph_stroke_width: self.graph_stroke_width,
            background_color: self.background_color.clone(),
        }
    }
}

impl ConditionalImageConfig {
    pub fn duplicate(&self) -> (r: Self)
        ensures
            r == *self,
    {
        ConditionalImageConfig {
            sensor_id: self.sensor_id.clone(),
            sensor_value: self.sensor_value.clone(),
            images_path: self.images_path.clone(),
            width: self.width,
            height: self.height,
        }
    }
}

impl ElementConfig {
    pub fn duplicate(&self) -> (r: Self)
        ensures
            r == *self,
    {
        ElementConfig {
            id: self.id.clone(),
            name: self.name.clone(),
            element_type: self.element_type,
            x: self.x,
            y: self.y,
            text_config: match &self.text_config {
                Some(c) => Some(c.duplicate()),
                None => None,
            },
            image_config: match &self.image_config {
                Some(c) => Some(c.duplicate()),
                None => None,
            },
            graph_config: match &self.graph_config {
                Some(c) => Some(c.duplicate()),
                None => None,
            },
            conditional_image_config: match &self.conditional_image_config {
                Some(c) => Some(c.duplicate()),
                None => None,
            },
        }
    }
}

/// What a layout is: its size and its elements in drawing order.
pub struct DisplayConfigView {
    pub resolution_width: u32,
    pub resolution_height: u32,
    pub elements: Seq<ElementConfig>,
}

impl View for DisplayConfig {
    type V = DisplayConfigView;

    open spec fn view(&self) -> DisplayConfigView {
        DisplayConfigView {
            resolution_width: self.resolution_width,
            resolution_height: self.resolution_height,
            elements: self.elements@,
        }
    }
}

impl DisplayConfig {
    /// An empty layout of the given size.
    pub fn empty(resolution_width: u32, resolution_height: u32) -> (r: Self)
        ensures
            r@ == (DisplayConfigView {
                resolution_width,
                resolution_height,
                elements: Seq::empty(),
            }),
    {
        let r = DisplayConfig { resolution_width, resolution_height, elements: Vec::new() };
        assert(r@.elements =~= Seq::<ElementConfig>::empty());
        r
    }

    pub fn duplicate(&self) -> (r: Self)
        ensures
            r@ == self@,
    {
        let mut elements: Vec<ElementConfig> = Vec::new();
        let mut i: usize = 0;
        while i < self.elements.len()
            invariant
                i <= self.elements@.len(),
                elements@ == self.elements@.take(i as int),
            decreases self.elements@.len() - i,
        {
            elements.push(self.elements[i].duplicate());
            i = i + 1;
            assert(elements@ =~= self.elements@.take(i as int));
        }
        assert(elements@ =~= self.elements@);
        DisplayConfig {
            resolution_width: self.resolution_width,
            resolution_height: self.resolution_height,
            elements,
        }
    }
}

} // verus!
