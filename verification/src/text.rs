//! Chat text components: the tree-shaped rich-text values that status
//! responses and other chat payloads carry.  Their JSON form is produced by
//! the embedding program; this crate holds the data model.

use vstd::prelude::*;

verus! {

/// A scoreboard score reference inside a component.
#[derive(Debug, Clone, PartialEq)]
pub struct TextComponentScoreboard {
    pub name: String,
    pub objective: String,
}

/// Where an NBT component reads its data from.
#[derive(Debug, Clone, PartialEq, Eq, Structural)]
pub enum TextComponentNbtSource {
    Block,
    Entity,
    Storage,
}

/// The content alternatives of a text component.
#[derive(Debug)]
pub enum TextComponentKind {
    Text { text: String },
    Translatable { translate: String, fallback: String, with: Vec<TextComponent> },
    Scoreboard { score: TextComponentScoreboard },
    Selector { selector: String, separator: Box<TextComponent> },
    Keybind { keybind: String },
    Nbt {
        source: TextComponentNbtSource,
        nbt: String,
        interpret: bool,
        separator: Box<TextComponent>,
        block: String,
        entity: String,
        storage: String,
    },
}

/// The sixteen named chat colors.
#[derive(Debug, Clone, PartialEq, Eq, Hash, Structural)]
pub enum NamedColor {
    Black,
    DarkBlue,
    DarkGreen,
    DarkAqua,
    DarkRed,
    DarkPurple,
    Gold,
    Gray,
    DarkGray,
    Blue,
    Green,
    Aqua,
    Red,
    LightPurple,
    Yellow,
    White,
}

/// A chat color: either named or a hex string.
#[derive(Debug, Clone, PartialEq, Eq, Hash)]
pub enum Color {
    Named(NamedColor),
    Hex(String),
}

/// What a click on a component does.
#[derive(Debug, Clone, PartialEq, Eq, Hash, Structural)]
pub enum TextComponentClientEventAction {
    OpenUrl,
    OpenFile,
    RunCommand,
    SuggestCommand,
    ChangePage,
    CopyToClipboard,
    ShowDialog,
    Custom,
}

/// A click event attached to a component.
#[derive(Debug, Clone, PartialEq)]
pub struct TextComponentClickEvent {
    pub action: TextComponentClientEventAction,
    pub url: Option<String>,
    pub path: Option<String>,
    pub command: Option<String>,
    pub page: Option<i32>,
    pub value: Option<String>,
    pub id: Option<String>,
    pub payload: Option<String>,
}

/// What hovering over a component shows.
#[derive(Debug, Clone, PartialEq, Eq, Hash, Structural)]
pub enum TextComponentHoverEventAction {
    ShowText,
    ShowItem,
    ShowEntity,
}

/// A hover event attached to a component.
#[derive(Debug)]
pub struct TextComponentHoverEvent {
    pub action: TextComponentHoverEventAction,
    pub value: Option<Box<TextComponent>>,
    pub id: Option<String>,
    pub count: Option<i32>,
    pub name: Option<Box<TextComponent>>,
    pub uuid: Option<String>,
}

/// A rich-text component: content plus styling and nested children.
#[derive(Debug)]
pub struct TextComponent {
    pub kind: TextComponentKind,
    pub extra: Option<Vec<TextComponent>>,
    pub color: Option<Color>,
    pub font: Option<String>,
    pub bold: Option<bool>,
    pub italic: Option<bool>,
    pub underlined: Option<bool>,
    pub strikethrough: Option<bool>,
    pub obfuscated: Option<bool>,
    pub shadow_color: Option<u32>,
    pub insertion: Option<String>,
    pub click_event: Option<TextComponentClickEvent>,
    pub hover_event: Option<TextComponentHoverEvent>,
}

impl TextComponent {
    /// A plain-text component with no styling.
    pub fn plain(text: String) -> (r: Self)
        ensures
            r.kind == (TextComponentKind::Text { text }),
            r.extra is None,
            r.color is None,
    {
        TextComponent {
            kind: TextComponentKind::Text { text },
            extra: None,
            color: None,
            font: None,
            bold: None,
            italic: None,
            underlined: None,
            strikethrough: None,
            obfuscated: None,
            shadow_color: None,
            insertion: None,
            click_event: None,
            hover_event: None,
        }
    }
}

} // verus!
