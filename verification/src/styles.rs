//! The plain theming and styling state of the application shell: which
//! theme is active and which kind of widget an element is. The presentation
//! layer maps these to its own appearance values; only the data lives here.

use vstd::prelude::*;

verus! {

/// The application style selected by the user.
#[derive(Clone, Copy, Debug, Hash, PartialEq, Eq, Structural)]
pub enum StyleType {
    Default,
    Dark,
    Vibrant,
    Fjord,
}

impl Default for StyleType {
    /// The style the application starts with.
    fn default() -> (r: Self)
        ensures
            r == StyleType::Dark,
    {
        StyleType::Dark
    }
}

/// The color themes the shell offers.
#[derive(Debug, Clone, Copy, PartialEq, Eq, Structural, Default)]
pub enum KeyboltTheme {
    #[default]
    Light,
    Dark,
    Vibrant,
    Fjord,
}

/// The kind of element a style is applied to.
#[derive(Clone, Copy)]
pub enum ElementType {
    Default,
    NavColumn,
    NavHeader,
    NavButton,
    NavButtonSelected,
    ItemListColumn,
    ItemListEntry,
    SelectedItem,
    DetailsColumn,
    PrimaryText,
    SecondaryText,
    PrimaryAccent,
    SecondaryAccent,
    Button,
    ButtonText,
    Border,
}

/// A style choice for one element: the active style and the element kind.
#[derive(Clone, Copy)]
pub struct StyleTuple(pub StyleType, pub ElementType);

/// Styles a button can take.
#[derive(Default)]
pub enum ButtonStyle {
    #[default]
    Primary,
    Secondary,
    NavButton(bool),
    EntryListButton(bool),
}

/// Styles a container can take.
#[derive(Default)]
pub enum ContainerStyle {
    #[default]
    Primary,
    Secondary,
    EntryListContainer,
    EntryInputContainer,
}

/// Styles a scrollable area can take.
#[derive(Default)]
pub enum ScrollableStyle {
    #[default]
    Primary,
}

/// Styles a text element can take.
#[derive(Default, Copy, Clone)]
pub enum TextStyle {
    #[default]
    Primary,
    NavHeader,
    DetailsTitle,
    EntryInputTitle,
}

/// Styles a text input can take.
#[derive(Default)]
pub enum TextInputStyle {
    #[default]
    Primary,
    EntrySearchBar,
}

/// Styles a toggler can take.
#[derive(Default)]
pub enum TogglerStyle {
    #[default]
    Primary,
}

/// The coarse theme choices of the earlier shell.
#[derive(Debug, Clone, Copy, PartialEq, Eq, Structural)]
pub enum Theme {
    Light,
    Dark,
    Default,
}

/// The kinds of button the earlier shell styles.
pub enum ButtonType {
    Default,
    Nav,
}

/// A styled button: its theme and its kind.
pub struct Button {
    pub theme: Theme,
    pub button_type: ButtonType,
}

impl Button {
    /// A button style for the given theme and kind.
    pub fn new(theme: Theme, button_type: ButtonType) -> (r: Self)
        ensures
            r.theme == theme,
    {
        Button { theme, button_type }
    }
}

/// The kinds of container the earlier shell styles.
pub enum ContainerType {
    Default,
    Nav,
}

/// A styled container: its theme and its kind.
pub struct Container {
    pub theme: Theme,
    pub container_type: ContainerType,
}

impl Container {
    /// A container style for the given theme and kind.
    pub fn new(theme: Theme, container_type: ContainerType) -> (r: Self)
        ensures
            r.theme == theme,
    {
        Container { theme, container_type }
    }
}

/// Marker for the custom presentation theme; its palette belongs to the
/// presentation layer.
pub struct CustomTheme;

} // verus!
