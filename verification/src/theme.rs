//! Themes: the value of the `data-theme` attribute and the cycle that the
//! theme button walks through.
use vstd::prelude::*;

verus! {

/// An available theme.
#[derive(Clone, Copy, Debug, PartialEq, Eq, Structural)]
pub enum Theme {
    /// Light background, green accent.
    Jade,
    /// Dark background, aurora gradients.
    DeepSpace,
    /// Plain black.
    Obsidian,
}

/// The `data-theme` value of a theme.
pub open spec fn theme_attr(t: Theme) -> Seq<char> {
    match t {
        Theme::Jade => "jade"@,
        Theme::DeepSpace => "deep-space"@,
        Theme::Obsidian => "obsidian"@,
    }
}

/// The display name of a theme.
pub open spec fn theme_label(t: Theme) -> Seq<char> {
    match t {
        Theme::Jade => "翡翠绿"@,
        Theme::DeepSpace => "深空蓝"@,
        Theme::Obsidian => "黑曜石"@,
    }
}

/// The theme after `t` in the cycle.
pub open spec fn theme_after(t: Theme) -> Theme {
    match t {
        Theme::Jade => Theme::DeepSpace,
        Theme::DeepSpace => Theme::Obsidian,
        Theme::Obsidian => Theme::Jade,
    }
}

/// The themes in the order of the cycle.
pub open spec fn all_themes() -> Seq<Theme> {
    seq![Theme::Jade, Theme::DeepSpace, Theme::Obsidian]
}

impl Theme {
    /// The `data-theme` value.
    pub fn as_str(&self) -> (r: &'static str)
        ensures
            r@ == theme_attr(*self),
    {
        match self {
            Theme::Jade => "jade",
            Theme::DeepSpace => "deep-space",
            Theme::Obsidian => "obsidian",
        }
    }

    /// The display name.
    pub fn label(&self) -> (r: &'static str)
        ensures
            r@ == theme_label(*self),
    {
        match self {
            Theme::Jade => "翡翠绿",
            Theme::DeepSpace => "深空蓝",
            Theme::Obsidian => "黑曜石",
        }
    }

    /// All available themes, in the order of the cycle.
    pub fn all() -> (r: &'static [Theme])
        ensures
            r@ == all_themes(),
    {
        let r: &'static [Theme] = &[Theme::Jade, Theme::DeepSpace, Theme::Obsidian];
        assert(r@ =~= all_themes());
        r
    }

    /// The next theme (the cycle wraps round).
    pub fn next(&self) -> (r: Theme)
        ensures
            r == theme_after(*self),
    {
        match self {
            Theme::Jade => Theme::DeepSpace,
            Theme::DeepSpace => Theme::Obsidian,
            Theme::Obsidian => Theme::Jade,
        }
    }
}

/// The theme in use.
#[derive(Clone, Copy, Debug)]
pub struct ThemeState {
    current: Theme,
}

impl ThemeState {
    /// The theme in use, as a plain value.
    pub closed spec fn theme(self) -> Theme {
        self.current
    }

    /// Starts with theme `initial`.
    pub fn new(initial: Theme) -> (r: ThemeState)
        ensures
            r.theme() == initial,
    {
        ThemeState { current: initial }
    }

    /// The theme in use.
    pub fn current(&self) -> (r: Theme)
        ensures
            r == self.theme(),
    {
        self.current
    }

    /// Uses theme `theme`.
    pub fn set(&mut self, theme: Theme)
        ensures
            final(self).theme() == theme,
    {
        self.current = theme;
    }

    /// Moves on to the next theme.
    pub fn toggle(&mut self)
        ensures
            final(self).theme() == theme_after(old(self).theme()),
    {
        let next = self.current().next();
        self.current = next;
    }

    /// The `data-theme` value of the theme in use.
    pub fn data_attr(&self) -> (r: &'static str)
        ensures
            r@ == theme_attr(self.theme()),
    {
        self.current().as_str()
    }
}

} // verus!
