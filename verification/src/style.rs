//! Building text styles and validating pushed configurations.
//!
//! A configuration is accepted only when it carries exactly one screen and
//! every style in its map builds (each color string parses).  Nothing of a
//! rejected configuration is installed.

use vstd::prelude::*;
use vstd::string::StringExecFns;
use crate::color::{spec_color, string_to_color, Rgb};
use crate::directory::Directory;
use crate::scene::{Configuration, FontName, GlobalStylesType, Screen, TextStyle};

verus! {

/// A text style with its colors parsed, ready to render with.
#[derive(Debug, Clone, Copy, PartialEq, Eq, Structural)]
pub struct BuiltTextStyle {
    pub text_color: Rgb,
    pub font: FontName,
    pub background_color: Option<Rgb>,
    pub underline: bool,
    pub strikethrough: bool,
}

/// The map from style names to built styles carried by a checked config.
pub type BuiltTextStyles = Directory<BuiltTextStyle>;

/// Why a pushed configuration was rejected.
#[derive(Debug)]
pub enum ScreenBuildError {
    /// A color string in the style map was not six hex digits
    InvalidColorString(String),
    /// The screen could not be taken out of the configuration
    CouldNotGetScreen,
    /// The configuration carries no screen
    NoScreen,
    /// The configuration carries more than one screen
    TooManyScreens,
    /// An element refers to a style that is not defined
    MissingStyle(String),
    /// An element refers to a sprite that is not stored
    MissingSprite(String),
}

impl ScreenBuildError {
    /// Every build error turns into a client error at the HTTP surface.
    pub fn status_code(&self) -> (c: u16)
        ensures
            c == 400,
    {
        400
    }

    pub open spec fn spec_message(&self) -> Seq<char> {
        match self {
            ScreenBuildError::InvalidColorString(s) => "The color string `"@ + s@
                + "` was invalid"@,
            ScreenBuildError::CouldNotGetScreen => "Could not get screen from config"@,
            ScreenBuildError::NoScreen => "Config must contain at least one screen"@,
            ScreenBuildError::TooManyScreens => (
            "Only configs using a single screen are supported for now"@),
            ScreenBuildError::MissingStyle(s) => "Configuration uses style `"@ + s@
                + "` but this style is not defined"@,
            ScreenBuildError::MissingSprite(s) => "Configuration uses sprite `"@ + s@
                + "` but this sprite is not present in flash"@,
        }
    }

    pub fn message(&self) -> (m: String)
        ensures
            m@ == self.spec_message(),
    {
        match self {
            ScreenBuildError::InvalidColorString(s) => String::from_str(
                "The color string `",
            ).concat(s.as_str()).concat("` was invalid"),
            ScreenBuildError::CouldNotGetScreen => String::from_str(
                "Could not get screen from config",
            ),
            ScreenBuildError::NoScreen => String::from_str(
                "Config must contain at least one screen",
            ),
            ScreenBuildError::TooManyScreens => String::from_str(
                "Only configs using a single screen are supported for now",
            ),
            ScreenBuildError::MissingStyle(s) => String::from_str(
                "Configuration uses style `",
            ).concat(s.as_str()).concat("` but this style is not defined"),
            ScreenBuildError::MissingSprite(s) => String::from_str(
                "Configuration uses sprite `",
            ).concat(s.as_str()).concat("` but this sprite is not present in flash"),
        }
    }
}

/// A style builds iff its foreground color parses and, when a background
/// color is given, that parses too.
pub open spec fn spec_style_ok(st: TextStyle) -> bool {
    &&& spec_color(st.text_color@) is Some
    &&& (st.background_color matches Some(c) ==> spec_color(c@) is Some)
}

/// What a style builds to.
pub open spec fn spec_build_style(st: TextStyle) -> BuiltTextStyle
    recommends
        spec_style_ok(st),
{
    BuiltTextStyle {
        text_color: spec_color(st.text_color@).unwrap(),
        font: st.font,
        background_color: match st.background_color {
            Some(c) => Some(spec_color(c@).unwrap()),
            None => None,
        },
        underline: st.underline == Some(true),
        strikethrough: st.strikethrough == Some(true),
    }
}

/// The color string a failing style is rejected over: the foreground if it
/// is bad, else the background.
pub open spec fn spec_style_offender(st: TextStyle) -> Seq<char>
    recommends
        !spec_style_ok(st),
{
    if spec_color(st.text_color@) is None {
        st.text_color@
    } else {
        st.background_color.unwrap()@
    }
}

impl TextStyle {
    /// Parses the style's color strings into a renderable style.
    pub fn build(&self) -> (r: Result<BuiltTextStyle, ScreenBuildError>)
        ensures
            match r {
                Ok(b) => spec_style_ok(*self) && b == spec_build_style(*self),
                Err(e) => !spec_style_ok(*self) && (e matches ScreenBuildError::InvalidColorString(
                    s,
                ) && s@ == spec_style_offender(*self)),
            },
    {
        let text_color = match string_to_color(&self.text_color) {
            Some(c) => c,
            None => {
                return Err(ScreenBuildError::InvalidColorString(self.text_color.clone()));
            },
        };
        let background_color = match &self.background_color {
            Some(bg) => match string_to_color(bg) {
                Some(c) => Some(c),
                None => {
                    return Err(ScreenBuildError::InvalidColorString(bg.clone()));
                },
            },
            None => None,
        };
        let underline = match self.underline {
            Some(true) => true,
            _ => false,
        };
        let strikethrough = match self.strikethrough {
            Some(true) => true,
            _ => false,
        };
        Ok(
            BuiltTextStyle {
                text_color,
                font: self.font,
                background_color,
                underline,
                strikethrough,
            },
        )
    }
}

/// Every style in a map builds.
pub open spec fn spec_styles_ok(m: Map<Seq<char>, TextStyle>) -> bool {
    forall|k: Seq<char>| #[trigger] m.contains_key(k) ==> spec_style_ok(m[k])
}

/// The style map with every style built.
pub open spec fn spec_built_styles(m: Map<Seq<char>, TextStyle>) -> Map<Seq<char>, BuiltTextStyle> {
    Map::new(|k: Seq<char>| m.contains_key(k), |k: Seq<char>| spec_build_style(m[k]))
}

/// Builds every style of a map, or reports the first offending color.
pub fn build_styles(styles: GlobalStylesType) -> (r: Result<BuiltTextStyles, ScreenBuildError>)
    requires
        styles.wf(),
    ensures
        match r {
            Ok(b) => {
                &&& spec_styles_ok(styles@)
                &&& b.wf()
                &&& b@ == spec_built_styles(styles@)
            },
            Err(e) => {
                &&& !spec_styles_ok(styles@)
                &&& (e matches ScreenBuildError::InvalidColorString(s) && exists|k: Seq<char>|
                    styles@.contains_key(k) && !spec_style_ok(#[trigger] styles@[k]) && s@
                        == spec_style_offender(styles@[k]))
            },
        },
{
    let n = styles.num_entries();
    let mut out: BuiltTextStyles = Directory::new();
    let mut i: usize = 0;
    while i < n
        invariant
            styles.wf(),
            n == styles.kv().len(),
            i <= n,
            out.wf(),
            forall|k: Seq<char>|
                #[trigger] out@.contains_key(k) <==> exists|j: int|
                    0 <= j < i && (#[trigger] styles.kv()[j]).0@ == k,
            forall|j: int|
                0 <= j < i ==> spec_style_ok(#[trigger] styles.kv()[j].1) && out@.contains_key(
                    styles.kv()[j].0@,
                ) && out@[styles.kv()[j].0@] == spec_build_style(styles.kv()[j].1),
        decreases n - i,
    {
        let e = styles.entry_at(i);
        proof {
            styles.lemma_kv_index(i as int);
        }
        match e.1.build() {
            Ok(b) => {
                out.insert(e.0.clone(), b);
            },
            Err(err) => {
                proof {
                    assert(styles@.contains_key(e.0@) && styles@[e.0@] == e.1);
                }
                return Err(err);
            },
        }
        i = i + 1;
    }
    proof {
        assert forall|k: Seq<char>| #[trigger] styles@.contains_key(k) implies out@.contains_key(k)
            && out@[k] == spec_build_style(styles@[k]) && spec_style_ok(styles@[k]) by {
            styles.lemma_kv_contains(k);
            let j = choose|j: int| 0 <= j < styles.kv().len() && (#[trigger] styles.kv()[j]).0@ == k;
            styles.lemma_kv_index(j);
        }
        assert forall|k: Seq<char>| #[trigger] out@.contains_key(k) implies styles@.contains_key(
            k,
        ) by {
            let j = choose|j: int| 0 <= j < styles.kv().len() && (#[trigger] styles.kv()[j]).0@ == k;
            styles.lemma_kv_index(j);
        }
        assert(out@ =~= spec_built_styles(styles@));
    }
    Ok(out)
}

/// One validated screen to display, with its styles built.
#[derive(Debug)]
pub struct CheckedScreenConfig {
    pub screen: Screen,
    pub styles: BuiltTextStyles,
}

impl CheckedScreenConfig {
    /// Validates a pushed configuration: exactly one screen, and a style
    /// map whose colors all parse.
    pub fn new(config: Configuration) -> (r: Result<Self, ScreenBuildError>)
        requires
            config.text_styles.wf(),
        ensures
            config.screens@.len() > 1 ==> (r matches Err(e) && e is TooManyScreens),
            config.screens@.len() == 0 ==> (r matches Err(e) && e is NoScreen),
            config.screens@.len() == 1 && spec_styles_ok(config.text_styles@) ==> (
            r matches Ok(c) && c.screen == config.screens@[0] && c.styles.wf() && c.styles@
                == spec_built_styles(config.text_styles@)),
            config.screens@.len() == 1 && !spec_styles_ok(config.text_styles@) ==> (
            r matches Err(e) && (e matches ScreenBuildError::InvalidColorString(s)
                && exists|k: Seq<char>|
                config.text_styles@.contains_key(k) && !spec_style_ok(
                    #[trigger] config.text_styles@[k],
                ) && s@ == spec_style_offender(config.text_styles@[k]))),
    {
        if config.screens.len() > 1 {
            Err(ScreenBuildError::TooManyScreens)
        } else if config.screens.len() == 0 {
            Err(ScreenBuildError::NoScreen)
        } else {
            let styles = match build_styles(config.text_styles) {
                Ok(s) => s,
                Err(e) => {
                    return Err(e);
                },
            };
            let mut screens = config.screens;
            let screen = screens.remove(0);
            Ok(Self { screen, styles })
        }
    }
}

} // verus!
