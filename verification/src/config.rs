//! The configuration model: every section of the configuration file whose
//! values the library reads, with the defaults that an absent key takes.

use std::path::PathBuf;
use vstd::prelude::*;

verus! {

/// The standard path type, carried through unread.
#[verifier::external_type_specification]
#[verifier::external_body]
pub struct ExPathBuf(PathBuf);

/// `PathBuf::new` makes an empty path. Nothing is stated of the value.
pub assume_specification[ PathBuf::new ]() -> PathBuf;

/// `PathBuf::clone` copies a path. Nothing is stated of the value.
pub assume_specification[ <PathBuf as Clone>::clone ](p: &PathBuf) -> PathBuf;

/// A copy of a list of strings.
pub fn clone_strings(v: &Vec<String>) -> (r: Vec<String>)
    ensures
        r@ == v@,
{
    let mut r: Vec<String> = Vec::new();
    for i in 0..v.len()
        invariant
            r@ == v@.take(i as int),
    {
        r.push(v[i].clone());
        assert(r@ =~= v@.take(i + 1));
    }
    assert(v@.take(v@.len() as int) =~= v@);
    r
}

/// Surface material of the shell's panels.
#[derive(Debug, Clone, Copy, PartialEq, Eq, Structural)]
pub enum MaterialConfig {
    Flat,
    FrostedGlass,
    LiquidGlass,
}

impl Default for MaterialConfig {
    fn default() -> (r: Self)
        ensures
            r == MaterialConfig::Flat,
    {
        MaterialConfig::Flat
    }
}

/// Shape language of the shell's panels.
#[derive(Debug, Clone, Copy, PartialEq, Eq, Structural)]
pub enum ShapeConfig {
    RoundedRect,
    SpacedPills,
    SharpCorners,
    FluidMorph,
}

impl Default for ShapeConfig {
    fn default() -> (r: Self)
        ensures
            r == ShapeConfig::RoundedRect,
    {
        ShapeConfig::RoundedRect
    }
}

/// Colour scheme of the shell.
#[derive(Debug, Clone, Copy, PartialEq, Eq, Structural)]
pub enum ColorwayConfig {
    Accent,
    HoloWhite,
    Obsidian,
}

impl Default for ColorwayConfig {
    fn default() -> (r: Self)
        ensures
            r == ColorwayConfig::Accent,
    {
        ColorwayConfig::Accent
    }
}

/// Screen edge the bar is attached to.
#[derive(Debug, Clone, Copy, PartialEq, Eq, Structural)]
pub enum BarConfigPosition {
    Top,
    Bottom,
    Left,
    Right,
}

impl Default for BarConfigPosition {
    fn default() -> (r: Self)
        ensures
            r == BarConfigPosition::Top,
    {
        BarConfigPosition::Top
    }
}

/// What a bar module shows.
#[derive(Debug, Clone, Copy, PartialEq, Eq, Structural)]
pub enum BarModuleConfigType {
    Workspaces,
    Title,
    SystemInfo,
    Plugin,
}

impl Default for BarModuleConfigType {
    fn default() -> (r: Self)
        ensures
            r == BarModuleConfigType::Workspaces,
    {
        BarModuleConfigType::Workspaces
    }
}

/// Which group of the bar a module sits in.
#[derive(Debug, Clone, Copy, PartialEq, Eq, Structural)]
pub enum BarModuleConfigAlign {
    Start,
    Center,
    End,
}

impl Default for BarModuleConfigAlign {
    fn default() -> (r: Self)
        ensures
            r == BarModuleConfigAlign::Start,
    {
        BarModuleConfigAlign::Start
    }
}

/// One configured bar module.
#[derive(Debug)]
pub struct BarModuleConfig {
    pub module_type: BarModuleConfigType,
    pub id: Option<String>,
    pub align: BarModuleConfigAlign,
}

impl Clone for BarModuleConfig {
    fn clone(&self) -> (r: Self)
        ensures
            r == *self,
    {
        BarModuleConfig {
            module_type: self.module_type,
            id: match &self.id {
                Some(s) => Some(s.clone()),
                None => None,
            },
            align: self.align,
        }
    }
}

impl Default for BarModuleConfig {
    fn default() -> (r: Self)
        ensures
            r == (BarModuleConfig {
                module_type: BarModuleConfigType::Workspaces,
                id: None,
                align: BarModuleConfigAlign::Start,
            }),
    {
        BarModuleConfig {
            module_type: BarModuleConfigType::Workspaces,
            id: None,
            align: BarModuleConfigAlign::Start,
        }
    }
}

/// The bar section.
#[derive(Debug)]
pub struct BarConfig {
    pub position: BarConfigPosition,
    pub height: u32,
    pub modules: Vec<BarModuleConfig>,
}

impl Clone for BarConfig {
    fn clone(&self) -> (r: Self)
        ensures
            r.position == self.position,
            r.height == self.height,
            r.modules@ == self.modules@,
    {
        let mut modules: Vec<BarModuleConfig> = Vec::new();
        for i in 0..self.modules.len()
            invariant
                modules@ == self.modules@.take(i as int),
        {
            modules.push(self.modules[i].clone());
            assert(modules@ =~= self.modules@.take(i + 1));
        }
        assert(self.modules@.take(self.modules@.len() as int) =~= self.modules@);
        BarConfig { position: self.position, height: self.height, modules }
    }
}

impl Default for BarConfig {
    fn default() -> (r: Self)
        ensures
            r.position == BarConfigPosition::Top,
            r.height == 32,
            r.modules@.len() == 0,
    {
        BarConfig { position: BarConfigPosition::Top, height: 32, modules: Vec::new() }
    }
}

/// How the launcher matches letter case.
#[derive(Debug, Clone, Copy, PartialEq, Eq, Structural)]
pub enum LauncherConfigFuzzyMatch {
    SmartCase,
    CaseSensitive,
    CaseInsensitive,
}

impl Default for LauncherConfigFuzzyMatch {
    fn default() -> (r: Self)
        ensures
            r == LauncherConfigFuzzyMatch::SmartCase,
    {
        LauncherConfigFuzzyMatch::SmartCase
    }
}

/// The launcher section.
#[derive(Debug)]
pub struct LauncherConfig {
    pub hotkey: String,
    pub show_icons: bool,
    pub fuzzy_match: LauncherConfigFuzzyMatch,
}

impl Clone for LauncherConfig {
    fn clone(&self) -> (r: Self)
        ensures
            r == *self,
    {
        LauncherConfig {
            hotkey: self.hotkey.clone(),
            show_icons: self.show_icons,
            fuzzy_match: self.fuzzy_match,
        }
    }
}

impl Default for LauncherConfig {
    fn default() -> (r: Self)
        ensures
            r.hotkey@ == "Super+D"@,
            !r.show_icons,
            r.fuzzy_match == LauncherConfigFuzzyMatch::SmartCase,
    {
        LauncherConfig {
            hotkey: String::from_str("Super+D"),
            show_icons: false,
            fuzzy_match: LauncherConfigFuzzyMatch::SmartCase,
        }
    }
}

/// Screen corner that notifications stack from.
#[derive(Debug, Clone, Copy, PartialEq, Eq, Structural)]
pub enum NotificationsConfigAnchor {
    TopLeft,
    TopRight,
    BottomLeft,
    BottomRight,
}

impl Default for NotificationsConfigAnchor {
    fn default() -> (r: Self)
        ensures
            r == NotificationsConfigAnchor::TopLeft,
    {
        NotificationsConfigAnchor::TopLeft
    }
}

/// What a click on a notification does.
#[derive(Debug, Clone, Copy, PartialEq, Eq, Structural)]
pub enum NotificationsConfigOnClick {
    Dismiss,
    Open,
}

impl Default for NotificationsConfigOnClick {
    fn default() -> (r: Self)
        ensures
            r == NotificationsConfigOnClick::Dismiss,
    {
        NotificationsConfigOnClick::Dismiss
    }
}

/// The notifications section.
#[derive(Debug, Clone, Copy, PartialEq, Eq, Structural)]
pub struct NotificationsConfig {
    pub timeout: u32,
    pub max_visible: u32,
    pub anchor: NotificationsConfigAnchor,
    pub on_click: NotificationsConfigOnClick,
}

impl Default for NotificationsConfig {
    fn default() -> (r: Self)
        ensures
            r == (NotificationsConfig {
                timeout: 5000,
                max_visible: 5,
                anchor: NotificationsConfigAnchor::TopLeft,
                on_click: NotificationsConfigOnClick::Dismiss,
            }),
    {
        NotificationsConfig {
            timeout: 5000,
            max_visible: 5,
            anchor: NotificationsConfigAnchor::TopLeft,
            on_click: NotificationsConfigOnClick::Dismiss,
        }
    }
}

/// What the lock screen does on suspend.
#[derive(Debug, Clone, Copy, PartialEq, Eq, Structural)]
pub enum LockConfigOnSuspend {
    Lock,
    Logout,
    Suspend,
    Hibernate,
}

impl Default for LockConfigOnSuspend {
    fn default() -> (r: Self)
        ensures
            r == LockConfigOnSuspend::Lock,
    {
        LockConfigOnSuspend::Lock
    }
}

/// The lock screen section.
#[derive(Debug, Clone, Copy, PartialEq, Eq, Structural)]
pub struct LockConfig {
    pub blur_background: bool,
    pub input_echo: bool,
    pub on_suspend: LockConfigOnSuspend,
}

impl Default for LockConfig {
    fn default() -> (r: Self)
        ensures
            r == (LockConfig {
                blur_background: true,
                input_echo: false,
                on_suspend: LockConfigOnSuspend::Lock,
            }),
    {
        LockConfig { blur_background: true, input_echo: false, on_suspend: LockConfigOnSuspend::Lock }
    }
}

/// One configured plugin.
#[derive(Debug)]
pub struct PluginConfig {
    pub id: String,
    pub path: PathBuf,
    pub interval: u32,
    pub allow_network: Vec<String>,
}

impl Clone for PluginConfig {
    fn clone(&self) -> (r: Self)
        ensures
            r.id == self.id,
            r.interval == self.interval,
            r.allow_network@ == self.allow_network@,
    {
        PluginConfig {
            id: self.id.clone(),
            path: self.path.clone(),
            interval: self.interval,
            allow_network: clone_strings(&self.allow_network),
        }
    }
}

impl Default for PluginConfig {
    fn default() -> (r: Self)
        ensures
            r.id@.len() == 0,
            r.interval == 60,
            r.allow_network@.len() == 0,
    {
        PluginConfig {
            id: String::new(),
            path: PathBuf::new(),
            interval: 60,
            allow_network: Vec::new(),
        }
    }
}

} // verus!
