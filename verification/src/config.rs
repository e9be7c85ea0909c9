//! The application's persisted settings record: window geometry plus user
//! preferences, with field-wise defaults and partial updates.
use vstd::prelude::*;

verus! {

pub fn default_dark_mode() -> (r: bool)
    ensures
        r == true,
{
    true
}

pub fn default_overwrite() -> (r: bool)
    ensures
        r == true,
{
    true
}

pub fn default_convert_enabled() -> (r: bool)
    ensures
        r == false,
{
    false
}

pub fn default_convert_format() -> (r: String)
    ensures
        r@ == "jpg"@,
{
    String::from_str("jpg")
}

/// The persisted settings: window geometry and user preferences.
#[derive(Debug, Clone)]
pub struct AppConfig {
    pub x: i32,
    pub y: i32,
    pub width: u32,
    pub height: u32,
    pub dark_mode: bool,
    pub overwrite: bool,
    pub convert_enabled: bool,
    pub convert_format: String,
}

impl Default for AppConfig {
    /// The record used when nothing was persisted, or a field is missing.
    fn default() -> (r: AppConfig)
        ensures
            r.x == 0,
            r.y == 0,
            r.width == 800,
            r.height == 600,
            r.dark_mode == true,
            r.overwrite == true,
            r.convert_enabled == false,
            r.convert_format@ == "jpg"@,
    {
        AppConfig {
            x: 0,
            y: 0,
            width: 800,
            height: 600,
            dark_mode: default_dark_mode(),
            overwrite: default_overwrite(),
            convert_enabled: default_convert_enabled(),
            convert_format: default_convert_format(),
        }
    }
}

/// Merges a partial settings update into the record: each given field
/// replaces its counterpart, absent fields and the window geometry stay.
pub fn apply_settings(
    config: &mut AppConfig,
    dark_mode: Option<bool>,
    overwrite: Option<bool>,
    convert_enabled: Option<bool>,
    convert_format: Option<String>,
)
    ensures
        self_geometry_kept(*old(config), *final(config)),
        final(config).dark_mode == (match dark_mode {
            Some(v) => v,
            None => old(config).dark_mode,
        }),
        final(config).overwrite == (match overwrite {
            Some(v) => v,
            None => old(config).overwrite,
        }),
        final(config).convert_enabled == (match convert_enabled {
            Some(v) => v,
            None => old(config).convert_enabled,
        }),
        final(config).convert_format@ == (match convert_format {
            Some(v) => v@,
            None => old(config).convert_format@,
        }),
{
    match dark_mode {
        Some(v) => config.dark_mode = v,
        None => {},
    }
    match overwrite {
        Some(v) => config.overwrite = v,
        None => {},
    }
    match convert_enabled {
        Some(v) => config.convert_enabled = v,
        None => {},
    }
    match convert_format {
        Some(v) => config.convert_format = v,
        None => {},
    }
}

/// The window-geometry fields are unchanged between two records.
pub open spec fn self_geometry_kept(before: AppConfig, after: AppConfig) -> bool {
    &&& after.x == before.x
    &&& after.y == before.y
    &&& after.width == before.width
    &&& after.height == before.height
}

} // verus!
