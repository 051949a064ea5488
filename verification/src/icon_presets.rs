//! The lighting presets the editor offers for a generated icon.sys.
//! Floating-point values are written as the bit patterns of 32-bit floats.
use vstd::prelude::*;
use crate::packer::{
    ColorConfig, ColorFConfig, IconSysConfig, VectorConfig, default_ambient_color_spec,
    default_background_colors_spec, default_light_colors_spec, default_light_directions_spec,
};
use crate::project::PackForm;
use crate::text::str_eq;

verus! {

/// A named set of background colours and lights.
#[derive(Clone, Copy, Debug)]
pub struct IconSysPreset {
    pub id: &'static str,
    pub label: &'static str,
    pub background_transparency: u32,
    pub background_colors: [ColorConfig; 4],
    pub light_directions: [VectorConfig; 3],
    pub light_colors: [ColorFConfig; 3],
    pub ambient_color: ColorFConfig,
}

/// A preset as mathematical values.
pub struct PresetModel {
    pub id: Seq<char>,
    pub label: Seq<char>,
    pub background_transparency: u32,
    pub background_colors: Seq<ColorConfig>,
    pub light_directions: Seq<VectorConfig>,
    pub light_colors: Seq<ColorFConfig>,
    pub ambient_color: ColorFConfig,
}

impl IconSysPreset {
    pub open spec fn view(&self) -> PresetModel {
        PresetModel {
            id: self.id@,
            label: self.label@,
            background_transparency: self.background_transparency,
            background_colors: self.background_colors@,
            light_directions: self.light_directions@,
            light_colors: self.light_colors@,
            ambient_color: self.ambient_color,
        }
    }
}

pub open spec fn rgba(r: u8, g: u8, b: u8) -> ColorConfig {
    ColorConfig { r, g, b, a: 0 }
}

pub open spec fn dir(x: u32, y: u32, z: u32) -> VectorConfig {
    VectorConfig { x, y, z, w: 0 }
}

pub open spec fn light(r: u32, g: u32, b: u32) -> ColorFConfig {
    ColorFConfig { r, g, b, a: 0x3F80_0000 }
}

/// The presets, in the order the editor lists them: the standard PS2
/// lighting, a cool blue and a warm sunset.
pub open spec fn presets() -> Seq<PresetModel> {
    seq![
        PresetModel {
            id: "default"@,
            label: "Standard (PS2)"@,
            background_transparency: 0,
            background_colors: default_background_colors_spec(),
            light_directions: default_light_directions_spec(),
            light_colors: default_light_colors_spec(),
            ambient_color: default_ambient_color_spec(),
        },
        PresetModel {
            id: "cool_blue"@,
            label: "Cool Blue"@,
            background_transparency: 0,
            background_colors: seq![rgba(0, 32, 96), rgba(0, 48, 128), rgba(0, 64, 160), rgba(0, 16, 48)],
            light_directions: seq![
                dir(0, 0, 0x3F80_0000),
                dir(0xBF00_0000, 0xBF00_0000, 0x3F00_0000),
                dir(0x3F00_0000, 0xBF00_0000, 0x3F00_0000),
            ],
            light_colors: seq![
                light(0x3F80_0000, 0x3F80_0000, 0x3F80_0000),
                light(0x3F00_0000, 0x3F00_0000, 0x3F19_999A),
                light(0x3E99_999A, 0x3E99_999A, 0x3ECC_CCCD),
            ],
            ambient_color: light(0x3E4C_CCCD, 0x3E4C_CCCD, 0x3E4C_CCCD),
        },
        PresetModel {
            id: "warm_sunset"@,
            label: "Warm Sunset"@,
            background_transparency: 0,
            background_colors: seq![
                rgba(128, 48, 16),
                rgba(176, 72, 32),
                rgba(208, 112, 48),
                rgba(96, 32, 16),
            ],
            light_directions: seq![
                dir(0xBE4C_CCCD, 0xBECC_CCCD, 0x3F4C_CCCD),
                dir(0, 0xBF19_999A, 0x3F19_999A),
                dir(0x3E99_999A, 0xBF00_0000, 0x3F33_3333),
            ],
            light_colors: seq![
                light(0x3F80_0000, 0x3F66_6666, 0x3F40_0000),
                light(0x3F66_6666, 0x3F19_999A, 0x3E99_999A),
                light(0x3F19_999A, 0x3E99_999A, 0x3E4C_CCCD),
            ],
            ambient_color: light(0x3E80_0000, 0x3E38_51EC, 0x3DF5_C28F),
        },
    ]
}

/// The presets the editor offers, in order.
pub fn icon_sys_presets() -> (v: Vec<IconSysPreset>)
    ensures
        v@.len() == presets().len(),
        forall|i: int| 0 <= i < v@.len() ==> (#[trigger] v@[i]).view() == presets()[i],
{
    let standard = IconSysPreset {
        id: "default",
        label: "Standard (PS2)",
        background_transparency: IconSysConfig::default_background_transparency(),
        background_colors: IconSysConfig::default_background_colors(),
        light_directions: IconSysConfig::default_light_directions(),
        light_colors: IconSysConfig::default_light_colors(),
        ambient_color: IconSysConfig::default_ambient_color(),
    };
    let one: u32 = 0x3F80_0000;
    let cool = IconSysPreset {
        id: "cool_blue",
        label: "Cool Blue",
        background_transparency: 0,
        background_colors: [
            ColorConfig { r: 0, g: 32, b: 96, a: 0 },
            ColorConfig { r: 0, g: 48, b: 128, a: 0 },
            ColorConfig { r: 0, g: 64, b: 160, a: 0 },
            ColorConfig { r: 0, g: 16, b: 48, a: 0 },
        ],
        light_directions: [
            VectorConfig { x: 0, y: 0, z: 0x3F80_0000, w: 0 },
            VectorConfig { x: 0xBF00_0000, y: 0xBF00_0000, z: 0x3F00_0000, w: 0 },
            VectorConfig { x: 0x3F00_0000, y: 0xBF00_0000, z: 0x3F00_0000, w: 0 },
        ],
        light_colors: [
            ColorFConfig { r: 0x3F80_0000, g: 0x3F80_0000, b: 0x3F80_0000, a: one },
            ColorFConfig { r: 0x3F00_0000, g: 0x3F00_0000, b: 0x3F19_999A, a: one },
            ColorFConfig { r: 0x3E99_999A, g: 0x3E99_999A, b: 0x3ECC_CCCD, a: one },
        ],
        ambient_color: ColorFConfig { r: 0x3E4C_CCCD, g: 0x3E4C_CCCD, b: 0x3E4C_CCCD, a: one },
    };
    let warm = IconSysPreset {
        id: "warm_sunset",
        label: "Warm Sunset",
        background_transparency: 0,
        background_colors: [
            ColorConfig { r: 128, g: 48, b: 16, a: 0 },
            ColorConfig { r: 176, g: 72, b: 32, a: 0 },
            ColorConfig { r: 208, g: 112, b: 48, a: 0 },
            ColorConfig { r: 96, g: 32, b: 16, a: 0 },
        ],
        light_directions: [
            VectorConfig { x: 0xBE4C_CCCD, y: 0xBECC_CCCD, z: 0x3F4C_CCCD, w: 0 },
            VectorConfig { x: 0, y: 0xBF19_999A, z: 0x3F19_999A, w: 0 },
            VectorConfig { x: 0x3E99_999A, y: 0xBF00_0000, z: 0x3F33_3333, w: 0 },
        ],
        light_colors: [
            ColorFConfig { r: 0x3F80_0000, g: 0x3F66_6666, b: 0x3F40_0000, a: one },
            ColorFConfig { r: 0x3F66_6666, g: 0x3F19_999A, b: 0x3E99_999A, a: one },
            ColorFConfig { r: 0x3F19_999A, g: 0x3E99_999A, b: 0x3E4C_CCCD, a: one },
        ],
        ambient_color: ColorFConfig { r: 0x3E80_0000, g: 0x3E38_51EC, b: 0x3DF5_C28F, a: one },
    };
    proof {
        assert(standard.view() == presets()[0]);
        assert(cool.background_colors@ =~= presets()[1].background_colors);
        assert(cool.light_directions@ =~= presets()[1].light_directions);
        assert(cool.light_colors@ =~= presets()[1].light_colors);
        assert(cool.view() == presets()[1]);
        assert(warm.background_colors@ =~= presets()[2].background_colors);
        assert(warm.light_directions@ =~= presets()[2].light_directions);
        assert(warm.light_colors@ =~= presets()[2].light_colors);
        assert(warm.view() == presets()[2]);
    }
    vec![standard, cool, warm]
}

/// The index of the first preset with the given id.
pub open spec fn preset_index(id: Seq<char>) -> Option<int> {
    if presets()[0].id == id {
        Some(0)
    } else if presets()[1].id == id {
        Some(1)
    } else if presets()[2].id == id {
        Some(2)
    } else {
        None
    }
}

/// The preset with the given id, if any.
pub fn find_preset(id: &str) -> (r: Option<IconSysPreset>)
    ensures
        match preset_index(id@) {
            Some(i) => r matches Some(p) && p.view() == presets()[i],
            None => r is None,
        },
{
    let all = icon_sys_presets();
    let mut i: usize = 0;
    while i < all.len()
        invariant
            i <= all@.len(),
            all@.len() == presets().len(),
            forall|j: int| 0 <= j < all@.len() ==> (#[trigger] all@[j]).view() == presets()[j],
            forall|j: int| 0 <= j < i ==> presets()[j].id != id@,
        decreases all.len() - i,
    {
        if str_eq(all[i].id, id) {
            assert(all@[i as int].view() == presets()[i as int]);
            return Some(all[i]);
        }
        assert(all@[i as int].view() == presets()[i as int]);
        i = i + 1;
    }
    None
}

impl PackForm {
    /// Takes a preset's background and lights and records its id.
    pub fn apply_preset(&mut self, preset: &IconSysPreset)
        ensures
            final(self).icon_sys_background_transparency == preset.background_transparency,
            final(self).icon_sys_background_colors == preset.background_colors,
            final(self).icon_sys_light_directions == preset.light_directions,
            final(self).icon_sys_light_colors == preset.light_colors,
            final(self).icon_sys_ambient_color == preset.ambient_color,
            final(self).icon_sys_selected_preset matches Some(p) && p@ == preset.id@,
            *final(self) == (PackForm {
                icon_sys_background_transparency: final(self).icon_sys_background_transparency,
                icon_sys_background_colors: final(self).icon_sys_background_colors,
                icon_sys_light_directions: final(self).icon_sys_light_directions,
                icon_sys_light_colors: final(self).icon_sys_light_colors,
                icon_sys_ambient_color: final(self).icon_sys_ambient_color,
                icon_sys_selected_preset: final(self).icon_sys_selected_preset,
                ..*old(self)
            }),
    {
        self.icon_sys_background_transparency = preset.background_transparency;
        self.icon_sys_background_colors = preset.background_colors;
        self.icon_sys_light_directions = preset.light_directions;
        self.icon_sys_light_colors = preset.light_colors;
        self.icon_sys_ambient_color = preset.ambient_color;
        self.icon_sys_selected_preset = Some(preset.id.to_owned());
    }

    /// Forgets the chosen preset, as after the lights are edited by hand.
    pub fn clear_icon_sys_preset(&mut self)
        ensures
            *final(self) == (PackForm { icon_sys_selected_preset: None, ..*old(self) }),
    {
        self.icon_sys_selected_preset = None;
    }
}

} // verus!
