use ps2_suitcase::icon_presets::{find_preset, icon_sys_presets};
use ps2_suitcase::packer::{ColorConfig, ColorFConfig, IconSysConfig, VectorConfig};
use ps2_suitcase::project::PackForm;

fn colf(r: f32, g: f32, b: f32, a: f32) -> ColorFConfig {
    ColorFConfig { r: r.to_bits(), g: g.to_bits(), b: b.to_bits(), a: a.to_bits() }
}

fn vec4(x: f32, y: f32, z: f32, w: f32) -> VectorConfig {
    VectorConfig { x: x.to_bits(), y: y.to_bits(), z: z.to_bits(), w: w.to_bits() }
}

#[test]
fn presets_hold_the_listed_values() {
    let presets = icon_sys_presets();
    assert_eq!(presets.len(), 3);
    assert_eq!(presets[0].id, "default");
    assert_eq!(presets[0].background_colors, IconSysConfig::default_background_colors());
    let cool = find_preset("cool_blue").expect("cool blue");
    assert_eq!(cool.label, "Cool Blue");
    assert_eq!(cool.background_colors[2], ColorConfig { r: 0, g: 64, b: 160, a: 0 });
    assert_eq!(cool.light_directions[1], vec4(-0.5, -0.5, 0.5, 0.0));
    assert_eq!(cool.light_colors[2], colf(0.3, 0.3, 0.4, 1.0));
    assert_eq!(cool.ambient_color, colf(0.2, 0.2, 0.2, 1.0));
    let warm = find_preset("warm_sunset").expect("warm sunset");
    assert_eq!(warm.light_directions[0], vec4(-0.2, -0.4, 0.8, 0.0));
    assert_eq!(warm.light_directions[2], vec4(0.3, -0.5, 0.7, 0.0));
    assert_eq!(warm.light_colors[0], colf(1.0, 0.9, 0.75, 1.0));
    assert_eq!(warm.light_colors[1], colf(0.9, 0.6, 0.3, 1.0));
    assert_eq!(warm.ambient_color, colf(0.25, 0.18, 0.12, 1.0));
    assert!(find_preset("neon").is_none());
}

#[test]
fn applying_a_preset_sets_the_lights() {
    let mut app = PackForm::default();
    app.folder_base_name = "SAVE".to_string();
    let warm = find_preset("warm_sunset").expect("warm sunset");
    app.apply_preset(&warm);
    assert_eq!(app.icon_sys_background_colors, warm.background_colors);
    assert_eq!(app.icon_sys_ambient_color, warm.ambient_color);
    assert_eq!(app.icon_sys_selected_preset, Some("warm_sunset".to_string()));
    assert_eq!(app.folder_base_name, "SAVE");
    app.clear_icon_sys_preset();
    assert_eq!(app.icon_sys_selected_preset, None);
}
