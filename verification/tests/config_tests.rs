use kowinwm::config::{hex_to_rgb, Config, HexColorError, OutputData};

#[test]
fn default_config_matches_documented_fallback() {
    let c = Config::default();
    assert_eq!(c.workspaces, 4);
    assert_eq!(c.border.thickness, 2);
    assert_eq!(c.border.gap, 2);
    assert_eq!(c.border.active, "#8B4000");
    assert_eq!(c.border.inactive, "#2A2A2A");
    assert_eq!(c.keyboard.layouts, vec!["us".to_string()]);
    assert!(c.autostart.is_empty());
    assert_eq!(c.outputs.len(), 1);
    let (name, d) = c.outputs.get_index(0).unwrap();
    assert_eq!(name, "DP-1");
    assert_eq!(d.resolution, (2560, 1440));
    assert_eq!(d.refresh_rate, 60);
    assert_eq!(d.scale_percent, 100);
    assert_eq!(d.possition, (0, 0));
    assert!(d.enabled);
}

#[test]
fn output_for_finds_by_connector_name() {
    let c = Config::default();
    let d = c.output_for(&"DP-1".to_string());
    assert!(d.is_some());
    assert_eq!(d.unwrap().refresh_rate, 60);
    assert!(c.output_for(&"HDMI-A-1".to_string()).is_none());
}

#[test]
fn set_output_replaces_in_place_or_appends() {
    let mut c = Config::default();
    let shadow = OutputData {
        resolution: (800, 600),
        refresh_rate: 30,
        scale_percent: 100,
        possition: (0, 0),
        enabled: true,
    };
    // An existing name keeps its place in the order and takes the new data.
    c.set_output("DP-1".to_string(), shadow);
    assert_eq!(c.outputs.len(), 1);
    assert_eq!(c.output_for(&"DP-1".to_string()).unwrap().resolution, (800, 600));
    // A new name is appended last.
    c.set_output("DP-2".to_string(), shadow);
    assert_eq!(c.outputs.len(), 2);
    assert_eq!(c.outputs.get_index(1).unwrap().0, "DP-2");
}

#[test]
fn hex_to_rgb_reads_the_default_colors() {
    assert_eq!(hex_to_rgb("#8B4000"), Ok((0x8B, 0x40, 0x00)));
    assert_eq!(hex_to_rgb("#2A2A2A"), Ok((0x2A, 0x2A, 0x2A)));
}

#[test]
fn hex_to_rgb_accepts_lower_and_upper_case() {
    assert_eq!(hex_to_rgb("ff00aa"), Ok((255, 0, 170)));
    assert_eq!(hex_to_rgb("FF00AA"), Ok((255, 0, 170)));
    assert_eq!(hex_to_rgb("#fF00Aa"), Ok((255, 0, 170)));
}

#[test]
fn hex_to_rgb_strips_every_leading_hash() {
    assert_eq!(hex_to_rgb("##123456"), Ok((0x12, 0x34, 0x56)));
}

#[test]
fn hex_to_rgb_rejects_wrong_length() {
    assert_eq!(hex_to_rgb("#FFF"), Err(HexColorError::WrongLength));
    assert_eq!(hex_to_rgb(""), Err(HexColorError::WrongLength));
    assert_eq!(hex_to_rgb("#1234567"), Err(HexColorError::WrongLength));
}

#[test]
fn hex_to_rgb_rejects_bad_digits() {
    assert_eq!(hex_to_rgb("#GGGGGG"), Err(HexColorError::InvalidDigit));
    assert_eq!(hex_to_rgb("12345z"), Err(HexColorError::InvalidDigit));
}
