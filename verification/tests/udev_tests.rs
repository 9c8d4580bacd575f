use kowinwm::config::{Config, OutputData};
use kowinwm::geometry::{Point, Rect};
use kowinwm::scheduler::SchedState;
use kowinwm::udev::{
    pick_mode, DrmScanEvent, Mode, ScreenSpace, UdevAction, UdevData, UdevEvent,
};

fn mode(w: i32, h: i32, mhz: i32, preferred: bool) -> Mode {
    Mode { width: w, height: h, refresh_mhz: mhz, preferred }
}

fn connect(crtc: u64, name: &str) -> DrmScanEvent {
    DrmScanEvent::Connected {
        crtc,
        name: name.to_string(),
        modes: vec![mode(1920, 1080, 60000, false), mode(2560, 1440, 144000, true)],
    }
}

#[test]
fn pick_mode_prefers_the_preferred_mode() {
    let modes = vec![mode(1920, 1080, 60000, false), mode(2560, 1440, 144000, true)];
    let m = pick_mode(&modes, None).unwrap();
    assert_eq!((m.width, m.height, m.refresh_mhz), (2560, 1440, 144000));
}

#[test]
fn pick_mode_falls_back_to_the_first_mode() {
    let modes = vec![mode(1920, 1080, 60000, false), mode(800, 600, 60000, false)];
    let m = pick_mode(&modes, None).unwrap();
    assert_eq!((m.width, m.height), (1920, 1080));
    assert!(pick_mode(&Vec::new(), None).is_none());
}

#[test]
fn pick_mode_applies_the_configured_override() {
    let modes = vec![mode(1920, 1080, 60000, true)];
    let cfg = OutputData {
        resolution: (2560, 1440),
        refresh_rate: 75,
        scale_percent: 100,
        possition: (100, 0),
        enabled: true,
    };
    let m = pick_mode(&modes, Some(cfg)).unwrap();
    assert_eq!((m.width, m.height, m.refresh_mhz), (2560, 1440, 75000));
}

#[test]
fn hotplug_add_scan_connect() {
    let mut data = UdevData::new(1);
    let mut screen = ScreenSpace::new();
    let config = Config::default();

    let action = data.on_udev_event(UdevEvent::Added { device_id: 1 }, &mut screen);
    assert!(matches!(action, UdevAction::OpenDevice { device_id: 1 }));
    assert!(data.on_device_added(1, 1));

    let action = data.on_udev_event(UdevEvent::Changed { device_id: 1 }, &mut screen);
    assert!(matches!(action, UdevAction::ScanConnectors { device_id: 1 }));
    let action = data.on_udev_event(UdevEvent::Changed { device_id: 9 }, &mut screen);
    assert!(matches!(action, UdevAction::Ignore));

    let r = data.on_connector_event(&mut screen, &config, 1, &connect(5, "HDMI-A-1"), 100);
    assert_eq!(r, Some((1, 5)));
    assert_eq!(data.devices.len(), 1);
    assert_eq!(data.devices[0].surfaces.len(), 1);
    let s = data.devices[0].surfaces[0];
    assert_eq!(s.crtc, 5);
    assert_eq!(s.global_id, 100);
    assert_eq!((s.mode.width, s.mode.height), (2560, 1440));
    assert_eq!(s.position, Point::new(0, 0));
    assert_eq!(s.scale_percent, 100);
    assert_eq!(s.sched.state, SchedState::Idle);
    assert_eq!(screen.outputs.len(), 1);
    assert_eq!(screen.outputs[0].rect, Rect::new(0, 0, 2560, 1440));
}

#[test]
fn connector_event_for_unknown_device_is_ignored() {
    let mut data = UdevData::new(1);
    let mut screen = ScreenSpace::new();
    let config = Config::default();
    let r = data.on_connector_event(&mut screen, &config, 4, &connect(5, "DP-3"), 100);
    assert_eq!(r, None);
    assert!(screen.outputs.is_empty());
}

#[test]
fn output_disabled_in_config_never_appears() {
    let mut data = UdevData::new(1);
    let mut screen = ScreenSpace::new();
    let mut config = Config::default();
    config.set_output(
        "HDMI-A-1".to_string(),
        OutputData {
            resolution: (1920, 1080),
            refresh_rate: 60,
            scale_percent: 100,
            possition: (0, 0),
            enabled: false,
        },
    );
    data.on_device_added(1, 1);
    let r = data.on_connector_event(&mut screen, &config, 1, &connect(5, "HDMI-A-1"), 100);
    assert_eq!(r, None);
    assert!(data.devices[0].surfaces.is_empty());
    assert!(screen.outputs.is_empty());
}

#[test]
fn disconnect_drops_the_surface_but_keeps_the_mapping() {
    let mut data = UdevData::new(1);
    let mut screen = ScreenSpace::new();
    let config = Config::default();
    data.on_device_added(1, 1);
    data.on_connector_event(&mut screen, &config, 1, &connect(5, "HDMI-A-1"), 100);
    let r = data.on_connector_event(
        &mut screen,
        &config,
        1,
        &DrmScanEvent::Disconnected { crtc: 5 },
        0,
    );
    assert_eq!(r, None);
    assert!(data.devices[0].surfaces.is_empty());
    // The global and the screen mapping stay until the device goes away,
    // so a reconnecting connector finds them again.
    assert_eq!(screen.outputs.len(), 1);
}

#[test]
fn device_removal_tears_down_only_its_outputs() {
    let mut data = UdevData::new(1);
    let mut screen = ScreenSpace::new();
    let config = Config::default();
    data.on_device_added(1, 1);
    data.on_device_added(2, 2);
    data.on_connector_event(&mut screen, &config, 1, &connect(5, "HDMI-A-1"), 100);
    data.on_connector_event(&mut screen, &config, 2, &connect(7, "HDMI-A-2"), 200);
    assert_eq!(screen.outputs.len(), 2);

    let action = data.on_udev_event(UdevEvent::Removed { device_id: 1 }, &mut screen);
    match action {
        UdevAction::DisableGlobals { globals } => assert_eq!(globals, vec![100]),
        _ => panic!("expected the removed device's globals"),
    }
    // Only the removed device's outputs were unmapped; the other device's
    // surface is untouched and keeps scheduling.
    assert_eq!(data.devices.len(), 1);
    assert_eq!(data.devices[0].node, 2);
    assert_eq!(data.devices[0].surfaces.len(), 1);
    assert_eq!(data.devices[0].surfaces[0].global_id, 200);
    assert_eq!(screen.outputs.len(), 1);
    assert_eq!(screen.outputs[0].device_id, 2);
    assert_eq!(screen.outputs[0].crtc, 7);
}

#[test]
fn removal_of_unknown_device_changes_nothing() {
    let mut data = UdevData::new(1);
    let mut screen = ScreenSpace::new();
    let action = data.on_udev_event(UdevEvent::Removed { device_id: 3 }, &mut screen);
    assert!(matches!(action, UdevAction::Ignore));
}

#[test]
fn readding_a_device_starts_over_without_surfaces() {
    let mut data = UdevData::new(1);
    let mut screen = ScreenSpace::new();
    let config = Config::default();
    data.on_device_added(1, 1);
    data.on_connector_event(&mut screen, &config, 1, &connect(5, "HDMI-A-1"), 100);
    assert_eq!(data.devices[0].surfaces.len(), 1);
    data.on_device_added(1, 1);
    assert_eq!(data.devices.len(), 1);
    assert!(data.devices[0].surfaces.is_empty());
}
