use std::time::Duration;

use dygma_sd_plugin::battery::BatteryLevels;
use dygma_sd_plugin::plugin::{
    ActionSettings, BatteryOutcome, Command, KeyTitle, Plugin, StreamDeckEvent, ACTION_UUID,
    DEFAULT_POLL_SECS, MAX_POLL_SECS, MIN_POLL_SECS,
};
use dygma_sd_plugin::visual::{error_image_data_uri, key_image_data_uri, loading_image_data_uri};

fn levels(left: u8, right: u8) -> BatteryLevels {
    BatteryLevels {
        left,
        right,
        left_status: Some(0),
        right_status: Some(0),
    }
}

fn settings(poll_interval_secs: u64) -> ActionSettings {
    ActionSettings { poll_interval_secs, show_percentage: false }
}

fn numbered(poll_interval_secs: u64) -> ActionSettings {
    ActionSettings { poll_interval_secs, show_percentage: true }
}

fn with_action(context: &str, settings: ActionSettings) -> Plugin {
    let mut plugin = Plugin::new();
    plugin.add_action(context.to_string(), settings);
    plugin
}

#[test]
fn key_title_variants() {
    assert_eq!(KeyTitle::Loading.as_title(), "…");
    assert_eq!(KeyTitle::Error.as_title(), "ERR\nCOM");
    assert_eq!(KeyTitle::Levels(levels(100, 40)).as_title(), "L100%\nR40%");
}

#[test]
fn action_settings_clamp_poll_interval() {
    assert_eq!(settings(5).poll_interval_secs(), MIN_POLL_SECS);
    assert_eq!(settings(60).poll_interval_secs(), 60);
    assert_eq!(settings(9999).poll_interval_secs(), MAX_POLL_SECS);
    assert_eq!(settings(30).poll_interval(), Duration::from_secs(30));
}

#[test]
fn action_settings_default() {
    assert_eq!(ActionSettings::default().poll_interval_secs, DEFAULT_POLL_SECS);
    assert!(!ActionSettings::default().show_percentage);
    assert_eq!(ActionSettings::default().poll_interval(), Duration::from_secs(60));
    assert_eq!(settings(15).poll_interval_secs(), 15);
    assert_eq!(settings(600).poll_interval_secs(), 600);
}

#[test]
fn should_poll_requires_visible_action() {
    let plugin = Plugin::new();
    assert!(!plugin.has_visible_actions());
    assert!(!plugin.should_poll());
}

#[test]
fn should_poll_when_visible_and_never_polled() {
    let plugin = with_action("ctx-1", settings(60));
    assert!(plugin.has_visible_actions());
    assert!(plugin.should_poll());
}

#[test]
fn should_not_poll_while_in_flight() {
    let mut plugin = with_action("ctx-1", settings(60));
    assert!(plugin.request_battery());
    assert!(!plugin.should_poll());
}

#[test]
fn should_not_poll_immediately_after_successful_read() {
    let mut plugin = with_action("ctx-1", settings(600));
    plugin.apply_battery_outcome(BatteryOutcome {
        result: Ok(levels(90, 50)),
        force: true,
    });
    assert!(!plugin.should_poll());
    assert_eq!(*plugin.key_title(), KeyTitle::Levels(levels(90, 50)));
}

#[test]
fn poll_interval_uses_minimum_across_actions() {
    let mut plugin = with_action("a", settings(120));
    plugin.add_action("b".to_string(), settings(30));
    assert_eq!(plugin.poll_interval(), Duration::from_secs(30));
}

#[test]
fn poll_interval_default_without_actions() {
    let plugin = Plugin::new();
    assert_eq!(plugin.poll_interval(), Duration::from_secs(DEFAULT_POLL_SECS));
}

#[test]
fn apply_battery_success_updates_view_and_clears_in_flight() {
    let mut plugin = with_action("ctx", settings(60));
    assert!(plugin.request_battery());
    let alert = plugin.apply_battery_outcome(BatteryOutcome {
        result: Ok(levels(100, 40)),
        force: true,
    });
    assert!(!alert);
    assert!(!plugin.is_battery_in_flight());
    assert!(plugin.has_polled());
    assert_eq!(plugin.key_title().as_title(), "L100%\nR40%");
}

#[test]
fn apply_battery_error_sets_error_view_and_requests_alert() {
    let mut plugin = with_action("ctx", settings(60));
    assert!(plugin.request_battery());
    let alert = plugin.apply_battery_outcome(BatteryOutcome {
        result: Err("port busy".into()),
        force: true,
    });
    assert!(alert);
    assert!(!plugin.is_battery_in_flight());
    assert_eq!(*plugin.key_title(), KeyTitle::Error);
    assert_eq!(plugin.key_title().as_title(), "ERR\nCOM");
}

#[test]
fn request_battery_is_single_flight() {
    let mut plugin = with_action("ctx", settings(60));
    assert!(plugin.request_battery());
    assert!(plugin.is_battery_in_flight());
    assert!(!plugin.request_battery());
    assert!(plugin.is_battery_in_flight());
}

fn appear(context: &str, secs: u64) -> StreamDeckEvent {
    StreamDeckEvent::WillAppear {
        action: ACTION_UUID.to_string(),
        context: context.to_string(),
        settings: settings(secs),
    }
}

fn set_title(context: &str, title: &str) -> Command {
    Command::SetTitle {
        context: context.to_string(),
        title: title.to_string(),
    }
}

fn set_image(context: &str, image: String) -> Command {
    Command::SetImage {
        context: context.to_string(),
        image,
    }
}

#[test]
fn key_title_images() {
    let lv = levels(100, 40);
    assert_eq!(KeyTitle::Loading.image(true), loading_image_data_uri());
    assert_eq!(KeyTitle::Error.image(false), error_image_data_uri());
    assert_eq!(KeyTitle::Levels(lv.clone()).image(true), key_image_data_uri(&lv, true));
    assert_eq!(KeyTitle::Levels(lv.clone()).image(false), key_image_data_uri(&lv, false));
    assert_ne!(key_image_data_uri(&lv, true), key_image_data_uri(&lv, false));
    assert!(KeyTitle::Error.image(false).starts_with("data:image/svg+xml;base64,"));
}

#[test]
fn will_appear_sets_title_and_starts_forced_read() {
    let mut plugin = Plugin::new();
    let cmds = plugin.handle_message(appear("k1", 45));
    assert_eq!(
        cmds,
        vec![
            set_image("k1", loading_image_data_uri()),
            set_title("k1", "…"),
            Command::ReadBattery { force: true },
        ]
    );
    assert!(plugin.is_battery_in_flight());
    assert_eq!(plugin.contexts(), vec!["k1".to_string()]);
    assert_eq!(plugin.poll_interval(), Duration::from_secs(45));

    // A second key while the read is in flight: image and title only, no
    // second read.
    let cmds = plugin.handle_message(appear("k2", 300));
    assert_eq!(cmds, vec![set_image("k2", loading_image_data_uri()), set_title("k2", "…")]);
    assert_eq!(plugin.contexts(), vec!["k1".to_string(), "k2".to_string()]);
}

#[test]
fn will_appear_for_other_action_is_ignored() {
    let mut plugin = Plugin::new();
    let cmds = plugin.handle_message(StreamDeckEvent::WillAppear {
        action: "com.example.other".to_string(),
        context: "k1".to_string(),
        settings: settings(60),
    });
    assert!(cmds.is_empty());
    assert!(!plugin.has_visible_actions());
    assert!(!plugin.is_battery_in_flight());
}

#[test]
fn will_disappear_forgets_the_key() {
    let mut plugin = Plugin::new();
    plugin.handle_message(appear("k1", 60));
    plugin.handle_message(appear("k2", 60));
    let cmds = plugin.handle_message(StreamDeckEvent::WillDisappear {
        context: "k1".to_string(),
    });
    assert!(cmds.is_empty());
    assert_eq!(plugin.contexts(), vec!["k2".to_string()]);
    plugin.handle_message(StreamDeckEvent::WillDisappear {
        context: "k2".to_string(),
    });
    assert!(!plugin.has_visible_actions());
}

#[test]
fn key_down_shows_loading_and_forces_read() {
    let mut plugin = with_action("k1", settings(60));
    plugin.apply_battery_outcome(BatteryOutcome {
        result: Ok(levels(80, 70)),
        force: true,
    });
    let cmds = plugin.handle_message(StreamDeckEvent::KeyDown {
        context: "k1".to_string(),
    });
    assert_eq!(
        cmds,
        vec![
            set_image("k1", loading_image_data_uri()),
            set_title("k1", "…"),
            Command::ReadBattery { force: true },
        ]
    );
    assert_eq!(*plugin.key_title(), KeyTitle::Loading);
}

#[test]
fn did_receive_settings_updates_known_key_only() {
    let mut plugin = with_action("k1", settings(60));
    let cmds = plugin.handle_message(StreamDeckEvent::DidReceiveSettings {
        context: "k1".to_string(),
        settings: settings(20),
    });
    assert_eq!(cmds, vec![set_image("k1", loading_image_data_uri())]);
    assert_eq!(plugin.poll_interval(), Duration::from_secs(20));
    let cmds = plugin.handle_message(StreamDeckEvent::DidReceiveSettings {
        context: "nope".to_string(),
        settings: settings(15),
    });
    assert!(cmds.is_empty());
    assert_eq!(plugin.poll_interval(), Duration::from_secs(20));
    assert_eq!(plugin.contexts(), vec!["k1".to_string()]);
}

#[test]
fn unknown_events_change_nothing() {
    let mut plugin = with_action("k1", settings(60));
    assert!(plugin.handle_message(StreamDeckEvent::Unknown).is_empty());
    assert!(plugin.handle_message(StreamDeckEvent::Other).is_empty());
    assert!(!plugin.is_battery_in_flight());
    assert_eq!(plugin.contexts(), vec!["k1".to_string()]);
}

#[test]
fn failed_read_alerts_first_key_then_paints_keys() {
    let mut plugin = with_action("a", settings(60));
    plugin.add_action("b".to_string(), settings(60));
    let cmds = plugin.on_battery_result(BatteryOutcome {
        result: Err("no port".to_string()),
        force: true,
    });
    assert_eq!(
        cmds,
        vec![
            Command::ShowAlert { context: "a".to_string() },
            set_image("a", error_image_data_uri()),
            set_title("a", "ERR\nCOM"),
            set_image("b", error_image_data_uri()),
            set_title("b", "ERR\nCOM"),
        ]
    );
}

#[test]
fn good_read_paints_key_art_without_alert() {
    let mut plugin = with_action("a", numbered(60));
    plugin.add_action("b".to_string(), settings(60));
    let lv = levels(100, 40);
    let cmds = plugin.on_battery_result(BatteryOutcome {
        result: Ok(lv.clone()),
        force: false,
    });
    assert_eq!(
        cmds,
        vec![
            set_image("a", key_image_data_uri(&lv, true)),
            set_title("a", "L100%\nR40%"),
            set_image("b", key_image_data_uri(&lv, false)),
            set_title("b", "L100%\nR40%"),
        ]
    );
    assert!(plugin
        .on_battery_result(BatteryOutcome { result: Err("x".to_string()), force: false })
        .len()
        == 5);
}

#[test]
fn numbers_option_repaints_the_key() {
    let mut plugin = with_action("a", settings(60));
    let lv = levels(55, 12);
    plugin.apply_battery_outcome(BatteryOutcome { result: Ok(lv.clone()), force: true });
    let cmds = plugin.handle_message(StreamDeckEvent::DidReceiveSettings {
        context: "a".to_string(),
        settings: numbered(60),
    });
    assert_eq!(cmds, vec![set_image("a", key_image_data_uri(&lv, true))]);
    let cmds = plugin.handle_message(appear("b", 60));
    assert_eq!(
        cmds,
        vec![
            set_image("b", key_image_data_uri(&lv, false)),
            set_title("b", "L55%\nR12%"),
            Command::ReadBattery { force: true },
        ]
    );
}

#[test]
fn tick_polls_only_when_due() {
    let mut empty = Plugin::new();
    assert!(empty.on_tick().is_empty());

    let mut plugin = with_action("k", settings(600));
    assert_eq!(plugin.on_tick(), vec![Command::ReadBattery { force: true }]);
    assert!(plugin.on_tick().is_empty());
    plugin.apply_battery_outcome(BatteryOutcome { result: Ok(levels(1, 2)), force: true });
    assert!(plugin.on_tick().is_empty());
}

#[test]
fn poll_due_uses_elapsed_time() {
    let plugin = with_action("k", settings(30));
    assert!(plugin.poll_due(None));
    assert!(!plugin.poll_due(Some(29_999_999_999)));
    assert!(plugin.poll_due(Some(30_000_000_000)));
    assert!(!Plugin::new().poll_due(None));
}

#[test]
fn re_adding_a_key_replaces_its_settings() {
    let mut plugin = with_action("k", settings(100));
    plugin.add_action("k".to_string(), settings(200));
    assert_eq!(plugin.contexts(), vec!["k".to_string()]);
    assert_eq!(plugin.poll_interval(), Duration::from_secs(200));
    plugin.remove_action(&"k".to_string());
    assert!(!plugin.has_visible_actions());
}

#[test]
fn finished_read_allows_next_request() {
    let mut plugin = with_action("k", settings(60));
    assert!(plugin.request_battery());
    plugin.apply_battery_outcome(BatteryOutcome { result: Err("busy".to_string()), force: true });
    assert!(plugin.request_battery());
}
