use nacre::config::{
    BarConfig, BarConfigPosition, LauncherConfig, LauncherConfigFuzzyMatch, LockConfig, LockConfigOnSuspend,
    MaterialConfig, NotificationsConfig, NotificationsConfigAnchor, NotificationsConfigOnClick, PluginConfig,
};
use nacre::graphics::{frame_action, parse_hex_color, FrameAction, Rgb8, SurfaceStatus};
use nacre::lock::{answers_with_password, pam_granted, pam_start_error, test_password_matches};
use nacre::notification::{normalize_timeout, NotificationEvent, NotificationServer};
use nacre::wasm::{log_range, payload_range, unpack_location};

#[test]
fn config_defaults() {
    let b = BarConfig::default();
    assert_eq!(b.position, BarConfigPosition::Top);
    assert_eq!(b.height, 32);
    assert!(b.modules.is_empty());
    let l = LauncherConfig::default();
    assert_eq!(l.hotkey, "Super+D");
    assert!(!l.show_icons);
    assert_eq!(l.fuzzy_match, LauncherConfigFuzzyMatch::SmartCase);
    let n = NotificationsConfig::default();
    assert_eq!(n.timeout, 5000);
    assert_eq!(n.max_visible, 5);
    assert_eq!(n.anchor, NotificationsConfigAnchor::TopLeft);
    assert_eq!(n.on_click, NotificationsConfigOnClick::Dismiss);
    let k = LockConfig::default();
    assert!(k.blur_background);
    assert!(!k.input_echo);
    assert_eq!(k.on_suspend, LockConfigOnSuspend::Lock);
    let p = PluginConfig::default();
    assert_eq!(p.interval, 60);
    assert!(p.id.is_empty() && p.allow_network.is_empty());
    assert_eq!(MaterialConfig::default(), MaterialConfig::Flat);
}

#[test]
fn hex_colors() {
    assert_eq!(parse_hex_color("#ff007f"), Rgb8 { r: 0xff, g: 0x00, b: 0x7f });
    assert_eq!(parse_hex_color("  #00FF10 \n"), Rgb8 { r: 0x00, g: 0xff, b: 0x10 });
    assert_eq!(parse_hex_color("123456"), Rgb8 { r: 0x12, g: 0x34, b: 0x56 });
    assert_eq!(parse_hex_color("##abcdef"), Rgb8 { r: 0xab, g: 0xcd, b: 0xef });
    assert_eq!(parse_hex_color(" 1a2B3c "), Rgb8 { r: 26, g: 43, b: 60 });
    let fallback = Rgb8 { r: 0xff, g: 0x00, b: 0x7f };
    assert_eq!(parse_hex_color("+f+f+f"), fallback);
    assert_eq!(parse_hex_color("a\u{e9}123"), fallback);
    assert_eq!(parse_hex_color("#fff"), fallback);
    assert_eq!(parse_hex_color("#gg0000"), fallback);
    assert_eq!(parse_hex_color("#abc"), fallback);
    assert_eq!(parse_hex_color("zzzzzz"), fallback);
    assert_eq!(parse_hex_color("-1-1-1"), fallback);
    assert_eq!(parse_hex_color("#éabcd"), fallback);
    assert_eq!(parse_hex_color(""), fallback);
}

#[test]
fn notification_ids_and_events() {
    let mut s = NotificationServer::new();
    let (id1, e1) = s.notify("app".to_string(), 0, "icon".to_string(), "sum".to_string(), "hi".to_string(), -1);
    assert_eq!(id1, 1);
    match e1 {
        NotificationEvent::Add(item) => {
            assert_eq!(item.id, 1);
            assert_eq!(item.app_name, "app");
            assert_eq!(item.summary, "sum");
            assert_eq!(item.body, "hi");
            assert_eq!(item.icon, "icon");
            assert_eq!(item.timeout_ms, 5000);
        }
        NotificationEvent::Close(_) => panic!("expected an added notification"),
    }
    let (id2, _) = s.notify("app".to_string(), 0, String::new(), String::new(), String::new(), 1200);
    assert_eq!(id2, 2);
    let (id3, _) = s.notify("app".to_string(), 1, String::new(), String::new(), String::new(), 0);
    assert_eq!(id3, 1);
    assert_eq!(s.last_id(), 2);
    let (id4, _) = s.notify("app".to_string(), 0, String::new(), String::new(), String::new(), 0);
    assert_eq!(id4, 3);
    match NotificationServer::close_notification(7) {
        NotificationEvent::Close(id) => assert_eq!(id, 7),
        NotificationEvent::Add(_) => panic!("expected a close"),
    }
}

#[test]
fn notification_body_is_sanitized() {
    let mut s = NotificationServer::new();
    let (_, e) = s.notify(
        "a".to_string(),
        0,
        String::new(),
        String::new(),
        "XSS<script>attack</script>".to_string(),
        100,
    );
    match e {
        NotificationEvent::Add(item) => {
            assert_eq!(item.body, "XSS");
            assert_eq!(item.timeout_ms, 100);
        }
        NotificationEvent::Close(_) => panic!("expected an added notification"),
    }
}

#[test]
fn notification_constants() {
    assert_eq!(normalize_timeout(0), 5000);
    assert_eq!(normalize_timeout(-7), 5000);
    assert_eq!(normalize_timeout(250), 250);
    assert_eq!(NotificationServer::get_capabilities(), vec!["body".to_string(), "markup".to_string()]);
    let (a, b, c, d) = NotificationServer::get_server_information();
    assert_eq!((a.as_str(), b.as_str(), c.as_str(), d.as_str()), ("nacre-notification", "Nacre", "0.1.0", "1.2"));
}

#[test]
fn plugin_payload_location() {
    assert_eq!(unpack_location(0x0010_0020), (16, 32));
    assert_eq!(unpack_location(-1), (0xffff, 0xffff));
    assert_eq!(unpack_location(0), (0, 0));
    assert_eq!(payload_range(16, 32, 100), Some((16, 48)));
    assert_eq!(payload_range(16, 32, 47), None);
    assert_eq!(payload_range(0, 0, 0), Some((0, 0)));
}

#[test]
fn plugin_log_range() {
    assert_eq!(log_range(4, 3, 10), Some((4, 7)));
    assert_eq!(log_range(4, 6, 10), Some((4, 10)));
    assert_eq!(log_range(4, 7, 10), None);
    assert_eq!(log_range(4, -1, 10), None);
    assert_eq!(log_range(-1, 1, 10), None);
    assert_eq!(log_range(0, 0, 0), Some((0, 0)));
}

#[test]
fn lock_decisions() {
    assert_eq!(pam_start_error(0), None);
    assert_eq!(pam_start_error(7).as_deref(), Some("pam_start failed: 7"));
    assert_eq!(pam_start_error(-3).as_deref(), Some("pam_start failed: -3"));
    assert!(pam_granted(0, 0));
    assert!(!pam_granted(0, 7));
    assert!(!pam_granted(7, 0));
    assert!(answers_with_password(1));
    assert!(answers_with_password(2));
    assert!(!answers_with_password(3));
    assert!(test_password_matches(&"pw".to_string(), &"pw".to_string()));
    assert!(!test_password_matches(&"pw".to_string(), &"px".to_string()));
}

#[test]
fn surface_status_decides_frame() {
    assert_eq!(frame_action(SurfaceStatus::Success), FrameAction::Draw);
    assert_eq!(frame_action(SurfaceStatus::Suboptimal), FrameAction::Draw);
    assert_eq!(frame_action(SurfaceStatus::Outdated), FrameAction::Reconfigure);
    assert_eq!(frame_action(SurfaceStatus::Lost), FrameAction::Reconfigure);
    assert_eq!(frame_action(SurfaceStatus::Occluded), FrameAction::Skip);
    assert_eq!(frame_action(SurfaceStatus::Timeout), FrameAction::Skip);
    assert_eq!(frame_action(SurfaceStatus::Validation), FrameAction::Fail);
}
