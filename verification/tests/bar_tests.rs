use nacre::bar::sysinfo::{
    battery_entry, format_clock, is_charging, parse_cpu_times, parse_meminfo, CpuCounters, CpuTimes,
};
use nacre::bar::{BarManager, BarState, ModuleValue};
use nacre::config::{BarConfig, BarConfigPosition, BarModuleConfig, BarModuleConfigAlign, BarModuleConfigType};
use nacre::ipc::WorkspaceInfo;

#[derive(Debug, Clone, Copy, Default, PartialEq)]
struct Readings {
    cpu_pct: f32,
    mem_pct: f32,
    battery_pct: Option<f32>,
}

fn module(t: BarModuleConfigType, id: Option<&str>, align: BarModuleConfigAlign) -> BarModuleConfig {
    BarModuleConfig { module_type: t, id: id.map(|s| s.to_string()), align }
}

fn config() -> BarConfig {
    BarConfig {
        position: BarConfigPosition::Top,
        height: 32,
        modules: vec![
            module(BarModuleConfigType::Workspaces, None, BarModuleConfigAlign::Start),
            module(BarModuleConfigType::Title, None, BarModuleConfigAlign::Center),
            module(BarModuleConfigType::SystemInfo, None, BarModuleConfigAlign::End),
            module(BarModuleConfigType::Plugin, Some("weather-widget"), BarModuleConfigAlign::End),
        ],
    }
}

#[test]
fn default_bar_state() {
    let s: BarState<Readings> = BarState::default();
    assert!(s.workspaces.is_empty());
    assert_eq!(s.active_window_title, None);
    assert_eq!(s.time_str, "00:00:00");
    assert!(!s.battery_charging);
    assert_eq!(s.readings, Readings::default());
}

#[test]
fn modules_resolve_in_configured_order() {
    let mut bar: BarManager<Readings> = BarManager::new(config());
    let ws = vec![WorkspaceInfo {
        id: "1".to_string(),
        name: "Web".to_string(),
        is_active: true,
        is_focused: true,
        is_empty: false,
    }];
    bar.update_from_compositor(ws.clone(), Some("Firefox".to_string()));
    bar.state.readings = Readings { cpu_pct: 12.0, mem_pct: 40.0, battery_pct: Some(80.0) };
    bar.state.time_str = "10:11:12".to_string();
    let m = bar.visible_modules();
    assert_eq!(m.len(), 4);
    match &m[0].value {
        ModuleValue::Workspaces(w) => assert_eq!(*w, ws),
        other => panic!("unexpected {:?}", other),
    }
    match &m[1].value {
        ModuleValue::Title(t) => assert_eq!(t.as_deref(), Some("Firefox")),
        other => panic!("unexpected {:?}", other),
    }
    match &m[2].value {
        ModuleValue::SystemInfo { time_str, readings, battery_charging } => {
            assert_eq!(time_str, "10:11:12");
            assert_eq!(readings.battery_pct, Some(80.0));
            assert!(!battery_charging);
        }
        other => panic!("unexpected {:?}", other),
    }
    match &m[3].value {
        ModuleValue::Plugin { id } => assert_eq!(id.as_deref(), Some("weather-widget")),
        other => panic!("unexpected {:?}", other),
    }
}

#[test]
fn modules_group_by_alignment() {
    let bar: BarManager<Readings> = BarManager::new(config());
    let (start, center, end) = bar.modules_by_alignment();
    assert_eq!(start.len(), 1);
    assert_eq!(center.len(), 1);
    assert_eq!(end.len(), 2);
    assert_eq!(end[0].config.module_type, BarModuleConfigType::SystemInfo);
    assert_eq!(end[1].config.module_type, BarModuleConfigType::Plugin);
}

#[test]
fn clock_text() {
    assert_eq!(format_clock(5, 7, 9), "05:07:09");
    assert_eq!(format_clock(23, 59, 60), "23:59:60");
    assert_eq!(format_clock(0, 0, 0), "00:00:00");
    assert_eq!(format_clock(-5, 123, 10), format!("{:02}:{:02}:{:02}", -5, 123, 10));
}

#[test]
fn cpu_counters() {
    let t = parse_cpu_times("cpu  100 5 50 1000 7 0 0 0 0 0\n").unwrap();
    assert_eq!(t, CpuTimes { user: 100, nice: 5, system: 50, idle: 1000 });
    assert_eq!(parse_cpu_times("cpu 1 2 3"), None);
    assert_eq!(parse_cpu_times("cpu x 2 3 4").unwrap().user, 0);
    let mut c = CpuCounters::new();
    let d = c.advance(t);
    assert_eq!((d.idle_delta, d.total_delta), (1000, 1155));
    let d = c.advance(CpuTimes { user: 150, nice: 5, system: 60, idle: 1100 });
    assert_eq!((d.idle_delta, d.total_delta), (100, 160));
    let d = c.advance(CpuTimes { user: 0, nice: 0, system: 0, idle: 0 });
    assert_eq!((d.idle_delta, d.total_delta), (0, 0));
}

#[test]
fn meminfo_totals() {
    let lines: Vec<String> = [
        "MemTotal:       16000000 kB",
        "MemFree:         1000000 kB",
        "MemAvailable:    4000000 kB",
        "Buffers:          100 kB",
    ]
    .iter()
    .map(|s| s.to_string())
    .collect();
    assert_eq!(parse_meminfo(&lines), (16000000, 4000000));
    assert_eq!(parse_meminfo(&vec!["MemTotal:".to_string()]), (0, 0));
    assert_eq!(parse_meminfo(&vec![]), (0, 0));
}

#[test]
fn battery_status_and_entry() {
    assert!(is_charging("Charging\n"));
    assert!(!is_charging("Discharging\n"));
    assert!(!is_charging("charging"));
    let names: Vec<String> = ["AC", "ucsi-source-psy", "BAT1", "BAT0"].iter().map(|s| s.to_string()).collect();
    assert_eq!(battery_entry(&names), Some(2));
    assert_eq!(battery_entry(&names[..2].to_vec()), None);
}
