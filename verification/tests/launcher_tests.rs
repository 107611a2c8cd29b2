use nacre::launcher::{clean_exec, index_apps, launch_command, parse_desktop_entry, select_ranked, AppInfo, Launcher};

fn lines(text: &str) -> Vec<String> {
    text.lines().map(|l| l.to_string()).collect()
}

fn app(name: &str, exec: &str) -> AppInfo {
    AppInfo { name: name.to_string(), exec_line: exec.to_string(), icon: None }
}

#[test]
fn desktop_entry_is_read() {
    let text = "[Desktop Entry]\nType=Application\nName=Firefox\nName=Other\nExec=firefox %u\nIcon=firefox\n[Desktop Action new]\nName=New Window\nExec=firefox --new-window\n";
    let a = parse_desktop_entry(&lines(text)).unwrap();
    assert_eq!(a.name, "Firefox");
    assert_eq!(a.exec_line, "firefox %u");
    assert_eq!(a.icon.as_deref(), Some("firefox"));
}

#[test]
fn desktop_entry_needs_application_name_and_exec() {
    assert!(parse_desktop_entry(&lines("[Desktop Entry]\nType=Link\nName=x\nExec=y\n")).is_none());
    assert!(parse_desktop_entry(&lines("[Desktop Entry]\nType=Application\nName=x\n")).is_none());
    assert!(parse_desktop_entry(&lines("Type=Application\nName=x\nExec=y\n")).is_none());
    let a = parse_desktop_entry(&lines("  [Desktop Entry]  \n Type = Application\nName= Term \nExec=env A=B term\n"));
    assert!(a.is_none());
    let a = parse_desktop_entry(&lines("[Desktop Entry]\nType=Application\nName= Term \nExec=env A=B term\n")).unwrap();
    assert_eq!(a.name, "Term");
    assert_eq!(a.exec_line, "env A");
    assert_eq!(a.icon, None);
}

#[test]
fn index_sorts_and_keeps_first_of_each_name() {
    let apps = vec![app("b", "1"), app("a", "2"), app("b", "3"), app("C", "4"), app("a", "5")];
    let r = index_apps(apps);
    let got: Vec<(String, String)> = r.iter().map(|a| (a.name.clone(), a.exec_line.clone())).collect();
    assert_eq!(
        got,
        vec![
            ("C".to_string(), "4".to_string()),
            ("a".to_string(), "2".to_string()),
            ("b".to_string(), "1".to_string()),
        ]
    );
    assert!(index_apps(vec![]).is_empty());
}

#[test]
fn exec_line_cleaning() {
    assert_eq!(clean_exec("firefox %u"), "firefox");
    assert_eq!(clean_exec("  code  --new-window %F  "), "code --new-window");
    assert_eq!(clean_exec("%U"), "");
    assert_eq!(clean_exec("a 100% b"), "a 100% b");
    assert_eq!(launch_command(&app("Firefox", "firefox %u")), "nohup firefox >/dev/null 2>&1 &");
}

#[test]
fn search_with_empty_query_lists_everything() {
    let mut l = Launcher::new();
    assert!(l.search("").is_empty());
    l.set_apps(index_apps(vec![app("Firefox", "firefox"), app("Files", "nautilus")]));
    let all = l.search("");
    assert_eq!(all.len(), 2);
    assert_eq!(all[0].name, "Files");
}

#[test]
fn search_ranks_matches() {
    let mut l = Launcher::new();
    l.set_apps(index_apps(vec![app("Firefox", "firefox"), app("Files", "nautilus"), app("Terminal", "kitty")]));
    let r = l.search("fire");
    assert_eq!(r.len(), 1);
    assert_eq!(r[0].name, "Firefox");
    let r = l.search("zzzz");
    assert!(r.is_empty());
    let r = l.search("fi");
    assert_eq!(r.len(), 2);
}

#[test]
fn select_ranked_maps_names_to_apps() {
    let apps = vec![app("a", "1"), app("b", "2"), app("a", "3")];
    let ranked: Vec<String> = ["b", "x", "a"].iter().map(|s| s.to_string()).collect();
    let r = select_ranked(&apps, &ranked);
    assert_eq!(r.iter().map(|a| a.exec_line.as_str()).collect::<Vec<_>>(), vec!["2", "1"]);
}
