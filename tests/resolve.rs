use sprint::entry_box::{order_folded, order_results, Action, EntryBoxValue, Entrybox};
use sprint::results::{get_desktop_entries, get_math_result, get_prefix_results, get_web_result, is_visible, select_apps, AppDescriptor, SprintResults};
use sprint::sprint_config::{SprintConfig, SprintConfigRaw};

fn app(name: &str, hidden: bool) -> AppDescriptor {
    AppDescriptor {
        name: name.to_string(),
        exec_line: Some(format!("{} %U", name.to_lowercase())),
        no_display: hidden,
        only_show_in: None,
        not_show_in: None,
    }
}

fn names(r: &[usize], apps: &[AppDescriptor]) -> Vec<String> {
    r.iter().map(|&i| apps[i].name.clone()).collect()
}

fn config() -> SprintConfig {
    SprintConfig::from_raw(SprintConfigRaw::default())
}

fn rule(n: &str, t: &str, u: &str) -> (String, String, String) {
    (n.to_string(), t.to_string(), u.to_string())
}

#[test]
fn wiki_prefix_query() {
    let c = config();
    let r = get_prefix_results(">wiki cats", &c.web_prefixes).unwrap();
    assert_eq!(r.0, "Wikipedia");
    assert_eq!(r.1, "cats");
    assert!(r.2.ends_with("search=cats"));
    assert_eq!(r.2, "https://en.wikipedia.org/w/index.php?search=cats");
}

#[test]
fn prefix_rest_is_trimmed_and_plus_encoded() {
    let c = config();
    let r = get_prefix_results(">gh   rust  verus  ", &c.web_prefixes).unwrap();
    assert_eq!(r.0, "GitHub");
    assert_eq!(r.1, "rust  verus");
    assert_eq!(r.2, "https://github.com/search?q=rust++verus");
}

#[test]
fn no_trigger_gives_no_prefix_entry() {
    let c = config();
    assert!(get_prefix_results("cats", &c.web_prefixes).is_none());
    assert!(get_prefix_results("", &c.web_prefixes).is_none());
}

#[test]
fn ambiguous_triggers_are_suppressed() {
    let rules = vec![
        rule("A", ">a", "https://a/?q=%%QUERY%%"),
        rule("AB", ">ab", "https://ab/?q=%%QUERY%%"),
    ];
    assert!(get_prefix_results(">ab x", &rules).is_none());
    let r = get_prefix_results(">a x", &rules).unwrap();
    assert_eq!(r.0, "A");
    assert_eq!(r.2, "https://a/?q=x");
}

#[test]
fn math_lane() {
    let m = get_math_result("2+2*2").unwrap();
    assert_eq!(m.parse::<f64>().unwrap(), 6.0);
    assert!(get_math_result("not math").is_none());
}

#[test]
fn web_lane_uses_raw_query() {
    let c = config();
    let (q, url) = get_web_result(" two words", &c.search_template);
    assert_eq!(q, " two words");
    assert_eq!(url, "https://duckduckgo.com/?q=+two+words");
}

#[test]
fn hidden_app_is_not_matched() {
    let apps = vec![app("Firefox", false), app("Hidden App", true)];
    let r = get_desktop_entries("fire", &apps, &None);
    assert_eq!(names(&r, &apps), vec!["Firefox"]);
}

#[test]
fn app_match_ignores_case_and_sorts_by_name() {
    let apps = vec![app("Zed", false), app("Firefox", false), app("Alacritty", false), app("LibreOffice", false), app("alpha", false)];
    let r = get_desktop_entries("E", &apps, &None);
    assert_eq!(names(&r, &apps), vec!["Firefox", "LibreOffice", "Zed"]);
    let all = get_desktop_entries("", &apps, &None);
    assert_eq!(names(&all, &apps), vec!["Alacritty", "Firefox", "LibreOffice", "Zed", "alpha"]);
}

#[test]
fn equal_names_keep_index_order() {
    let apps = vec![app("Term", false), app("Editor", false), app("Term", false)];
    let r = get_desktop_entries("", &apps, &None);
    assert_eq!(r, vec![1, 0, 2]);
}

#[test]
fn desktop_lists_filter_apps() {
    let mut only_gnome = app("Gnome Tool", false);
    only_gnome.only_show_in = Some(vec!["GNOME".to_string()]);
    let mut not_kde = app("Not On Kde", false);
    not_kde.not_show_in = Some(vec!["KDE".to_string()]);
    let apps = vec![only_gnome, not_kde];
    let kde = Some(vec!["KDE".to_string()]);
    assert_eq!(get_desktop_entries("", &apps, &kde), Vec::<usize>::new());
    let gnome = Some(vec!["ubuntu".to_string(), "GNOME".to_string()]);
    assert_eq!(get_desktop_entries("", &apps, &gnome), vec![0, 1]);
    assert_eq!(get_desktop_entries("", &apps, &None), vec![0, 1]);
    assert!(!is_visible(&apps[1], &kde));
}

#[test]
fn select_apps_on_folded_names() {
    let apps = vec![app("B", false), app("A", false)];
    let folded = vec!["xyz".to_string(), "abc".to_string()];
    assert_eq!(select_apps(&apps, &folded, "b", &None), vec![1]);
    assert_eq!(select_apps(&apps, &folded, "", &None), vec![1, 0]);
}

#[test]
fn refresh_fills_all_lanes() {
    let c = config();
    let mut rs = SprintResults::new(vec![app("Calculator", false)], None);
    rs.refresh_results("calc", &c);
    assert!(rs.prefix_results.is_none());
    assert!(rs.math_result.is_none());
    assert_eq!(rs.desktop_results, vec![0]);
    assert_eq!(rs.web_result.1, "https://duckduckgo.com/?q=calc");
}

#[test]
fn default_config_values() {
    let raw = SprintConfigRaw::default();
    assert_eq!(raw.font, "FreeSans");
    assert_eq!(raw.web_prefixes.len(), 11);
    assert_eq!(raw.result_order, vec!["prefixes", "math", "desktop", "search"]);
    let c = SprintConfig::from_raw(raw);
    assert_eq!(c.seperator_color.a, 255);
    assert_eq!(c.seperator_color.b, 156);
}

fn values(list: &[Entrybox]) -> Vec<String> {
    list.iter().map(|e| e.label.clone()).collect()
}

#[test]
fn order_follows_configured_lanes() {
    let mut c = config();
    let mut rs = SprintResults::new(vec![app("Firefox", false)], None);
    rs.refresh_results(">wiki fire", &c);
    let list = order_results(&rs, &c.result_order);
    assert_eq!(values(&list), vec!["Search \"fire\" on \"Wikipedia\"...", "Search \">wiki fire\" on the web..."]);
    c.result_order = vec!["SEARCH".to_string(), "bogus".to_string(), "Prefixes".to_string()];
    let list = order_results(&rs, &c.result_order);
    assert_eq!(values(&list), vec!["Search \">wiki fire\" on the web...", "Search \"fire\" on \"Wikipedia\"..."]);
    for (k, e) in list.iter().enumerate() {
        assert_eq!(e.slot, k);
    }
    assert_eq!(list[1].position(), Some((16, 79)));
}

#[test]
fn math_and_app_entries() {
    let c = config();
    let mut rs = SprintResults::new(vec![app("Calc 1+1", false)], None);
    rs.refresh_results("1+1", &c);
    let list = order_results(&rs, &c.result_order);
    assert_eq!(values(&list), vec!["= 2", "Calc 1+1", "Search \"1+1\" on the web..."]);
    assert!(matches!(list[0].value, EntryBoxValue::Math(_)));
    assert!(matches!(list[0].select(&rs.desktop_file_cache), Action::Nothing));
    match list[1].select(&rs.desktop_file_cache) {
        Action::Launch(cmd) => assert_eq!(cmd, "calc 1+1"),
        other => panic!("unexpected {other:?}"),
    }
    match list[2].select(&rs.desktop_file_cache) {
        Action::OpenUrl(u) => assert_eq!(u, "https://duckduckgo.com/?q=1+1"),
        other => panic!("unexpected {other:?}"),
    }
}

#[test]
fn application_lane_is_capped() {
    let c = config();
    let apps: Vec<AppDescriptor> = (0..60).map(|i| app(&format!("App {i:02}"), false)).collect();
    let mut rs = SprintResults::new(apps, None);
    rs.refresh_results("app", &c);
    assert_eq!(rs.desktop_results.len(), 60);
    let list = order_results(&rs, &vec!["desktop".to_string()]);
    assert_eq!(list.len(), 50);
    assert_eq!(list[49].label, "App 49");
}

#[test]
fn order_folded_matches_names_exactly() {
    let c = config();
    let mut rs = SprintResults::new(vec![], None);
    rs.refresh_results("x", &c);
    let list = order_folded(&rs, &vec!["search".to_string(), "SEARCH".to_string(), "math".to_string()]);
    assert_eq!(values(&list), vec!["Search \"x\" on the web..."]);
}

#[test]
fn blank_query_has_no_math_result() {
    assert!(get_math_result(" ").is_none());
    assert!(get_math_result(" \t\r\n ").is_none());
    assert!(get_math_result("").is_none());
    assert_eq!(get_math_result(" 3 ").unwrap().parse::<f64>().unwrap(), 3.0);
}
