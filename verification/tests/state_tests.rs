use iptools::config::Config;
use iptools::dashboard::{Dashboard, IpApiResponse, PublicInfoState};
use iptools::i18n::{DictEntry, I18n, Language};
use iptools::ifaces::{best_interface, default_cidr_for, score_interface, AdapterModule, InterfaceInfo};
use iptools::nav::{CurrentTab, DiagnosticTool, DiagnosticsModule, FocusArea};
use iptools::settings::SettingsModule;

fn iface(name: &str, up: bool, physical: bool, ipv4: Vec<&str>, dhcp: bool) -> InterfaceInfo {
    InterfaceInfo {
        name: name.to_string(),
        description: String::new(),
        mac: String::new(),
        ipv4: ipv4.into_iter().map(|s| s.to_string()).collect(),
        ipv6: Vec::new(),
        is_up: up,
        ssid: None,
        dhcp_enabled: dhcp,
        is_physical: physical,
        interface_type: String::new(),
        cidr: None,
    }
}

fn entry(key: &str, value: &str) -> DictEntry {
    DictEntry { key: key.to_string(), value: value.to_string() }
}

#[test]
fn tabs_cycle_forwards_and_backwards() {
    let mut tab = CurrentTab::Dashboard;
    for _ in 0..6 {
        tab = tab.next();
    }
    assert_eq!(tab, CurrentTab::Dashboard);
    assert_eq!(CurrentTab::Dashboard.previous(), CurrentTab::Settings);
    assert_eq!(CurrentTab::Scanner.next(), CurrentTab::Traffic);
    assert_eq!(CurrentTab::Scanner.previous(), CurrentTab::Adapter);
}

#[test]
fn focus_cycles_through_three_areas() {
    assert_eq!(FocusArea::Menu.next(), FocusArea::Main);
    assert_eq!(FocusArea::Main.next(), FocusArea::Config);
    assert_eq!(FocusArea::Config.next(), FocusArea::Menu);
}

#[test]
fn languages_toggle_and_name_themselves() {
    assert_eq!(Language::En.as_str(), "en-US");
    assert_eq!(Language::Zh.as_str(), "zh-CN");
    assert_eq!(Language::En.next(), Language::Zh);
    assert_eq!(Language::Zh.next(), Language::En);
}

#[test]
fn translation_prefers_the_current_language() {
    let en = vec![entry("scan_title", "Scanner"), entry("only_en", "English only")];
    let zh = vec![entry("scan_title", "Saomiao")];
    let mut i18n = I18n::new(Language::Zh, en, zh);
    assert_eq!(i18n.t("scan_title"), "Saomiao");
    assert_eq!(i18n.t("only_en"), "English only");
    assert_eq!(i18n.t("nowhere"), "MISSING:nowhere");
    i18n.set_lang(Language::En);
    assert_eq!(i18n.get_lang(), Language::En);
    assert_eq!(i18n.t("scan_title"), "Scanner");
    assert_eq!(i18n.t("nowhere"), "MISSING:nowhere");
}

#[test]
fn default_config_and_concurrency_clamping() {
    let mut cfg = Config::default();
    assert_eq!(cfg.language, Language::Zh);
    assert_eq!(cfg.scan_concurrency, 50);
    cfg.adjust_concurrency(true);
    assert_eq!(cfg.scan_concurrency, 60);
    for _ in 0..100 {
        cfg.adjust_concurrency(true);
    }
    assert_eq!(cfg.scan_concurrency, 500);
    for _ in 0..100 {
        cfg.adjust_concurrency(false);
    }
    assert_eq!(cfg.scan_concurrency, 10);
}

#[test]
fn settings_rows_edit_their_fields() {
    let mut cfg = Config::default();
    let mut settings = SettingsModule::new();
    assert!(settings.change_value(&mut cfg, true));
    assert_eq!(cfg.language, Language::En);
    settings.next();
    assert!(!settings.change_value(&mut cfg, true));
    assert_eq!(cfg.scan_concurrency, 60);
    settings.next();
    assert_eq!(settings.selected, Some(0));
}

#[test]
fn interface_scores_reward_up_physical_addressed() {
    assert_eq!(score_interface(&iface("a", true, true, vec!["10.0.0.2"], true)), 21);
    assert_eq!(score_interface(&iface("b", true, false, vec![], false)), 10);
    assert_eq!(score_interface(&iface("c", false, false, vec![], false)), 0);
}

#[test]
fn best_interface_picks_the_earliest_highest_score() {
    let list = vec![
        iface("down", false, true, vec![], false),
        iface("first", true, true, vec!["10.0.0.2"], false),
        iface("equal", true, true, vec!["10.0.0.3"], false),
    ];
    assert_eq!(best_interface(&list), Some(1));
    assert_eq!(best_interface(&Vec::new()), None);
}

#[test]
fn default_scan_target_derives_from_the_first_candidate() {
    let list = vec![
        iface("virtual", true, false, vec!["172.16.0.9"], false),
        iface("lan", true, true, vec!["10.1.2.3"], true),
    ];
    let cidr: String = default_cidr_for(&list).into_iter().collect();
    assert_eq!(cidr, "10.1.2.3/24");
    let fallback: String = default_cidr_for(&Vec::new()).into_iter().collect();
    assert_eq!(fallback, "192.168.1.0/24");
}

#[test]
fn adapter_reload_clamps_the_selection() {
    let three = vec![
        iface("a", true, true, vec![], false),
        iface("b", true, true, vec![], false),
        iface("c", true, true, vec![], false),
    ];
    let mut m = AdapterModule::new(three.clone());
    assert_eq!(m.selected, Some(0));
    m.next();
    m.next();
    assert_eq!(m.selected, Some(2));
    m.reload(vec![iface("a", true, true, vec![], false)]);
    assert_eq!(m.selected, Some(0));
    m.reload(Vec::new());
    assert_eq!(m.selected, None);
    m.reload(three);
    assert_eq!(m.selected, Some(0));
}

#[test]
fn adapter_cursor_wraps() {
    let mut m = AdapterModule::new(vec![
        iface("a", true, true, vec![], false),
        iface("b", true, true, vec![], false),
    ]);
    m.previous();
    assert_eq!(m.selected, Some(1));
    m.next();
    assert_eq!(m.selected, Some(0));
}

#[test]
fn dashboard_folds_the_lookup_outcome_in() {
    let mut d = Dashboard::new("host".to_string(), "os".to_string(), "1.0".to_string());
    assert!(matches!(d.public_info, PublicInfoState::Loading));
    d.apply_fetch(Ok(IpApiResponse {
        ip: "203.0.113.7".to_string(),
        country: "Nowhere".to_string(),
        region: "None".to_string(),
        city: "Null".to_string(),
        isp: "Example".to_string(),
    }));
    match &d.public_info {
        PublicInfoState::Success(info) => assert_eq!(info.ip, "203.0.113.7"),
        _ => panic!("expected a successful lookup"),
    }
    d.begin_fetch();
    assert!(matches!(d.public_info, PublicInfoState::Loading));
    d.apply_fetch(Err(("dash_err_req".to_string(), "timed out".to_string())));
    match &d.public_info {
        PublicInfoState::Failed(key, detail) => {
            assert_eq!(key, "dash_err_req");
            assert_eq!(detail, "timed out");
        },
        _ => panic!("expected a failed lookup"),
    }
}

#[test]
fn dashboard_tracks_the_best_adapter_and_its_rates() {
    let mut d = Dashboard::new("host".to_string(), "os".to_string(), "1.0".to_string());
    d.refresh_active_interface(vec![
        iface("down", false, false, vec![], false),
        iface("lan", true, true, vec!["10.0.0.2"], true),
    ]);
    let active = d.active_interface.as_ref().expect("an adapter is picked");
    assert_eq!(active.name, "lan");
    d.update_traffic(1000, 1000, 0);
    let stats = d.traffic_stats.as_ref().unwrap();
    assert_eq!(stats.rx_speed, 0);
    d.update_traffic(3048, 1000, 1000);
    let stats = d.traffic_stats.as_ref().unwrap();
    assert_eq!(stats.rx_speed, 2048);
    d.refresh_active_interface(vec![iface("other", true, true, vec!["10.0.0.9"], true)]);
    assert!(d.traffic_stats.is_none());
    let active = d.active_interface.as_ref().unwrap();
    assert_eq!(active.name, "other");
}

#[test]
fn diagnostics_menu_tracks_the_active_tool() {
    let mut d = DiagnosticsModule::new();
    assert_eq!(d.current_tool, DiagnosticTool::Ping);
    assert_eq!(d.active_focus, FocusArea::Menu);
    d.next_tool();
    assert_eq!(d.current_tool, DiagnosticTool::Trace);
    d.prev_tool();
    d.prev_tool();
    assert_eq!(d.current_tool, DiagnosticTool::LanSpeed);
    assert_eq!(d.menu_selected, Some(5));
    d.cycle_focus();
    assert_eq!(d.active_focus, FocusArea::Main);
}
