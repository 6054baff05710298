use route_split::text;
use route_split::app::{FollowUp, RouteSplitApp, TaskResult};
use route_split::network::{self, AdapterInfo, RouteEntry, RouteResult};
use route_split::ui::action_panel::{actions_enabled, fix_button_label, ActionResult};
use route_split::ui::status_panel::{external_badge, internal_badge, proxy_badge, route_lines, BadgeTone};
use route_split::ui::cheatsheet::{self, CheatsheetState, ConfigTool};
use route_split::ui::log_panel::{LogLevel, LogManager};
use route_split::ui::theme;

fn chars(s: &str) -> Vec<char> {
    s.chars().collect()
}

fn adapter(n: &str, i: &str, g: &str) -> AdapterInfo {
    AdapterInfo { name: n.into(), ip: i.into(), gateway: g.into() }
}

fn entry(d: &str) -> RouteEntry {
    RouteEntry { destination: d.into(), mask: String::new(), gateway: "g".into(), interface: "i".into() }
}

#[test]
fn filtered_routes_keep_prefix_matches_in_order() {
    let routes = vec![entry("10.0.0.0/8"), entry("default"), entry("10.1.0.0/16"), entry("110.0.0.0")];
    let kept = network::get_active_routes_filtered(routes, "10.");
    let d: Vec<String> = kept.iter().map(|e| e.destination.clone()).collect();
    assert_eq!(d, vec!["10.0.0.0/8", "10.1.0.0/16"]);
    let again = network::get_active_routes_filtered(kept, "10.");
    assert_eq!(again.len(), 2);
}

#[test]
fn placeholder_gateways_are_refused() {
    assert!(network::gateway_is_placeholder("无网关"));
    assert!(network::gateway_is_placeholder("待探测"));
    assert!(network::gateway_is_placeholder(""));
    assert!(!network::gateway_is_placeholder("192.168.1.1"));
    let r = network::add_route_refusal("").unwrap();
    assert!(!r.success);
    assert_eq!(r.message, "该网卡没有有效网关，无法分流");
    assert!(network::add_route_refusal("10.0.0.1").is_none());
}

#[test]
fn log_keeps_last_hundred() {
    let mut log = LogManager::new();
    for i in 0..105 {
        log.info(&format!("m{}", i));
    }
    let e = log.entries();
    assert_eq!(e.len(), 100);
    assert_eq!(e[0].message, "m5");
    assert_eq!(e[99].message, "m104");
    assert_eq!(e[99].level, LogLevel::Info);
    let t = &e[0].timestamp;
    assert_eq!(t.len(), 8);
    assert_eq!(&t[2..3], ":");
    log.warn("w");
    log.error("e");
    log.ok("o");
    let e = log.entries();
    assert_eq!(e[97].level, LogLevel::Warning);
    assert_eq!(e[98].level, LogLevel::Error);
    assert_eq!(e[99].level, LogLevel::Success);
    assert_eq!(e[99].level.label(), "OK");
    assert_eq!(LogLevel::Warning.label(), "WARN");
}

#[test]
fn level_colors() {
    assert_eq!(LogLevel::Info.color(true), theme::get_secondary_text_color(true));
    assert_eq!(LogLevel::Error.color(false), theme::rgb(0xF4, 0x3F, 0x5E));
    assert_eq!(theme::get_bg_color(true), theme::rgb(0x0F, 0x17, 0x2A));
    assert_eq!(theme::get_text_color(false), theme::rgb(0x0F, 0x17, 0x2A));
    assert_eq!(theme::get_border_color(false), theme::rgb(0xE2, 0xE8, 0xF0));
    assert_eq!(theme::get_card_bg_color(false), theme::rgb(0xFF, 0xFF, 0xFF));
    assert_eq!(theme::accent_color(), theme::rgb(0x3B, 0x82, 0xF6));
    assert_eq!(theme::success_color(), theme::rgb(0x10, 0xB9, 0x81));
    assert_eq!(theme::warning_color(), theme::rgb(0xF5, 0x9E, 0x0B));
    assert_eq!(theme::get_secondary_text_color(false), theme::rgb(0x64, 0x74, 0x8B));
}

#[test]
fn flclash_config_text() {
    let expected = "fake-ip-filter:\n  - \"*.sinopec.com\"\n  - \"sinopec.com\"\n  - \"+.sinopec.com\"\n  - \"*.internal.company.com\"\n  - \"10.0.0.0/8\"\n  - \"192.168.*\"\n  - \"+.local\"\n  - \"+.lan\"\n";
    assert_eq!(cheatsheet::generate_config("10.1.2.3"), expected);
    assert_eq!(cheatsheet::generate_config(""), expected);
    assert!(cheatsheet::generate_config("172.16.0.0").contains("  - \"172.16.0.0/8\"\n"));
}

#[test]
fn clash_verge_config_text() {
    let c = cheatsheet::generate_clash_verge_config("172.16.0.0");
    assert!(c.starts_with("profile:\n  store-selected: true\n\ndns:\n  enable: true\n\n"));
    assert!(c.contains("    ipcidr:\n      - 172.16.0.0/8\n"));
    assert!(c.contains("    - '172.16.0.0/8'\n"));
    assert!(c.ends_with("    - '+.lan'\n"));
    let d = cheatsheet::generate_clash_verge_config("10.0.0.0");
    assert!(d.contains("      - 10.0.0.0/8\n"));
    assert_eq!(cheatsheet::current_config(ConfigTool::ClashVerge, "10.0.0.0"), d);
    assert_eq!(cheatsheet::target_range_text("192.168.0.0"), "192.168.0.0/8");
}

#[test]
fn copy_highlight() {
    let mut s = CheatsheetState::default();
    assert!(s.last_copy_time.is_none());
    assert_eq!(s.active_tool, ConfigTool::FlClash);
    assert!(!s.is_highlight_active());
    s.mark_copied();
    assert!(s.is_highlight_active());
    assert!(cheatsheet::highlight_after(799));
    assert!(!cheatsheet::highlight_after(800));
}

#[test]
fn actions_need_rights_and_idle() {
    assert!(actions_enabled(true, false));
    assert!(!actions_enabled(true, true));
    assert!(!actions_enabled(false, false));
    assert!(matches!(ActionResult::NoAction, ActionResult::NoAction));
}

fn sample_app() -> RouteSplitApp {
    RouteSplitApp::new(
        true,
        vec![adapter("WAN", "100.64.0.2", "100.64.0.1"), adapter("LAN", "192.168.1.10", "192.168.1.1")],
    )
}

#[test]
fn new_app_selects_adapters_by_gateway() {
    let app = sample_app();
    assert_eq!(app.internal_adapter_idx, Some(1));
    assert_eq!(app.external_adapter_idx, Some(0));
    assert_eq!(app.target_dest, "10.0.0.0");
    assert_eq!(app.target_mask, "255.0.0.0");
    assert!(!app.is_processing);
    let log = app.log_manager.entries();
    assert_eq!(log.len(), 1);
    assert_eq!(log[0].message, "应用启动，网卡列表已加载");
    let none = RouteSplitApp::new(false, Vec::new());
    assert_eq!(none.internal_adapter_idx, None);
    assert_eq!(none.external_adapter_idx, None);
}

#[test]
fn status_ignored_while_busy() {
    let mut app = sample_app();
    app.refresh_status(true, Err("x".into()));
    assert!(app.route_exists);
    assert!(!app.proxy_enabled);
    app.refresh_status(false, Ok(true));
    assert!(app.proxy_enabled);
    app.refresh_adapters();
    app.refresh_status(true, Ok(false));
    assert!(!app.route_exists);
    assert!(app.proxy_enabled);
}

#[test]
fn fix_cycle() {
    let mut app = sample_app();
    let job = app.do_fix().unwrap();
    assert_eq!(job.dest, "10.0.0.0");
    assert_eq!(job.mask, "255.0.0.0");
    assert_eq!(job.gateway, "192.168.1.1");
    assert!(app.is_processing);
    assert_eq!(app.log_manager.entries().last().unwrap().message, "🚀 正在后台执行分流配置: LAN (192.168.1.1)");
    let f = app.check_task_result(TaskResult::FixComplete(RouteResult { success: true, message: "done".into() }, true));
    assert_eq!(f, FollowUp::FlushThenRefreshStatus);
    assert!(!app.is_processing);
    let msgs: Vec<String> = app.log_manager.entries().iter().map(|e| e.message.clone()).collect();
    assert_eq!(&msgs[msgs.len() - 3..], &["done".to_string(), "系统代理已停用".into(), "✅ 配置完成!".into()]);
}

#[test]
fn fix_without_internal_adapter() {
    let mut app = RouteSplitApp::new(true, vec![adapter("WAN", "1.2.3.4", "1.2.3.1")]);
    assert!(app.do_fix().is_none());
    assert!(!app.is_processing);
    let last = app.log_manager.entries().last().unwrap();
    assert_eq!(last.message, "❌ 请先选择内网网卡");
    assert_eq!(last.level, LogLevel::Error);
}

#[test]
fn rollback_refresh_and_measurements() {
    let mut app = sample_app();
    assert_eq!(app.do_rollback(), "10.0.0.0");
    assert!(app.is_processing);
    let f = app.check_task_result(TaskResult::RollbackComplete(RouteResult { success: true, message: String::new() }));
    assert_eq!(f, FollowUp::RefreshStatus);
    assert!(!app.is_processing);
    app.refresh_adapters();
    let f = app.check_task_result(TaskResult::RefreshComplete(vec![adapter("X", "1.1.1.1", "无网关")]));
    assert_eq!(f, FollowUp::Nothing);
    assert_eq!(app.all_adapters.len(), 1);
    assert!(!app.is_processing);
    app.check_task_result(TaskResult::PingResult(true, Some(3)));
    app.check_task_result(TaskResult::PingResult(false, None));
    assert_eq!(app.internal_ping, Some(3));
    assert_eq!(app.external_ping, None);
    app.check_task_result(TaskResult::RoutesUpdate(vec![entry("10.0.0.0/8")]));
    assert_eq!(app.active_routes.len(), 1);
}

#[test]
fn monitor_and_selection() {
    let mut app = sample_app();
    let plan = app.monitor_plan();
    assert_eq!(plan.internal_gateway.as_deref(), Some("192.168.1.1"));
    assert_eq!(plan.external_gateway.as_deref(), Some("100.64.0.1"));
    assert_eq!(plan.route_prefix, "10.");
    assert!(app.note_dark_mode(true));
    assert!(!app.note_dark_mode(true));
    assert!(app.note_dark_mode(false));
    assert_eq!(app.adapter_at(Some(1)).unwrap().name, "LAN");
    assert!(app.adapter_at(Some(5)).is_none());
    assert!(app.adapter_at(None).is_none());
}

#[test]
fn icon_decodes_png() {
    let img = image::RgbaImage::from_pixel(2, 1, image::Rgba([1, 2, 3, 4]));
    let mut bytes = std::io::Cursor::new(Vec::new());
    img.write_to(&mut bytes, image::ImageFormat::Png).unwrap();
    let icon = route_split::icon::load_icon_data(bytes.get_ref()).unwrap();
    assert_eq!((icon.width, icon.height), (2, 1));
    assert_eq!(icon.rgba, vec![1, 2, 3, 4, 1, 2, 3, 4]);
    let err = route_split::icon::load_icon_data(b"not an image").err().unwrap();
    assert!(err.starts_with("解析应用图标失败: "));
}

#[test]
fn text_helpers() {
    let v = chars("  a b\u{3000}");
    assert_eq!(text::trim_chars(&v), vec!['a', ' ', 'b']);
    assert_eq!(text::trim_end_chars(&v), vec![' ', ' ', 'a', ' ', 'b']);
    let toks = text::split_whitespace(&chars(" x\ty  z "));
    assert_eq!(toks, vec![vec!['x'], vec!['y'], vec!['z']]);
    assert_eq!(text::parse_decimal_u32(&chars("4294967295")), Some(u32::MAX));
    assert_eq!(text::parse_decimal_u32(&chars("4294967296")), None);
    assert_eq!(text::parse_decimal_u32(&chars("")), None);
    assert_eq!(text::find_chars(&chars("abcabc"), &chars("ca")), Some(2));
    assert_eq!(text::trim_end_matches_char(&chars("a::"), ':'), vec!['a']);
    let (l, next) = text::next_line(&chars("ab\r\ncd"), 0);
    assert_eq!((l, next), (vec!['a', 'b'], 4));
    assert_eq!(text::last_numeric_run_chars(&chars("a12b345c")), vec!['3', '4', '5']);
}

#[test]
fn status_badges() {
    let b = external_badge(true, false, Some(12));
    assert_eq!((b.text.as_str(), b.tone), ("在线 (12ms)", BadgeTone::Success));
    let b = external_badge(true, false, None);
    assert_eq!((b.text.as_str(), b.tone), ("在线", BadgeTone::Success));
    let b = external_badge(true, true, Some(3));
    assert_eq!((b.text.as_str(), b.tone), ("离线", BadgeTone::Muted));
    let b = external_badge(false, false, Some(3));
    assert_eq!((b.text.as_str(), b.tone), ("离线", BadgeTone::Muted));
    let b = internal_badge(true, Some(0));
    assert_eq!((b.text.as_str(), b.tone), ("已生效 (0ms)", BadgeTone::Success));
    let b = internal_badge(false, Some(7));
    assert_eq!((b.text.as_str(), b.tone), ("未生效", BadgeTone::Muted));
    let b = proxy_badge(false);
    assert_eq!((b.text.as_str(), b.tone), ("已绕过", BadgeTone::Success));
    let b = proxy_badge(true);
    assert_eq!((b.text.as_str(), b.tone), ("启用中 (可能干扰分流)", BadgeTone::Warning));
}

#[test]
fn route_lines_list_three_and_count_the_rest() {
    let routes: Vec<RouteEntry> = (0..15).map(|i| entry(&format!("10.{}.0.0", i))).collect();
    let (lines, more) = route_lines(&routes);
    assert_eq!(lines, vec!["• 10.0.0.0 ➔ 网关 g", "• 10.1.0.0 ➔ 网关 g", "• 10.2.0.0 ➔ 网关 g"]);
    assert_eq!(more.as_deref(), Some("... 及其他 12 条路由规则"));
    let (lines, more) = route_lines(&routes[..3]);
    assert_eq!(lines.len(), 3);
    assert_eq!(more, None);
    let (lines, more) = route_lines(&[]);
    assert!(lines.is_empty() && more.is_none());
}

#[test]
fn decimal_text_has_no_leading_zeros() {
    assert_eq!(text::decimal_text(0), "0");
    assert_eq!(text::decimal_text(7), "7");
    assert_eq!(text::decimal_text(1200), "1200");
    assert_eq!(text::decimal_text(u64::MAX), "18446744073709551615");
}

#[test]
fn fix_button_caption() {
    assert_eq!(fix_button_label(true), "⏳ 处理中...");
    assert_eq!(fix_button_label(false), "🚀 一键配置分流");
}

#[test]
fn timers_wait_for_their_interval_and_for_idle() {
    let mut app = RouteSplitApp::new(true, vec![adapter("eth0", "192.168.1.5", "192.168.1.1")]);
    assert!(!app.status_refresh_due(9_999));
    assert!(app.status_refresh_due(10_000));
    assert!(!app.monitor_due(4_999));
    assert!(app.monitor_due(5_000));
    app.refresh_adapters();
    assert!(!app.status_refresh_due(60_000));
    assert!(!app.monitor_due(60_000));
}

#[test]
fn longer_prefix_keeps_part_of_shorter_one() {
    let routes = vec![entry("10.1.0.0"), entry("10.2.0.0"), entry("default"), entry("10.1.5.0")];
    let ten: Vec<RouteEntry> = network::get_active_routes_filtered(routes.clone(), "10.");
    let ten_one = network::get_active_routes_filtered(routes.clone(), "10.1.");
    let again = network::get_active_routes_filtered(ten, "10.1.");
    let d = |v: &[RouteEntry]| v.iter().map(|e| e.destination.clone()).collect::<Vec<_>>();
    assert_eq!(d(&ten_one), vec!["10.1.0.0", "10.1.5.0"]);
    assert_eq!(d(&again), d(&ten_one));
    assert_eq!(network::get_active_routes_filtered(routes.clone(), "").len(), routes.len());
}

#[test]
fn snippets_differ_only_in_range() {
    let base = cheatsheet::generate_config("10.0.0.0");
    assert_eq!(cheatsheet::generate_config("10.9.9.9"), base);
    assert_eq!(cheatsheet::generate_config(""), base);
    assert_eq!(cheatsheet::generate_config("172.16.0.0"), base.replacen("10.0.0.0/8", "172.16.0.0/8", 1));
    let cv = cheatsheet::generate_clash_verge_config("10.0.0.0");
    assert_eq!(cheatsheet::generate_clash_verge_config("10.1.2.3"), cv);
    assert_eq!(cheatsheet::generate_clash_verge_config("172.16.0.0"), cv.replace("10.0.0.0/8", "172.16.0.0/8"));
}

#[test]
fn log_sequence_keeps_last_messages_in_order() {
    let mut m = LogManager::default();
    for i in 0..150 {
        m.info(&format!("m{}", i));
    }
    let msgs: Vec<String> = m.entries().iter().map(|e| e.message.clone()).collect();
    let expected: Vec<String> = (50..150).map(|i| format!("m{}", i)).collect();
    assert_eq!(msgs, expected);
}

#[test]
fn fix_with_stale_external_index_still_configures() {
    let mut app = RouteSplitApp::new(true, vec![adapter("LAN", "192.168.1.5", "192.168.1.1")]);
    app.external_adapter_idx = Some(7);
    let job = app.do_fix().unwrap();
    assert_eq!(job.gateway, "192.168.1.1");
    assert!(app.is_processing);
}

#[test]
fn placeholders_are_never_pinged() {
    assert_eq!(network::ping_refusal("待探测"), Some(None));
    assert_eq!(network::ping_refusal("无网关"), Some(None));
    assert_eq!(network::ping_refusal(""), Some(None));
    assert_eq!(network::ping_refusal("192.168.1.1"), None);
}

#[test]
fn log_history_covers_dropped_messages() {
    let mut m = LogManager::new();
    for i in 0..101 {
        m.error(&format!("e{}", i));
    }
    assert_eq!(m.entries().len(), 100);
    assert_eq!(m.entries()[0].message, "e1");
    assert!(m.entries().iter().all(|e| e.timestamp.len() == 8 && e.timestamp.as_bytes()[2] == b':'));
}
