use route_split::command::CommandOutput;
use route_split::network::{AdapterInfo, RouteEntry};
use route_split::platform::windows::network as win;
use route_split::platform::windows::powershell as ps;
use route_split::platform::windows::registry as reg;

fn ran(stdout: &str) -> Result<CommandOutput, String> {
    Ok(CommandOutput { success: true, stdout: stdout.as_bytes().to_vec(), stderr: Vec::new() })
}

fn exited(success: bool) -> Result<CommandOutput, String> {
    Ok(CommandOutput { success, stdout: Vec::new(), stderr: Vec::new() })
}

fn adapter(n: &str, i: &str, g: &str) -> AdapterInfo {
    AdapterInfo { name: n.into(), ip: i.into(), gateway: g.into() }
}

const IPCONFIG: &str = "\r\nWindows IP Configuration\r\n\r\n\r\nEthernet adapter Ethernet:\r\n\r\n   Connection-specific DNS Suffix  . : lan\r\n   IPv4 Address. . . . . . . . . . . : 192.168.1.10\r\n   Subnet Mask . . . . . . . . . . . : 255.255.255.0\r\n   Default Gateway . . . . . . . . . : 192.168.1.1\r\n\r\nEthernet adapter VPN:\r\n\r\n   IPv4 Address. . . . . . . . . . . : 10.8.0.6\r\n   Default Gateway . . . . . . . . . : \r\n\r\nWireless LAN adapter WLAN:\r\n\r\n   Media State . . . . . . . . . . . : Media disconnected\r\n";

#[test]
fn ipconfig_lists_adapters_with_address() {
    let adapters = win::get_all_adapters(ran(IPCONFIG));
    assert_eq!(
        adapters,
        vec![
            adapter("Ethernet adapter Ethernet", "192.168.1.10", "192.168.1.1"),
            adapter("Ethernet adapter VPN", "10.8.0.6", "无网关"),
        ]
    );
}

#[test]
fn ipconfig_gateway_rules() {
    let text = "Ethernet adapter A:\n   IPv4 Address : 10.0.0.2\n   Default Gateway : ::1\n   默认网关 : 10.0.0.1\n\tGateway : fe80::1%12\nadapter B::\n\tIPv4 : 172.16.0.2\n";
    let adapters = win::get_all_adapters(ran(text));
    assert_eq!(
        adapters,
        vec![adapter("Ethernet adapter A", "10.0.0.2", "fe80"), adapter("adapter B", "172.16.0.2", "无网关")]
    );
    assert!(win::get_all_adapters(Err("x".into())).is_empty());
}

const ROUTE_PRINT: &str = "===========================================================================\r\nInterface List\r\n 12...52 54 00 12 34 56 ......Intel(R) Ethernet\r\n===========================================================================\r\n\r\nIPv4 Route Table\r\n===========================================================================\r\nActive Routes:\r\nNetwork Destination        Netmask          Gateway       Interface  Metric\r\n          0.0.0.0          0.0.0.0      192.168.1.1    192.168.1.10     25\r\n         10.0.0.0        255.0.0.0      192.168.1.1    192.168.1.10     11\r\n\r\n===========================================================================\r\nPersistent Routes:\r\n  Network Address          Netmask  Gateway Address  Metric\r\n         10.0.0.0        255.0.0.0      192.168.1.1      10\r\n";

fn as_tuples(r: &[RouteEntry]) -> Vec<(String, String, String, String)> {
    r.iter().map(|e| (e.destination.clone(), e.mask.clone(), e.gateway.clone(), e.interface.clone())).collect()
}

#[test]
fn route_print_reads_active_section_only() {
    let routes = win::get_active_routes(ran(ROUTE_PRINT));
    assert_eq!(
        as_tuples(&routes),
        vec![
            ("0.0.0.0".into(), "0.0.0.0".into(), "192.168.1.1".into(), "192.168.1.10".into()),
            ("10.0.0.0".into(), "255.0.0.0".into(), "192.168.1.1".into(), "192.168.1.10".into()),
        ]
    );
    assert!(win::get_active_routes(ran("0.0.0.0 0.0.0.0 1.1.1.1 2.2.2.2\n")).is_empty());
}

#[test]
fn route_print_stops_at_rule_without_blank_line() {
    let text = ROUTE_PRINT.replace("     11\r\n\r\n====", "     11\r\n====");
    assert!(!text.contains("11\r\n\r\n"));
    let routes = win::get_active_routes(ran(&text));
    assert_eq!(routes.len(), 2);
    assert!(routes.iter().all(|r| r.destination != "Network"));
    assert_eq!(routes[1].interface, "192.168.1.10");
    let only_persistent = "Active Routes:\r\nNetwork Destination Netmask Gateway Interface Metric\r\n1.0.0.0 255.0.0.0 1.1.1.1 2.2.2.2 5\r\nPersistent Routes:\r\n  Network Address Netmask Gateway Address Metric\r\n";
    assert_eq!(win::get_active_routes(ran(only_persistent)).len(), 1);
}

#[test]
fn ping_reads_delay_of_reply_line() {
    assert_eq!(win::ping_gateway(ran("\r\nPinging 192.168.1.1 with 32 bytes of data:\r\nReply from 192.168.1.1: bytes=32 time=3ms TTL=64\r\n")), Some(3));
    assert_eq!(win::ping_gateway(ran("来自 192.168.1.1 的回复: 字节=32 时间<1ms TTL=128\r\n")), Some(1));
    assert_eq!(win::ping_gateway(ran("Reply from 10.0.0.1: bytes=32 time=12ms TTL=55\r\n")), Some(12));
    assert_eq!(win::ping_gateway(ran("Request timed out.\r\n")), None);
    assert_eq!(win::ping_gateway(ran("time=99999999999ms\nTIME=5MS\n")), None);
    assert_eq!(win::ping_gateway(ran("TIME=5MS\n")), Some(5));
    assert_eq!(win::ping_gateway(Err("x".into())), None);
}

#[test]
fn admin_and_route_checks() {
    assert!(win::is_admin(exited(true)));
    assert!(!win::is_admin(exited(false)));
    assert!(!win::is_admin(Err("x".into())));
    assert!(win::check_route_exists("10.0.0.0", ran(ROUTE_PRINT)));
    assert!(!win::check_route_exists("172.16.0.0", ran(ROUTE_PRINT)));
    let c = win::check_route_exists_command("10.0.0.0");
    assert_eq!(c.program, "cmd");
    assert_eq!(c.args, vec!["/C", "chcp 437 > nul && route print", "10.0.0.0", "-4"]);
}

#[test]
fn route_commands_and_results() {
    let (del, add) = win::add_route_commands("10.0.0.0", "255.0.0.0", "192.168.1.1");
    assert_eq!(del.args, vec!["/C", "route", "delete", "10.0.0.0"]);
    assert_eq!(add.args, vec!["/C", "route", "add", "10.0.0.0", "mask", "255.0.0.0", "192.168.1.1", "metric", "10", "-p"]);
    let ok = win::add_route("192.168.1.1", exited(true));
    assert!(ok.success);
    assert_eq!(ok.message, "已绑定到网关 192.168.1.1");
    let bad = win::add_route("192.168.1.1", exited(false));
    assert!(!bad.success);
    assert_eq!(bad.message, "添加失败");
    let err = win::add_route("192.168.1.1", Err("denied".into()));
    assert_eq!(err.message, "denied");
    let d = win::delete_route();
    assert!(d.success);
    assert_eq!(d.message, "已处理");
    let f = win::flush_network();
    assert!(f.success);
    assert_eq!(f.message, "DNS 已刷新");
    assert_eq!(win::flush_network_command().args, vec!["/C", "ipconfig", "/flushdns"]);
}

#[test]
fn powershell_list_keeps_records_with_address() {
    let json = r#"[{"InterfaceAlias":"Ethernet","IPAddress":"192.168.1.10"},{"InterfaceAlias":"Loopback","IPAddress":""},{"IPAddress":"10.1.1.1"},{"InterfaceAlias":7,"IPAddress":"10.2.2.2"}]"#;
    let adapters = ps::get_all_adapters_fallback(ran(json)).unwrap();
    assert_eq!(
        adapters,
        vec![
            adapter("Ethernet", "192.168.1.10", "待探测"),
            adapter("未知网卡", "10.1.1.1", "待探测"),
            adapter("未知网卡", "10.2.2.2", "待探测"),
        ]
    );
}

#[test]
fn powershell_single_object() {
    let one = r#"{"InterfaceAlias":"Wi-Fi","IPAddress":""}"#;
    assert_eq!(ps::get_all_adapters_fallback(ran(one)).unwrap(), vec![adapter("Wi-Fi", "", "待探测")]);
    let missing = r#"{"IPAddress":"10.0.0.1"}"#;
    assert!(ps::get_all_adapters_fallback(ran(missing)).is_none());
    assert!(ps::fallback_needed(&Vec::new()));
    assert!(!ps::fallback_needed(&vec![adapter("Wi-Fi", "10.0.0.2", "无网关")]));
    assert!(ps::get_all_adapters_fallback(ran("not json")).unwrap().is_empty());
    assert!(ps::get_all_adapters_fallback(ran("42")).unwrap().is_empty());
    assert!(ps::get_all_adapters_fallback(Err("x".into())).unwrap().is_empty());
    let c = ps::powershell_adapters_command();
    assert_eq!(c.program, "powershell");
    assert_eq!(c.args[0], "-Command");
}

#[test]
fn registry_reads_and_writes() {
    assert_eq!(reg::get_proxy_enabled(reg::ProxyRead::Value(1)), Ok(true));
    assert_eq!(reg::get_proxy_enabled(reg::ProxyRead::Value(0)), Ok(false));
    assert_eq!(reg::get_proxy_enabled(reg::ProxyRead::Unreadable), Ok(false));
    assert_eq!(
        reg::get_proxy_enabled(reg::ProxyRead::OpenFailed("no key".into())),
        Err("Failed to open registry key: no key".to_string())
    );
    assert_eq!(reg::proxy_enable_value(true), 1);
    assert_eq!(reg::proxy_enable_value(false), 0);
    let on = reg::set_proxy_enabled(true, reg::ProxyWrite::Written);
    assert!(on.success);
    assert_eq!(on.message, "Proxy enabled");
    let off = reg::set_proxy_enabled(false, reg::ProxyWrite::Written);
    assert_eq!(off.message, "Proxy disabled");
    let w = reg::set_proxy_enabled(false, reg::ProxyWrite::WriteFailed("io".into()));
    assert!(!w.success);
    assert_eq!(w.message, "Failed to set ProxyEnable: io");
    let o = reg::set_proxy_enabled(false, reg::ProxyWrite::OpenFailed("denied".into()));
    assert!(!o.success);
    assert_eq!(o.message, "Access Denied: Registry - denied");
}
