use route_split::command::CommandOutput;
use route_split::network::{AdapterInfo, RouteEntry};
use route_split::platform::linux::network as linux;
use route_split::platform::linux::registry as linux_registry;

fn ran(stdout: &str) -> Result<CommandOutput, String> {
    Ok(CommandOutput { success: true, stdout: stdout.as_bytes().to_vec(), stderr: Vec::new() })
}

fn failed(stderr: &str) -> Result<CommandOutput, String> {
    Ok(CommandOutput { success: false, stdout: Vec::new(), stderr: stderr.as_bytes().to_vec() })
}

const IP_ADDR: &str = "1: lo: <LOOPBACK,UP,LOWER_UP> mtu 65536 qdisc noqueue state UNKNOWN group default qlen 1000
    link/loopback 00:00:00:00:00:00 brd 00:00:00:00:00:00
    inet 127.0.0.1/8 scope host lo
       valid_lft forever preferred_lft forever
2: eth0: <BROADCAST,MULTICAST,UP,LOWER_UP> mtu 1500 qdisc mq state UP group default qlen 1000
    link/ether 52:54:00:12:34:56 brd ff:ff:ff:ff:ff:ff
    inet 10.0.2.15/24 brd 10.0.2.255 scope global dynamic eth0
    inet6 fe80::5054:ff:fe12:3456/64 scope link
3: docker0: <NO-CARRIER,BROADCAST,MULTICAST,UP> mtu 1500
";

#[test]
fn ip_addr_lists_adapters_with_an_address() {
    let adapters = linux::get_all_adapters(ran(IP_ADDR));
    assert_eq!(
        adapters,
        vec![
            AdapterInfo { name: "lo".into(), ip: "127.0.0.1".into(), gateway: "待探测".into() },
            AdapterInfo { name: "eth0".into(), ip: "10.0.2.15".into(), gateway: "待探测".into() },
        ]
    );
}

#[test]
fn ip_addr_that_could_not_run_lists_nothing() {
    assert!(linux::get_all_adapters(Err("not found".into())).is_empty());
    assert!(linux::get_all_adapters(ran("")).is_empty());
}

#[test]
fn ip_addr_later_address_replaces_earlier_one() {
    let text = "2: wlan0: <UP>\n    inet 192.168.0.5/24 scope global\n    inet 192.168.0.6 scope global\n";
    let adapters = linux::get_all_adapters(ran(text));
    assert_eq!(adapters.len(), 1);
    assert_eq!(adapters[0].name, "wlan0");
    assert_eq!(adapters[0].ip, "192.168.0.6");
}

#[test]
fn is_admin_reads_user_id() {
    assert!(linux::is_admin(ran("0\n")));
    assert!(!linux::is_admin(ran("1000\n")));
    assert!(!linux::is_admin(Err("no id".into())));
    let c = linux::is_admin_command();
    assert_eq!(c.program, "id");
    assert_eq!(c.args, vec!["-u".to_string()]);
}

#[test]
fn route_exists_when_output_is_not_blank() {
    assert!(linux::check_route_exists(ran("10.0.0.0/8 via 192.168.1.1 dev eth0\n")));
    assert!(!linux::check_route_exists(ran("  \n")));
    assert!(!linux::check_route_exists(Err("x".into())));
    let c = linux::check_route_exists_command("10.0.0.0");
    assert_eq!(c.args, vec!["route".to_string(), "show".into(), "10.0.0.0".into()]);
}

fn route(d: &str, g: &str, i: &str) -> (String, String, String, String) {
    (d.into(), String::new(), g.into(), i.into())
}

fn as_tuples(r: &[RouteEntry]) -> Vec<(String, String, String, String)> {
    r.iter().map(|e| (e.destination.clone(), e.mask.clone(), e.gateway.clone(), e.interface.clone())).collect()
}

#[test]
fn ip_route_reads_gateway_and_device() {
    let text = "default via 192.168.1.1 dev eth0 proto dhcp metric 100\n10.0.0.0/24 dev eth1 proto kernel scope link src 10.0.0.5\nunreachable 10.9.0.0/16\n";
    let routes = linux::get_active_routes(ran(text));
    assert_eq!(
        as_tuples(&routes),
        vec![
            route("default", "192.168.1.1", "eth0"),
            route("10.0.0.0/24", "0.0.0.0", "eth1"),
            route("unreachable", "0.0.0.0", "unknown"),
        ]
    );
}

#[test]
fn ip_route_keeps_blank_lines_as_empty_routes() {
    let routes = linux::get_active_routes(ran("\nvia\n"));
    assert_eq!(as_tuples(&routes), vec![route("", "0.0.0.0", "unknown"), route("via", "0.0.0.0", "unknown")]);
}

#[test]
fn ping_time_texts_follow_time_marks() {
    let text = "PING 192.168.1.1 (192.168.1.1) 56(84) bytes of data.\n64 bytes from 192.168.1.1: icmp_seq=1 ttl=64 time=0.512 ms\n\n--- 192.168.1.1 ping statistics ---\nrtt min/avg/max/mdev = 0.512/0.512/0.512/0.000 ms\n";
    assert_eq!(linux::ping_time_candidates(ran(text)), vec!["0.512".to_string()]);
    assert_eq!(linux::ping_time_candidates(ran("a time= b\ntime=time=7\n")), vec!["b".to_string(), String::new()]);
    assert!(linux::ping_time_candidates(Err("x".into())).is_empty());
}

#[test]
fn add_route_reports_gateway_or_error() {
    let ok = linux::add_route("192.168.1.1", ran(""));
    assert!(ok.success);
    assert_eq!(ok.message, "已绑定到网关 192.168.1.1");
    let bad = linux::add_route("192.168.1.1", failed("RTNETLINK answers: File exists\n"));
    assert!(!bad.success);
    assert_eq!(bad.message, "RTNETLINK answers: File exists");
    let err = linux::add_route("192.168.1.1", Err("permission denied".into()));
    assert!(!err.success);
    assert_eq!(err.message, "permission denied");
    let c = linux::add_route_command("10.0.0.0/8", "192.168.1.1");
    assert_eq!(c.program, "ip");
    assert_eq!(c.args, vec!["route", "add", "10.0.0.0/8", "via", "192.168.1.1"]);
}

#[test]
fn delete_route_reports_outcome() {
    let ok = linux::delete_route(ran(""));
    assert!(ok.success);
    assert_eq!(ok.message, "已删除");
    let bad = linux::delete_route(failed(" RTNETLINK answers: No such process "));
    assert!(!bad.success);
    assert_eq!(bad.message, "RTNETLINK answers: No such process");
    assert_eq!(linux::delete_route_command("10.0.0.0").args, vec!["route", "del", "10.0.0.0"]);
}

#[test]
fn flush_tries_both_resolvers() {
    let cs = linux::flush_network_commands();
    assert_eq!(cs.len(), 2);
    assert_eq!(cs[0].program, "resolvectl");
    assert_eq!(cs[1].program, "systemd-resolve");
    let r = linux::flush_network();
    assert!(r.success);
    assert_eq!(r.message, "已尝试刷新 DNS 缓存");
}

#[test]
fn proxy_switch_is_refused() {
    let r = linux_registry::set_proxy_enabled(false);
    assert!(!r.success);
    assert_eq!(r.message, "Linux 下暂不支持通过应用修改系统代理。");
}

#[test]
fn invalid_utf8_is_replaced() {
    let out = Ok(CommandOutput { success: true, stdout: vec![b'0', 0xff], stderr: Vec::new() });
    assert!(!linux::is_admin(out));
}
