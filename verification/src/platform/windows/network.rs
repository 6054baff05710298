//! Windows: the commands behind the network operations (`ipconfig`, `route`,
//! `ping`, `net session`) and what their output means.
use vstd::prelude::*;
use crate::command::{CommandOutput, CommandSpec, command};
use crate::network::{AdapterInfo, AdapterView, RouteEntry, RouteView, RouteResult, route_result};
use crate::text::{
    chars_string, contains, contains_char, trim_start, contains_chars, decode_lossy, lemma_deep_view_chars,
    lemma_first_line, lines, next_line, second_field, second_field_chars, split_whitespace,
    starts_with, starts_with_chars, str_chars, tokens, trim, trim_chars, trim_end, trim_end_chars,
    trim_end_char, trim_end_matches_char, utf8_lossy, lowercase, to_lowercase_chars,
    last_numeric_run, last_numeric_run_chars, decimal_u32, parse_decimal_u32, find_chars,
    first_occurrence, slice_chars,
};

verus! {

/// State while reading `ipconfig` output line by line: adapters found so far,
/// and the name, IPv4 address and gateway of the adapter being read.
pub struct IpconfigScan {
    pub adapters: Seq<AdapterView>,
    pub name: Seq<char>,
    pub ip: Seq<char>,
    pub gw: Seq<char>,
}

/// The adapters of a scan with the adapter being read appended, when it has a
/// name and an address; without a gateway it is marked as having none.
pub open spec fn ipconfig_flush(st: IpconfigScan) -> Seq<AdapterView> {
    if st.name.len() > 0 && st.ip.len() > 0 {
        st.adapters.push(
            AdapterView {
                name: st.name,
                ip: st.ip,
                gateway: if st.gw.len() == 0 {
                    "无网关"@
                } else {
                    st.gw
                },
            },
        )
    } else {
        st.adapters
    }
}

/// The value of a `Label . . . : value` line: the trimmed text after the first
/// colon, up to the next one.
pub open spec fn colon_value(t: Seq<char>) -> Seq<char> {
    trim(second_field(t, ':'))
}

/// Blank lines are skipped. A line that does not start with a space or a tab
/// names a new adapter (its trailing colons dropped) and closes the one being
/// read. An indented `IPv4 ... : A.B.C.D` line gives its address; an indented
/// `Gateway`/`网关` line gives its gateway, unless the value is empty or an
/// IPv6 form starting with `::`.
pub open spec fn ipconfig_step(st: IpconfigScan, line: Seq<char>) -> IpconfigScan {
    let raw = trim_end(line);
    let t = trim(raw);
    if t.len() == 0 {
        st
    } else if raw[0] != ' ' && raw[0] != '\t' {
        IpconfigScan {
            adapters: ipconfig_flush(st),
            name: trim_end_char(t, ':'),
            ip: seq![],
            gw: seq![],
        }
    } else {
        let has_colon = contains(t, seq![':']);
        let ip = if contains(t, "IPv4"@) && has_colon {
            colon_value(t)
        } else {
            st.ip
        };
        let g = colon_value(t);
        let gw = if (contains(t, "Gateway"@) || contains(t, "网关"@)) && has_colon && g.len() > 0
            && !starts_with(g, "::"@) {
            g
        } else {
            st.gw
        };
        IpconfigScan { adapters: st.adapters, name: st.name, ip, gw }
    }
}

pub open spec fn ipconfig_scan(st: IpconfigScan, ls: Seq<Seq<char>>) -> IpconfigScan
    decreases ls.len(),
{
    if ls.len() == 0 {
        st
    } else {
        ipconfig_scan(ipconfig_step(st, ls[0]), ls.drop_first())
    }
}

/// The adapters that `ipconfig` output lists with an IPv4 address.
pub open spec fn ipconfig_adapters(text: Seq<char>) -> Seq<AdapterView> {
    ipconfig_flush(
        ipconfig_scan(
            IpconfigScan { adapters: seq![], name: seq![], ip: seq![], gw: seq![] },
            lines(text),
        ),
    )
}

/// Every adapter has a name, an address and a gateway text, and no gateway
/// text starts with `::`.
pub open spec fn ipconfig_adapters_sound(s: Seq<AdapterView>) -> bool {
    forall|i: int|
        0 <= i < s.len() ==> (#[trigger] s[i]).name.len() > 0 && s[i].ip.len() > 0
            && s[i].gateway.len() > 0 && !starts_with(s[i].gateway, "::"@)
}

/// The gateway being read is never empty-but-set nor an IPv6 `::` form.
pub open spec fn ipconfig_state_sound(st: IpconfigScan) -> bool {
    &&& ipconfig_adapters_sound(st.adapters)
    &&& !starts_with(st.gw, "::"@)
}

proof fn lemma_ipconfig_flush_sound(st: IpconfigScan)
    requires
        ipconfig_state_sound(st),
    ensures
        ipconfig_adapters_sound(ipconfig_flush(st)),
{
    reveal_strlit("无网关");
    reveal_strlit("::");
    if st.name.len() > 0 && st.ip.len() > 0 {
        let g = if st.gw.len() == 0 {
            "无网关"@
        } else {
            st.gw
        };
        assert(!starts_with(g, "::"@)) by {
            if st.gw.len() == 0 {
                assert(g.take(2)[0] != "::"@[0]);
            }
        }
        let a = AdapterView { name: st.name, ip: st.ip, gateway: g };
        let s2 = st.adapters.push(a);
        assert forall|i: int| 0 <= i < s2.len() implies (#[trigger] s2[i]).name.len() > 0
            && s2[i].ip.len() > 0 && s2[i].gateway.len() > 0 && !starts_with(
            s2[i].gateway,
            "::"@,
        ) by {
            if i < st.adapters.len() {
                assert(s2[i] == st.adapters[i]);
            }
        }
    }
}

proof fn lemma_ipconfig_scan_sound(st: IpconfigScan, ls: Seq<Seq<char>>)
    requires
        ipconfig_state_sound(st),
    ensures
        ipconfig_state_sound(ipconfig_scan(st, ls)),
    decreases ls.len(),
{
    if ls.len() > 0 {
        lemma_ipconfig_flush_sound(st);
        reveal_strlit("::");
        lemma_ipconfig_scan_sound(ipconfig_step(st, ls[0]), ls.drop_first());
    }
}

/// Every adapter read from `ipconfig` output has a name, an address and a
/// gateway text that is neither empty nor an IPv6 `::` form.
pub proof fn lemma_ipconfig_adapters_sound(text: Seq<char>)
    ensures
        ipconfig_adapters_sound(ipconfig_adapters(text)),
{
    let init = IpconfigScan { adapters: seq![], name: seq![], ip: seq![], gw: seq![] };
    reveal_strlit("::");
    lemma_ipconfig_scan_sound(init, lines(text));
    lemma_ipconfig_flush_sound(ipconfig_scan(init, lines(text)));
}

fn ipconfig_adapter(name: &Vec<char>, ip: &Vec<char>, gw: &Vec<char>) -> (a: AdapterInfo)
    ensures
        a@ == (AdapterView {
            name: name@,
            ip: ip@,
            gateway: if gw@.len() == 0 {
                "无网关"@
            } else {
                gw@
            },
        }),
{
    AdapterInfo {
        name: chars_string(name.as_slice()),
        ip: chars_string(ip.as_slice()),
        gateway: if gw.len() == 0 {
            "无网关".to_owned()
        } else {
            chars_string(gw.as_slice())
        },
    }
}

/// Words that `ipconfig` lines are recognised by.
struct IpconfigWords {
    ipv4: Vec<char>,
    gateway: Vec<char>,
    gateway_zh: Vec<char>,
    ipv6_prefix: Vec<char>,
}

/// Applies one line to the scan state held in `name`, `ip` and `gw`,
/// appending to `adapters` when a new adapter begins.
fn ipconfig_line(
    words: &IpconfigWords,
    line: &Vec<char>,
    adapters: &mut Vec<AdapterInfo>,
    name: &mut Vec<char>,
    ip: &mut Vec<char>,
    gw: &mut Vec<char>,
)
    requires
        words.ipv4@ == "IPv4"@,
        words.gateway@ == "Gateway"@,
        words.gateway_zh@ == "网关"@,
        words.ipv6_prefix@ == "::"@,
    ensures
        ipconfig_step(
            IpconfigScan {
                adapters: old(adapters).deep_view(),
                name: old(name)@,
                ip: old(ip)@,
                gw: old(gw)@,
            },
            line@,
        ) == (IpconfigScan {
            adapters: final(adapters).deep_view(),
            name: final(name)@,
            ip: final(ip)@,
            gw: final(gw)@,
        }),
{
    let raw = trim_end_chars(line);
    let t = trim_chars(&raw);
    proof {
        assert(trim(raw@) == trim(trim_end(line@)));
    }
    if t.len() == 0 {
        return ;
    }
    if raw[0] != ' ' && raw[0] != '\t' {
        if name.len() > 0 && ip.len() > 0 {
            let ghost before = adapters.deep_view();
            let a = ipconfig_adapter(name, ip, gw);
            adapters.push(a);
            assert(adapters.deep_view() =~= before.push(a@));
        }
        *name = trim_end_matches_char(&t, ':');
        *ip = Vec::new();
        *gw = Vec::new();
        return ;
    }
    let has_colon = contains_char(&t, ':');
    let f = second_field_chars(&t, ':');
    let value = trim_chars(&f);
    if contains_chars(&t, &words.ipv4) && has_colon {
        *ip = trim_chars(&f);
    }
    if (contains_chars(&t, &words.gateway) || contains_chars(&t, &words.gateway_zh)) && has_colon
        && value.len() > 0 && !starts_with_chars(&value, &words.ipv6_prefix) {
        *gw = value;
    }
}

/// Reads the adapters out of `ipconfig` output.
pub fn parse_ipconfig(text: &Vec<char>) -> (r: Vec<AdapterInfo>)
    ensures
        r.deep_view() == ipconfig_adapters(text@),
{
    let words = IpconfigWords {
        ipv4: str_chars("IPv4"),
        gateway: str_chars("Gateway"),
        gateway_zh: str_chars("网关"),
        ipv6_prefix: str_chars("::"),
    };
    let mut adapters: Vec<AdapterInfo> = Vec::new();
    let mut name: Vec<char> = Vec::new();
    let mut ip: Vec<char> = Vec::new();
    let mut gw: Vec<char> = Vec::new();
    let ghost init = IpconfigScan { adapters: seq![], name: seq![], ip: seq![], gw: seq![] };
    let mut pos: usize = 0;
    assert(text@.skip(0) =~= text@);
    assert(adapters.deep_view() =~= Seq::<AdapterView>::empty());
    while pos < text.len()
        invariant
            pos <= text.len(),
            words.ipv4@ == "IPv4"@,
            words.gateway@ == "Gateway"@,
            words.gateway_zh@ == "网关"@,
            words.ipv6_prefix@ == "::"@,
            ipconfig_scan(
                IpconfigScan { adapters: adapters.deep_view(), name: name@, ip: ip@, gw: gw@ },
                lines(text@.skip(pos as int)),
            ) == ipconfig_scan(init, lines(text@)),
        decreases text.len() - pos,
    {
        let (line, next) = next_line(text, pos);
        let ghost st = IpconfigScan { adapters: adapters.deep_view(), name: name@, ip: ip@, gw: gw@ };
        proof {
            lemma_first_line(line@, lines(text@.skip(next as int)));
        }
        ipconfig_line(&words, &line, &mut adapters, &mut name, &mut ip, &mut gw);
        pos = next;
    }
    proof {
        assert(text@.skip(pos as int).len() == 0);
    }
    if name.len() > 0 && ip.len() > 0 {
        let ghost before = adapters.deep_view();
        let a = ipconfig_adapter(&name, &ip, &gw);
        adapters.push(a);
        assert(adapters.deep_view() =~= before.push(a@));
    }
    adapters
}

/// Reads the active routing table of `route print` output: lines after the
/// `Active Routes:` line, skipping the column header, each with at least four
/// words giving destination, mask, gateway and interface. The table ends at
/// the `===` rule that follows it, at `Persistent Routes:`, or at a blank line
/// after some routes were read.
pub open spec fn route_print_scan(in_section: bool, routes: Seq<RouteView>, ls: Seq<Seq<char>>) -> Seq<
    RouteView,
>
    decreases ls.len(),
{
    if ls.len() == 0 {
        routes
    } else {
        let t = trim(ls[0]);
        let rest = ls.drop_first();
        if contains(t, "Active Routes:"@) {
            route_print_scan(true, routes, rest)
        } else if in_section && (starts_with(t, "==="@) || contains(t, "Persistent Routes:"@)) {
            routes
        } else if in_section && contains(t, "Network Destination"@) {
            route_print_scan(true, routes, rest)
        } else if in_section && t.len() == 0 && routes.len() > 0 {
            routes
        } else if in_section {
            let p = tokens(t);
            let next = if p.len() >= 4 {
                routes.push(
                    RouteView { destination: p[0], mask: p[1], gateway: p[2], interface: p[3] },
                )
            } else {
                routes
            };
            route_print_scan(true, next, rest)
        } else {
            route_print_scan(false, routes, rest)
        }
    }
}

/// Inside the active table, a row that does not end the table and is no
/// header yields a route of its first four words, whatever they are, when it
/// has at least four; a shorter row is skipped. The rule `===` and
/// `Persistent Routes:` end the table.
pub proof fn lemma_route_print_row(routes: Seq<RouteView>, l: Seq<char>, rest: Seq<Seq<char>>)
    ensures
        ({
            let t = trim(l);
            let p = tokens(t);
            (!contains(t, "Active Routes:"@) && !starts_with(t, "==="@) && !contains(
                t,
                "Persistent Routes:"@,
            ) && !contains(t, "Network Destination"@) && p.len() >= 4) ==> route_print_scan(
                true,
                routes,
                seq![l] + rest,
            ) == route_print_scan(
                true,
                routes.push(
                    RouteView { destination: p[0], mask: p[1], gateway: p[2], interface: p[3] },
                ),
                rest,
            )
        }),
        ({
            let t = trim(l);
            (!contains(t, "Active Routes:"@) && !starts_with(t, "==="@) && !contains(
                t,
                "Persistent Routes:"@,
            ) && !contains(t, "Network Destination"@) && t.len() > 0 && tokens(t).len() < 4)
                ==> route_print_scan(true, routes, seq![l] + rest) == route_print_scan(
                true,
                routes,
                rest,
            )
        }),
        ({
            let t = trim(l);
            (!contains(t, "Active Routes:"@) && (starts_with(t, "==="@) || contains(
                t,
                "Persistent Routes:"@,
            ))) ==> route_print_scan(true, routes, seq![l] + rest) == routes
        }),
{
    let ls = seq![l] + rest;
    assert(ls[0] == l);
    assert(ls.drop_first() =~= rest);
    let t = trim(l);
    if t.len() == 0 {
        assert(trim_start(t).len() == 0);
        assert(tokens(t) =~= Seq::<Seq<char>>::empty());
    }
}

/// The active IPv4 routes listed in `route print` output.
pub open spec fn route_print_routes(text: Seq<char>) -> Seq<RouteView> {
    route_print_scan(false, seq![], lines(text))
}

/// Reads the active routes out of `route print` output.
pub fn parse_route_print(text: &Vec<char>) -> (r: Vec<RouteEntry>)
    ensures
        r.deep_view() == route_print_routes(text@),
{
    let active = str_chars("Active Routes:");
    let header = str_chars("Network Destination");
    let rule = str_chars("===");
    let persistent = str_chars("Persistent Routes:");
    let mut routes: Vec<RouteEntry> = Vec::new();
    let mut in_section: bool = false;
    let mut pos: usize = 0;
    assert(text@.skip(0) =~= text@);
    assert(routes.deep_view() =~= Seq::<RouteView>::empty());
    while pos < text.len()
        invariant
            pos <= text.len(),
            active@ == "Active Routes:"@,
            header@ == "Network Destination"@,
            rule@ == "==="@,
            persistent@ == "Persistent Routes:"@,
            route_print_scan(in_section, routes.deep_view(), lines(text@.skip(pos as int)))
                == route_print_routes(text@),
        decreases text.len() - pos,
    {
        let (line, next) = next_line(text, pos);
        proof {
            lemma_first_line(line@, lines(text@.skip(next as int)));
        }
        let t = trim_chars(&line);
        if contains_chars(&t, &active) {
            in_section = true;
        } else if in_section && (starts_with_chars(&t, &rule) || contains_chars(&t, &persistent)) {
            return routes;
        } else if in_section && contains_chars(&t, &header) {
        } else if in_section && t.len() == 0 && routes.len() > 0 {
            return routes;
        } else if in_section {
            let parts = split_whitespace(&t);
            proof {
                lemma_deep_view_chars(parts);
            }
            if parts.len() >= 4 {
                let e = RouteEntry {
                    destination: chars_string(parts[0].as_slice()),
                    mask: chars_string(parts[1].as_slice()),
                    gateway: chars_string(parts[2].as_slice()),
                    interface: chars_string(parts[3].as_slice()),
                };
                let ghost before = routes.deep_view();
                routes.push(e);
                assert(routes.deep_view() =~= before.push(e@));
            }
        }
        pos = next;
    }
    proof {
        assert(text@.skip(pos as int).len() == 0);
    }
    routes
}

/// `cmd /C "chcp 437 > nul && route print -4"`: the IPv4 routing table, in English.
pub fn get_active_routes_command() -> (c: CommandSpec)
    ensures
        c.program@ == "cmd"@,
        c.args.deep_view() == seq!["/C"@, "chcp 437 > nul && route print -4"@],
{
    let c = command("cmd", &["/C", "chcp 437 > nul && route print -4"]);
    assert(c.args.deep_view() =~= seq!["/C"@, "chcp 437 > nul && route print -4"@]);
    c
}

/// The routes that a run of `route print` reports: none when it could not run.
pub fn get_active_routes(output: Result<CommandOutput, String>) -> (r: Vec<RouteEntry>)
    ensures
        r.deep_view() == match output {
            Ok(o) => route_print_routes(utf8_lossy(o.stdout@)),
            Err(_) => Seq::<RouteView>::empty(),
        },
{
    match output {
        Ok(o) => {
            let text = decode_lossy(o.stdout.as_slice());
            parse_route_print(&text)
        },
        Err(_) => {
            let r: Vec<RouteEntry> = Vec::new();
            assert(r.deep_view() =~= Seq::<RouteView>::empty());
            r
        },
    }
}

/// `cmd /C "chcp 65001 > nul && ipconfig"`: adapter details, in UTF-8.
pub fn get_all_adapters_command() -> (c: CommandSpec)
    ensures
        c.program@ == "cmd"@,
        c.args.deep_view() == seq!["/C"@, "chcp 65001 > nul && ipconfig"@],
{
    let c = command("cmd", &["/C", "chcp 65001 > nul && ipconfig"]);
    assert(c.args.deep_view() =~= seq!["/C"@, "chcp 65001 > nul && ipconfig"@]);
    c
}

/// The adapters that a run of `ipconfig` reports: none when it could not run.
/// When this is empty, the PowerShell listing is tried next.
pub fn get_all_adapters(output: Result<CommandOutput, String>) -> (r: Vec<AdapterInfo>)
    ensures
        r.deep_view() == match output {
            Ok(o) => ipconfig_adapters(utf8_lossy(o.stdout@)),
            Err(_) => Seq::<AdapterView>::empty(),
        },
        ipconfig_adapters_sound(r.deep_view()),
{
    match output {
        Ok(o) => {
            let text = decode_lossy(o.stdout.as_slice());
            proof {
                lemma_ipconfig_adapters_sound(text@);
            }
            parse_ipconfig(&text)
        },
        Err(_) => {
            let r: Vec<AdapterInfo> = Vec::new();
            assert(r.deep_view() =~= Seq::<AdapterView>::empty());
            r
        },
    }
}

/// `cmd /C net session`: succeeds only with administrator rights.
pub fn is_admin_command() -> (c: CommandSpec)
    ensures
        c.program@ == "cmd"@,
        c.args.deep_view() == seq!["/C"@, "net"@, "session"@],
{
    let c = command("cmd", &["/C", "net", "session"]);
    assert(c.args.deep_view() =~= seq!["/C"@, "net"@, "session"@]);
    c
}

/// The process has administrator rights exactly when `net session` ran and
/// succeeded.
pub fn is_admin(output: Result<CommandOutput, String>) -> (b: bool)
    ensures
        b == (output matches Ok(o) && o.success),
{
    match output {
        Ok(o) => o.success,
        Err(_) => false,
    }
}

/// `cmd /C "chcp 437 > nul && route print" DEST -4`: the routes to a destination.
pub fn check_route_exists_command(dest: &str) -> (c: CommandSpec)
    ensures
        c.program@ == "cmd"@,
        c.args.deep_view() == seq!["/C"@, "chcp 437 > nul && route print"@, dest@, "-4"@],
{
    let c = command("cmd", &["/C", "chcp 437 > nul && route print", dest, "-4"]);
    assert(c.args.deep_view() =~= seq!["/C"@, "chcp 437 > nul && route print"@, dest@, "-4"@]);
    c
}

/// A route to `dest` exists exactly when `route print` ran and its output
/// mentions `dest`.
pub fn check_route_exists(dest: &str, output: Result<CommandOutput, String>) -> (b: bool)
    ensures
        b == (output matches Ok(o) && contains(utf8_lossy(o.stdout@), dest@)),
{
    match output {
        Ok(o) => {
            let text = decode_lossy(o.stdout.as_slice());
            let d = str_chars(dest);
            contains_chars(&text, &d)
        },
        Err(_) => false,
    }
}

/// `route delete DEST` then `route add DEST mask MASK GW metric 10 -p`, each
/// through `cmd /C`: an old route to the destination is removed first, and the
/// new one is persistent.
pub fn add_route_commands(dest: &str, mask: &str, gw: &str) -> (cs: (CommandSpec, CommandSpec))
    ensures
        cs.0.program@ == "cmd"@,
        cs.0.args.deep_view() == seq!["/C"@, "route"@, "delete"@, dest@],
        cs.1.program@ == "cmd"@,
        cs.1.args.deep_view() == seq![
            "/C"@,
            "route"@,
            "add"@,
            dest@,
            "mask"@,
            mask@,
            gw@,
            "metric"@,
            "10"@,
            "-p"@,
        ],
{
    let a = command("cmd", &["/C", "route", "delete", dest]);
    let b = command("cmd", &["/C", "route", "add", dest, "mask", mask, gw, "metric", "10", "-p"]);
    assert(a.args.deep_view() =~= seq!["/C"@, "route"@, "delete"@, dest@]);
    assert(b.args.deep_view() =~= seq![
        "/C"@,
        "route"@,
        "add"@,
        dest@,
        "mask"@,
        mask@,
        gw@,
        "metric"@,
        "10"@,
        "-p"@,
    ]);
    (a, b)
}

/// What an attempt to add a route through `gw` came to, by the output of
/// `route add` (that of the `route delete` before it does not count).
pub fn add_route(gw: &str, output: Result<CommandOutput, String>) -> (r: RouteResult)
    ensures
        match output {
            Ok(o) => r.success == o.success && r.message@ == if o.success {
                "已绑定到网关 "@ + gw@
            } else {
                "添加失败"@
            },
            Err(e) => !r.success && r.message@ == e@,
        },
{
    match output {
        Ok(o) => {
            if o.success {
                let mut m = "已绑定到网关 ".to_owned();
                m.append(gw);
                RouteResult { success: true, message: m }
            } else {
                route_result(false, "添加失败")
            }
        },
        Err(e) => RouteResult { success: false, message: e },
    }
}

/// `cmd /C route delete DEST`.
pub fn delete_route_command(dest: &str) -> (c: CommandSpec)
    ensures
        c.program@ == "cmd"@,
        c.args.deep_view() == seq!["/C"@, "route"@, "delete"@, dest@],
{
    let c = command("cmd", &["/C", "route", "delete", dest]);
    assert(c.args.deep_view() =~= seq!["/C"@, "route"@, "delete"@, dest@]);
    c
}

/// Deleting a route is reported as handled whatever `route delete` said.
pub fn delete_route() -> (r: RouteResult)
    ensures
        r.success,
        r.message@ == "已处理"@,
{
    route_result(true, "已处理")
}

/// `cmd /C ipconfig /flushdns`.
pub fn flush_network_command() -> (c: CommandSpec)
    ensures
        c.program@ == "cmd"@,
        c.args.deep_view() == seq!["/C"@, "ipconfig"@, "/flushdns"@],
{
    let c = command("cmd", &["/C", "ipconfig", "/flushdns"]);
    assert(c.args.deep_view() =~= seq!["/C"@, "ipconfig"@, "/flushdns"@]);
    c
}

/// Flushing is reported as done whatever the command said.
pub fn flush_network() -> (r: RouteResult)
    ensures
        r.success,
        r.message@ == "DNS 已刷新"@,
{
    route_result(true, "DNS 已刷新")
}

/// `ping -n 1 -w 1000 IP`: one echo request, waiting at most a second.
pub fn ping_gateway_command(ip: &str) -> (c: CommandSpec)
    ensures
        c.program@ == "ping"@,
        c.args.deep_view() == seq!["-n"@, "1"@, "-w"@, "1000"@, ip@],
{
    let c = command("ping", &["-n", "1", "-w", "1000", ip]);
    assert(c.args.deep_view() =~= seq!["-n"@, "1"@, "-w"@, "1000"@, ip@]);
    c
}

/// The delay written on a line: the last number before the first `ms`, or
/// nothing when the line has no `ms` or no number before it.
pub open spec fn delay_text(l: Seq<char>) -> Seq<char> {
    match first_occurrence(l, "ms"@) {
        Some(i) => last_numeric_run(l.take(i)),
        None => seq![],
    }
}

/// A reply line, lowercased: it mentions `ms` and one of `time`, `时间`, `ttl=`,
/// and a number stands before its first `ms`.
pub open spec fn is_reply_line(l: Seq<char>) -> bool {
    &&& contains(l, "ms"@)
    &&& contains(l, "time"@) || contains(l, "时间"@) || contains(l, "ttl="@)
    &&& delay_text(l).len() > 0
}

/// The round-trip time of `ping` output, read from the first reply line: the
/// number before its `ms` (`time=3ms`, `时间<1ms`), when that is a decimal `u32`.
pub open spec fn ping_ms(ls: Seq<Seq<char>>) -> Option<u32>
    decreases ls.len(),
{
    if ls.len() == 0 {
        None
    } else if is_reply_line(lowercase(ls[0])) {
        decimal_u32(delay_text(lowercase(ls[0])))
    } else {
        ping_ms(ls.drop_first())
    }
}

/// The round-trip time, in milliseconds, that a run of `ping` reports: none
/// when it could not run or printed no reply line.
pub fn ping_gateway(output: Result<CommandOutput, String>) -> (r: Option<u32>)
    ensures
        r == match output {
            Ok(o) => ping_ms(lines(utf8_lossy(o.stdout@))),
            Err(_) => None,
        },
{
    let o = match output {
        Ok(o) => o,
        Err(_) => {
            return None;
        },
    };
    let text = decode_lossy(o.stdout.as_slice());
    let ms = str_chars("ms");
    let time = str_chars("time");
    let time_zh = str_chars("时间");
    let ttl = str_chars("ttl=");
    let mut pos: usize = 0;
    assert(text@.skip(0) =~= text@);
    while pos < text.len()
        invariant
            pos <= text.len(),
            ms@ == "ms"@,
            time@ == "time"@,
            time_zh@ == "时间"@,
            ttl@ == "ttl="@,
            ping_ms(lines(text@.skip(pos as int))) == ping_ms(lines(text@)),
            match output {
                Ok(oo) => ping_ms(lines(utf8_lossy(oo.stdout@))),
                Err(_) => None,
            } == ping_ms(lines(text@)),
        decreases text.len() - pos,
    {
        let (line, next) = next_line(&text, pos);
        proof {
            lemma_first_line(line@, lines(text@.skip(next as int)));
        }
        let lower = to_lowercase_chars(&line);
        if contains_chars(&lower, &ms) && (contains_chars(&lower, &time) || contains_chars(
            &lower,
            &time_zh,
        ) || contains_chars(&lower, &ttl)) {
            let at = match find_chars(&lower, &ms) {
                Some(i) => i,
                None => lower.len(),
            };
            let before = slice_chars(&lower, 0, at);
            assert(before@ == lower@.take(at as int));
            let run = last_numeric_run_chars(&before);
            assert(run@ == delay_text(lowercase(line@)));
            if run.len() > 0 {
                assert(is_reply_line(lowercase(line@)));
                let ghost ls = lines(text@.skip(pos as int));
                assert(ls[0] == line@);
                assert(ping_ms(ls) == decimal_u32(delay_text(lowercase(line@))));
                return parse_decimal_u32(&run);
            }
        }
        pos = next;
    }
    proof {
        assert(text@.skip(pos as int).len() == 0);
    }
    None
}

} // verus!
