//! What the status cards show: the badge of each card and the lines that list
//! the monitored routes.
use vstd::prelude::*;
use crate::network::{RouteEntry, RouteView};
use crate::text::{decimal, decimal_text};

verus! {

/// The colour family of a badge.
#[derive(Debug, Clone, Copy, PartialEq, Eq, Structural)]
pub enum BadgeTone {
    Success,
    Muted,
    Warning,
}

/// A status badge: its text and colour family.
pub struct Badge {
    pub text: String,
    pub tone: BadgeTone,
}

/// A label followed by a round-trip time in milliseconds, where one was measured.
pub open spec fn with_ping(label: Seq<char>, ping: Option<u32>) -> Seq<char> {
    match ping {
        Some(ms) => label + " ("@ + decimal(ms as nat) + "ms)"@,
        None => label,
    }
}

/// The external card's badge: online, with the measured time, while an
/// external adapter is selected and the system proxy is off; offline otherwise.
pub open spec fn external_badge_spec(has_adapter: bool, proxy_enabled: bool, ping: Option<u32>) -> (Seq<char>, BadgeTone) {
    if has_adapter && !proxy_enabled {
        (with_ping("在线"@, ping), BadgeTone::Success)
    } else {
        ("离线"@, BadgeTone::Muted)
    }
}

/// The internal card's badge: in effect, with the measured time, while the
/// internal route exists; not in effect otherwise.
pub open spec fn internal_badge_spec(route_exists: bool, ping: Option<u32>) -> (Seq<char>, BadgeTone) {
    if route_exists {
        (with_ping("已生效"@, ping), BadgeTone::Success)
    } else {
        ("未生效"@, BadgeTone::Muted)
    }
}

/// The proxy card's badge: bypassed while the system proxy is off, a warning
/// while it is on.
pub open spec fn proxy_badge_spec(proxy_enabled: bool) -> (Seq<char>, BadgeTone) {
    if !proxy_enabled {
        ("已绕过"@, BadgeTone::Success)
    } else {
        ("启用中 (可能干扰分流)"@, BadgeTone::Warning)
    }
}

fn ping_text(label: &str, ping: Option<u32>) -> (s: String)
    ensures
        s@ == with_ping(label@, ping),
{
    let mut s = label.to_owned();
    if let Some(ms) = ping {
        let n = decimal_text(ms as u64);
        s.append(" (");
        s.append(n.as_str());
        s.append("ms)");
    }
    s
}

/// The badge of the external-exit card.
pub fn external_badge(has_adapter: bool, proxy_enabled: bool, ping: Option<u32>) -> (b: Badge)
    ensures
        (b.text@, b.tone) == external_badge_spec(has_adapter, proxy_enabled, ping),
{
    if has_adapter && !proxy_enabled {
        Badge { text: ping_text("在线", ping), tone: BadgeTone::Success }
    } else {
        Badge { text: "离线".to_owned(), tone: BadgeTone::Muted }
    }
}

/// The badge of the internal-route card.
pub fn internal_badge(route_exists: bool, ping: Option<u32>) -> (b: Badge)
    ensures
        (b.text@, b.tone) == internal_badge_spec(route_exists, ping),
{
    if route_exists {
        Badge { text: ping_text("已生效", ping), tone: BadgeTone::Success }
    } else {
        Badge { text: "未生效".to_owned(), tone: BadgeTone::Muted }
    }
}

/// The badge of the system-proxy card.
pub fn proxy_badge(proxy_enabled: bool) -> (b: Badge)
    ensures
        (b.text@, b.tone) == proxy_badge_spec(proxy_enabled),
{
    if !proxy_enabled {
        Badge { text: "已绕过".to_owned(), tone: BadgeTone::Success }
    } else {
        Badge { text: "启用中 (可能干扰分流)".to_owned(), tone: BadgeTone::Warning }
    }
}

/// What the badges show, by the state alone: the internal card is in effect
/// exactly when the route exists, whether or not a time was measured, and a
/// measured time only adds ` (Nms)`; the external card is online exactly while
/// an external adapter is selected and the proxy is off; the proxy card is
/// bypassed exactly while the proxy is off.
pub proof fn lemma_badges_follow_state(
    route_exists: bool,
    has_adapter: bool,
    proxy_enabled: bool,
    ping: Option<u32>,
)
    ensures
        (internal_badge_spec(route_exists, ping).1 == BadgeTone::Success) == route_exists,
        route_exists && ping is None ==> internal_badge_spec(route_exists, ping).0 == "已生效"@,
        route_exists ==> (ping matches Some(ms) ==> internal_badge_spec(route_exists, ping).0
            == "已生效"@ + " ("@ + decimal(ms as nat) + "ms)"@),
        !route_exists ==> internal_badge_spec(route_exists, ping) == ("未生效"@, BadgeTone::Muted),
        (external_badge_spec(has_adapter, proxy_enabled, ping).1 == BadgeTone::Success) == (
        has_adapter && !proxy_enabled),
        has_adapter && !proxy_enabled && ping is None ==> external_badge_spec(
            has_adapter,
            proxy_enabled,
            ping,
        ).0 == "在线"@,
        has_adapter && !proxy_enabled ==> (ping matches Some(ms) ==> external_badge_spec(
            has_adapter,
            proxy_enabled,
            ping,
        ).0 == "在线"@ + " ("@ + decimal(ms as nat) + "ms)"@),
        !(has_adapter && !proxy_enabled) ==> external_badge_spec(has_adapter, proxy_enabled, ping)
            == ("离线"@, BadgeTone::Muted),
        (proxy_badge_spec(proxy_enabled).1 == BadgeTone::Success) == !proxy_enabled,
        proxy_enabled ==> proxy_badge_spec(proxy_enabled).1 == BadgeTone::Warning,
{
}

/// How many monitored routes the internal card lists.
pub const SHOWN_ROUTES: usize = 3;

/// The line that lists one route.
pub open spec fn route_line(r: RouteView) -> Seq<char> {
    "• "@ + r.destination + " ➔ 网关 "@ + r.gateway
}

/// The line that counts the routes not listed.
pub open spec fn more_routes_line(n: nat) -> Seq<char> {
    "... 及其他 "@ + decimal(n) + " 条路由规则"@
}

/// The lines for the monitored routes: one for each of the first three, and,
/// when there are more, a line that counts the rest.
pub fn route_lines(routes: &[RouteEntry]) -> (r: (Vec<String>, Option<String>))
    ensures
        r.0.len() == if routes.len() < SHOWN_ROUTES {
            routes.len()
        } else {
            SHOWN_ROUTES
        },
        forall|i: int| 0 <= i < r.0.len() ==> #[trigger] r.0@[i]@ == route_line(routes@[i]@),
        r.1 is Some <==> routes.len() > SHOWN_ROUTES,
        r.1 matches Some(t) ==> t@ == more_routes_line((routes.len() - SHOWN_ROUTES) as nat),
{
    let mut lines: Vec<String> = Vec::new();
    let mut i: usize = 0;
    while i < routes.len() && i < SHOWN_ROUTES
        invariant
            i <= routes.len(),
            i <= SHOWN_ROUTES,
            lines.len() == i,
            forall|k: int| 0 <= k < i ==> #[trigger] lines@[k]@ == route_line(routes@[k]@),
        decreases routes.len() - i,
    {
        let mut line = "• ".to_owned();
        line.append(routes[i].destination.as_str());
        line.append(" ➔ 网关 ");
        line.append(routes[i].gateway.as_str());
        lines.push(line);
        i = i + 1;
    }
    let more = if routes.len() > SHOWN_ROUTES {
        let mut t = "... 及其他 ".to_owned();
        let n = decimal_text((routes.len() - SHOWN_ROUTES) as u64);
        t.append(n.as_str());
        t.append(" 条路由规则");
        Some(t)
    } else {
        None
    };
    (lines, more)
}

} // verus!
