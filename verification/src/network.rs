//! Network adapters, routes and the results of route operations, and the
//! platform-independent rules around them.
use vstd::prelude::*;
use crate::text::{starts_with, starts_with_chars, str_chars, chars_eq};

verus! {

/// Details of one network adapter.
#[derive(Debug, Clone, PartialEq)]
pub struct AdapterInfo {
    pub name: String,
    pub ip: String,
    pub gateway: String,
}

/// An adapter as three character sequences.
pub struct AdapterView {
    pub name: Seq<char>,
    pub ip: Seq<char>,
    pub gateway: Seq<char>,
}

impl View for AdapterInfo {
    type V = AdapterView;

    open spec fn view(&self) -> AdapterView {
        AdapterView { name: self.name@, ip: self.ip@, gateway: self.gateway@ }
    }
}

impl DeepView for AdapterInfo {
    type V = AdapterView;

    open spec fn deep_view(&self) -> AdapterView {
        self@
    }
}

/// One entry of the IPv4 routing table.
#[derive(Debug, Clone)]
pub struct RouteEntry {
    pub destination: String,
    pub mask: String,
    pub gateway: String,
    pub interface: String,
}

/// A route entry as four character sequences.
pub struct RouteView {
    pub destination: Seq<char>,
    pub mask: Seq<char>,
    pub gateway: Seq<char>,
    pub interface: Seq<char>,
}

impl View for RouteEntry {
    type V = RouteView;

    open spec fn view(&self) -> RouteView {
        RouteView {
            destination: self.destination@,
            mask: self.mask@,
            gateway: self.gateway@,
            interface: self.interface@,
        }
    }
}

impl DeepView for RouteEntry {
    type V = RouteView;

    open spec fn deep_view(&self) -> RouteView {
        self@
    }
}

/// Outcome of a route operation.
pub struct RouteResult {
    pub success: bool,
    pub message: String,
}

/// Builds a route result.
pub fn route_result(success: bool, message: &str) -> (r: RouteResult)
    ensures
        r.success == success,
        r.message@ == message@,
{
    RouteResult { success, message: message.to_owned() }
}

/// A copy of a route entry.
pub fn copy_route(e: &RouteEntry) -> (r: RouteEntry)
    ensures
        r@ == e@,
{
    RouteEntry {
        destination: e.destination.clone(),
        mask: e.mask.clone(),
        gateway: e.gateway.clone(),
        interface: e.interface.clone(),
    }
}

/// A copy of an adapter record.
pub fn copy_adapter(a: &AdapterInfo) -> (r: AdapterInfo)
    ensures
        r@ == a@,
{
    AdapterInfo { name: a.name.clone(), ip: a.ip.clone(), gateway: a.gateway.clone() }
}

/// The routes whose destination begins with `prefix`, in their original order.
pub open spec fn routes_with_prefix(routes: Seq<RouteView>, prefix: Seq<char>) -> Seq<RouteView> {
    routes.filter(|e: RouteView| starts_with(e.destination, prefix))
}

/// Keeps the routes whose destination begins with `prefix`.
pub fn get_active_routes_filtered(routes: Vec<RouteEntry>, prefix: &str) -> (r: Vec<RouteEntry>)
    ensures
        r.deep_view() == routes_with_prefix(routes.deep_view(), prefix@),
{
    let p = str_chars(prefix);
    let mut out: Vec<RouteEntry> = Vec::new();
    let ghost all = routes.deep_view();
    let ghost pred = |e: RouteView| starts_with(e.destination, prefix@);
    let mut i: usize = 0;
    while i < routes.len()
        invariant
            i <= routes.len(),
            all == routes.deep_view(),
            p@ == prefix@,
            pred == (|e: RouteView| starts_with(e.destination, prefix@)),
            out.deep_view() == all.take(i as int).filter(pred),
        decreases routes.len() - i,
    {
        let d = str_chars(routes[i].destination.as_str());
        let ghost before = out.deep_view();
        proof {
            reveal_with_fuel(Seq::<_>::filter, 1);
            assert(all.take(i + 1).drop_last() =~= all.take(i as int));
            assert(all[i as int] == routes@[i as int]@);
        }
        if starts_with_chars(&d, &p) {
            let e = copy_route(&routes[i]);
            out.push(e);
            proof {
                assert(out.deep_view() =~= before.push(e@));
            }
        }
        i = i + 1;
    }
    assert(all.take(routes.len() as int) =~= all);
    out
}

/// Every route kept by the filter begins with the prefix, and filtering its
/// own result again changes nothing.
pub proof fn lemma_filtered_routes(routes: Seq<RouteView>, prefix: Seq<char>)
    ensures
        forall|i: int|
            0 <= i < routes_with_prefix(routes, prefix).len() ==> starts_with(
                #[trigger] routes_with_prefix(routes, prefix)[i].destination,
                prefix,
            ),
        routes_with_prefix(routes, prefix).len() <= routes.len(),
        routes_with_prefix(routes_with_prefix(routes, prefix), prefix) == routes_with_prefix(
            routes,
            prefix,
        ),
{
    let pred = |e: RouteView| starts_with(e.destination, prefix);
    let f = routes.filter(pred);
    routes.lemma_filter_len(pred);
    assert forall|i: int| 0 <= i < f.len() implies pred(#[trigger] f[i]) by {
        routes.lemma_filter_pred(pred, i);
    }
    f.lemma_all_neg_filter_empty(|e: RouteView| !pred(e));
    assert(f.filter(pred) =~= f) by {
        filter_all_kept(f, pred);
    }
}

proof fn filter_all_kept(s: Seq<RouteView>, p: spec_fn(RouteView) -> bool)
    requires
        forall|i: int| 0 <= i < s.len() ==> p(#[trigger] s[i]),
    ensures
        s.filter(p) == s,
    decreases s.len(),
{
    reveal_with_fuel(Seq::<_>::filter, 1);
    if s.len() > 0 {
        filter_all_kept(s.drop_last(), p);
        assert(s.drop_last().push(s.last()) =~= s);
    } else {
        assert(s.filter(p) =~= s);
    }
}

proof fn filter_of_filter(s: Seq<RouteView>, a: spec_fn(RouteView) -> bool, b: spec_fn(RouteView) -> bool)
    requires
        forall|x: RouteView| #[trigger] b(x) ==> a(x),
    ensures
        s.filter(a).filter(b) == s.filter(b),
    decreases s.len(),
{
    reveal_with_fuel(Seq::<_>::filter, 1);
    if s.len() > 0 {
        filter_of_filter(s.drop_last(), a, b);
        let last = s.last();
        if a(last) {
            assert(s.filter(a) == s.drop_last().filter(a).push(last));
            assert(s.filter(a).drop_last() =~= s.drop_last().filter(a));
        } else {
            assert(s.filter(a) == s.drop_last().filter(a));
        }
    } else {
        assert(s.filter(a) =~= s);
    }
}

proof fn lemma_starts_with_trans(d: Seq<char>, p1: Seq<char>, p2: Seq<char>)
    requires
        starts_with(d, p2),
        starts_with(p2, p1),
    ensures
        starts_with(d, p1),
{
    assert(d.take(p2.len() as int).take(p1.len() as int) =~= d.take(p1.len() as int));
}

/// Filtering by a longer prefix keeps a part of what filtering by a shorter
/// one keeps: the routes for `p2` are the routes for `p1` filtered again by
/// `p2`, so they come in the same order. The empty prefix keeps every route.
pub proof fn lemma_filter_prefix_monotone(routes: Seq<RouteView>, p1: Seq<char>, p2: Seq<char>)
    requires
        starts_with(p2, p1),
    ensures
        routes_with_prefix(routes_with_prefix(routes, p1), p2) == routes_with_prefix(routes, p2),
        routes_with_prefix(routes, p2).len() <= routes_with_prefix(routes, p1).len(),
        routes_with_prefix(routes, seq![]) == routes,
{
    let a = |e: RouteView| starts_with(e.destination, p1);
    let b = |e: RouteView| starts_with(e.destination, p2);
    assert forall|x: RouteView| #[trigger] b(x) implies a(x) by {
        lemma_starts_with_trans(x.destination, p1, p2);
    }
    filter_of_filter(routes, a, b);
    routes.filter(a).lemma_filter_len(b);
    let e = |x: RouteView| starts_with(x.destination, seq![]);
    assert forall|i: int| 0 <= i < routes.len() implies e(#[trigger] routes[i]) by {
        assert(routes[i].destination.take(0) =~= seq![]);
    }
    filter_all_kept(routes, e);
}

/// Gateway texts that name no usable gateway: none detected, not probed yet,
/// or empty.
pub open spec fn is_placeholder_gateway(gw: Seq<char>) -> bool {
    gw == "无网关"@ || gw == "待探测"@ || gw.len() == 0
}

/// No gateway written in ASCII (an IPv4 or IPv6 address, a host name) is a
/// placeholder unless it is empty; the two placeholder words are.
pub proof fn lemma_placeholder_gateways(gw: Seq<char>)
    ensures
        gw.len() > 0 && (forall|i: int| 0 <= i < gw.len() ==> (#[trigger] gw[i] as u32) < 128)
            ==> !is_placeholder_gateway(gw),
        is_placeholder_gateway("无网关"@),
        is_placeholder_gateway("待探测"@),
        is_placeholder_gateway(seq![]),
{
    reveal_strlit("无网关");
    reveal_strlit("待探测");
    if gw.len() > 0 && (forall|i: int| 0 <= i < gw.len() ==> (#[trigger] gw[i] as u32) < 128) {
        assert((gw[0] as u32) < 128);
        assert(("无网关"@)[0] as u32 >= 128);
        assert(("待探测"@)[0] as u32 >= 128);
    }
}

/// Whether a gateway text names no usable gateway.
pub fn gateway_is_placeholder(gw: &str) -> (b: bool)
    ensures
        b == is_placeholder_gateway(gw@),
{
    let g = str_chars(gw);
    let none = str_chars("无网关");
    let pending = str_chars("待探测");
    chars_eq(&g, &none) || chars_eq(&g, &pending) || g.len() == 0
}

/// What a ping of `ip` gives before anything runs: no measurement, and no
/// ping sent, exactly when `ip` is a placeholder.
pub fn ping_refusal(ip: &str) -> (r: Option<Option<u32>>)
    ensures
        r is Some <==> is_placeholder_gateway(ip@),
        r matches Some(x) ==> x is None,
{
    if gateway_is_placeholder(ip) {
        Some(None)
    } else {
        None
    }
}

/// The message given when a route is requested through a placeholder gateway.
pub open spec fn no_gateway_message() -> Seq<char> {
    "该网卡没有有效网关，无法分流"@
}

/// The refusal a route request through `gw` gets before any command runs:
/// `Some` failure exactly when `gw` is a placeholder.
pub fn add_route_refusal(gw: &str) -> (r: Option<RouteResult>)
    ensures
        r is Some <==> is_placeholder_gateway(gw@),
        r matches Some(res) ==> !res.success && res.message@ == no_gateway_message(),
{
    if gateway_is_placeholder(gw) {
        Some(route_result(false, "该网卡没有有效网关，无法分流"))
    } else {
        None
    }
}

} // verus!
