//! Linux: the commands behind the network operations (`ip`, `ping`,
//! `resolvectl`) and what their output means.
use vstd::prelude::*;
use crate::command::{CommandOutput, CommandSpec, command};
use crate::network::{AdapterInfo, AdapterView, RouteEntry, RouteView, RouteResult, route_result};
use crate::text::{second_field, second_field_chars, lemma_first_line, occurs_at, lemma_deep_view_chars, chars_eq, decode_lossy, first_occurrence, utf8_lossy, chars_string, contains_chars, find_chars, contains, contains_char, find_char, find_char_from, lines, next_line, slice_chars, split_whitespace, starts_with, starts_with_chars, str_chars, tokens, trim, trim_chars};

verus! {

/// State while reading `ip addr` output line by line: adapters found so far,
/// and the name and IPv4 address of the adapter being read.
pub struct IpAddrScan {
    pub adapters: Seq<AdapterView>,
    pub name: Seq<char>,
    pub ip: Seq<char>,
}

/// The adapters of a scan with the adapter being read appended, when it has
/// both a name and an address.
pub open spec fn ip_addr_flush(st: IpAddrScan) -> Seq<AdapterView> {
    if st.name.len() > 0 && st.ip.len() > 0 {
        st.adapters.push(AdapterView { name: st.name, ip: st.ip, gateway: "待探测"@ })
    } else {
        st.adapters
    }
}

/// A header line (`2: eth0: <...>`) does not start with a space and holds a
/// colon; it closes the adapter being read and opens the one it names. A line
/// `inet A.B.C.D/N ...` gives the address of the adapter being read.
pub open spec fn ip_addr_step(st: IpAddrScan, line: Seq<char>) -> IpAddrScan {
    let t = trim(line);
    if !(line.len() > 0 && line[0] == ' ') && contains(line, seq![':']) {
        IpAddrScan { adapters: ip_addr_flush(st), name: trim(second_field(line, ':')), ip: seq![] }
    } else if starts_with(t, "inet "@) && tokens(t).len() >= 2 {
        let a = tokens(t)[1];
        IpAddrScan { adapters: st.adapters, name: st.name, ip: a.take(find_char(a, '/') as int) }
    } else {
        st
    }
}

pub open spec fn ip_addr_scan(st: IpAddrScan, ls: Seq<Seq<char>>) -> IpAddrScan
    decreases ls.len(),
{
    if ls.len() == 0 {
        st
    } else {
        ip_addr_scan(ip_addr_step(st, ls[0]), ls.drop_first())
    }
}

/// The adapters that `ip addr` output lists with an IPv4 address.
pub open spec fn ip_addr_adapters(text: Seq<char>) -> Seq<AdapterView> {
    ip_addr_flush(
        ip_addr_scan(IpAddrScan { adapters: seq![], name: seq![], ip: seq![] }, lines(text)),
    )
}

/// Every adapter has a name and an address, and its gateway is yet to be probed.
pub open spec fn adapters_complete(s: Seq<AdapterView>) -> bool {
    forall|i: int|
        0 <= i < s.len() ==> (#[trigger] s[i]).name.len() > 0 && s[i].ip.len() > 0
            && s[i].gateway == "待探测"@
}

proof fn lemma_ip_addr_scan_complete(st: IpAddrScan, ls: Seq<Seq<char>>)
    requires
        adapters_complete(st.adapters),
    ensures
        adapters_complete(ip_addr_scan(st, ls).adapters),
        adapters_complete(ip_addr_flush(ip_addr_scan(st, ls))),
    decreases ls.len(),
{
    if ls.len() > 0 {
        lemma_ip_addr_scan_complete(ip_addr_step(st, ls[0]), ls.drop_first());
    }
}

/// Every adapter read from `ip addr` output has a name and an address.
pub proof fn lemma_ip_addr_adapters_complete(text: Seq<char>)
    ensures
        adapters_complete(ip_addr_adapters(text)),
{
    lemma_ip_addr_scan_complete(
        IpAddrScan { adapters: seq![], name: seq![], ip: seq![] },
        lines(text),
    );
}

fn adapter(name: &Vec<char>, ip: &Vec<char>, gateway: &str) -> (a: AdapterInfo)
    ensures
        a@ == (AdapterView { name: name@, ip: ip@, gateway: gateway@ }),
{
    AdapterInfo {
        name: chars_string(name.as_slice()),
        ip: chars_string(ip.as_slice()),
        gateway: gateway.to_owned(),
    }
}

/// Reads the adapters out of `ip addr` output.
pub fn parse_ip_addr(text: &Vec<char>) -> (r: Vec<AdapterInfo>)
    ensures
        r.deep_view() == ip_addr_adapters(text@),
{
    let mut adapters: Vec<AdapterInfo> = Vec::new();
    let mut name: Vec<char> = Vec::new();
    let mut ip: Vec<char> = Vec::new();
    let inet = str_chars("inet ");
    let ghost init = IpAddrScan { adapters: seq![], name: seq![], ip: seq![] };
    let mut pos: usize = 0;
    assert(text@.skip(0) =~= text@);
    assert(adapters.deep_view() =~= Seq::<AdapterView>::empty());
    while pos < text.len()
        invariant
            pos <= text.len(),
            inet@ == "inet "@,
            ip_addr_scan(
                IpAddrScan { adapters: adapters.deep_view(), name: name@, ip: ip@ },
                lines(text@.skip(pos as int)),
            ) == ip_addr_scan(init, lines(text@)),
        decreases text.len() - pos,
    {
        let (line, next) = next_line(text, pos);
        let ghost st = IpAddrScan { adapters: adapters.deep_view(), name: name@, ip: ip@ };
        let ghost rest = lines(text@.skip(next as int));
        proof {
            lemma_first_line(line@, rest);
        }
        let t = trim_chars(&line);
        let header = !(line.len() > 0 && line[0] == ' ') && contains_char(&line, ':');
        if header {
            if name.len() > 0 && ip.len() > 0 {
                let ghost before = adapters.deep_view();
                adapters.push(adapter(&name, &ip, "待探测"));
                assert(adapters.deep_view() =~= before.push(
                    AdapterView { name: name@, ip: ip@, gateway: "待探测"@ },
                ));
            }
            let f = second_field_chars(&line, ':');
            name = trim_chars(&f);
            ip = Vec::new();
        } else if starts_with_chars(&t, &inet) {
            let toks = split_whitespace(&t);
            if toks.len() >= 2 {
                let a = &toks[1];
                assert(a@ == toks.deep_view()[1]);
                let k = find_char_from(a, '/', 0);
                assert(a@.skip(0) =~= a@);
                assert(a@.take(k as int) =~= a@.subrange(0, k as int));
                ip = slice_chars(a, 0, k);
            }
        }
        assert(ip_addr_step(st, line@) == IpAddrScan {
            adapters: adapters.deep_view(),
            name: name@,
            ip: ip@,
        });
        pos = next;
    }
    proof {
        assert(text@.skip(pos as int).len() == 0);
    }
    if name.len() > 0 && ip.len() > 0 {
        let ghost before = adapters.deep_view();
        adapters.push(adapter(&name, &ip, "待探测"));
        assert(adapters.deep_view() =~= before.push(
            AdapterView { name: name@, ip: ip@, gateway: "待探测"@ },
        ));
    }
    adapters
}

/// `ip addr`: lists the adapters and their addresses.
pub fn get_all_adapters_command() -> (c: CommandSpec)
    ensures
        c.program@ == "ip"@,
        c.args.deep_view() == seq!["addr"@],
{
    let c = command("ip", &["addr"]);
    assert(c.args.deep_view() =~= seq!["addr"@]);
    c
}

/// The adapters that a run of `ip addr` reports: none when it could not run.
pub fn get_all_adapters(output: Result<CommandOutput, String>) -> (r: Vec<AdapterInfo>)
    ensures
        r.deep_view() == match output {
            Ok(o) => ip_addr_adapters(utf8_lossy(o.stdout@)),
            Err(_) => Seq::<AdapterView>::empty(),
        },
        adapters_complete(r.deep_view()),
{
    match output {
        Ok(o) => {
            let text = decode_lossy(o.stdout.as_slice());
            proof {
                lemma_ip_addr_adapters_complete(text@);
            }
            parse_ip_addr(&text)
        },
        Err(_) => {
            let r: Vec<AdapterInfo> = Vec::new();
            assert(r.deep_view() =~= Seq::<AdapterView>::empty());
            r
        },
    }
}

/// `id -u`: prints the numeric user id.
pub fn is_admin_command() -> (c: CommandSpec)
    ensures
        c.program@ == "id"@,
        c.args.deep_view() == seq!["-u"@],
{
    let c = command("id", &["-u"]);
    assert(c.args.deep_view() =~= seq!["-u"@]);
    c
}

/// The process runs as root exactly when `id -u` ran and printed `0`
/// (surrounding whitespace aside).
pub fn is_admin(output: Result<CommandOutput, String>) -> (b: bool)
    ensures
        b == (output matches Ok(o) && trim(utf8_lossy(o.stdout@)) == "0"@),
{
    match output {
        Ok(o) => {
            let text = decode_lossy(o.stdout.as_slice());
            let t = trim_chars(&text);
            let zero = str_chars("0");
            chars_eq(&t, &zero)
        },
        Err(_) => false,
    }
}

/// `ip route show DEST`: shows the routes to a destination.
pub fn check_route_exists_command(dest: &str) -> (c: CommandSpec)
    ensures
        c.program@ == "ip"@,
        c.args.deep_view() == seq!["route"@, "show"@, dest@],
{
    let c = command("ip", &["route", "show", dest]);
    assert(c.args.deep_view() =~= seq!["route"@, "show"@, dest@]);
    c
}

/// A route exists exactly when `ip route show DEST` ran and printed something
/// other than whitespace.
pub fn check_route_exists(output: Result<CommandOutput, String>) -> (b: bool)
    ensures
        b == (output matches Ok(o) && trim(utf8_lossy(o.stdout@)).len() > 0),
{
    match output {
        Ok(o) => {
            let text = decode_lossy(o.stdout.as_slice());
            let t = trim_chars(&text);
            t.len() > 0
        },
        Err(_) => false,
    }
}

/// The word after the last `key` of `parts` that has a word after it, or `default`.
pub open spec fn word_after(parts: Seq<Seq<char>>, key: Seq<char>, default: Seq<char>) -> Seq<
    char,
>
    decreases parts.len(),
{
    if parts.len() < 2 {
        default
    } else if parts[parts.len() - 2] == key {
        parts.last()
    } else {
        word_after(parts.drop_last(), key, default)
    }
}

/// A line of `ip route show`: destination first, gateway after `via`
/// (`0.0.0.0` without one), interface after `dev` (`unknown` without one);
/// the destination carries its prefix length, so the mask stays empty.
pub open spec fn ip_route_entry(line: Seq<char>) -> RouteView {
    let p = tokens(line);
    RouteView {
        destination: if p.len() > 0 {
            p[0]
        } else {
            seq![]
        },
        mask: seq![],
        gateway: word_after(p, "via"@, "0.0.0.0"@),
        interface: word_after(p, "dev"@, "unknown"@),
    }
}

proof fn lemma_word_after_last(parts: Seq<Seq<char>>, key: Seq<char>, default: Seq<char>, k: int)
    requires
        0 <= k,
        k + 1 < parts.len(),
        parts[k] == key,
        forall|j: int| k < j < parts.len() - 1 ==> parts[j] != key,
    ensures
        word_after(parts, key, default) == parts[k + 1],
    decreases parts.len(),
{
    if parts[parts.len() - 2] != key {
        let q = parts.drop_last();
        assert forall|j: int| k < j < q.len() - 1 implies q[j] != key by {
            assert(q[j] == parts[j]);
        }
        lemma_word_after_last(q, key, default, k);
        assert(q[k + 1] == parts[k + 1]);
    }
}

proof fn lemma_word_after_absent(parts: Seq<Seq<char>>, key: Seq<char>, default: Seq<char>)
    requires
        forall|j: int| 0 <= j < parts.len() - 1 ==> parts[j] != key,
    ensures
        word_after(parts, key, default) == default,
    decreases parts.len(),
{
    if parts.len() >= 2 {
        let q = parts.drop_last();
        assert forall|j: int| 0 <= j < q.len() - 1 implies q[j] != key by {
            assert(q[j] == parts[j]);
        }
        lemma_word_after_absent(q, key, default);
    }
}

/// What a line of `ip route show` gives, whatever its destination: the
/// destination is its first word and the mask is empty; the gateway is the
/// word after its last `via` that has a word after it (`0.0.0.0` when no
/// `via` is followed by a word), and the interface likewise the word after its
/// last such `dev` (`unknown` without one).
pub proof fn lemma_ip_route_fields(l: Seq<char>, k: int)
    ensures
        tokens(l).len() > 0 ==> ip_route_entry(l).destination == tokens(l)[0],
        tokens(l).len() == 0 ==> ip_route_entry(l).destination.len() == 0,
        ip_route_entry(l).mask.len() == 0,
        0 <= k && k + 1 < tokens(l).len() && tokens(l)[k] == "via"@ && (forall|j: int|
            k < j < tokens(l).len() - 1 ==> tokens(l)[j] != "via"@) ==> ip_route_entry(l).gateway
            == tokens(l)[k + 1],
        (forall|j: int| 0 <= j < tokens(l).len() - 1 ==> tokens(l)[j] != "via"@)
            ==> ip_route_entry(l).gateway == "0.0.0.0"@,
        0 <= k && k + 1 < tokens(l).len() && tokens(l)[k] == "dev"@ && (forall|j: int|
            k < j < tokens(l).len() - 1 ==> tokens(l)[j] != "dev"@) ==> ip_route_entry(l).interface
            == tokens(l)[k + 1],
        (forall|j: int| 0 <= j < tokens(l).len() - 1 ==> tokens(l)[j] != "dev"@)
            ==> ip_route_entry(l).interface == "unknown"@,
{
    let p = tokens(l);
    if 0 <= k && k + 1 < p.len() && p[k] == "via"@ && (forall|j: int|
        k < j < p.len() - 1 ==> p[j] != "via"@) {
        lemma_word_after_last(p, "via"@, "0.0.0.0"@, k);
    }
    if forall|j: int| 0 <= j < p.len() - 1 ==> p[j] != "via"@ {
        lemma_word_after_absent(p, "via"@, "0.0.0.0"@);
    }
    if 0 <= k && k + 1 < p.len() && p[k] == "dev"@ && (forall|j: int|
        k < j < p.len() - 1 ==> p[j] != "dev"@) {
        lemma_word_after_last(p, "dev"@, "unknown"@, k);
    }
    if forall|j: int| 0 <= j < p.len() - 1 ==> p[j] != "dev"@ {
        lemma_word_after_absent(p, "dev"@, "unknown"@);
    }
}

/// `ip route show` output gives one route per line, in order, each read
/// from its own line alone.
pub proof fn lemma_ip_routes_per_line(text: Seq<char>)
    ensures
        ip_routes(text).len() == lines(text).len(),
        forall|i: int| 0 <= i < lines(text).len() ==> #[trigger] ip_routes(text)[i] == ip_route_entry(
            lines(text)[i],
        ),
{
}

/// One route per line of `ip route show` output.
pub open spec fn ip_routes(text: Seq<char>) -> Seq<RouteView> {
    lines(text).map_values(|l: Seq<char>| ip_route_entry(l))
}

fn word_after_exec(parts: &Vec<Vec<char>>, key: &Vec<char>, default: &str) -> (r: String)
    ensures
        r@ == word_after(parts.deep_view(), key@, default@),
{
    let ghost p = parts.deep_view();
    let n = parts.len();
    let mut found: Option<usize> = None;
    if n == 0 {
        return default.to_owned();
    }
    let mut i: usize = 0;
    assert(p.take(1).len() < 2);
    while i + 1 < n
        invariant
            n == parts.len(),
            p == parts.deep_view(),
            i + 1 <= n,
            found matches Some(j) ==> j + 1 < n,
            word_after(p.take(i + 1), key@, default@) == match found {
                Some(j) => p[j + 1],
                None => default@,
            },
        decreases n - i,
    {
        proof {
            lemma_deep_view_chars(*parts);
            let q = p.take(i + 2);
            assert(q.drop_last() =~= p.take(i + 1));
            assert(q[q.len() - 2] == p[i as int]);
            assert(q.last() == p[i + 1]);
        }
        if chars_eq(&parts[i], key) {
            found = Some(i);
        }
        i = i + 1;
    }
    assert(p.take(n as int) =~= p);
    proof {
        lemma_deep_view_chars(*parts);
    }
    match found {
        Some(j) => chars_string(parts[j + 1].as_slice()),
        None => default.to_owned(),
    }
}

/// `ip route show`: lists the routing table.
pub fn get_active_routes_command() -> (c: CommandSpec)
    ensures
        c.program@ == "ip"@,
        c.args.deep_view() == seq!["route"@, "show"@],
{
    let c = command("ip", &["route", "show"]);
    assert(c.args.deep_view() =~= seq!["route"@, "show"@]);
    c
}

/// Reads one route per line of `ip route show` output.
pub fn parse_ip_routes(text: &Vec<char>) -> (r: Vec<RouteEntry>)
    ensures
        r.deep_view() == ip_routes(text@),
{
    let mut routes: Vec<RouteEntry> = Vec::new();
    let via_word = str_chars("via");
    let dev_word = str_chars("dev");
    let mut pos: usize = 0;
    assert(text@.skip(0) =~= text@);
    assert(routes.deep_view() =~= Seq::<RouteView>::empty());
    while pos < text.len()
        invariant
            pos <= text.len(),
            via_word@ == "via"@,
            dev_word@ == "dev"@,
            routes.deep_view() + ip_routes(text@.skip(pos as int)) == ip_routes(text@),
        decreases text.len() - pos,
    {
        let (line, next) = next_line(text, pos);
        let ghost rest = lines(text@.skip(next as int));
        let parts = split_whitespace(&line);
        proof {
            lemma_deep_view_chars(parts);
        }
        let destination = if parts.len() > 0 {
            chars_string(parts[0].as_slice())
        } else {
            String::new()
        };
        let e = RouteEntry {
            destination,
            mask: String::new(),
            gateway: word_after_exec(&parts, &via_word, "0.0.0.0"),
            interface: word_after_exec(&parts, &dev_word, "unknown"),
        };
        let ghost before = routes.deep_view();
        routes.push(e);
        proof {
            assert(e@ == ip_route_entry(line@));
            assert(routes.deep_view() =~= before.push(e@));
            let f = |l: Seq<char>| ip_route_entry(l);
            assert((seq![line@] + rest).map_values(f) =~= seq![f(line@)] + rest.map_values(f));
            assert(before + ip_routes(text@.skip(pos as int)) =~= routes.deep_view() + ip_routes(
                text@.skip(next as int),
            ));
        }
        pos = next;
    }
    proof {
        assert(text@.skip(pos as int).len() == 0);
        assert(routes.deep_view() + Seq::<RouteView>::empty() =~= routes.deep_view());
    }
    routes
}

/// The routes that a run of `ip route show` reports: none when it could not run.
pub fn get_active_routes(output: Result<CommandOutput, String>) -> (r: Vec<RouteEntry>)
    ensures
        r.deep_view() == match output {
            Ok(o) => ip_routes(utf8_lossy(o.stdout@)),
            Err(_) => Seq::<RouteView>::empty(),
        },
{
    match output {
        Ok(o) => {
            let text = decode_lossy(o.stdout.as_slice());
            parse_ip_routes(&text)
        },
        Err(_) => {
            let r: Vec<RouteEntry> = Vec::new();
            assert(r.deep_view() =~= Seq::<RouteView>::empty());
            r
        },
    }
}

/// `ping -c 1 -W 1 IP`: one echo request, waiting at most a second.
pub fn ping_gateway_command(ip: &str) -> (c: CommandSpec)
    ensures
        c.program@ == "ping"@,
        c.args.deep_view() == seq!["-c"@, "1"@, "-W"@, "1"@, ip@],
{
    let c = command("ping", &["-c", "1", "-W", "1", ip]);
    assert(c.args.deep_view() =~= seq!["-c"@, "1"@, "-W"@, "1"@, ip@]);
    c
}

/// The part of `s` after the first `p`, up to the next `p` (the second piece of
/// `s.split(p)`), or nothing when `p` does not occur.
pub open spec fn piece_after(s: Seq<char>, p: Seq<char>) -> Seq<char> {
    match first_occurrence(s, p) {
        Some(i) => {
            let rest = s.skip(i + p.len());
            match first_occurrence(rest, p) {
                Some(j) => rest.take(j),
                None => rest,
            }
        },
        None => seq![],
    }
}

/// The first word of `s`, or nothing.
pub open spec fn first_word(s: Seq<char>) -> Seq<char> {
    if tokens(s).len() > 0 {
        tokens(s)[0]
    } else {
        seq![]
    }
}

/// The round-trip time text of a `ping` line: the first word after `time=`.
pub open spec fn ping_time_text(line: Seq<char>) -> Seq<char> {
    first_word(piece_after(line, "time="@))
}

/// For each line of `ping` output that mentions `time=`, in order, the time text
/// that follows it.
pub open spec fn ping_time_texts(text: Seq<char>) -> Seq<Seq<char>> {
    lines(text).filter(|l: Seq<char>| contains(l, "time="@)).map_values(
        |l: Seq<char>| ping_time_text(l),
    )
}

/// The time texts of a `ping` run, in order; the round-trip time is the first
/// of them that reads as a number. None when `ping` could not run.
pub fn ping_time_candidates(output: Result<CommandOutput, String>) -> (r: Vec<String>)
    ensures
        r.deep_view() == match output {
            Ok(o) => ping_time_texts(utf8_lossy(o.stdout@)),
            Err(_) => Seq::<Seq<char>>::empty(),
        },
{
    let mut r: Vec<String> = Vec::new();
    assert(r.deep_view() =~= Seq::<Seq<char>>::empty());
    let o = match output {
        Ok(o) => o,
        Err(_) => {
            return r;
        },
    };
    let text = decode_lossy(o.stdout.as_slice());
    let pat = str_chars("time=");
    let ghost pred = |l: Seq<char>| contains(l, "time="@);
    let ghost f = |l: Seq<char>| ping_time_text(l);
    let mut pos: usize = 0;
    assert(text@.skip(0) =~= text@);
    while pos < text.len()
        invariant
            pos <= text.len(),
            pat@ == "time="@,
            pred == (|l: Seq<char>| contains(l, "time="@)),
            f == (|l: Seq<char>| ping_time_text(l)),
            r.deep_view() + lines(text@.skip(pos as int)).filter(pred).map_values(f)
                == lines(text@).filter(pred).map_values(f),
        decreases text.len() - pos,
    {
        let (line, next) = next_line(&text, pos);
        let ghost rest = lines(text@.skip(next as int));
        proof {
            lemma_filter_map_cons(line@, rest, pred, f);
        }
        let ghost before = r.deep_view();
        if contains_chars(&line, &pat) {
            let w = ping_line_time(&line, &pat);
            r.push(w);
            proof {
                assert(r.deep_view() =~= before.push(w@));
            }
        }
        pos = next;
    }
    proof {
        assert(text@.skip(pos as int).len() == 0);
        assert(lines(text@.skip(pos as int)).filter(pred).map_values(f) =~= Seq::<
            Seq<char>,
        >::empty());
        assert(r.deep_view() + Seq::<Seq<char>>::empty() =~= r.deep_view());
    }
    r
}

/// The time text of one `ping` line.
fn ping_line_time(line: &Vec<char>, pat: &Vec<char>) -> (w: String)
    requires
        pat@ == "time="@,
    ensures
        w@ == ping_time_text(line@),
{
    let piece = piece_after_chars(line, pat);
    let words = split_whitespace(&piece);
    proof {
        lemma_deep_view_chars(words);
    }
    if words.len() > 0 {
        chars_string(words[0].as_slice())
    } else {
        String::new()
    }
}

/// The second piece of `v.split(p)`.
fn piece_after_chars(v: &Vec<char>, p: &Vec<char>) -> (r: Vec<char>)
    ensures
        r@ == piece_after(v@, p@),
{
    match find_chars(v, p) {
        None => Vec::new(),
        Some(i) => {
            assert(occurs_at(v@, p@, i as int));
            let vl = v.len();
            let pl = p.len();
            assert(i + pl <= vl);
            let after = slice_chars(v, i + pl, vl);
            assert(v@.skip(i + p.len()) =~= after@);
            match find_chars(&after, p) {
                Some(j) => {
                    assert(after@.take(j as int) =~= after@.subrange(0, j as int));
                    slice_chars(&after, 0, j)
                },
                None => after,
            }
        },
    }
}

/// Filtering, then mapping, a sequence that starts with `x`.
proof fn lemma_filter_map_cons(
    x: Seq<char>,
    rest: Seq<Seq<char>>,
    p: spec_fn(Seq<char>) -> bool,
    f: spec_fn(Seq<char>) -> Seq<char>,
)
    ensures
        (seq![x] + rest).filter(p).map_values(f) == if p(x) {
            seq![f(x)] + rest.filter(p).map_values(f)
        } else {
            rest.filter(p).map_values(f)
        },
{
    seq_filter_cons(x, rest, p);
    if p(x) {
        assert((seq![x] + rest.filter(p)).map_values(f) =~= seq![f(x)] + rest.filter(
            p,
        ).map_values(f));
    }
}

/// Filtering a sequence that starts with `x`.
proof fn seq_filter_cons(x: Seq<char>, rest: Seq<Seq<char>>, p: spec_fn(Seq<char>) -> bool)
    ensures
        (seq![x] + rest).filter(p) == if p(x) {
            seq![x] + rest.filter(p)
        } else {
            rest.filter(p)
        },
{
    rest.lemma_filter_prepend(x, p);
    if p(x) {
        assert((seq![x] + rest).filter(p) =~= seq![x] + rest.filter(p));
    } else {
        assert((seq![x] + rest).filter(p) =~= rest.filter(p));
    }
}

/// `ip route add DEST via GW`; the destination carries its prefix length, so
/// the mask is not passed.
pub fn add_route_command(dest: &str, gw: &str) -> (c: CommandSpec)
    ensures
        c.program@ == "ip"@,
        c.args.deep_view() == seq!["route"@, "add"@, dest@, "via"@, gw@],
{
    let c = command("ip", &["route", "add", dest, "via", gw]);
    assert(c.args.deep_view() =~= seq!["route"@, "add"@, dest@, "via"@, gw@]);
    c
}

/// The trimmed text a command wrote to standard error.
pub fn stderr_text(o: &CommandOutput) -> (s: String)
    ensures
        s@ == trim(utf8_lossy(o.stderr@)),
{
    let text = decode_lossy(o.stderr.as_slice());
    let t = trim_chars(&text);
    chars_string(t.as_slice())
}

/// What an attempt to add a route through `gw` came to: on success the gateway
/// it is bound to, on failure what `ip` said, or why it could not run.
pub fn add_route(gw: &str, output: Result<CommandOutput, String>) -> (r: RouteResult)
    ensures
        match output {
            Ok(o) => r.success == o.success && r.message@ == if o.success {
                "已绑定到网关 "@ + gw@
            } else {
                trim(utf8_lossy(o.stderr@))
            },
            Err(e) => !r.success && r.message@ == e@,
        },
{
    match output {
        Ok(o) => {
            if o.success {
                let mut m = "已绑定到网关 ".to_owned();
                m.append(gw);
                RouteResult { success: true, message: m }
            } else {
                RouteResult { success: false, message: stderr_text(&o) }
            }
        },
        Err(e) => RouteResult { success: false, message: e },
    }
}

/// `ip route del DEST`.
pub fn delete_route_command(dest: &str) -> (c: CommandSpec)
    ensures
        c.program@ == "ip"@,
        c.args.deep_view() == seq!["route"@, "del"@, dest@],
{
    let c = command("ip", &["route", "del", dest]);
    assert(c.args.deep_view() =~= seq!["route"@, "del"@, dest@]);
    c
}

/// What an attempt to delete a route came to.
pub fn delete_route(output: Result<CommandOutput, String>) -> (r: RouteResult)
    ensures
        match output {
            Ok(o) => r.success == o.success && r.message@ == if o.success {
                "已删除"@
            } else {
                trim(utf8_lossy(o.stderr@))
            },
            Err(e) => !r.success && r.message@ == e@,
        },
{
    match output {
        Ok(o) => {
            if o.success {
                route_result(true, "已删除")
            } else {
                RouteResult { success: false, message: stderr_text(&o) }
            }
        },
        Err(e) => RouteResult { success: false, message: e },
    }
}

/// The two usual ways to flush the DNS cache, both tried:
/// `resolvectl flush-caches` and `systemd-resolve --flush-caches`.
pub fn flush_network_commands() -> (cs: Vec<CommandSpec>)
    ensures
        cs.len() == 2,
        cs@[0].program@ == "resolvectl"@,
        cs@[0].args.deep_view() == seq!["flush-caches"@],
        cs@[1].program@ == "systemd-resolve"@,
        cs@[1].args.deep_view() == seq!["--flush-caches"@],
{
    let a = command("resolvectl", &["flush-caches"]);
    let b = command("systemd-resolve", &["--flush-caches"]);
    assert(a.args.deep_view() =~= seq!["flush-caches"@]);
    assert(b.args.deep_view() =~= seq!["--flush-caches"@]);
    let mut cs: Vec<CommandSpec> = Vec::new();
    cs.push(a);
    cs.push(b);
    cs
}

/// Flushing is reported as attempted whatever the commands said.
pub fn flush_network() -> (r: RouteResult)
    ensures
        r.success,
        r.message@ == "已尝试刷新 DNS 缓存"@,
{
    route_result(true, "已尝试刷新 DNS 缓存")
}

} // verus!
