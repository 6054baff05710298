//! The configuration guide: which proxy tool it is shown for, when a copy was
//! made, and the configuration snippets that keep the proxy away from internal
//! networks.
use vstd::prelude::*;
use crate::text::{starts_with, starts_with_chars, str_chars};

verus! {

/// The proxy tools the guide has snippets for.
#[derive(Debug, Clone, Copy, PartialEq, Eq, Structural)]
pub enum ConfigTool {
    FlClash,
    ClashVerge,
}

#[verifier::external_type_specification]
#[verifier::external_body]
pub struct ExInstant(std::time::Instant);

/// The current instant of the monotonic clock (`Instant::now`).
#[verifier::external_body]
fn instant_now() -> (t: std::time::Instant) {
    std::time::Instant::now()
}

/// The time elapsed since an instant (`Instant::elapsed`). It depends on the
/// clock, so nothing is said of it.
#[verifier::external_body]
fn elapsed_since(t: &std::time::Instant) -> (d: std::time::Duration) {
    t.elapsed()
}

/// The whole milliseconds of a duration (`Duration::as_millis`). A duration is
/// opaque here, so nothing is said of the number.
#[verifier::external_body]
fn whole_millis(d: &std::time::Duration) -> (ms: u128) {
    d.as_millis()
}

/// For how long after a copy the snippet stays highlighted, in milliseconds.
pub const HIGHLIGHT_MILLIS: u128 = 800;

/// The guide's state: when its snippet was last copied, and the tool shown.
pub struct CheatsheetState {
    pub last_copy_time: Option<std::time::Instant>,
    pub active_tool: ConfigTool,
}

impl Default for CheatsheetState {
    fn default() -> (s: Self)
        ensures
            s.last_copy_time is None,
            s.active_tool == ConfigTool::FlClash,
    {
        CheatsheetState { last_copy_time: None, active_tool: ConfigTool::FlClash }
    }
}

/// Whether a copy made `elapsed_ms` milliseconds ago is still highlighted.
pub fn highlight_after(elapsed_ms: u128) -> (b: bool)
    ensures
        b == (elapsed_ms < HIGHLIGHT_MILLIS),
{
    elapsed_ms < HIGHLIGHT_MILLIS
}

impl CheatsheetState {
    /// Whether the last copy is recent enough to be highlighted; never without
    /// a copy. How long ago the copy was depends on the clock: the answer is
    /// `highlight_after` of the milliseconds elapsed since it.
    pub fn is_highlight_active(&self) -> (b: bool)
        ensures
            b ==> self.last_copy_time is Some,
    {
        match &self.last_copy_time {
            Some(t) => highlight_after(whole_millis(&elapsed_since(t))),
            None => false,
        }
    }

    /// Records a copy made now; the tool shown does not change.
    pub fn mark_copied(&mut self)
        ensures
            final(self).last_copy_time is Some,
            final(self).active_tool == old(self).active_tool,
    {
        self.last_copy_time = Some(instant_now());
    }
}

/// The internal address range the snippets exclude: `10.0.0.0/8` for a target
/// in `10.` or none given, otherwise the target with `/8`.
pub open spec fn target_range(dest: Seq<char>) -> Seq<char> {
    if starts_with(dest, "10."@) || dest.len() == 0 {
        "10.0.0.0/8"@
    } else {
        dest + "/8"@
    }
}

/// The internal address range for a target address.
pub fn target_range_text(dest: &str) -> (r: String)
    ensures
        r@ == target_range(dest@),
{
    let d = str_chars(dest);
    let ten = str_chars("10.");
    if starts_with_chars(&d, &ten) || d.len() == 0 {
        "10.0.0.0/8".to_owned()
    } else {
        let mut r = dest.to_owned();
        r.append("/8");
        r
    }
}

/// A double-quoted YAML list item on its own line.
pub open spec fn quoted_item(item: Seq<char>) -> Seq<char> {
    "  - \""@ + item + "\"\n"@
}

fn push_quoted_item(c: &mut String, item: &str)
    ensures
        final(c)@ == old(c)@ + quoted_item(item@),
{
    c.append("  - \"");
    c.append(item);
    c.append("\"\n");
    assert(final(c)@ =~= old(c)@ + quoted_item(item@));
}

/// The FlClash fake-IP filter: the internal domains, the internal range,
/// `192.168.*`, and local names.
pub open spec fn flclash_config(dest: Seq<char>) -> Seq<char> {
    "fake-ip-filter:\n"@ + quoted_item("*.sinopec.com"@) + quoted_item("sinopec.com"@)
        + quoted_item("+.sinopec.com"@) + quoted_item("*.internal.company.com"@) + quoted_item(
        target_range(dest),
    ) + quoted_item("192.168.*"@) + quoted_item("+.local"@) + quoted_item("+.lan"@)
}

/// Builds the FlClash fake-IP filter for a target address.
pub fn generate_config(target_dest: &str) -> (s: String)
    ensures
        s@ == flclash_config(target_dest@),
{
    let r = target_range_text(target_dest);
    let mut c = "fake-ip-filter:\n".to_owned();
    push_quoted_item(&mut c, "*.sinopec.com");
    push_quoted_item(&mut c, "sinopec.com");
    push_quoted_item(&mut c, "+.sinopec.com");
    push_quoted_item(&mut c, "*.internal.company.com");
    push_quoted_item(&mut c, r.as_str());
    push_quoted_item(&mut c, "192.168.*");
    push_quoted_item(&mut c, "+.local");
    push_quoted_item(&mut c, "+.lan");
    c
}

/// The Clash Verge global extension override: DNS servers, a fallback filter
/// and name-server policy keeping the internal domains on the internal DNS, and
/// a fake-IP filter; the internal range appears in the fallback filter's
/// address list and in the fake-IP filter.
pub open spec fn clash_verge_config(dest: Seq<char>) -> Seq<char> {
    let r = target_range(dest);
    "profile:\n  store-selected: true\n\ndns:\n  enable: true\n\n"@
        + "  # 默认使用的公网 DNS（解析绝大多数公网域名）\n"@
        + "  nameserver:\n    - 223.5.5.5\n    - 119.29.29.29\n\n"@
        + "  # 备用 DNS（可以设置为 TLS 加密的公共 DNS，防止污染）\n"@
        + "  fallback:\n    - tls://1.1.1.1\n    - https://dns.alidns.com/dns-query\n\n"@
        + "  # fallback 过滤规则：只对特定情况进行 fallback，避免内网 DNS 干扰\n"@
        + "  fallback-filter:\n    geoip: true\n    geoip-code: CN\n    domain:\n"@
        + "      - '+.sinopec.com'\n      - '+.internal.company.com'\n    ipcidr:\n"@
        + "      - "@
        + r
        + "\n"@
        + "      - 192.168.0.0/16\n      - 172.16.0.0/12\n\n"@
        + "  # 🔥 关键：强制指定“内网域名”只使用“内网 DNS”\n"@
        + "  nameserver-policy:\n    '+.sinopec.com': 10.107.11.4\n    '+.internal.company.com': 10.107.11.4\n\n"@
        + "  # fake-ip 白名单（这些域名返回真实 IP）\n"@
        + "  fake-ip-filter:\n    - '+.sinopec.com'\n    - '*.internal.company.com'\n    - '+.quantum-air.xyz'\n"@
        + "    - '"@
        + r
        + "'\n"@
        + "    - '192.168.0.0/16'\n    - '+.local'\n    - '+.lan'\n"@
}

/// Builds the Clash Verge override for a target address.
pub fn generate_clash_verge_config(target_dest: &str) -> (s: String)
    ensures
        s@ == clash_verge_config(target_dest@),
{
    let r = target_range_text(target_dest);
    let mut c = "profile:\n  store-selected: true\n\ndns:\n  enable: true\n\n".to_owned();
    c.append("  # 默认使用的公网 DNS（解析绝大多数公网域名）\n");
    c.append("  nameserver:\n    - 223.5.5.5\n    - 119.29.29.29\n\n");
    c.append("  # 备用 DNS（可以设置为 TLS 加密的公共 DNS，防止污染）\n");
    c.append("  fallback:\n    - tls://1.1.1.1\n    - https://dns.alidns.com/dns-query\n\n");
    c.append("  # fallback 过滤规则：只对特定情况进行 fallback，避免内网 DNS 干扰\n");
    c.append("  fallback-filter:\n    geoip: true\n    geoip-code: CN\n    domain:\n");
    c.append("      - '+.sinopec.com'\n      - '+.internal.company.com'\n    ipcidr:\n");
    c.append("      - ");
    c.append(r.as_str());
    c.append("\n");
    c.append("      - 192.168.0.0/16\n      - 172.16.0.0/12\n\n");
    c.append("  # 🔥 关键：强制指定“内网域名”只使用“内网 DNS”\n");
    c.append("  nameserver-policy:\n    '+.sinopec.com': 10.107.11.4\n    '+.internal.company.com': 10.107.11.4\n\n");
    c.append("  # fake-ip 白名单（这些域名返回真实 IP）\n");
    c.append("  fake-ip-filter:\n    - '+.sinopec.com'\n    - '*.internal.company.com'\n    - '+.quantum-air.xyz'\n");
    c.append("    - '");
    c.append(r.as_str());
    c.append("'\n");
    c.append("    - '192.168.0.0/16'\n    - '+.local'\n    - '+.lan'\n");
    c
}

/// The FlClash filter up to the internal range.
pub open spec fn flclash_before_range() -> Seq<char> {
    "fake-ip-filter:\n"@ + quoted_item("*.sinopec.com"@) + quoted_item("sinopec.com"@)
        + quoted_item("+.sinopec.com"@) + quoted_item("*.internal.company.com"@) + "  - \""@
}

/// The FlClash filter after the internal range.
pub open spec fn flclash_after_range() -> Seq<char> {
    "\"\n"@ + quoted_item("192.168.*"@) + quoted_item("+.local"@) + quoted_item("+.lan"@)
}

/// The Clash Verge override up to the first occurrence of the internal range.
pub open spec fn clash_verge_before_range() -> Seq<char> {
    "profile:\n  store-selected: true\n\ndns:\n  enable: true\n\n"@
        + "  # 默认使用的公网 DNS（解析绝大多数公网域名）\n"@
        + "  nameserver:\n    - 223.5.5.5\n    - 119.29.29.29\n\n"@
        + "  # 备用 DNS（可以设置为 TLS 加密的公共 DNS，防止污染）\n"@
        + "  fallback:\n    - tls://1.1.1.1\n    - https://dns.alidns.com/dns-query\n\n"@
        + "  # fallback 过滤规则：只对特定情况进行 fallback，避免内网 DNS 干扰\n"@
        + "  fallback-filter:\n    geoip: true\n    geoip-code: CN\n    domain:\n"@
        + "      - '+.sinopec.com'\n      - '+.internal.company.com'\n    ipcidr:\n"@
        + "      - "@
}

/// The Clash Verge override between the two occurrences of the internal range.
pub open spec fn clash_verge_between_ranges() -> Seq<char> {
    "\n"@
        + "      - 192.168.0.0/16\n      - 172.16.0.0/12\n\n"@
        + "  # 🔥 关键：强制指定“内网域名”只使用“内网 DNS”\n"@
        + "  nameserver-policy:\n    '+.sinopec.com': 10.107.11.4\n    '+.internal.company.com': 10.107.11.4\n\n"@
        + "  # fake-ip 白名单（这些域名返回真实 IP）\n"@
        + "  fake-ip-filter:\n    - '+.sinopec.com'\n    - '*.internal.company.com'\n    - '+.quantum-air.xyz'\n"@
        + "    - '"@
}

/// The Clash Verge override after the second occurrence of the internal range.
pub open spec fn clash_verge_after_ranges() -> Seq<char> {
    "'\n"@ + "    - '192.168.0.0/16'\n    - '+.local'\n    - '+.lan'\n"@
}

/// The snippets depend on the target only through its internal range: each is
/// the same text with the range put in (once in the FlClash filter, twice in
/// the Clash Verge override). A target in `10.`, or none, gives the snippets of
/// `10.0.0.0`, whose range is `10.0.0.0/8`; any other target gives them with
/// `10.0.0.0/8` replaced by the target followed by `/8`.
pub proof fn lemma_snippets_follow_range(t: Seq<char>)
    ensures
        flclash_config(t) == flclash_before_range() + target_range(t) + flclash_after_range(),
        clash_verge_config(t) == clash_verge_before_range() + target_range(t)
            + clash_verge_between_ranges() + target_range(t) + clash_verge_after_ranges(),
        target_range("10.0.0.0"@) == "10.0.0.0/8"@,
        starts_with(t, "10."@) || t.len() == 0 ==> target_range(t) == "10.0.0.0/8"@
            && flclash_config(t) == flclash_config("10.0.0.0"@) && clash_verge_config(t)
            == clash_verge_config("10.0.0.0"@),
        !(starts_with(t, "10."@) || t.len() == 0) ==> target_range(t) == t + "/8"@,
{
    reveal_strlit("10.0.0.0");
    reveal_strlit("10.");
    assert(starts_with("10.0.0.0"@, "10."@)) by {
        assert("10.0.0.0"@.take(3) =~= "10."@);
    }
    assert forall|d: Seq<char>| #![auto]
        flclash_config(d) == flclash_before_range() + target_range(d) + flclash_after_range() by {
        assert(flclash_config(d) =~= flclash_before_range() + target_range(d) + flclash_after_range());
    }
    assert forall|d: Seq<char>| #![auto]
        clash_verge_config(d) == clash_verge_before_range() + target_range(d)
            + clash_verge_between_ranges() + target_range(d) + clash_verge_after_ranges() by {
        assert(clash_verge_config(d) =~= clash_verge_before_range() + target_range(d)
            + clash_verge_between_ranges() + target_range(d) + clash_verge_after_ranges());
    }
}

/// The snippet shown for a tool.
pub fn current_config(tool: ConfigTool, target_dest: &str) -> (s: String)
    ensures
        s@ == match tool {
            ConfigTool::FlClash => flclash_config(target_dest@),
            ConfigTool::ClashVerge => clash_verge_config(target_dest@),
        },
{
    match tool {
        ConfigTool::FlClash => generate_config(target_dest),
        ConfigTool::ClashVerge => generate_clash_verge_config(target_dest),
    }
}

} // verus!
