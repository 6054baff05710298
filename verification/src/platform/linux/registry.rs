//! Linux: the system proxy cannot be switched from this program.
use vstd::prelude::*;
use crate::registry::RegistryResult;

verus! {

/// Why the proxy switch is refused on Linux.
pub open spec fn unsupported_message() -> Seq<char> {
    "Linux 下暂不支持通过应用修改系统代理。"@
}

/// Switching the system proxy is not supported: always a failure that says so.
pub fn set_proxy_enabled(enabled: bool) -> (r: RegistryResult)
    ensures
        !r.success,
        r.message@ == unsupported_message(),
{
    RegistryResult { success: false, message: "Linux 下暂不支持通过应用修改系统代理。".to_owned() }
}

} // verus!
