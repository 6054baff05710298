//! Windows: the system proxy switch (`ProxyEnable` under the current user's
//! Internet Settings key) and what reading or writing it came to.
use vstd::prelude::*;
use crate::registry::RegistryResult;

verus! {

/// What reading `ProxyEnable` came to.
pub enum ProxyRead {
    /// The Internet Settings key could not be opened; the error's text.
    OpenFailed(String),
    /// The key opened but the value could not be read as a number.
    Unreadable,
    /// The value read.
    Value(u32),
}

/// What writing `ProxyEnable` came to.
pub enum ProxyWrite {
    /// The key could not be opened for writing; the error's text.
    OpenFailed(String),
    /// The value could not be written; the error's text.
    WriteFailed(String),
    /// The value was written.
    Written,
}

/// Whether the system proxy is on: a readable non-zero value; an unreadable
/// value counts as off; a key that will not open is an error naming the cause.
pub fn get_proxy_enabled(read: ProxyRead) -> (r: Result<bool, String>)
    ensures
        match read {
            ProxyRead::OpenFailed(e) => r matches Err(m) && m@ == "Failed to open registry key: "@
                + e@,
            ProxyRead::Unreadable => r == Ok::<bool, String>(false),
            ProxyRead::Value(v) => r == Ok::<bool, String>(v != 0),
        },
{
    match read {
        ProxyRead::OpenFailed(e) => {
            let mut m = "Failed to open registry key: ".to_owned();
            m.append(e.as_str());
            Err(m)
        },
        ProxyRead::Unreadable => Ok(false),
        ProxyRead::Value(v) => Ok(v != 0),
    }
}

/// The `ProxyEnable` value that switches the proxy on or off.
pub fn proxy_enable_value(enabled: bool) -> (v: u32)
    ensures
        v == if enabled {
            1u32
        } else {
            0u32
        },
{
    if enabled {
        1
    } else {
        0
    }
}

/// What switching the proxy came to: on success which way it was switched;
/// otherwise which step failed and why.
pub fn set_proxy_enabled(enabled: bool, outcome: ProxyWrite) -> (r: RegistryResult)
    ensures
        match outcome {
            ProxyWrite::Written => r.success && r.message@ == if enabled {
                "Proxy enabled"@
            } else {
                "Proxy disabled"@
            },
            ProxyWrite::WriteFailed(e) => !r.success && r.message@
                == "Failed to set ProxyEnable: "@ + e@,
            ProxyWrite::OpenFailed(e) => !r.success && r.message@ == "Access Denied: Registry - "@
                + e@,
        },
{
    match outcome {
        ProxyWrite::Written => RegistryResult {
            success: true,
            message: if enabled {
                "Proxy enabled".to_owned()
            } else {
                "Proxy disabled".to_owned()
            },
        },
        ProxyWrite::WriteFailed(e) => {
            let mut m = "Failed to set ProxyEnable: ".to_owned();
            m.append(e.as_str());
            RegistryResult { success: false, message: m }
        },
        ProxyWrite::OpenFailed(e) => {
            let mut m = "Access Denied: Registry - ".to_owned();
            m.append(e.as_str());
            RegistryResult { success: false, message: m }
        },
    }
}

} // verus!
