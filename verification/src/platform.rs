//! Platform identification used for storage metadata. The library targets
//! native desktop hosts, so detection is a constant; callers on other hosts
//! can construct the variants directly.

use vstd::prelude::*;

verus! {

#[derive(Debug, Clone, Copy, PartialEq, Eq, Structural)]
pub enum Platform {
    Web,
    Desktop,
    Mobile,
    Unknown,
}

impl Platform {
    /// Stable lower-case identifier of the platform.
    pub fn as_str(&self) -> (r: &'static str)
        ensures
            r@ == self.spec_str(),
    {
        match self {
            Platform::Web => "web",
            Platform::Desktop => "desktop",
            Platform::Mobile => "mobile",
            Platform::Unknown => "unknown",
        }
    }

    pub open spec fn spec_str(&self) -> Seq<char> {
        match self {
            Platform::Web => "web"@,
            Platform::Desktop => "desktop"@,
            Platform::Mobile => "mobile"@,
            Platform::Unknown => "unknown"@,
        }
    }
}

/// The platform this build runs on.
pub fn detect_platform() -> (r: Platform)
    ensures
        r == Platform::Desktop,
{
    Platform::Desktop
}

/// The current platform.
pub fn current() -> (r: Platform)
    ensures
        r == Platform::Desktop,
{
    detect_platform()
}

/// The current platform's identifier as an owned string.
pub fn platform_string() -> (r: String)
    ensures
        r@ == Platform::Desktop.spec_str(),
{
    let p = current();
    let s = p.as_str();
    s.to_owned()
}

/// Local time-zone label; desktop hosts report UTC until a richer source
/// is wired in by the caller.
pub fn timezone_string() -> (r: String)
    ensures
        r@ == "UTC"@,
{
    "UTC".to_owned()
}

/// Browser user-agent string; absent on native hosts.
pub fn user_agent_string() -> (r: Option<String>)
    ensures
        r is None,
{
    None
}

/// Client environment stamped onto persisted summaries.
#[derive(Debug, Clone)]
pub struct ClientInfo {
    pub platform: String,
    pub tz: String,
}

impl ClientInfo {
    /// Capture the current client environment.
    pub fn current() -> (r: Self)
        ensures
            r.platform@ == Platform::Desktop.spec_str(),
            r.tz@ == "UTC"@,
    {
        ClientInfo { platform: platform_string(), tz: timezone_string() }
    }
}

} // verus!
