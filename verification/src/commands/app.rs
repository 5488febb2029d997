//! The application's identity.

use vstd::prelude::*;
use crate::text::owned;

verus! {

/// The application's name and version.
#[derive(Debug, Clone)]
pub struct AppInfo {
    pub name: String,
    pub version: String,
}

/// The application's information for its package version.
pub fn app_info(version: &str) -> (r: AppInfo)
    ensures
        r.name@ == "Jetson Remote"@,
        r.version@ == version@,
{
    AppInfo { name: owned("Jetson Remote"), version: owned(version) }
}

/// The answer of the health check.
pub fn health_check() -> (r: &'static str)
    ensures
        r@ == "ok"@,
{
    "ok"
}

} // verus!
