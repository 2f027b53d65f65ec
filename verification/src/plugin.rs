//! The plugin that ties the library into an application framework.
use vstd::prelude::*;

verus! {

/// Plugin configuration.
#[derive(Clone, Copy, Debug, PartialEq, Eq, Structural)]
pub struct BlewPluginConfig {
    /// If `true` (default), Android BLE runtime permissions are requested
    /// immediately when the plugin loads. Set to `false` to defer the request
    /// so your app can show an explanation modal first, then call
    /// [`request_ble_permissions`] when the user is ready.
    pub auto_request_permissions: bool,
}

impl Default for BlewPluginConfig {
    fn default() -> (config: Self)
        ensures
            config.auto_request_permissions,
    {
        BlewPluginConfig { auto_request_permissions: true }
    }
}

/// Where the application runs.
#[derive(Clone, Copy, Debug, PartialEq, Eq, Structural)]
pub enum Host {
    Android,
    Ios,
    /// Any platform that is not mobile.
    Desktop,
}

/// Check whether Android BLE runtime permissions have been granted, from what
/// the Kotlin side answered.
///
/// Always `true` on non-Android platforms.
pub fn are_ble_permissions_granted(host: Host, answer: Option<bool>) -> (granted: bool)
    ensures
        granted == (host != Host::Android || answer == Some(true)),
{
    match host {
        Host::Android => crate::platform::android::are_ble_permissions_granted(answer),
        Host::Ios => true,
        Host::Desktop => true,
    }
}

/// Whether asking for the permissions shows the Android permissions dialog: it
/// does nothing on other platforms.
pub fn request_ble_permissions(host: Host) -> (shows_dialog: bool)
    ensures
        shows_dialog == (host == Host::Android),
{
    match host {
        Host::Android => true,
        Host::Ios => false,
        Host::Desktop => false,
    }
}

/// Check whether the app is running on an emulator or simulator: by the
/// fingerprint of the build on Android, by whether a simulated device is named
/// on iOS.
///
/// Always `false` on non-mobile platforms.
pub fn is_emulator(host: Host, fingerprint: Option<&str>, simulator_named: bool) -> (emulator: bool)
    ensures
        emulator == (match host {
            Host::Android => fingerprint matches Some(text)
                && crate::platform::android::emulator_fingerprint(text@),
            Host::Ios => simulator_named,
            Host::Desktop => false,
        }),
{
    match host {
        Host::Android => crate::platform::android::is_emulator(fingerprint),
        Host::Ios => simulator_named,
        Host::Desktop => false,
    }
}

} // verus!
