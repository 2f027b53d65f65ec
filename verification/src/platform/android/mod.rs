//! The Android backend.
use crate::error::{BlewError, BlewResult};
use crate::text::{contains_text, lowercase_text};
use vstd::prelude::*;

pub mod central;
pub mod jni_globals;
pub mod jni_hooks;
pub mod l2cap_state;
pub mod peripheral;
pub mod services_json;

verus! {

/// The fingerprint of a build for an emulator.
pub open spec fn emulator_fingerprint(fingerprint: Seq<char>) -> bool {
    let lower = crate::text::lowercase(fingerprint);
    ||| crate::text::occurs("generic"@, lower)
    ||| crate::text::occurs("emulator"@, lower)
    ||| crate::text::occurs("sdk"@, lower)
}

/// Check whether the app is running on an Android emulator, from the build's
/// fingerprint; one that cannot be read is no emulator's.
#[must_use]
pub fn is_emulator(fingerprint: Option<&str>) -> (emulator: bool)
    ensures
        emulator == (fingerprint matches Some(text) && emulator_fingerprint(text@)),
{
    match fingerprint {
        None => false,
        Some(text) => {
            let lower = lowercase_text(text);
            contains_text(lower.as_str(), "generic") || contains_text(lower.as_str(), "emulator")
                || contains_text(lower.as_str(), "sdk")
        },
    }
}

/// Check whether Android BLE runtime permissions have been granted, from what
/// the Kotlin side answered; where it could not be asked, they are not.
#[must_use]
pub fn are_ble_permissions_granted(answer: Option<bool>) -> (granted: bool)
    ensures
        granted == (answer == Some(true)),
{
    match answer {
        Some(granted) => granted,
        None => false,
    }
}

/// Whether a role may be constructed: the JVM is registered and the
/// permissions are granted.
pub fn may_construct(
    globals: &jni_globals::JniGlobals,
    permissions: Option<bool>,
) -> (result: BlewResult<()>)
    ensures
        match result {
            Ok(_) => globals.jvm && globals.central_class && globals.peripheral_class
                && permissions == Some(true),
            Err(e) => if !(globals.jvm && globals.central_class && globals.peripheral_class) {
                e@ == crate::error::ErrorView::NotInitialized
            } else {
                e@ == crate::error::ErrorView::PermissionDenied && permissions != Some(true)
            },
        },
{
    if !jni_globals::is_initialized(globals) {
        return Err(BlewError::NotInitialized);
    }
    if !are_ble_permissions_granted(permissions) {
        return Err(BlewError::PermissionDenied);
    }
    Ok(())
}

/// A build is an emulator's exactly where the lower-case form of its fingerprint
/// holds one of three words, wherever that stands.
pub proof fn law_emulators_are_told_by_their_words(
    fingerprint: Seq<char>,
    before: Seq<char>,
    after: Seq<char>,
)
    ensures
        crate::text::lowercase(fingerprint) == before + "generic"@ + after
            ==> emulator_fingerprint(fingerprint),
        crate::text::lowercase(fingerprint) == before + "emulator"@ + after
            ==> emulator_fingerprint(fingerprint),
        crate::text::lowercase(fingerprint) == before + "sdk"@ + after ==> emulator_fingerprint(
            fingerprint,
        ),
        emulator_fingerprint(fingerprint) ==> exists|a: Seq<char>, word: Seq<char>, b: Seq<char>|
            (word == "generic"@ || word == "emulator"@ || word == "sdk"@) && crate::text::lowercase(
                fingerprint,
            ) == #[trigger] (a + word + b),
{
    let lower = crate::text::lowercase(fingerprint);
    crate::text::law_a_part_occurs(before, "generic"@, after, lower);
    crate::text::law_a_part_occurs(before, "emulator"@, after, lower);
    crate::text::law_a_part_occurs(before, "sdk"@, after, lower);
}

} // verus!
