//! What is said when a password cannot be kept or found in the keyring of the system.

use crate::text::{append, has_part, owned, text_has_part};
use vstd::prelude::*;

verus! {

/// The name under which the passwords of servers are kept.
pub const OPENSUBSONIC_SERVICE_NAME: &'static str = "roqtune.backend.opensubsonic";

/// What the user can do about an error, if something is known to help.
pub open spec fn hint_for(error: Seq<char>) -> Option<Seq<char>> {
    if has_part(error, "org.freedesktop.DBus.Error.ServiceUnknown"@) {
        Some(
            "no Secret Service provider is available. Start GNOME Keyring or KeePassXC Secret Service. In Flatpak, ensure the app has `--talk-name=org.freedesktop.secrets`."@,
        )
    } else {
        None
    }
}

/// The message for an operation that failed.
pub open spec fn keyring_failure(
    operation: Seq<char>,
    profile_id: Seq<char>,
    error: Seq<char>,
) -> Seq<char> {
    let base = operation + " failed in system keyring for profile '"@ + profile_id + "': "@ + error;
    match hint_for(error) {
        Some(hint) => base + ". Hint: "@ + hint,
        None => base,
    }
}

/// What the user can do about an error.
pub fn keyring_error_hint(error: &str) -> (r: Option<String>)
    ensures
        (match r {
            Some(hint) => Some(hint@),
            None => None,
        }) == hint_for(error@),
{
    if text_has_part(error, "org.freedesktop.DBus.Error.ServiceUnknown") {
        Some(
            owned(
                "no Secret Service provider is available. Start GNOME Keyring or KeePassXC Secret Service. In Flatpak, ensure the app has `--talk-name=org.freedesktop.secrets`.",
            ),
        )
    } else {
        None
    }
}

/// The message for an operation that failed.
pub fn format_keyring_error(operation: &str, profile_id: &str, error: &str) -> (r: String)
    ensures
        r@ == keyring_failure(operation@, profile_id@, error@),
{
    let mut out = owned(operation);
    append(&mut out, " failed in system keyring for profile '");
    append(&mut out, profile_id);
    append(&mut out, "': ");
    append(&mut out, error);
    match keyring_error_hint(error) {
        Some(hint) => {
            append(&mut out, ". Hint: ");
            append(&mut out, hint.as_str());
        },
        None => {},
    }
    out
}

/// The message where the keyring gives no entry for a profile.
pub fn entry_failure(profile_id: &str, error: &str) -> (r: String)
    ensures
        r@ == "failed to create keyring entry for profile '"@ + profile_id@ + "': "@ + error@,
{
    let mut out = owned("failed to create keyring entry for profile '");
    append(&mut out, profile_id);
    append(&mut out, "': ");
    append(&mut out, error);
    out
}

/// What comes of saving a password.
pub fn password_saved(profile_id: &str, result: Result<(), String>) -> (r: Result<(), String>)
    ensures
        match result {
            Ok(_) => r is Ok,
            Err(e) => r is Err && r->Err_0@ == keyring_failure(
                "save OpenSubsonic credential"@,
                profile_id@,
                "failed to set keyring password: "@ + e@,
            ),
        },
{
    match result {
        Ok(_) => Ok(()),
        Err(error) => {
            let mut detail = owned("failed to set keyring password: ");
            append(&mut detail, error.as_str());
            Err(format_keyring_error("save OpenSubsonic credential", profile_id, detail.as_str()))
        },
    }
}

/// What the keyring says when it is asked for a password.
#[derive(Debug, PartialEq, Eq)]
pub enum KeyringReply {
    Found(String),
    NoEntry,
    Failed(String),
}

/// What comes of asking for a password.
pub fn password_loaded(profile_id: &str, reply: KeyringReply) -> (r: Result<Option<String>, String>)
    ensures
        match reply {
            KeyringReply::Found(password) => r is Ok && r->Ok_0 is Some && r->Ok_0->Some_0@
                == password@,
            KeyringReply::NoEntry => r is Ok && r->Ok_0 is None,
            KeyringReply::Failed(e) => r is Err && r->Err_0@ == keyring_failure(
                "load OpenSubsonic credential"@,
                profile_id@,
                "failed to get keyring password: "@ + e@,
            ),
        },
{
    match reply {
        KeyringReply::Found(password) => Ok(Some(password)),
        KeyringReply::NoEntry => Ok(None),
        KeyringReply::Failed(error) => {
            let mut detail = owned("failed to get keyring password: ");
            append(&mut detail, error.as_str());
            Err(format_keyring_error("load OpenSubsonic credential", profile_id, detail.as_str()))
        },
    }
}

/// What the keyring answers to a deletion.
#[derive(Debug, PartialEq, Eq)]
pub enum KeyringDeletion {
    Deleted,
    NoEntry,
    Failed(String),
}

/// What comes of deleting a password; one that is not there counts as deleted.
pub fn password_deleted(reply: KeyringDeletion) -> (r: Result<(), String>)
    ensures
        match reply {
            KeyringDeletion::Failed(e) => r is Err && r->Err_0@
                == "failed to delete keyring password: "@ + e@,
            _ => r is Ok,
        },
{
    match reply {
        KeyringDeletion::Deleted => Ok(()),
        KeyringDeletion::NoEntry => Ok(()),
        KeyringDeletion::Failed(error) => {
            let mut out = owned("failed to delete keyring password: ");
            append(&mut out, error.as_str());
            Err(out)
        },
    }
}

/// A failure of the keyring says what failed, for which profile and why; where no keyring runs,
/// it says in addition what to do.
pub proof fn keyring_failures_say_why(
    operation: Seq<char>,
    profile_id: Seq<char>,
    error: Seq<char>,
)
    ensures
        ({
            let base = operation + " failed in system keyring for profile '"@ + profile_id
                + "': "@ + error;
            let told = keyring_failure(operation, profile_id, error);
            &&& has_part(error, "org.freedesktop.DBus.Error.ServiceUnknown"@) ==> told.len()
                > base.len() && told.take(base.len() as int) == base
            &&& !has_part(error, "org.freedesktop.DBus.Error.ServiceUnknown"@) ==> told == base
        }),
{
    reveal_strlit(". Hint: ");
    assert(". Hint: "@.len() == 8);
    let base = operation + " failed in system keyring for profile '"@ + profile_id + "': "@
        + error;
    if let Some(hint) = hint_for(error) {
        assert((base + ". Hint: "@ + hint).take(base.len() as int) =~= base);
    }
}

} // verus!
