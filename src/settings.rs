//! Per-guild settings.

use vstd::prelude::*;
use crate::text::{chars_of, contains_chars, is_substring, lower_of, to_lowercase};

verus! {

/// What kind of value a setting holds, told by its name.
#[derive(PartialEq, Eq, Structural, Clone, Copy, Debug)]
pub enum SettingKind {
    /// A role id: the name mentions `role`.
    Role,
    /// A channel id: the name mentions `channel` and not `role`.
    Channel,
    /// Neither.
    Unknown,
}

/// The kind of the setting named `lowered`, a name folded to lowercase.
pub open spec fn setting_kind_of(lowered: Seq<char>) -> SettingKind {
    if is_substring("role"@, lowered) {
        SettingKind::Role
    } else if is_substring("channel"@, lowered) {
        SettingKind::Channel
    } else {
        SettingKind::Unknown
    }
}

/// The kind of the setting named `lowered`, a name already folded to
/// lowercase.
pub fn setting_kind_from_lowered(lowered: &str) -> (k: SettingKind)
    ensures
        k == setting_kind_of(lowered@),
{
    let text = chars_of(lowered);
    if contains_chars(&text, &chars_of("role")) {
        SettingKind::Role
    } else if contains_chars(&text, &chars_of("channel")) {
        SettingKind::Channel
    } else {
        SettingKind::Unknown
    }
}

/// The kind of the setting `name`, in any case.
pub fn setting_kind(name: &str) -> (k: SettingKind)
    ensures
        k == setting_kind_of(lower_of(name@)),
{
    let lowered = to_lowercase(name);
    setting_kind_from_lowered(lowered.as_str())
}

/// The settings of a new guild, each with its value: no moderation log
/// channel (0).
pub fn init_guild_settings() -> (settings: Vec<(String, u64)>)
    ensures
        settings@.len() == 1,
        settings@[0].0@ == "modlogs_channel"@,
        settings@[0].1 == 0,
{
    let mut settings: Vec<(String, u64)> = Vec::new();
    settings.push((String::from_str("modlogs_channel"), 0));
    settings
}

} // verus!
