//! Moderation: the word filter, strike and ban case listings, ban mirroring
//! into the shared ban list, and alerts about banned members.

use vstd::prelude::*;
use crate::models::{DbanList, StrikeLog};
use crate::text::{
    chars_of, contains_chars, decimal, is_substring, lower_of, push_char, push_decimal,
    to_lowercase,
};

verus! {

/// The reason recorded for a ban that came without one.
pub open spec fn no_reason() -> Seq<char> {
    "No reason provided"@
}

/// Whether one of `words` occurs in `text`.
pub open spec fn has_word(text: Seq<char>, words: Seq<String>) -> bool {
    exists|i: int| 0 <= i < words.len() && is_substring((#[trigger] words[i])@, text)
}

/// Whether one of `words` occurs in `lowered`, a message already folded to
/// lowercase.
pub fn contains_any_word(lowered: &str, words: &Vec<String>) -> (r: bool)
    ensures
        r == has_word(lowered@, words@),
{
    let text = chars_of(lowered);
    let mut i: usize = 0;
    while i < words.len()
        invariant
            i <= words@.len(),
            text@ == lowered@,
            forall|k: int| 0 <= k < i ==> !is_substring((#[trigger] words@[k])@, lowered@),
        decreases words@.len() - i,
    {
        let w = chars_of(words[i].as_str());
        if contains_chars(&text, &w) {
            return true;
        }
        i = i + 1;
    }
    false
}

/// Whether a message holds a filtered word of the global list or of the
/// guild's own list, compared against the message folded to lowercase.
pub fn contains_banned_word(
    content: &str,
    global_words: &Vec<String>,
    local_words: &Vec<String>,
) -> (r: bool)
    ensures
        r == (has_word(lower_of(content@), global_words@) || has_word(
            lower_of(content@),
            local_words@,
        )),
{
    let lowered = to_lowercase(content);
    contains_any_word(lowered.as_str(), global_words) || contains_any_word(
        lowered.as_str(),
        local_words,
    )
}

/// The change that an edit of a strike or ban case asks for.
#[derive(PartialEq, Eq, Structural, Clone, Copy, Debug)]
pub enum CaseEdit {
    /// Replace the case's reason.
    Reason,
    /// Withdraw the case.
    Withdraw,
    /// Anything else, which is refused.
    Unsupported,
}

/// The edit named by `field`, already folded to lowercase.
pub open spec fn case_edit_of(field: Seq<char>) -> CaseEdit {
    if field == "reason"@ {
        CaseEdit::Reason
    } else if field == "withdraw"@ {
        CaseEdit::Withdraw
    } else {
        CaseEdit::Unsupported
    }
}

/// The edit named by `lowered`, a field name already folded to lowercase.
pub fn case_edit_from_lowered(lowered: &str) -> (e: CaseEdit)
    ensures
        e == case_edit_of(lowered@),
{
    let s = String::from_str(lowered);
    if s == String::from_str("reason") {
        CaseEdit::Reason
    } else if s == String::from_str("withdraw") {
        CaseEdit::Withdraw
    } else {
        CaseEdit::Unsupported
    }
}

/// The edit named by `field`, in any case.
pub fn parse_case_edit(field: &str) -> (e: CaseEdit)
    ensures
        e == case_edit_of(lower_of(field@)),
{
    let lowered = to_lowercase(field);
    case_edit_from_lowered(lowered.as_str())
}

/// The decimal spelling of a signed number.
pub open spec fn signed_decimal(x: int) -> Seq<char> {
    if x < 0 {
        seq!['-'] + decimal((-x) as nat)
    } else {
        decimal(x as nat)
    }
}

/// The label of a case: `Case #<number>`.
pub open spec fn case_label(id: int) -> Seq<char> {
    "Case #"@ + signed_decimal(id)
}

/// Appends the decimal spelling of `x` to `out`.
pub fn push_signed_decimal(out: &mut String, x: i64)
    ensures
        final(out)@ == old(out)@ + signed_decimal(x as int),
{
    if x < 0 {
        push_char(out, '-');
        let magnitude: u64 = (-(x as i128)) as u64;
        push_decimal(out, magnitude);
        assert(final(out)@ =~= old(out)@ + signed_decimal(x as int));
    } else {
        push_decimal(out, x as u64);
    }
}

/// The label of case `id`.
pub fn case_title(id: i32) -> (label: String)
    ensures
        label@ == case_label(id as int),
{
    let mut label = String::from_str("Case #");
    push_signed_decimal(&mut label, id as i64);
    label
}

/// One entry of a member's strike log: the case label and the reason.
pub open spec fn strike_entry(s: StrikeLog) -> (Seq<char>, Seq<char>) {
    (case_label(s.id as int), s.reason@)
}

/// The entries of a member's strike log, one per strike, in the order given.
pub fn strike_log_fields(strikes: &Vec<StrikeLog>) -> (fields: Vec<(String, String)>)
    ensures
        fields@.len() == strikes@.len(),
        forall|i: int|
            0 <= i < fields@.len() ==> ((#[trigger] fields@[i]).0@, fields@[i].1@)
                == strike_entry(strikes@[i]),
{
    let mut fields: Vec<(String, String)> = Vec::new();
    let mut i: usize = 0;
    while i < strikes.len()
        invariant
            i <= strikes@.len(),
            fields@.len() == i,
            forall|k: int|
                0 <= k < i ==> ((#[trigger] fields@[k]).0@, fields@[k].1@) == strike_entry(
                    strikes@[k],
                ),
        decreases strikes@.len() - i,
    {
        let s = &strikes[i];
        fields.push((case_title(s.id), s.reason.clone()));
        i = i + 1;
    }
    fields
}

/// One entry of a member's ban list: the case label, and the reason, struck
/// through where the ban was withdrawn.
pub open spec fn ban_entry(b: DbanList) -> (Seq<char>, Seq<char>) {
    (
        case_label(b.id as int),
        if b.is_withdrawn {
            "~~"@ + b.reason@ + "~~"@
        } else {
            b.reason@
        },
    )
}

/// The entries of a member's ban list, one per ban, in the order given.
pub fn ban_log_fields(bans: &Vec<DbanList>) -> (fields: Vec<(String, String)>)
    ensures
        fields@.len() == bans@.len(),
        forall|i: int|
            0 <= i < fields@.len() ==> ((#[trigger] fields@[i]).0@, fields@[i].1@) == ban_entry(
                bans@[i],
            ),
{
    let mut fields: Vec<(String, String)> = Vec::new();
    let mut i: usize = 0;
    while i < bans.len()
        invariant
            i <= bans@.len(),
            fields@.len() == i,
            forall|k: int|
                0 <= k < i ==> ((#[trigger] fields@[k]).0@, fields@[k].1@) == ban_entry(bans@[k]),
        decreases bans@.len() - i,
    {
        let b = &bans[i];
        let reason = if b.is_withdrawn {
            let mut r = String::from_str("~~");
            r.append(b.reason.as_str());
            r.append("~~");
            r
        } else {
            b.reason.clone()
        };
        fields.push((case_title(b.id), reason));
        i = i + 1;
    }
    fields
}

/// The reason that a guild's ban list gives for `user_id`: that of the last
/// ban of the user that has one.
pub open spec fn ban_reason_of(bans: Seq<(u64, Option<String>)>, user_id: u64) -> Seq<char>
    decreases bans.len(),
{
    if bans.len() == 0 {
        no_reason()
    } else if bans.last().0 == user_id && bans.last().1 is Some {
        bans.last().1->0@
    } else {
        ban_reason_of(bans.drop_last(), user_id)
    }
}

/// The reason to record for a new ban of `user_id`, read from the guild's
/// ban list of (user, reason) pairs.
pub fn ban_reason(bans: &Vec<(u64, Option<String>)>, user_id: u64) -> (reason: String)
    ensures
        reason@ == ban_reason_of(bans@, user_id),
{
    let mut i: usize = bans.len();
    assert(bans@.subrange(0, i as int) =~= bans@);
    while i > 0
        invariant
            i <= bans@.len(),
            forall|k: int|
                i <= k < bans@.len() ==> !((#[trigger] bans@[k]).0 == user_id && bans@[k].1 is Some),
            ban_reason_of(bans@, user_id) == ban_reason_of(bans@.subrange(0, i as int), user_id),
        decreases i,
    {
        let b = &bans[i - 1];
        assert(bans@.subrange(0, i as int).drop_last() =~= bans@.subrange(0, i - 1));
        if b.0 == user_id {
            if let Some(r) = &b.1 {
                return r.clone();
            }
        }
        i = i - 1;
    }
    String::from_str("No reason provided")
}

/// The bans of a guild that the shared ban list lacks, each with its reason.
pub open spec fn sync_entries(listed: Seq<u64>, bans: Seq<(u64, Option<String>)>) -> Seq<
    (u64, Seq<char>),
>
    decreases bans.len(),
{
    if bans.len() == 0 {
        Seq::empty()
    } else {
        let rest = sync_entries(listed, bans.drop_last());
        let b = bans.last();
        if listed.contains(b.0) {
            rest
        } else {
            rest.push(
                (
                    b.0,
                    match b.1 {
                        Some(r) => r@,
                        None => no_reason(),
                    },
                ),
            )
        }
    }
}

/// The view of a list of (user, text) pairs.
pub open spec fn pairs_view(v: Seq<(u64, String)>) -> Seq<(u64, Seq<char>)> {
    v.map_values(|p: (u64, String)| (p.0, p.1@))
}

fn contains_id(ids: &Vec<u64>, id: u64) -> (r: bool)
    ensures
        r == ids@.contains(id),
{
    let mut i: usize = 0;
    while i < ids.len()
        invariant
            i <= ids@.len(),
            forall|k: int| 0 <= k < i ==> ids@[k] != id,
        decreases ids@.len() - i,
    {
        if ids[i] == id {
            return true;
        }
        i = i + 1;
    }
    false
}

/// The bans of a guild to add to the shared ban list: those of users that it
/// does not list yet for this guild, in the guild's order, each with its
/// reason or a note that none was given.
pub fn bans_to_sync(listed: &Vec<u64>, guild_bans: &Vec<(u64, Option<String>)>) -> (entries: Vec<
    (u64, String),
>)
    ensures
        pairs_view(entries@) == sync_entries(listed@, guild_bans@),
{
    let mut entries: Vec<(u64, String)> = Vec::new();
    let mut i: usize = 0;
    while i < guild_bans.len()
        invariant
            i <= guild_bans@.len(),
            pairs_view(entries@) == sync_entries(listed@, guild_bans@.subrange(0, i as int)),
        decreases guild_bans@.len() - i,
    {
        let b = &guild_bans[i];
        assert(guild_bans@.subrange(0, i as int + 1).drop_last() =~= guild_bans@.subrange(
            0,
            i as int,
        ));
        if !contains_id(listed, b.0) {
            let reason = match &b.1 {
                Some(r) => r.clone(),
                None => String::from_str("No reason provided"),
            };
            entries.push((b.0, reason));
            assert(pairs_view(entries@) =~= sync_entries(
                listed@,
                guild_bans@.subrange(0, i as int + 1),
            ));
        }
        i = i + 1;
    }
    assert(guild_bans@.subrange(0, i as int) =~= guild_bans@);
    entries
}

/// Where to alert a guild about a banned member joining: its moderation log
/// channel where one is set (not 0), else its system channel, if any.
pub fn alert_channel(modlogs_channel: Option<u64>, system_channel: Option<u64>) -> (c: Option<u64>)
    ensures
        c == match modlogs_channel {
            Some(id) if id != 0 => Some(id),
            _ => system_channel,
        },
{
    let configured: u64 = match modlogs_channel {
        Some(id) => id,
        None => 0,
    };
    if configured == 0 {
        system_channel
    } else {
        Some(configured)
    }
}

/// A mention of a user: `<@<id>>`.
pub open spec fn mention_of(user_id: nat) -> Seq<char> {
    "<@"@ + decimal(user_id) + ">"@
}

/// A mention of `user_id`.
pub fn mention(user_id: u64) -> (m: String)
    ensures
        m@ == mention_of(user_id as nat),
{
    let mut m = String::from_str("<@");
    push_decimal(&mut m, user_id);
    m.append(">");
    m
}

/// The slow-mode delay, in seconds, put on every text channel in raid mode.
pub const RAID_SLOW_MODE_SECONDS: u64 = 21600;

/// The slow-mode delay for text channels with raid mode on or off.
pub fn raid_slow_mode(raid_on: bool) -> (seconds: u64)
    ensures
        seconds == if raid_on {
            RAID_SLOW_MODE_SECONDS
        } else {
            0
        },
{
    if raid_on {
        RAID_SLOW_MODE_SECONDS
    } else {
        0
    }
}


/// The age line of a member's profile, from the stored age group.
pub open spec fn age_line_of(stored: Option<Seq<char>>) -> Seq<char> {
    match stored {
        None => "Unknown Age"@,
        Some(s) => if s == "Unknown Age"@ {
            s
        } else {
            s + " 18"@
        },
    }
}

/// The age line of a member's profile: the stored group followed by ` 18`,
/// or `Unknown Age`.
pub fn age_line(stored: Option<&str>) -> (line: String)
    ensures
        line@ == age_line_of(
            match stored {
                Some(s) => Some(s@),
                None => None,
            },
        ),
{
    match stored {
        None => String::from_str("Unknown Age"),
        Some(s) => {
            let mut line = String::from_str(s);
            if line == String::from_str("Unknown Age") {
                line
            } else {
                line.append(" 18");
                line
            }
        },
    }
}

/// The items, each on a line of its own.
pub open spec fn lines_of(items: Seq<String>) -> Seq<char>
    decreases items.len(),
{
    if items.len() == 0 {
        Seq::empty()
    } else {
        lines_of(items.drop_last()) + items.last()@ + "\n"@
    }
}

/// A list for a profile field: an invisible left-to-right mark, so that the
/// field is never empty, then each item on a line of its own.
pub open spec fn field_list(items: Seq<String>) -> Seq<char> {
    "\u{200E}"@ + lines_of(items)
}

/// The list of `items` for a profile field.
pub fn profile_list(items: &Vec<String>) -> (list: String)
    ensures
        list@ == field_list(items@),
{
    let mut list = String::from_str("\u{200E}");
    let mut i: usize = 0;
    while i < items.len()
        invariant
            i <= items@.len(),
            list@ == field_list(items@.subrange(0, i as int)),
        decreases items@.len() - i,
    {
        assert(items@.subrange(0, i as int + 1).drop_last() =~= items@.subrange(0, i as int));
        list.append(items[i].as_str());
        list.append("\n");
        i = i + 1;
        assert(list@ =~= field_list(items@.subrange(0, i as int)));
    }
    assert(items@.subrange(0, i as int) =~= items@);
    list
}

/// The awards shown on a profile, each with the global store that records
/// it, in the order shown.
pub open spec fn profile_awards() -> Seq<(Seq<char>, Seq<char>)> {
    seq![
        ("Eagle"@, "eagle.db"@),
        ("Summit"@, "summit.db"@),
        ("Camp Staff"@, "campstaff.db"@),
        ("YPT"@, "ypt.db"@),
        ("Ordeal"@, "ordeal.db"@),
        ("Brotherhood"@, "brotherhood.db"@),
        ("Vigil"@, "vigil.db"@),
        ("Quartermaster"@, "quartermaster.db"@),
    ]
}

/// The awards shown on a profile, each with the store that records it.
pub fn award_roles() -> (roles: Vec<(String, String)>)
    ensures
        roles@.len() == profile_awards().len(),
        forall|i: int|
            0 <= i < roles@.len() ==> (#[trigger] roles@[i]).0@ == profile_awards()[i].0
                && roles@[i].1@ == profile_awards()[i].1,
{
    let mut v: Vec<(String, String)> = Vec::new();
    v.push((String::from_str("Eagle"), String::from_str("eagle.db")));
    v.push((String::from_str("Summit"), String::from_str("summit.db")));
    v.push((String::from_str("Camp Staff"), String::from_str("campstaff.db")));
    v.push((String::from_str("YPT"), String::from_str("ypt.db")));
    v.push((String::from_str("Ordeal"), String::from_str("ordeal.db")));
    v.push((String::from_str("Brotherhood"), String::from_str("brotherhood.db")));
    v.push((String::from_str("Vigil"), String::from_str("vigil.db")));
    v.push((String::from_str("Quartermaster"), String::from_str("quartermaster.db")));
    v
}

/// The labels of the awards held, where `held[i]` tells whether the member
/// holds the `i`-th award of `profile_awards`.
pub open spec fn held_award_lines(held: Seq<bool>) -> Seq<char>
    decreases held.len(),
{
    if held.len() == 0 {
        Seq::empty()
    } else {
        let rest = held_award_lines(held.drop_last());
        if held.last() {
            rest + profile_awards()[held.len() - 1].0 + "\n"@
        } else {
            rest
        }
    }
}

/// The verified-awards field of a profile.
pub fn verified_roles(held: &Vec<bool>) -> (list: String)
    requires
        held@.len() == profile_awards().len(),
    ensures
        list@ == "\u{200E}"@ + held_award_lines(held@),
{
    let roles = award_roles();
    let mut list = String::from_str("\u{200E}");
    let mut i: usize = 0;
    while i < held.len()
        invariant
            i <= held@.len(),
            held@.len() == roles@.len(),
            roles@.len() == profile_awards().len(),
            forall|k: int|
                0 <= k < roles@.len() ==> (#[trigger] roles@[k]).0@ == profile_awards()[k].0,
            list@ == "\u{200E}"@ + held_award_lines(held@.subrange(0, i as int)),
        decreases held@.len() - i,
    {
        assert(held@.subrange(0, i as int + 1).drop_last() =~= held@.subrange(0, i as int));
        if held[i] {
            list.append(roles[i].0.as_str());
            list.append("\n");
        }
        i = i + 1;
        assert(list@ =~= "\u{200E}"@ + held_award_lines(held@.subrange(0, i as int)));
    }
    assert(held@.subrange(0, i as int) =~= held@);
    list
}

/// The standing line of a profile.
pub open spec fn standing_of(is_banned: bool) -> Seq<char> {
    if is_banned {
        "User has a current ban on a DSC member server."@
    } else {
        "User is in good standing with DSC."@
    }
}

/// The standing line of a profile, by whether the shared ban list holds the
/// member.
pub fn standing(is_banned: bool) -> (line: String)
    ensures
        line@ == standing_of(is_banned),
{
    if is_banned {
        String::from_str("User has a current ban on a DSC member server.")
    } else {
        String::from_str("User is in good standing with DSC.")
    }
}


/// The kind of a logged moderation action.
#[derive(PartialEq, Eq, Structural, Clone, Copy, Debug)]
pub enum ModActionType {
    Strike,
    BadWordDelete,
    ClearStrikes,
}

/// The label of an action kind in the moderation log.
pub open spec fn action_label(t: ModActionType) -> Seq<char> {
    match t {
        ModActionType::Strike => "Strike"@,
        ModActionType::BadWordDelete => "Word Filter"@,
        ModActionType::ClearStrikes => "Strikelog Clear"@,
    }
}

impl ModActionType {
    /// The label of this kind in the moderation log.
    pub fn label(&self) -> (l: String)
        ensures
            l@ == action_label(*self),
    {
        match self {
            ModActionType::Strike => String::from_str("Strike"),
            ModActionType::BadWordDelete => String::from_str("Word Filter"),
            ModActionType::ClearStrikes => String::from_str("Strikelog Clear"),
        }
    }
}

/// A moderation action to write to a guild's moderation log.
pub struct ModAction {
    /// The member acted on.
    pub target: u64,
    /// The name of the moderator who acted.
    pub moderator: String,
    pub action_type: ModActionType,
    pub reason: Option<String>,
    pub details: Option<String>,
    /// The guild the action was taken in.
    pub guild: u64,
}

/// A field of a log entry: name, value, and whether it sits inline.
pub open spec fn log_field(name: Seq<char>, value: Seq<char>, inline: bool) -> (
    Seq<char>,
    Seq<char>,
    bool,
) {
    (name, value, inline)
}

/// The fields of the log entry for `a`, whose target is named `target_name`:
/// user, moderator, reason (or a note that none was given), the details if
/// any, and the kind of action.
pub open spec fn mod_log_entry(a: ModAction, target_name: Seq<char>) -> Seq<
    (Seq<char>, Seq<char>, bool),
> {
    let head = seq![
        log_field("User"@, target_name, true),
        log_field("Moderator"@, a.moderator@, true),
        log_field(
            "Reason"@,
            match a.reason {
                Some(r) => r@,
                None => no_reason(),
            },
            true,
        ),
    ];
    let with_details = match a.details {
        Some(d) => head.push(log_field("Details"@, d@, true)),
        None => head,
    };
    with_details.push(log_field("Type"@, action_label(a.action_type), false))
}

/// The view of a list of log fields.
pub open spec fn fields_view(v: Seq<(String, String, bool)>) -> Seq<(Seq<char>, Seq<char>, bool)> {
    v.map_values(|f: (String, String, bool)| (f.0@, f.1@, f.2))
}

/// The fields of the moderation log entry for `action`.
pub fn mod_log_fields(action: &ModAction, target_name: &str) -> (fields: Vec<
    (String, String, bool),
>)
    ensures
        fields_view(fields@) == mod_log_entry(*action, target_name@),
{
    let mut fields: Vec<(String, String, bool)> = Vec::new();
    fields.push((String::from_str("User"), String::from_str(target_name), true));
    fields.push((String::from_str("Moderator"), action.moderator.clone(), true));
    let reason = match &action.reason {
        Some(r) => r.clone(),
        None => String::from_str("No reason provided"),
    };
    fields.push((String::from_str("Reason"), reason, true));
    match &action.details {
        Some(d) => {
            fields.push((String::from_str("Details"), d.clone(), true));
        },
        None => {},
    }
    fields.push((String::from_str("Type"), action.action_type.label(), false));
    assert(fields_view(fields@) =~= mod_log_entry(*action, target_name@));
    fields
}

} // verus!
