use dscbot::dispatch::{not_enough_arguments_message, too_many_arguments_message};
use dscbot::models::{DbanList, StrikeLog};
use dscbot::moderation::{
    age_line, alert_channel, ban_log_fields, ban_reason, bans_to_sync, case_title,
    contains_banned_word, mention, mod_log_fields, parse_case_edit, profile_list, raid_slow_mode,
    standing, strike_log_fields, verified_roles, CaseEdit, ModAction, ModActionType,
};
use dscbot::settings::{init_guild_settings, setting_kind, SettingKind};

fn words(ws: &[&str]) -> Vec<String> {
    ws.iter().map(|w| w.to_string()).collect()
}

#[test]
fn banned_words_ignore_case() {
    let global = words(&["darn"]);
    let local = words(&["heck"]);
    assert!(contains_banned_word("Well DARN it", &global, &local));
    assert!(contains_banned_word("what the HeCk", &global, &local));
    assert!(!contains_banned_word("all good here", &global, &local));
    assert!(!contains_banned_word("anything", &vec![], &vec![]));
}

#[test]
fn case_edits() {
    assert_eq!(parse_case_edit("Reason"), CaseEdit::Reason);
    assert_eq!(parse_case_edit("WITHDRAW"), CaseEdit::Withdraw);
    assert_eq!(parse_case_edit("moderator"), CaseEdit::Unsupported);
}

#[test]
fn case_listings() {
    assert_eq!(case_title(12), "Case #12");
    assert_eq!(case_title(-3), "Case #-3");
    let strikes = vec![StrikeLog { id: 4, moderator: String::from("1"), reason: String::from("spam") }];
    assert_eq!(strike_log_fields(&strikes), vec![(String::from("Case #4"), String::from("spam"))]);
    let bans = vec![
        DbanList { id: 1, reason: String::from("raid"), is_withdrawn: true },
        DbanList { id: 2, reason: String::from("slurs"), is_withdrawn: false },
    ];
    assert_eq!(
        ban_log_fields(&bans),
        vec![
            (String::from("Case #1"), String::from("~~raid~~")),
            (String::from("Case #2"), String::from("slurs")),
        ]
    );
}

#[test]
fn ban_reasons() {
    let bans = vec![
        (1u64, Some(String::from("first"))),
        (2u64, Some(String::from("other"))),
        (1u64, Some(String::from("second"))),
        (1u64, None),
    ];
    assert_eq!(ban_reason(&bans, 1), "second");
    assert_eq!(ban_reason(&bans, 3), "No reason provided");
}

#[test]
fn ban_sync() {
    let listed = vec![2u64];
    let guild_bans = vec![(1u64, None), (2u64, Some(String::from("known"))), (3u64, Some(String::from("spam")))];
    assert_eq!(
        bans_to_sync(&listed, &guild_bans),
        vec![(1u64, String::from("No reason provided")), (3u64, String::from("spam"))]
    );
    assert_eq!(bans_to_sync(&vec![], &guild_bans).len(), 3);
}

#[test]
fn alert_channels() {
    assert_eq!(alert_channel(Some(5), Some(7)), Some(5));
    assert_eq!(alert_channel(Some(0), Some(7)), Some(7));
    assert_eq!(alert_channel(None, None), None);
}

#[test]
fn profile_fields() {
    assert_eq!(age_line(Some("Over")), "Over 18");
    assert_eq!(age_line(None), "Unknown Age");
    assert_eq!(profile_list(&words(&["Helper", "Artist"])), "\u{200E}Helper\nArtist\n");
    assert_eq!(profile_list(&vec![]), "\u{200E}");
    let held = vec![true, false, false, true, false, false, false, true];
    assert_eq!(verified_roles(&held), "\u{200E}Eagle\nYPT\nQuartermaster\n");
    assert_eq!(standing(false), "User is in good standing with DSC.");
}

#[test]
fn mentions_and_raid() {
    assert_eq!(mention(42), "<@42>");
    assert_eq!(raid_slow_mode(true), 21600);
    assert_eq!(raid_slow_mode(false), 0);
}

#[test]
fn mod_log_entry() {
    let action = ModAction {
        target: 1,
        moderator: String::from("mod"),
        action_type: ModActionType::ClearStrikes,
        reason: None,
        details: Some(String::from("all of them")),
        guild: 2,
    };
    let fields = mod_log_fields(&action, "target");
    assert_eq!(fields.len(), 5);
    assert_eq!(fields[2], (String::from("Reason"), String::from("No reason provided"), true));
    assert_eq!(fields[3], (String::from("Details"), String::from("all of them"), true));
    assert_eq!(fields[4], (String::from("Type"), String::from("Strikelog Clear"), false));
}

#[test]
fn settings_kinds() {
    assert_eq!(setting_kind("QOTD_Role"), SettingKind::Role);
    assert_eq!(setting_kind("modlogs_CHANNEL"), SettingKind::Channel);
    assert_eq!(setting_kind("prefix"), SettingKind::Unknown);
    let defaults = init_guild_settings();
    assert_eq!(defaults, vec![(String::from("modlogs_channel"), 0u64)]);
}

#[test]
fn dispatch_replies() {
    assert_eq!(
        not_enough_arguments_message(2, 1),
        "Need 2 arguments, only got 1. Try using `help <command>` to get usage."
    );
    assert_eq!(
        too_many_arguments_message(1, 3),
        "Too many arguments. Expected 1, got 3. Try using `help <command>` to get usage."
    );
}
