use dscbot::folding::{fahleaderboard, fahteamstats, invite_code};

#[test]
fn member_rows() {
    let body = "[[\"alice\",\"1\",\"4\",\"900\",\"12\"],[\"bob\",\"2\",\"9\",\"300\",\"5\"]]";
    let entries = fahleaderboard(body).unwrap();
    assert_eq!(entries.len(), 2);
    assert_eq!(entries[0], (String::from("[[\"alice"), String::from("Rank: 4 Points: 900 WUs: 12")));
    assert_eq!(entries[1], (String::from("bob"), String::from("Rank: 9 Points: 300 WUs: 5\"]]")));
}

#[test]
fn malformed_member_row() {
    assert_eq!(fahleaderboard("[[\"alice\",\"1\"]]"), None);
}

#[test]
fn team_record() {
    assert_eq!(
        fahteamstats("262889,DSC,x,y,z,1500000,3200,1234"),
        Some((String::from("3200"), String::from("1500000"), String::from("1234")))
    );
    assert_eq!(fahteamstats("1,2,3"), None);
}

#[test]
fn invite_codes() {
    assert_eq!(invite_code("https://discord.gg/abcDEF"), "abcDEF");
    assert_eq!(invite_code("abcDEF"), "abcDEF");
    assert_eq!(invite_code("https://discord.gg/"), "");
}
