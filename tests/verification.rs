use dscbot::verification::{
    age, define_emoji_vec, handle_verification_file, handle_verification_reaction,
    match_verify_type, requester_id, verify, AgeGroup, ReactionAction, VerifyType,
};

#[test]
fn emoji_list() {
    let v = define_emoji_vec();
    assert_eq!(v.len(), 10);
    assert_eq!(v[0], "\u{1F985}");
    assert_eq!(v[7], "\u{274C}");
    assert_eq!(v[9], "\u{26D4}");
}

#[test]
fn emoji_types() {
    assert_eq!(match_verify_type("\u{1F985}"), Some(VerifyType::Eagle));
    assert_eq!(match_verify_type("\u{26F0}"), Some(VerifyType::SummitSilver));
    assert_eq!(match_verify_type("\u{1F3D5}"), Some(VerifyType::CampStaff));
    assert_eq!(match_verify_type("\u{1F6C2}"), Some(VerifyType::Ypt));
    assert_eq!(match_verify_type("\u{2197}"), Some(VerifyType::Ordeal));
    assert_eq!(match_verify_type("\u{1F7E5}"), Some(VerifyType::Brotherhood));
    assert_eq!(match_verify_type("\u{1F53A}"), Some(VerifyType::Vigil));
    assert_eq!(match_verify_type("\u{274C}"), Some(VerifyType::Close));
    assert_eq!(match_verify_type("\u{26A0}"), None);
    assert_eq!(match_verify_type("x"), None);
}

#[test]
fn verification_file() {
    let urls = vec![String::from("https://cdn.example/proof.png"), String::from("https://cdn.example/other.png")];
    assert_eq!(
        handle_verification_file(1234, &urls),
        Ok(String::from("1234\nhttps://cdn.example/proof.png"))
    );
    assert_eq!(handle_verification_file(1234, &vec![]), Err(String::from("No attachments found")));
}

#[test]
fn request_round_trip() {
    let urls = vec![String::from("u")];
    let content = handle_verification_file(u64::MAX, &urls).unwrap();
    assert_eq!(requester_id(&content), Some(u64::MAX));
    assert_eq!(requester_id("abc\n1"), None);
    assert_eq!(requester_id(""), None);
}

#[test]
fn verification_reactions() {
    let content = "55\nhttps://cdn.example/p.png";
    assert_eq!(handle_verification_reaction(9, 9, Some("\u{1F985}"), Ok(content)), Ok(ReactionAction::Ignore));
    assert_eq!(handle_verification_reaction(1, 9, None, Ok(content)), Err(String::from("Invalid reaction")));
    assert_eq!(
        handle_verification_reaction(1, 9, Some("\u{26A0}"), Ok(content)),
        Err(String::from("Invalid verify type"))
    );
    assert_eq!(
        handle_verification_reaction(1, 9, Some("\u{1F985}"), Ok("oops\nx")),
        Err(String::from("Invalid requester in verification request"))
    );
    assert_eq!(
        handle_verification_reaction(1, 9, Some("\u{274C}"), Ok(content)),
        Ok(ReactionAction::Close { user_id: 55 })
    );
    assert_eq!(
        handle_verification_reaction(1, 9, Some("\u{1F53A}"), Ok(content)),
        Ok(ReactionAction::Record { user_id: 55, store: String::from("vigil.db") })
    );
}

#[test]
fn unreadable_request() {
    let missing = || Err(String::from("Unknown Message"));
    assert_eq!(handle_verification_reaction(9, 9, Some("\u{1F985}"), missing()), Ok(ReactionAction::Ignore));
    assert_eq!(
        handle_verification_reaction(1, 9, None, missing()),
        Err(String::from("Unknown Message"))
    );
}

#[test]
fn age_groups() {
    assert_eq!(age("over"), Some(AgeGroup::Over));
    assert_eq!(age("under"), Some(AgeGroup::Under));
    assert_eq!(age("Over"), None);
    assert_eq!(age("18"), None);
    assert_eq!(AgeGroup::Over.record(), "Over");
    assert_eq!(AgeGroup::Under.confirmation(), "Successfully set your age group as under 18");
}

#[test]
fn verify_instructions() {
    let v = verify();
    assert_eq!(v.len(), 6);
    assert_eq!(v[0], (String::from("Eagle Scout"), String::from("Patch, Card, or Certificate")));
    assert_eq!(v[5].0, "Quartermaster");
}
