//! Award verification: a member sends proof in a direct message, the bot
//! posts it to a staff channel with one reaction per award, and a staff member's
//! reaction records the award or closes the request.

use vstd::prelude::*;
use crate::text::{chars_of, decimal, digits_value, all_digits, parse_u64, push_decimal, push_char};

verus! {

/// What a staff member's reaction on a request stands for.
#[derive(PartialEq, Eq, Structural, Clone, Copy, Debug)]
pub enum VerifyType {
    Eagle,
    SummitSilver,
    CampStaff,
    Ypt,
    Ordeal,
    Brotherhood,
    Vigil,
    Close,
}

/// The reactions put on every request, in order.
pub open spec fn reaction_emojis() -> Seq<Seq<char>> {
    seq![
        "\u{1F985}"@,
        "\u{26F0}"@,
        "\u{1F3D5}"@,
        "\u{1F6C2}"@,
        "\u{2197}"@,
        "\u{1F7E5}"@,
        "\u{1F53A}"@,
        "\u{274C}"@,
        "\u{26A0}"@,
        "\u{26D4}"@,
    ]
}

/// The verification type that a reaction stands for, if any.
pub open spec fn verify_type_of(emoji: Seq<char>) -> Option<VerifyType> {
    if emoji == "\u{1F985}"@ {
        Some(VerifyType::Eagle)
    } else if emoji == "\u{26F0}"@ {
        Some(VerifyType::SummitSilver)
    } else if emoji == "\u{1F3D5}"@ {
        Some(VerifyType::CampStaff)
    } else if emoji == "\u{1F6C2}"@ {
        Some(VerifyType::Ypt)
    } else if emoji == "\u{2197}"@ {
        Some(VerifyType::Ordeal)
    } else if emoji == "\u{1F7E5}"@ {
        Some(VerifyType::Brotherhood)
    } else if emoji == "\u{1F53A}"@ {
        Some(VerifyType::Vigil)
    } else if emoji == "\u{274C}"@ {
        Some(VerifyType::Close)
    } else {
        None
    }
}

/// The global store that records awards of type `t`; none for `Close`.
pub open spec fn award_store(t: VerifyType) -> Option<Seq<char>> {
    match t {
        VerifyType::Eagle => Some("eagle.db"@),
        VerifyType::SummitSilver => Some("summit.db"@),
        VerifyType::CampStaff => Some("campstaff.db"@),
        VerifyType::Ypt => Some("ypt.db"@),
        VerifyType::Ordeal => Some("ordeal.db"@),
        VerifyType::Brotherhood => Some("brotherhood.db"@),
        VerifyType::Vigil => Some("vigil.db"@),
        VerifyType::Close => None,
    }
}

/// The text of a request posted for the staff: the requester's id on the first
/// line, the link to the proof on the second.
pub open spec fn request_content(author_id: nat, proof_url: Seq<char>) -> Seq<char> {
    decimal(author_id) + seq!['\n'] + proof_url
}

/// The first line of `s`: everything before the first line break.
pub open spec fn first_line(s: Seq<char>) -> Seq<char>
    decreases s.len(),
{
    if s.len() == 0 {
        s
    } else if s[0] == '\n' {
        Seq::empty()
    } else {
        seq![s[0]] + first_line(s.subrange(1, s.len() as int))
    }
}

/// The requester named by a request's text, if its first line is a user id.
pub open spec fn requester_of(content: Seq<char>) -> Option<u64> {
    let line = first_line(content);
    if line.len() > 0 && all_digits(line) && digits_value(line) <= u64::MAX {
        Some(digits_value(line) as u64)
    } else {
        None
    }
}

/// What to do about a reaction on a request.
#[derive(PartialEq, Eq, Debug)]
pub enum ReactionAction {
    /// The bot's own reaction: nothing to do.
    Ignore,
    /// Close the request of `user_id` without recording anything.
    Close { user_id: u64 },
    /// Record `user_id` in the award store `store`, then close the request.
    Record { user_id: u64, store: String },
}

/// The reactions put on every request: one per award, then close and two
/// spare marks.
pub fn define_emoji_vec() -> (emojis: Vec<String>)
    ensures
        emojis@.len() == reaction_emojis().len(),
        forall|i: int| 0 <= i < emojis@.len() ==> #[trigger] emojis@[i]@ == reaction_emojis()[i],
{
    let mut v: Vec<String> = Vec::new();
    v.push(String::from_str("\u{1F985}"));
    v.push(String::from_str("\u{26F0}"));
    v.push(String::from_str("\u{1F3D5}"));
    v.push(String::from_str("\u{1F6C2}"));
    v.push(String::from_str("\u{2197}"));
    v.push(String::from_str("\u{1F7E5}"));
    v.push(String::from_str("\u{1F53A}"));
    v.push(String::from_str("\u{274C}"));
    v.push(String::from_str("\u{26A0}"));
    v.push(String::from_str("\u{26D4}"));
    v
}

fn same_text(a: &str, b: &str) -> (r: bool)
    ensures
        r == (a@ == b@),
{
    String::from_str(a) == String::from_str(b)
}

/// The verification type that `emoji` stands for.
pub fn match_verify_type(emoji: &str) -> (t: Option<VerifyType>)
    ensures
        t == verify_type_of(emoji@),
{
    if same_text(emoji, "\u{1F985}") {
        Some(VerifyType::Eagle)
    } else if same_text(emoji, "\u{26F0}") {
        Some(VerifyType::SummitSilver)
    } else if same_text(emoji, "\u{1F3D5}") {
        Some(VerifyType::CampStaff)
    } else if same_text(emoji, "\u{1F6C2}") {
        Some(VerifyType::Ypt)
    } else if same_text(emoji, "\u{2197}") {
        Some(VerifyType::Ordeal)
    } else if same_text(emoji, "\u{1F7E5}") {
        Some(VerifyType::Brotherhood)
    } else if same_text(emoji, "\u{1F53A}") {
        Some(VerifyType::Vigil)
    } else if same_text(emoji, "\u{274C}") {
        Some(VerifyType::Close)
    } else {
        None
    }
}

/// The award store for `t`; none for `Close`.
pub fn award_store_name(t: VerifyType) -> (name: Option<String>)
    ensures
        name is Some <==> award_store(t) is Some,
        name matches Some(n) ==> award_store(t) == Some(n@),
{
    match t {
        VerifyType::Eagle => Some(String::from_str("eagle.db")),
        VerifyType::SummitSilver => Some(String::from_str("summit.db")),
        VerifyType::CampStaff => Some(String::from_str("campstaff.db")),
        VerifyType::Ypt => Some(String::from_str("ypt.db")),
        VerifyType::Ordeal => Some(String::from_str("ordeal.db")),
        VerifyType::Brotherhood => Some(String::from_str("brotherhood.db")),
        VerifyType::Vigil => Some(String::from_str("vigil.db")),
        VerifyType::Close => None,
    }
}

/// The text to post for the staff about a direct message from `author_id` with the
/// given attachment links: the author's id and the first link. Fails when the
/// message has no attachment.
pub fn handle_verification_file(author_id: u64, attachment_urls: &Vec<String>) -> (r: Result<
    String,
    String,
>)
    ensures
        attachment_urls@.len() == 0 <==> r is Err,
        r matches Err(e) ==> e@ == "No attachments found"@,
        r matches Ok(content) ==> content@ == request_content(
            author_id as nat,
            attachment_urls@[0]@,
        ),
{
    if attachment_urls.len() == 0 {
        return Err(String::from_str("No attachments found"));
    }
    let mut content = String::new();
    push_decimal(&mut content, author_id);
    push_char(&mut content, '\n');
    content.append(attachment_urls[0].as_str());
    assert(content@ =~= request_content(author_id as nat, attachment_urls@[0]@));
    Ok(content)
}

/// The first line of `s`.
pub fn first_line_of(s: &str) -> (line: String)
    ensures
        line@ == first_line(s@),
{
    let cs = chars_of(s);
    let n = cs.len();
    let mut line = String::new();
    let mut i: usize = 0;
    while i < n && cs[i] != '\n'
        invariant
            i <= n,
            n == s@.len(),
            cs@ == s@,
            forall|k: int| 0 <= k < i ==> s@[k] != '\n',
            line@ == s@.subrange(0, i as int),
        decreases n - i,
    {
        push_char(&mut line, cs[i]);
        i = i + 1;
        assert(line@ =~= s@.subrange(0, i as int));
    }
    proof {
        lemma_first_line_prefix(s@, i as int);
    }
    line
}

/// Where the first `i` characters hold no line break and the next one is a
/// line break or the end, the first line is those `i` characters.
pub proof fn lemma_first_line_prefix(s: Seq<char>, i: int)
    requires
        0 <= i <= s.len(),
        forall|k: int| 0 <= k < i ==> s[k] != '\n',
        i == s.len() || s[i] == '\n',
    ensures
        first_line(s) == s.subrange(0, i),
    decreases s.len(),
{
    if s.len() == 0 {
        assert(s.subrange(0, i) =~= s);
    } else if i == 0 {
        assert(s.subrange(0, i) =~= Seq::<char>::empty());
    } else {
        let rest = s.subrange(1, s.len() as int);
        assert forall|k: int| 0 <= k < i - 1 implies rest[k] != '\n' by {
            assert(rest[k] == s[k + 1]);
        }
        lemma_first_line_prefix(rest, i - 1);
        assert(s.subrange(0, i) =~= seq![s[0]] + rest.subrange(0, i - 1));
    }
}

/// The requester named on the first line of a request's text.
pub fn requester_id(content: &str) -> (id: Option<u64>)
    ensures
        id == requester_of(content@),
{
    let line = first_line_of(content);
    parse_u64(line.as_str())
}

/// What to do about `emoji` put by `reactor_id` on a request, where `bot_id`
/// is the bot itself, `emoji` is `None` for a custom (non-Unicode) reaction,
/// and `content` is the request's text or why it could not be read.
pub fn handle_verification_reaction(
    reactor_id: u64,
    bot_id: u64,
    emoji: Option<&str>,
    content: Result<&str, String>,
) -> (r: Result<ReactionAction, String>)
    ensures
        reactor_id == bot_id ==> r == Ok::<ReactionAction, String>(ReactionAction::Ignore),
        reactor_id != bot_id ==> match content {
            Err(why) => r matches Err(e) && e@ == why@,
            Ok(text) => match emoji {
                None => r matches Err(e) && e@ == "Invalid reaction"@,
                Some(em) => match verify_type_of(em@) {
                    None => r matches Err(e) && e@ == "Invalid verify type"@,
                    Some(t) => match requester_of(text@) {
                        None => r matches Err(e) && e@
                            == "Invalid requester in verification request"@,
                        Some(user_id) => match award_store(t) {
                            None => r == Ok::<ReactionAction, String>(
                                ReactionAction::Close { user_id },
                            ),
                            Some(store) => r matches Ok(
                                ReactionAction::Record { user_id: u, store: s },
                            ) && u == user_id && s@ == store,
                        },
                    },
                },
            },
        },
{
    if reactor_id == bot_id {
        return Ok(ReactionAction::Ignore);
    }
    let text = match content {
        Ok(t) => t,
        Err(why) => {
            return Err(why);
        },
    };
    let em = match emoji {
        Some(e) => e,
        None => {
            return Err(String::from_str("Invalid reaction"));
        },
    };
    let t = match match_verify_type(em) {
        Some(t) => t,
        None => {
            return Err(String::from_str("Invalid verify type"));
        },
    };
    let user_id = match requester_id(text) {
        Some(u) => u,
        None => {
            return Err(String::from_str("Invalid requester in verification request"));
        },
    };
    match award_store_name(t) {
        None => Ok(ReactionAction::Close { user_id }),
        Some(store) => Ok(ReactionAction::Record { user_id, store }),
    }
}

/// A request's text names its requester again.
pub proof fn lemma_request_names_requester(author_id: u64, proof_url: Seq<char>)
    ensures
        requester_of(request_content(author_id as nat, proof_url)) == Some(author_id),
{
    let d = decimal(author_id as nat);
    let content = request_content(author_id as nat, proof_url);
    crate::text::lemma_decimal_spells(author_id as nat);
    assert forall|k: int| 0 <= k < d.len() implies content[k] != '\n' by {
        assert(content[k] == d[k]);
        assert(crate::text::is_digit(d[k]));
    }
    assert(content[d.len() as int] == '\n');
    lemma_first_line_prefix(content, d.len() as int);
    assert(content.subrange(0, d.len() as int) =~= d);
}


/// A member's age group relative to 18.
#[derive(PartialEq, Eq, Structural, Clone, Copy, Debug)]
pub enum AgeGroup {
    Over,
    Under,
}

/// The age group that the argument of the age command chooses.
pub open spec fn age_group_of(choice: Seq<char>) -> Option<AgeGroup> {
    if choice == "over"@ {
        Some(AgeGroup::Over)
    } else if choice == "under"@ {
        Some(AgeGroup::Under)
    } else {
        None
    }
}

/// The value stored for an age group.
pub open spec fn age_record(g: AgeGroup) -> Seq<char> {
    match g {
        AgeGroup::Over => "Over"@,
        AgeGroup::Under => "Under"@,
    }
}

/// The confirmation sent once an age group is stored.
pub open spec fn age_confirmation(g: AgeGroup) -> Seq<char> {
    match g {
        AgeGroup::Over => "Successfully set your age group as over 18"@,
        AgeGroup::Under => "Successfully set your age group as under 18"@,
    }
}

impl AgeGroup {
    /// The value stored for this age group.
    pub fn record(&self) -> (r: String)
        ensures
            r@ == age_record(*self),
    {
        match self {
            AgeGroup::Over => String::from_str("Over"),
            AgeGroup::Under => String::from_str("Under"),
        }
    }

    /// The confirmation sent once this age group is stored.
    pub fn confirmation(&self) -> (r: String)
        ensures
            r@ == age_confirmation(*self),
    {
        match self {
            AgeGroup::Over => String::from_str("Successfully set your age group as over 18"),
            AgeGroup::Under => String::from_str("Successfully set your age group as under 18"),
        }
    }
}

/// The age group chosen by the argument of the age command: `over` or
/// `under`, anything else being invalid.
pub fn age(choice: &str) -> (r: Option<AgeGroup>)
    ensures
        r == age_group_of(choice@),
{
    if same_text(choice, "over") {
        Some(AgeGroup::Over)
    } else if same_text(choice, "under") {
        Some(AgeGroup::Under)
    } else {
        None
    }
}

/// The awards that can be verified, each with the proof it takes.
pub open spec fn award_proofs() -> Seq<(Seq<char>, Seq<char>)> {
    seq![
        ("Eagle Scout"@, "Patch, Card, or Certificate"@),
        ("Summit/Silver"@, "Patch, Card, or Certificate"@),
        ("Camp Staff"@, "Name tag or shirt"@),
        ("YPT"@, "Certificate. PDF is acceptable for this verification"@),
        ("OA Honor"@, "Sash or membership card"@),
        ("Quartermaster"@, "Medal, Patch, Card, and Certificate"@),
    ]
}

/// The instructions of the verify command: each award with the proof it
/// takes.
pub fn verify() -> (proofs: Vec<(String, String)>)
    ensures
        proofs@.len() == award_proofs().len(),
        forall|i: int|
            0 <= i < proofs@.len() ==> (#[trigger] proofs@[i]).0@ == award_proofs()[i].0
                && proofs@[i].1@ == award_proofs()[i].1,
{
    let mut v: Vec<(String, String)> = Vec::new();
    v.push((String::from_str("Eagle Scout"), String::from_str("Patch, Card, or Certificate")));
    v.push((String::from_str("Summit/Silver"), String::from_str("Patch, Card, or Certificate")));
    v.push((String::from_str("Camp Staff"), String::from_str("Name tag or shirt")));
    v.push(
        (
            String::from_str("YPT"),
            String::from_str("Certificate. PDF is acceptable for this verification"),
        ),
    );
    v.push((String::from_str("OA Honor"), String::from_str("Sash or membership card")));
    v.push(
        (String::from_str("Quartermaster"), String::from_str("Medal, Patch, Card, and Certificate")),
    );
    v
}

} // verus!
