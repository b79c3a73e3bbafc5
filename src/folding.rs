//! Folding@home team statistics, read from the project's public API.
//!
//! The member list comes as rows of quoted fields; the team summary as one
//! comma-separated record.

use vstd::prelude::*;
use crate::text::{split, split_on, strings_view};

verus! {

/// The field separator inside a member row.
pub open spec fn field_sep() -> Seq<char> {
    "\",\""@
}

/// The separator between member rows.
pub open spec fn row_sep() -> Seq<char> {
    "\"],[\""@
}

/// The leaderboard entry of one member row: the name, and the rank, points
/// and work units; none where the row has fewer than five fields.
pub open spec fn member_entry(row: Seq<char>) -> Option<(Seq<char>, Seq<char>)> {
    let f = split_on(row, field_sep());
    if f.len() < 5 {
        None
    } else {
        Some((f[0], "Rank: "@ + f[2] + " Points: "@ + f[3] + " WUs: "@ + f[4]))
    }
}

/// The team leaderboard: one entry per member row of `body`, in order; none
/// where a row is malformed.
pub fn fahleaderboard(body: &str) -> (entries: Option<Vec<(String, String)>>)
    ensures
        entries is Some <==> forall|i: int|
            0 <= i < split_on(body@, row_sep()).len() ==> (#[trigger] member_entry(
                split_on(body@, row_sep())[i],
            )) is Some,
        entries matches Some(v) ==> v@.len() == split_on(body@, row_sep()).len() && forall|i: int|
            0 <= i < v@.len() ==> member_entry(split_on(body@, row_sep())[i]) == Some(
                ((#[trigger] v@[i]).0@, v@[i].1@),
            ),
{
    let rows = split(body, "\"],[\"");
    let ghost rs = split_on(body@, row_sep());
    let mut entries: Vec<(String, String)> = Vec::new();
    let mut i: usize = 0;
    while i < rows.len()
        invariant
            strings_view(rows@) == rs,
            rs == split_on(body@, row_sep()),
            i <= rows@.len(),
            entries@.len() == i,
            forall|k: int| 0 <= k < i ==> (#[trigger] member_entry(rs[k])) is Some,
            forall|k: int|
                0 <= k < i ==> member_entry(rs[k]) == Some(
                    ((#[trigger] entries@[k]).0@, entries@[k].1@),
                ),
        decreases rows@.len() - i,
    {
        assert(rows@[i as int]@ == rs[i as int]);
        let fields = split(rows[i].as_str(), "\",\"");
        if fields.len() < 5 {
            assert(member_entry(rs[i as int]) is None);
            return None;
        }
        assert(fields@[0]@ == split_on(rs[i as int], field_sep())[0]);
        assert(fields@[2]@ == split_on(rs[i as int], field_sep())[2]);
        assert(fields@[3]@ == split_on(rs[i as int], field_sep())[3]);
        assert(fields@[4]@ == split_on(rs[i as int], field_sep())[4]);
        let mut value = String::from_str("Rank: ");
        value.append(fields[2].as_str());
        value.append(" Points: ");
        value.append(fields[3].as_str());
        value.append(" WUs: ");
        value.append(fields[4].as_str());
        entries.push((fields[0].clone(), value));
        i = i + 1;
    }
    Some(entries)
}

/// The team summary: total work units, total points and the team's rank,
/// the seventh, sixth and eighth fields of the record; none where it has
/// fewer than eight fields.
pub open spec fn team_summary(body: Seq<char>) -> Option<(Seq<char>, Seq<char>, Seq<char>)> {
    let f = split_on(body, ","@);
    if f.len() < 8 {
        None
    } else {
        Some((f[6], f[5], f[7]))
    }
}

/// The team summary read from the API's team record.
pub fn fahteamstats(body: &str) -> (stats: Option<(String, String, String)>)
    ensures
        stats is Some <==> team_summary(body@) is Some,
        stats matches Some(s) ==> team_summary(body@) == Some((s.0@, s.1@, s.2@)),
{
    let fields = split(body, ",");
    if fields.len() < 8 {
        return None;
    }
    assert(fields@[5]@ == split_on(body@, ","@)[5]);
    assert(fields@[6]@ == split_on(body@, ","@)[6]);
    assert(fields@[7]@ == split_on(body@, ","@)[7]);
    Some((fields[6].clone(), fields[5].clone(), fields[7].clone()))
}

/// The code of an invite link: what follows its last `/`.
pub fn invite_code(url: &str) -> (code: String)
    ensures
        code@ == split_on(url@, "/"@).last(),
{
    let pieces = split(url, "/");
    let last = pieces.len() - 1;
    assert(pieces@[last as int]@ == split_on(url@, "/"@).last());
    pieces[last].clone()
}

} // verus!
