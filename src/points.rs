//! Chat points: changes by moderators, the leaderboard, and the price of
//! suggesting a question of the day.

use vstd::prelude::*;
use crate::text::{decimal, push_decimal};
use crate::moderation::{push_signed_decimal, signed_decimal};

verus! {

/// How many members the leaderboard shows.
pub const LEADERBOARD_SIZE: usize = 10;

/// The points a member holds after a moderator adds `delta` (which may be
/// negative) to `current`; none where the total would drop below 0 or pass
/// `u64::MAX`.
pub open spec fn changed_points(current: u64, delta: i64) -> Option<u64> {
    let total = current as int + delta as int;
    if 0 <= total <= u64::MAX {
        Some(total as u64)
    } else {
        None
    }
}

/// Adds `delta` to a member's `current` points, refusing a negative total.
pub fn modpoints(current: u64, delta: i64) -> (r: Option<u64>)
    ensures
        r == changed_points(current, delta),
{
    let total: i128 = current as i128 + delta as i128;
    if total < 0 || total > u64::MAX as i128 {
        None
    } else {
        Some(total as u64)
    }
}

/// Suggesting a question of the day: the member's points after paying
/// `cost`, and the number under which the question is stored, one past the
/// highest stored number `numbers`; none where the member cannot pay.
pub fn suggest(points: u64, cost: u64, numbers: &Vec<i32>) -> (r: Option<(u64, i64)>)
    ensures
        points < cost ==> r is None,
        points >= cost ==> r == Some(((points - cost) as u64, (highest_question(numbers@) + 1) as i64)),
{
    if points < cost {
        None
    } else {
        let n = next_question_number(numbers);
        Some((points - cost, n))
    }
}

/// The position of the first entry with the most points.
pub open spec fn best_index(s: Seq<(u64, i64)>) -> int
    decreases s.len(),
{
    if s.len() <= 1 {
        0
    } else {
        let m = best_index(s.drop_last());
        if s.last().1 > s[m].1 {
            s.len() - 1
        } else {
            m
        }
    }
}

/// The first `k` entries picked one by one, each the first entry with the
/// most points among those not picked yet.
pub open spec fn top_entries(s: Seq<(u64, i64)>, k: nat) -> Seq<(u64, i64)>
    decreases k,
{
    if k == 0 || s.len() == 0 {
        Seq::empty()
    } else {
        let m = best_index(s);
        seq![s[m]] + top_entries(s.remove(m), (k - 1) as nat)
    }
}

/// The first entry with the most points is an entry, and no entry has more
/// points; entries before it have fewer.
pub proof fn lemma_best_index(s: Seq<(u64, i64)>)
    requires
        s.len() > 0,
    ensures
        0 <= best_index(s) < s.len(),
        forall|j: int| 0 <= j < s.len() ==> (#[trigger] s[j]).1 <= s[best_index(s)].1,
        forall|j: int| 0 <= j < best_index(s) ==> (#[trigger] s[j]).1 < s[best_index(s)].1,
    decreases s.len(),
{
    if s.len() > 1 {
        let p = s.drop_last();
        lemma_best_index(p);
        let m = best_index(p);
        assert(s[m] == p[m]);
        assert forall|j: int| 0 <= j < s.len() - 1 implies #[trigger] s[j] == p[j] by {}
        if s.last().1 > s[m].1 {
            assert forall|j: int| 0 <= j < best_index(s) implies (#[trigger] s[j]).1 < s[best_index(
                s,
            )].1 by {
                assert(s[j] == p[j]);
            }
        }
    }
}

fn best_index_of(s: &Vec<(u64, i64)>) -> (m: usize)
    requires
        s@.len() > 0,
    ensures
        m == best_index(s@),
{
    let mut m: usize = 0;
    let mut i: usize = 1;
    assert(s@.subrange(0, 1).len() == 1);
    while i < s.len()
        invariant
            1 <= i <= s@.len(),
            m == best_index(s@.subrange(0, i as int)),
            m < i,
        decreases s@.len() - i,
    {
        proof {
            lemma_best_index(s@.subrange(0, i as int));
            assert(s@.subrange(0, i as int + 1).drop_last() =~= s@.subrange(0, i as int));
        }
        if s[i].1 > s[m].1 {
            m = i;
        }
        i = i + 1;
    }
    assert(s@.subrange(0, i as int) =~= s@);
    m
}

/// The leaderboard: the ten members with the most points (all of them where
/// there are fewer), most first, members with equal points in the order
/// given.
pub fn leaderboard(entries: Vec<(u64, i64)>) -> (top: Vec<(u64, i64)>)
    ensures
        top@ == top_entries(entries@, LEADERBOARD_SIZE as nat),
{
    let mut rest = entries;
    let mut top: Vec<(u64, i64)> = Vec::new();
    let mut k: usize = 0;
    while k < LEADERBOARD_SIZE && rest.len() > 0
        invariant
            k <= LEADERBOARD_SIZE,
            top@ + top_entries(rest@, (LEADERBOARD_SIZE - k) as nat) == top_entries(
                entries@,
                LEADERBOARD_SIZE as nat,
            ),
        decreases LEADERBOARD_SIZE - k,
    {
        let m = best_index_of(&rest);
        proof {
            lemma_best_index(rest@);
        }
        let ghost before = rest@;
        let e = rest.remove(m);
        assert(top_entries(before, (LEADERBOARD_SIZE - k) as nat) == seq![e] + top_entries(
            rest@,
            (LEADERBOARD_SIZE - k - 1) as nat,
        ));
        assert(top@.push(e) + top_entries(rest@, (LEADERBOARD_SIZE - (k + 1)) as nat) =~= top@
            + top_entries(before, (LEADERBOARD_SIZE - k) as nat));
        top.push(e);
        k = k + 1;
    }
    assert(top_entries(rest@, (LEADERBOARD_SIZE - k) as nat) =~= Seq::<(u64, i64)>::empty());
    assert(top@ + Seq::<(u64, i64)>::empty() =~= top@);
    top
}

/// The entries left off after picking `k` of them as `top_entries` does.
pub open spec fn left_off(s: Seq<(u64, i64)>, k: nat) -> Seq<(u64, i64)>
    decreases k,
{
    if k == 0 || s.len() == 0 {
        s
    } else {
        left_off(s.remove(best_index(s)), (k - 1) as nat)
    }
}

/// The leaderboard lists members from most points to least, holds
/// `min(k, n)` of the `n` entries, each of them an entry; together with the
/// entries left off it is exactly the entries given, and no entry left off
/// has more points than the last member listed.
pub proof fn lemma_leaderboard_ordered(s: Seq<(u64, i64)>, k: nat)
    ensures
        forall|i: int, j: int|
            0 <= i < j < top_entries(s, k).len() ==> (#[trigger] top_entries(s, k)[i]).1
                >= (#[trigger] top_entries(s, k)[j]).1,
        top_entries(s, k).len() == if k < s.len() {
            k as int
        } else {
            s.len() as int
        },
        forall|i: int|
            0 <= i < top_entries(s, k).len() ==> s.contains(#[trigger] top_entries(s, k)[i]),
        (top_entries(s, k) + left_off(s, k)).to_multiset() == s.to_multiset(),
        top_entries(s, k).len() > 0 ==> forall|j: int|
            0 <= j < left_off(s, k).len() ==> (#[trigger] left_off(s, k)[j]).1 <= top_entries(
                s,
                k,
            ).last().1,
    decreases k,
{
    broadcast use vstd::seq_lib::to_multiset_remove, vstd::seq_lib::lemma_multiset_commutative,
        vstd::seq_lib::to_multiset_contains, vstd::multiset::group_multiset_axioms;

    if k > 0 && s.len() > 0 {
        let m = best_index(s);
        lemma_best_index(s);
        let rest = s.remove(m);
        lemma_leaderboard_ordered(rest, (k - 1) as nat);
        let t = top_entries(s, k);
        let t1 = top_entries(rest, (k - 1) as nat);
        let l = left_off(s, k);
        assert(t == seq![s[m]] + t1);
        assert(l == left_off(rest, (k - 1) as nat));
        assert forall|i: int| 0 <= i < t.len() implies s.contains(#[trigger] t[i]) by {
            if i > 0 {
                assert(t[i] == t1[i - 1]);
                assert(rest.contains(t[i]));
                let j = choose|j: int| 0 <= j < rest.len() && rest[j] == t[i];
                if j < m {
                    assert(s[j] == t[i]);
                } else {
                    assert(s[j + 1] == t[i]);
                }
            } else {
                assert(s[m] == t[0]);
            }
        }
        assert forall|i: int, j: int| 0 <= i < j < t.len() implies (#[trigger] t[i]).1 >= (
        #[trigger] t[j]).1 by {
            if i == 0 {
                assert(t[j] == t1[j - 1]);
                assert(s.contains(t[j]));
            } else {
                assert(t[i] == t1[i - 1]);
                assert(t[j] == t1[j - 1]);
            }
        }
        assert(t + l =~= seq![s[m]] + (t1 + l));
        assert(seq![s[m]].to_multiset() =~= vstd::multiset::Multiset::singleton(s[m])) by {
            assert(seq![s[m]] =~= Seq::<(u64, i64)>::empty().push(s[m]));
            vstd::seq_lib::to_multiset_build(Seq::<(u64, i64)>::empty(), s[m]);
        }
        assert(s.to_multiset().count(s[m]) > 0) by {
            assert(s.contains(s[m]));
        }
        assert((t + l).to_multiset() =~= s.to_multiset());
        assert forall|j: int| 0 <= j < l.len() implies (#[trigger] l[j]).1 <= t.last().1 by {
            let e = l[j];
            assert((t1 + l)[t1.len() + j] == e);
            assert((t1 + l).contains(e));
            assert(rest.to_multiset().count(e) > 0);
            assert(rest.contains(e));
            let r = choose|r: int| 0 <= r < rest.len() && rest[r] == e;
            if r < m {
                assert(s[r] == e);
            } else {
                assert(s[r + 1] == e);
            }
            if t1.len() > 0 {
                assert(t.last() == t1.last());
            } else {
                assert(t.last() == s[m]);
            }
        }
    } else {
        assert(top_entries(s, k) + left_off(s, k) =~= s);
    }
}

/// One line of the leaderboard: the rank, and the member's name with their
/// points.
pub open spec fn leaderboard_line(rank: nat, name: Seq<char>, points: i64) -> (
    Seq<char>,
    Seq<char>,
) {
    (decimal(rank), name + " - "@ + signed_decimal(points as int))
}

/// The lines of the leaderboard for the members named in `ranked`, best
/// first, ranked from 1.
pub fn leaderboard_fields(ranked: &Vec<(String, i64)>) -> (fields: Vec<(String, String)>)
    ensures
        fields@.len() == ranked@.len(),
        forall|i: int|
            0 <= i < fields@.len() ==> ((#[trigger] fields@[i]).0@, fields@[i].1@)
                == leaderboard_line((i + 1) as nat, ranked@[i].0@, ranked@[i].1),
{
    let mut fields: Vec<(String, String)> = Vec::new();
    let mut i: usize = 0;
    while i < ranked.len()
        invariant
            i <= ranked@.len(),
            fields@.len() == i,
            forall|k: int|
                0 <= k < i ==> ((#[trigger] fields@[k]).0@, fields@[k].1@) == leaderboard_line(
                    (k + 1) as nat,
                    ranked@[k].0@,
                    ranked@[k].1,
                ),
        decreases ranked@.len() - i,
    {
        let mut rank = String::new();
        push_decimal(&mut rank, (i + 1) as u64);
        let mut line = ranked[i].0.clone();
        line.append(" - ");
        push_signed_decimal(&mut line, ranked[i].1);
        fields.push((rank, line));
        i = i + 1;
    }
    fields
}

/// The highest stored question number, or 0 where none is stored.
pub open spec fn highest_question(numbers: Seq<i32>) -> int
    decreases numbers.len(),
{
    if numbers.len() == 0 {
        0
    } else if numbers.len() == 1 {
        numbers[0] as int
    } else {
        let rest = highest_question(numbers.drop_last());
        if numbers.last() as int > rest {
            numbers.last() as int
        } else {
            rest
        }
    }
}

/// The highest stored number is one of them and no stored number exceeds it.
pub proof fn lemma_highest_question(numbers: Seq<i32>)
    ensures
        forall|i: int| 0 <= i < numbers.len() ==> #[trigger] numbers[i] <= highest_question(numbers),
        numbers.len() > 0 ==> numbers.contains(highest_question(numbers) as i32),
        i32::MIN <= highest_question(numbers) <= i32::MAX,
    decreases numbers.len(),
{
    if numbers.len() > 1 {
        let p = numbers.drop_last();
        lemma_highest_question(p);
        assert forall|i: int| 0 <= i < numbers.len() - 1 implies #[trigger] numbers[i] == p[i] by {}
        if highest_question(numbers) != numbers.last() as int {
            let j = choose|j: int| 0 <= j < p.len() && p[j] == highest_question(p) as i32;
            assert(numbers[j] == p[j]);
        }
    } else if numbers.len() == 1 {
        assert(numbers[0] == numbers[0]);
    }
}

/// The highest of the stored question numbers, or 0 where none is stored.
pub fn get_highest_qotd(numbers: &Vec<i32>) -> (highest: i32)
    ensures
        highest == highest_question(numbers@),
        forall|i: int| 0 <= i < numbers@.len() ==> #[trigger] numbers@[i] <= highest,
        numbers@.len() > 0 ==> numbers@.contains(highest),
{
    proof {
        lemma_highest_question(numbers@);
    }
    if numbers.len() == 0 {
        return 0;
    }
    let mut highest: i32 = numbers[0];
    let mut i: usize = 1;
    while i < numbers.len()
        invariant
            1 <= i <= numbers@.len(),
            highest == highest_question(numbers@.subrange(0, i as int)),
        decreases numbers@.len() - i,
    {
        assert(numbers@.subrange(0, i as int + 1).drop_last() =~= numbers@.subrange(0, i as int));
        if numbers[i] > highest {
            highest = numbers[i];
        }
        i = i + 1;
    }
    assert(numbers@.subrange(0, i as int) =~= numbers@);
    highest
}

/// The number for a new question: one past the highest stored number, or 1
/// where none is stored.
pub fn next_question_number(numbers: &Vec<i32>) -> (n: i64)
    ensures
        n == highest_question(numbers@) + 1,
        forall|i: int| 0 <= i < numbers@.len() ==> n > #[trigger] numbers@[i],
{
    let highest = get_highest_qotd(numbers);
    highest as i64 + 1
}

} // verus!
