//! Ordering the results: by score, or by score, freshness and activity.

use vstd::prelude::*;
use vstd::seq_lib::*;
use crate::model::{match_views, Match, MatchView};

verus! {

/// The order that results are put in.
#[derive(Clone, Copy, Debug, PartialEq, Eq, Structural)]
pub enum RankBy {
    /// Lowest score first.
    Score,
    /// Lowest score first, then most recently seen, then most recently
    /// created, then most games.
    Composite,
}

/// A time as a number to order by: an unknown time is older than every known
/// one.
pub open spec fn age_rank(t: Option<i64>) -> int {
    match t {
        Some(secs) => secs as int,
        None => i64::MIN - 1,
    }
}

/// The tuple that a result is ordered by, smallest first.
pub open spec fn rank_key(by: RankBy, m: MatchView) -> (int, int, int, int) {
    match by {
        RankBy::Score => (m.k as int, 0, 0, 0),
        RankBy::Composite => (m.k as int, -age_rank(m.seen_at), -age_rank(m.created_at), -(m.games as int)),
    }
}

/// Lexicographic "less or equal" on the key tuples.
pub open spec fn key_le(a: (int, int, int, int), b: (int, int, int, int)) -> bool {
    a.0 < b.0 || (a.0 == b.0 && (a.1 < b.1 || (a.1 == b.1 && (a.2 < b.2 || (a.2 == b.2 && a.3
        <= b.3)))))
}

/// `a` may stand before `b`.
pub open spec fn rank_le(by: RankBy, a: MatchView, b: MatchView) -> bool {
    key_le(rank_key(by, a), rank_key(by, b))
}

/// No result stands before one that must precede it.
pub open spec fn ordered(by: RankBy, s: Seq<MatchView>) -> bool {
    forall|i: int, j: int| 0 <= i < j < s.len() ==> rank_le(by, #[trigger] s[i], #[trigger] s[j])
}

/// Two ordered sequences as one: the smaller head goes first, the left one on
/// a tie.
pub open spec fn merged(by: RankBy, a: Seq<MatchView>, b: Seq<MatchView>) -> Seq<MatchView>
    decreases a.len() + b.len(),
{
    if a.len() == 0 {
        b
    } else if b.len() == 0 {
        a
    } else if rank_le(by, a[0], b[0]) {
        seq![a[0]] + merged(by, a.drop_first(), b)
    } else {
        seq![b[0]] + merged(by, a, b.drop_first())
    }
}

/// The results in rank order: both halves ranked, then merged.
pub open spec fn ranked(by: RankBy, s: Seq<MatchView>) -> Seq<MatchView>
    decreases s.len(),
{
    if s.len() <= 1 {
        s
    } else {
        let mid = s.len() as int / 2;
        merged(by, ranked(by, s.subrange(0, mid)), ranked(by, s.subrange(mid, s.len() as int)))
    }
}

/// Merging keeps every result, as often as it occurs.
pub proof fn lemma_merged_keeps(by: RankBy, a: Seq<MatchView>, b: Seq<MatchView>)
    ensures
        merged(by, a, b).to_multiset() =~= a.to_multiset().add(b.to_multiset()),
        merged(by, a, b).len() == a.len() + b.len(),
    decreases a.len() + b.len(),
{
    broadcast use vstd::seq_lib::group_to_multiset_ensures;

    if a.len() == 0 {
        assert(a =~= Seq::empty());
    } else if b.len() == 0 {
        assert(b =~= Seq::empty());
    } else if rank_le(by, a[0], b[0]) {
        lemma_merged_keeps(by, a.drop_first(), b);
        lemma_multiset_commutative(seq![a[0]], merged(by, a.drop_first(), b));
        lemma_multiset_commutative(seq![a[0]], a.drop_first());
        assert(seq![a[0]] + a.drop_first() =~= a);
    } else {
        lemma_merged_keeps(by, a, b.drop_first());
        lemma_multiset_commutative(seq![b[0]], merged(by, a, b.drop_first()));
        lemma_multiset_commutative(seq![b[0]], b.drop_first());
        assert(seq![b[0]] + b.drop_first() =~= b);
    }
}

/// What may stand before everything in both sequences may stand before
/// everything in their merge.
proof fn lemma_merged_bound(by: RankBy, a: Seq<MatchView>, b: Seq<MatchView>, x: MatchView)
    requires
        forall|i: int| 0 <= i < a.len() ==> rank_le(by, x, #[trigger] a[i]),
        forall|j: int| 0 <= j < b.len() ==> rank_le(by, x, #[trigger] b[j]),
    ensures
        forall|n: int| 0 <= n < merged(by, a, b).len() ==> rank_le(by, x, #[trigger] merged(by, a, b)[n]),
    decreases a.len() + b.len(),
{
    if a.len() == 0 || b.len() == 0 {
    } else if rank_le(by, a[0], b[0]) {
        let rest = a.drop_first();
        assert forall|i: int| 0 <= i < rest.len() implies rank_le(by, x, #[trigger] rest[i]) by {
            assert(rest[i] == a[i + 1]);
        }
        lemma_merged_bound(by, rest, b, x);
        let tail = merged(by, rest, b);
        let whole = merged(by, a, b);
        assert forall|n: int| 0 <= n < whole.len() implies rank_le(by, x, #[trigger] whole[n]) by {
            if n > 0 {
                assert(whole[n] == tail[n - 1]);
            } else {
                assert(whole[0] == a[0]);
            }
        }
    } else {
        let rest = b.drop_first();
        assert forall|j: int| 0 <= j < rest.len() implies rank_le(by, x, #[trigger] rest[j]) by {
            assert(rest[j] == b[j + 1]);
        }
        lemma_merged_bound(by, a, rest, x);
        let tail = merged(by, a, rest);
        let whole = merged(by, a, b);
        assert forall|n: int| 0 <= n < whole.len() implies rank_le(by, x, #[trigger] whole[n]) by {
            if n > 0 {
                assert(whole[n] == tail[n - 1]);
            } else {
                assert(whole[0] == b[0]);
            }
        }
    }
}

/// The merge of two ordered sequences is ordered.
pub proof fn lemma_merged_ordered(by: RankBy, a: Seq<MatchView>, b: Seq<MatchView>)
    requires
        ordered(by, a),
        ordered(by, b),
    ensures
        ordered(by, merged(by, a, b)),
    decreases a.len() + b.len(),
{
    if a.len() == 0 || b.len() == 0 {
    } else if rank_le(by, a[0], b[0]) {
        let rest = a.drop_first();
        assert forall|i: int, j: int| 0 <= i < j < rest.len() implies rank_le(
            by,
            #[trigger] rest[i],
            #[trigger] rest[j],
        ) by {
            assert(rest[i] == a[i + 1] && rest[j] == a[j + 1]);
        }
        lemma_merged_ordered(by, rest, b);
        assert forall|i: int| 0 <= i < rest.len() implies rank_le(by, a[0], #[trigger] rest[i]) by {
            assert(rest[i] == a[i + 1]);
        }
        assert forall|j: int| 0 <= j < b.len() implies rank_le(by, a[0], #[trigger] b[j]) by {
            if j > 0 {
                assert(rank_le(by, b[0], b[j]));
            }
        }
        lemma_merged_bound(by, rest, b, a[0]);
        let tail = merged(by, rest, b);
        let whole = merged(by, a, b);
        assert forall|i: int, j: int| 0 <= i < j < whole.len() implies rank_le(
            by,
            #[trigger] whole[i],
            #[trigger] whole[j],
        ) by {
            assert(whole[j] == tail[j - 1]);
            if i > 0 {
                assert(whole[i] == tail[i - 1]);
            }
        }
    } else {
        let rest = b.drop_first();
        assert forall|i: int, j: int| 0 <= i < j < rest.len() implies rank_le(
            by,
            #[trigger] rest[i],
            #[trigger] rest[j],
        ) by {
            assert(rest[i] == b[i + 1] && rest[j] == b[j + 1]);
        }
        lemma_merged_ordered(by, a, rest);
        assert forall|j: int| 0 <= j < rest.len() implies rank_le(by, b[0], #[trigger] rest[j]) by {
            assert(rest[j] == b[j + 1]);
        }
        assert forall|i: int| 0 <= i < a.len() implies rank_le(by, b[0], #[trigger] a[i]) by {
            if i > 0 {
                assert(rank_le(by, a[0], a[i]));
            }
        }
        lemma_merged_bound(by, a, rest, b[0]);
        let tail = merged(by, a, rest);
        let whole = merged(by, a, b);
        assert forall|i: int, j: int| 0 <= i < j < whole.len() implies rank_le(
            by,
            #[trigger] whole[i],
            #[trigger] whole[j],
        ) by {
            assert(whole[j] == tail[j - 1]);
            if i > 0 {
                assert(whole[i] == tail[i - 1]);
            }
        }
    }
}

/// Ranking puts the results in order and keeps every one of them, as often as
/// it occurs.
pub proof fn lemma_ranked(by: RankBy, s: Seq<MatchView>)
    ensures
        ordered(by, ranked(by, s)),
        ranked(by, s).to_multiset() =~= s.to_multiset(),
        ranked(by, s).len() == s.len(),
    decreases s.len(),
{
    if s.len() > 1 {
        let mid = s.len() as int / 2;
        let left = s.subrange(0, mid);
        let right = s.subrange(mid, s.len() as int);
        lemma_ranked(by, left);
        lemma_ranked(by, right);
        lemma_merged_ordered(by, ranked(by, left), ranked(by, right));
        lemma_merged_keeps(by, ranked(by, left), ranked(by, right));
        lemma_multiset_commutative(left, right);
        assert(left + right =~= s);
    }
}

/// The test that picks the results that rank exactly as `x` does.
pub open spec fn same_rank(by: RankBy, x: MatchView) -> spec_fn(MatchView) -> bool {
    |m: MatchView| rank_key(by, m) == rank_key(by, x)
}

/// A sequence in which nothing passes a test has nothing left after it.
proof fn lemma_filter_none(s: Seq<MatchView>, p: spec_fn(MatchView) -> bool)
    requires
        forall|i: int| 0 <= i < s.len() ==> !p(#[trigger] s[i]),
    ensures
        s.filter(p) == Seq::<MatchView>::empty(),
    decreases s.len(),
{
    reveal(Seq::filter);
    if s.len() > 0 {
        let init = s.drop_last();
        assert forall|i: int| 0 <= i < init.len() implies !p(#[trigger] init[i]) by {
            assert(init[i] == s[i]);
        }
        lemma_filter_none(init, p);
    }
}

/// What passes a test in one result followed by others.
proof fn lemma_filter_head(e: MatchView, t: Seq<MatchView>, p: spec_fn(MatchView) -> bool)
    ensures
        (seq![e] + t).filter(p) == if p(e) {
            seq![e] + t.filter(p)
        } else {
            t.filter(p)
        },
{
    Seq::filter_distributes_over_add(seq![e], t, p);
    reveal_with_fuel(Seq::filter, 2);
    assert(seq![e].drop_last() =~= Seq::<MatchView>::empty());
    assert(seq![e].filter(p) =~= if p(e) { seq![e] } else { Seq::<MatchView>::empty() });
    assert(Seq::<MatchView>::empty() + t.filter(p) =~= t.filter(p));
}

/// Merging keeps the results of one rank in their order: those of the left
/// sequence first, then those of the right.
proof fn lemma_merged_stable(by: RankBy, a: Seq<MatchView>, b: Seq<MatchView>, x: MatchView)
    requires
        ordered(by, a),
    ensures
        merged(by, a, b).filter(same_rank(by, x)) == a.filter(same_rank(by, x)) + b.filter(
            same_rank(by, x),
        ),
    decreases a.len() + b.len(),
{
    let p = same_rank(by, x);
    if a.len() == 0 {
        lemma_filter_none(a, p);
        assert(a.filter(p) + b.filter(p) =~= b.filter(p));
    } else if b.len() == 0 {
        lemma_filter_none(b, p);
        assert(a.filter(p) + b.filter(p) =~= a.filter(p));
    } else if rank_le(by, a[0], b[0]) {
        let rest = a.drop_first();
        assert forall|i: int, j: int| 0 <= i < j < rest.len() implies rank_le(
            by,
            #[trigger] rest[i],
            #[trigger] rest[j],
        ) by {
            assert(rest[i] == a[i + 1] && rest[j] == a[j + 1]);
        }
        lemma_merged_stable(by, rest, b, x);
        lemma_filter_head(a[0], merged(by, rest, b), p);
        lemma_filter_head(a[0], rest, p);
        assert(seq![a[0]] + rest =~= a);
        if p(a[0]) {
            assert(seq![a[0]] + (rest.filter(p) + b.filter(p)) =~= (seq![a[0]] + rest.filter(p))
                + b.filter(p));
        }
    } else {
        let rest = b.drop_first();
        lemma_merged_stable(by, a, rest, x);
        lemma_filter_head(b[0], merged(by, a, rest), p);
        lemma_filter_head(b[0], rest, p);
        assert(seq![b[0]] + rest =~= b);
        if p(b[0]) {
            assert forall|i: int| 0 <= i < a.len() implies !p(#[trigger] a[i]) by {
                if i > 0 {
                    assert(rank_le(by, a[0], a[i]));
                }
            }
            lemma_filter_none(a, p);
            assert(seq![b[0]] + (a.filter(p) + rest.filter(p)) =~= a.filter(p) + (seq![b[0]]
                + rest.filter(p)));
        }
    }
}

/// Ranking is stable: the results of one rank stand in the order in which
/// they stood before.
pub proof fn law_ranked_stable(by: RankBy, s: Seq<MatchView>, x: MatchView)
    ensures
        ranked(by, s).filter(same_rank(by, x)) == s.filter(same_rank(by, x)),
    decreases s.len(),
{
    if s.len() > 1 {
        let p = same_rank(by, x);
        let mid = s.len() as int / 2;
        let left = s.subrange(0, mid);
        let right = s.subrange(mid, s.len() as int);
        law_ranked_stable(by, left, x);
        law_ranked_stable(by, right, x);
        lemma_ranked(by, left);
        lemma_merged_stable(by, ranked(by, left), ranked(by, right), x);
        Seq::filter_distributes_over_add(left, right, p);
        assert(left + right =~= s);
    }
}

/// In ranked results a lower score always comes first, whatever the times and
/// the games are.
pub proof fn law_lower_score_first(by: RankBy, s: Seq<MatchView>, i: int, j: int)
    requires
        0 <= i < s.len(),
        0 <= j < s.len(),
        ranked(by, s)[i].k < ranked(by, s)[j].k,
    ensures
        i < j,
{
    lemma_ranked(by, s);
    if j < i {
        assert(rank_le(by, ranked(by, s)[j], ranked(by, s)[i]));
    }
}

/// Among results of one score, the composite order puts the one seen more
/// recently first; one never seen counts as seen longest ago.
pub proof fn law_fresher_first(s: Seq<MatchView>, i: int, j: int)
    requires
        0 <= i < s.len(),
        0 <= j < s.len(),
        ranked(RankBy::Composite, s)[i].k == ranked(RankBy::Composite, s)[j].k,
        age_rank(ranked(RankBy::Composite, s)[i].seen_at) > age_rank(
            ranked(RankBy::Composite, s)[j].seen_at,
        ),
    ensures
        i < j,
{
    lemma_ranked(RankBy::Composite, s);
    if j < i {
        assert(rank_le(RankBy::Composite, ranked(RankBy::Composite, s)[j], ranked(RankBy::Composite, s)[i]));
    }
}

/// Two results are ranked as they stand where the first may precede the
/// second, and swapped otherwise.
pub proof fn law_pair(by: RankBy, a: MatchView, b: MatchView)
    ensures
        ranked(by, seq![a, b]) == if rank_le(by, a, b) {
            seq![a, b]
        } else {
            seq![b, a]
        },
{
    let s = seq![a, b];
    let left = s.subrange(0, 1);
    let right = s.subrange(1, 2);
    assert(left =~= seq![a]);
    assert(right =~= seq![b]);
    assert(ranked(by, left) == left);
    assert(ranked(by, right) == right);
    assert(ranked(by, s) == merged(by, left, right));
    assert(left.drop_first() =~= Seq::<MatchView>::empty());
    assert(right.drop_first() =~= Seq::<MatchView>::empty());
    if rank_le(by, a, b) {
        assert(merged(by, left.drop_first(), right) == right);
        assert(merged(by, left, right) =~= seq![a, b]);
    } else {
        assert(merged(by, left, right.drop_first()) == left);
        assert(merged(by, left, right) =~= seq![b, a]);
    }
}

/// Of two results the composite order puts the second first where it has the
/// lower score, whatever the times are, and where it has the same score and
/// was seen more recently.
pub proof fn law_pair_composite(a: MatchView, b: MatchView)
    requires
        b.k < a.k || (b.k == a.k && age_rank(b.seen_at) > age_rank(a.seen_at)),
    ensures
        ranked(RankBy::Composite, seq![a, b]) == seq![b, a],
{
    law_pair(RankBy::Composite, a, b);
}

/// Whether a time is strictly newer than another; an unknown time is older
/// than every known one.
fn newer(a: Option<i64>, b: Option<i64>) -> (r: bool)
    ensures
        r == (age_rank(a) > age_rank(b)),
{
    match (a, b) {
        (Some(x), Some(y)) => x > y,
        (Some(_), None) => true,
        (None, _) => false,
    }
}

/// Decides `rank_le` on two results.
pub fn may_precede(by: RankBy, a: &Match, b: &Match) -> (r: bool)
    ensures
        r == rank_le(by, a@, b@),
{
    if a.k != b.k {
        return a.k < b.k;
    }
    match by {
        RankBy::Score => true,
        RankBy::Composite => {
            if newer(a.seen_at, b.seen_at) {
                true
            } else if newer(b.seen_at, a.seen_at) {
                false
            } else if newer(a.created_at, b.created_at) {
                true
            } else if newer(b.created_at, a.created_at) {
                false
            } else {
                a.games >= b.games
            }
        },
    }
}

/// Merges two sequences of results.
fn merge(by: RankBy, a: &Vec<Match>, b: &Vec<Match>) -> (out: Vec<Match>)
    requires
        a.len() + b.len() <= usize::MAX,
    ensures
        match_views(out@) == merged(by, match_views(a@), match_views(b@)),
{
    let ghost va = match_views(a@);
    let ghost vb = match_views(b@);
    let mut out: Vec<Match> = Vec::new();
    let mut i: usize = 0;
    let mut j: usize = 0;
    proof {
        assert(va.subrange(0, va.len() as int) =~= va);
        assert(vb.subrange(0, vb.len() as int) =~= vb);
        assert(match_views(out@) + merged(by, va, vb) =~= merged(by, va, vb));
    }
    while i < a.len() || j < b.len()
        invariant
            i <= a.len(),
            j <= b.len(),
            va == match_views(a@),
            vb == match_views(b@),
            match_views(out@) + merged(
                by,
                va.subrange(i as int, va.len() as int),
                vb.subrange(j as int, vb.len() as int),
            ) == merged(by, va, vb),
        decreases (a.len() - i) + (b.len() - j),
    {
        let ghost ra = va.subrange(i as int, va.len() as int);
        let ghost rb = vb.subrange(j as int, vb.len() as int);
        let ghost before = match_views(out@);
        let from_left = if i == a.len() {
            false
        } else if j == b.len() {
            true
        } else {
            may_precede(by, &a[i], &b[j])
        };
        if from_left {
            out.push(a[i].copy());
            proof {
                assert(ra.drop_first() =~= va.subrange(i + 1, va.len() as int));
                assert(merged(by, ra, rb) =~= seq![ra[0]] + merged(by, ra.drop_first(), rb));
                assert(match_views(out@) =~= before + seq![ra[0]]);
            }
            i += 1;
        } else {
            out.push(b[j].copy());
            proof {
                assert(rb.drop_first() =~= vb.subrange(j + 1, vb.len() as int));
                assert(merged(by, ra, rb) =~= seq![rb[0]] + merged(by, ra, rb.drop_first()));
                assert(match_views(out@) =~= before + seq![rb[0]]);
            }
            j += 1;
        }
        proof {
            let ra2 = va.subrange(i as int, va.len() as int);
            let rb2 = vb.subrange(j as int, vb.len() as int);
            assert(match_views(out@) + merged(by, ra2, rb2) =~= before + merged(by, ra, rb));
        }
    }
    proof {
        assert(merged(by, va.subrange(i as int, va.len() as int), vb.subrange(j as int, vb.len() as int))
            =~= Seq::empty());
        assert(match_views(out@) + Seq::<MatchView>::empty() =~= match_views(out@));
    }
    out
}

/// Ranks the results between two positions of a list.
fn rank_range(by: RankBy, v: &Vec<Match>, lo: usize, hi: usize) -> (out: Vec<Match>)
    requires
        lo <= hi <= v.len(),
    ensures
        match_views(out@) == ranked(by, match_views(v@).subrange(lo as int, hi as int)),
        out.len() == hi - lo,
    decreases hi - lo,
{
    let ghost part = match_views(v@).subrange(lo as int, hi as int);
    if hi - lo == 0 {
        let out: Vec<Match> = Vec::new();
        assert(match_views(out@) =~= part);
        out
    } else if hi - lo == 1 {
        let mut out: Vec<Match> = Vec::new();
        out.push(v[lo].copy());
        assert(match_views(out@) =~= part);
        out
    } else {
        let mid = lo + (hi - lo) / 2;
        let left = rank_range(by, v, lo, mid);
        let right = rank_range(by, v, mid, hi);
        proof {
            let half = part.len() as int / 2;
            assert(part.subrange(0, half) =~= match_views(v@).subrange(lo as int, mid as int));
            assert(part.subrange(half, part.len() as int) =~= match_views(v@).subrange(
                mid as int,
                hi as int,
            ));
        }
        let out = merge(by, &left, &right);
        proof {
            lemma_ranked(by, part);
            assert(match_views(out@).len() == out.len());
        }
        out
    }
}

/// Puts the results in rank order. Results of equal rank keep their order.
/// None is added and none is lost.
pub fn rank(matches: &mut Vec<Match>, by: RankBy)
    ensures
        match_views(final(matches)@) == ranked(by, match_views(old(matches)@)),
        ordered(by, match_views(final(matches)@)),
        match_views(final(matches)@).to_multiset() == match_views(old(matches)@).to_multiset(),
        forall|x: MatchView| #[trigger]
            match_views(final(matches)@).filter(same_rank(by, x)) == match_views(old(matches)@).filter(
                same_rank(by, x),
            ),
        final(matches).len() == old(matches).len(),
{
    let sorted = rank_range(by, matches, 0, matches.len());
    proof {
        let all = match_views(matches@);
        assert(all.subrange(0, all.len() as int) =~= all);
        lemma_ranked(by, all);
        assert forall|x: MatchView| #[trigger]
            ranked(by, all).filter(same_rank(by, x)) == all.filter(same_rank(by, x)) by {
            law_ranked_stable(by, all, x);
        }
    }
    *matches = sorted;
}

} // verus!
