//! Scanning the corpus: which entries a searcher finds, chunk by chunk.

use vstd::prelude::*;
use vstd::seq_lib::*;
use vstd::utf8::encode_utf8;
use crate::model::{hit, match_views, user_views, LevenshteinSettings, Match, MatchView, Username, UsernameView};
use crate::searcher::{bounded_distance, out_of_reach, Matcher, Searcher};
use crate::text::contains_text;

verus! {

/// The number of corpus entries that one unit of work scans.
pub const CHUNK_SIZE: usize = 100_000;

/// The number of scanned entries after which progress is reported.
pub const PROGRESS_BATCH: usize = 4096;

/// The results of scanning the entries in order: one result for each entry
/// whose key the matcher scores, in corpus order.
pub open spec fn found(m: Matcher, users: Seq<UsernameView>) -> Seq<MatchView>
    decreases users.len(),
{
    if users.len() == 0 {
        Seq::empty()
    } else {
        let rest = found(m, users.drop_last());
        match m.score(users.last().id) {
            Some(k) => rest.push(hit(users.last(), k)),
            None => rest,
        }
    }
}

/// Scanning two stretches of the corpus one after the other finds what
/// scanning them as one stretch finds: where the corpus is cut into chunks
/// does not matter.
pub proof fn lemma_found_concat(m: Matcher, a: Seq<UsernameView>, b: Seq<UsernameView>)
    ensures
        found(m, a + b) == found(m, a) + found(m, b),
    decreases b.len(),
{
    if b.len() == 0 {
        assert(a + b =~= a);
        assert(found(m, a) + found(m, b) =~= found(m, a));
    } else {
        lemma_found_concat(m, a, b.drop_last());
        assert((a + b).drop_last() =~= a + b.drop_last());
        assert((a + b).last() == b.last());
        match m.score(b.last().id) {
            Some(k) => {
                assert(found(m, a) + found(m, b.drop_last()).push(hit(b.last(), k)) =~= (found(m, a)
                    + found(m, b.drop_last())).push(hit(b.last(), k)));
            },
            None => {},
        }
    }
}

/// The order in which two chunks hand in their results does not change which
/// results there are, nor how often each occurs.
pub proof fn lemma_arrival_order(m: Matcher, a: Seq<UsernameView>, b: Seq<UsernameView>)
    ensures
        (found(m, b) + found(m, a)).to_multiset() =~= found(m, a + b).to_multiset(),
{
    lemma_found_concat(m, a, b);
    lemma_multiset_commutative(found(m, a), found(m, b));
    lemma_multiset_commutative(found(m, b), found(m, a));
}

/// An entry is among the results exactly when the matcher scores its key, and
/// its result then carries that score: every scored entry has its result, and
/// every result is that of a scored entry.
pub proof fn lemma_found_members(m: Matcher, users: Seq<UsernameView>)
    ensures
        forall|i: int|
            0 <= i < users.len() && m.score(#[trigger] users[i].id) is Some ==> found(
                m,
                users,
            ).contains(hit(users[i], m.score(users[i].id)->0)),
        forall|r: MatchView| #[trigger]
            found(m, users).contains(r) ==> exists|i: int|
                0 <= i < users.len() && m.score(#[trigger] users[i].id) == Some(r.k) && r == hit(
                    users[i],
                    r.k,
                ),
        found(m, users).len() <= users.len(),
    decreases users.len(),
{
    if users.len() > 0 {
        let init = users.drop_last();
        let last = users.last();
        let n = users.len() - 1;
        lemma_found_members(m, init);
        let rest = found(m, init);
        let all = found(m, users);
        assert forall|i: int| 0 <= i < users.len() && m.score(#[trigger] users[i].id) is Some implies all.contains(
            hit(users[i], m.score(users[i].id)->0),
        ) by {
            let h = hit(users[i], m.score(users[i].id)->0);
            if i < n {
                assert(init[i] == users[i]);
                assert(rest.contains(h));
                let at = choose|at: int| 0 <= at < rest.len() && rest[at] == h;
                assert(all[at] == h);
            } else {
                assert(all[rest.len() as int] == h);
            }
        }
        assert forall|r: MatchView| #[trigger] all.contains(r) implies exists|i: int|
            0 <= i < users.len() && m.score(#[trigger] users[i].id) == Some(r.k) && r == hit(
                users[i],
                r.k,
            ) by {
            let at = choose|at: int| 0 <= at < all.len() && all[at] == r;
            if at < rest.len() {
                assert(rest[at] == r);
                assert(rest.contains(r));
                let i = choose|i: int|
                    0 <= i < init.len() && m.score(#[trigger] init[i].id) == Some(r.k) && r == hit(
                        init[i],
                        r.k,
                    );
                assert(users[i] == init[i]);
            } else {
                assert(m.score(users[n].id) == Some(r.k) && r == hit(users[n], r.k));
            }
        }
    }
}

/// Plain search finds an entry exactly when its key contains the pattern; the
/// score is 0.
pub proof fn law_plain_membership(pattern: Seq<char>, users: Seq<UsernameView>, i: int)
    requires
        0 <= i < users.len(),
    ensures
        found(Matcher::Plain(pattern), users).contains(hit(users[i], 0)) <==> contains_text(
            users[i].id,
            pattern,
        ),
{
    let m = Matcher::Plain(pattern);
    lemma_found_members(m, users);
    if found(m, users).contains(hit(users[i], 0)) {
        let r = hit(users[i], 0);
        let j = choose|j: int|
            0 <= j < users.len() && m.score(#[trigger] users[j].id) == Some(r.k) && r == hit(
                users[j],
                r.k,
            );
        assert(users[j].id == users[i].id);
    }
}

/// Edit-distance search finds an entry exactly when its key is within reach
/// of the pattern and the distance between the pattern and the whole key is
/// within the threshold; the score is that distance.
pub proof fn law_approximate_membership(
    pattern: Seq<char>,
    lev: LevenshteinSettings,
    users: Seq<UsernameView>,
    i: int,
    k: u32,
)
    requires
        0 <= i < users.len(),
    ensures
        found(Matcher::Levenshtein(pattern, lev), users).contains(hit(users[i], k)) <==> (
        !out_of_reach(encode_utf8(pattern).len(), encode_utf8(users[i].id).len(), lev.max_k) && bounded_distance(
            encode_utf8(pattern),
            encode_utf8(users[i].id),
            lev.max_k,
            lev.mismatch_cost,
            lev.gap_cost,
            lev.swap_cost,
        ) == Some(k)),
{
    let m = Matcher::Levenshtein(pattern, lev);
    lemma_found_members(m, users);
    if found(m, users).contains(hit(users[i], k)) {
        let r = hit(users[i], k);
        let j = choose|j: int|
            0 <= j < users.len() && m.score(#[trigger] users[j].id) == Some(r.k) && r == hit(
                users[j],
                r.k,
            );
        assert(users[j].id == users[i].id);
    }
}

/// Scans one chunk of the corpus in order and returns the results found in
/// it.
pub fn scan_chunk(searcher: &Searcher, chunk: &[Username]) -> (out: Vec<Match>)
    requires
        searcher.wf(),
    ensures
        match_views(out@) == found(searcher@, user_views(chunk@)),
        out.len() <= chunk.len(),
{
    let ghost users = user_views(chunk@);
    let mut out: Vec<Match> = Vec::new();
    let mut i: usize = 0;
    while i < chunk.len()
        invariant
            i <= chunk.len(),
            searcher.wf(),
            users == user_views(chunk@),
            match_views(out@) == found(searcher@, users.subrange(0, i as int)),
            out.len() <= i,
        decreases chunk.len() - i,
    {
        let ghost before = match_views(out@);
        let user = &chunk[i];
        let score = searcher.matches(user.id.as_str());
        proof {
            let next = users.subrange(0, i + 1);
            assert(next.drop_last() =~= users.subrange(0, i as int));
            assert(next.last() == user@);
        }
        if let Some(k) = score {
            out.push(Match::new(user, k));
            assert(match_views(out@) =~= before.push(hit(user@, k)));
        }
        i += 1;
    }
    assert(users.subrange(0, chunk.len() as int) =~= users);
    out
}

} // verus!
