//! Filtering and ranking of candidate paths against a query.
use crate::text::{contains_str, is_substring};
use vstd::prelude::*;

verus! {

/// How a non-empty query selects and orders candidates.
#[derive(PartialEq, Eq, Structural, Debug, Clone, Copy)]
pub enum SearchStrategy {
    /// Keep the candidates that contain the query, in the order they were given.
    Substring,
    /// Keep the best fuzzy matches with a positive score, best first.
    Fuzzy,
}

/// The strategy this build searches with.
pub const SEARCH_STRATEGY: SearchStrategy = SearchStrategy::Fuzzy;

/// The most results the fuzzy strategy returns.
pub const FUZZY_LIMIT: usize = 10;

/// What `rust_fuzzy_search::fuzzy_search_best_n` returns for a query, the
/// candidates and a count: candidates paired with the bit pattern of their
/// score.
pub uninterp spec fn fuzzy_best_of(query: Seq<char>, candidates: Seq<Seq<char>>, n: nat) -> Seq<
    (Seq<char>, u32),
>;

/// The facts that callers use of a fuzzy ranking: at most `n` entries (all
/// of the candidates when there are fewer), each a candidate, scores
/// non-increasing.
pub open spec fn is_fuzzy_ranking(
    ranked: Seq<(Seq<char>, u32)>,
    candidates: Seq<Seq<char>>,
    n: nat,
) -> bool {
    &&& ranked.len() == if candidates.len() < n { candidates.len() } else { n }
    &&& forall|i: int| 0 <= i < ranked.len() ==> candidates.contains(#[trigger] ranked[i].0)
    &&& forall|i: int, j: int| 0 <= i < j < ranked.len() ==> ranked[i].1 >= ranked[j].1
}

/// Relies on `rust_fuzzy_search::fuzzy_search_best_n`: it scores every
/// candidate against the query, sorts them by descending score (a stable
/// sort) and keeps the first `n`. A score is an `f32` in `[0, 1]` and is
/// handed out as its bit pattern, which orders non-negative floats as their
/// values do.
#[verifier::external_body]
fn fuzzy_best_n(query: &str, candidates: &Vec<String>, n: usize) -> (r: Vec<(String, u32)>)
    ensures
        r.deep_view() == fuzzy_best_of(query@, candidates.deep_view(), n as nat),
        is_fuzzy_ranking(r.deep_view(), candidates.deep_view(), n as nat),
{
    let list: Vec<&str> = candidates.iter().map(|c| c.as_str()).collect();
    rust_fuzzy_search::fuzzy_search_best_n(query, &list, n)
        .into_iter()
        .map(|(c, score)| (c.to_string(), score.to_bits()))
        .collect()
}

/// The entries of a ranking whose score is positive, in the same order.
pub open spec fn positive_entries(ranked: Seq<(Seq<char>, u32)>) -> Seq<(Seq<char>, u32)>
    decreases ranked.len(),
{
    if ranked.len() == 0 {
        Seq::empty()
    } else {
        let rest = positive_entries(ranked.drop_last());
        if ranked.last().1 > 0 {
            rest.push(ranked.last())
        } else {
            rest
        }
    }
}

/// The names of a ranking's entries.
pub open spec fn entry_names(entries: Seq<(Seq<char>, u32)>) -> Seq<Seq<char>> {
    entries.map_values(|e: (Seq<char>, u32)| e.0)
}

/// The candidates of `candidates` that contain `query`, in their order.
pub open spec fn containing(query: Seq<char>, candidates: Seq<Seq<char>>) -> Seq<Seq<char>>
    decreases candidates.len(),
{
    if candidates.len() == 0 {
        Seq::empty()
    } else {
        let rest = containing(query, candidates.drop_last());
        if is_substring(query, candidates.last()) {
            rest.push(candidates.last())
        } else {
            rest
        }
    }
}

/// The result list for `query` over `candidates`: every candidate, in
/// order, for the empty query; otherwise what the strategy selects.
pub open spec fn search_results(
    strategy: SearchStrategy,
    query: Seq<char>,
    candidates: Seq<Seq<char>>,
) -> Seq<Seq<char>> {
    if query.len() == 0 {
        candidates
    } else {
        match strategy {
            SearchStrategy::Substring => containing(query, candidates),
            SearchStrategy::Fuzzy => entry_names(
                positive_entries(fuzzy_best_of(query, candidates, FUZZY_LIMIT as nat)),
            ),
        }
    }
}

/// A copy of `v`.
pub fn copy_strings(v: &Vec<String>) -> (r: Vec<String>)
    ensures
        r.deep_view() == v.deep_view(),
{
    let mut r: Vec<String> = Vec::new();
    let mut i: usize = 0;
    while i < v.len()
        invariant
            i <= v@.len(),
            r.deep_view() == v.deep_view().subrange(0, i as int),
        decreases v@.len() - i,
    {
        let ghost before = r.deep_view();
        r.push(v[i].clone());
        assert(r.deep_view() =~= before.push(v[i as int]@));
        assert(r.deep_view() =~= v.deep_view().subrange(0, i + 1));
        i = i + 1;
    }
    assert(r.deep_view() =~= v.deep_view());
    r
}

/// The names of the entries of a fuzzy ranking whose score is positive,
/// in the ranking's order.
pub fn positive_matches(ranked: Vec<(String, u32)>) -> (r: Vec<String>)
    ensures
        r.deep_view() == entry_names(positive_entries(ranked.deep_view())),
{
    let ghost m = ranked.deep_view();
    let mut r: Vec<String> = Vec::new();
    let mut i: usize = 0;
    while i < ranked.len()
        invariant
            m == ranked.deep_view(),
            i <= m.len(),
            r.deep_view() == entry_names(positive_entries(m.subrange(0, i as int))),
        decreases m.len() - i,
    {
        let ghost before = r.deep_view();
        let ghost rest = positive_entries(m.subrange(0, i as int));
        assert(m.subrange(0, i + 1).drop_last() =~= m.subrange(0, i as int));
        assert(m[i as int] == (ranked@[i as int].0@, ranked@[i as int].1));
        if ranked[i].1 > 0 {
            r.push(ranked[i].0.clone());
            assert(r.deep_view() =~= before.push(m[i as int].0));
            assert(entry_names(rest.push(m[i as int])) =~= entry_names(rest).push(m[i as int].0));
        }
        assert(r.deep_view() =~= entry_names(positive_entries(m.subrange(0, i + 1))));
        i = i + 1;
    }
    assert(m.subrange(0, m.len() as int) =~= m);
    r
}

/// The candidates that contain `query`, in the order they were given.
pub fn search_substring(query: &String, candidates: &Vec<String>) -> (r: Vec<String>)
    ensures
        r.deep_view() == containing(query@, candidates.deep_view()),
{
    let ghost c = candidates.deep_view();
    let mut r: Vec<String> = Vec::new();
    let mut i: usize = 0;
    while i < candidates.len()
        invariant
            c == candidates.deep_view(),
            i <= c.len(),
            r.deep_view() == containing(query@, c.subrange(0, i as int)),
        decreases c.len() - i,
    {
        assert(c.subrange(0, i + 1).drop_last() =~= c.subrange(0, i as int));
        if contains_str(candidates[i].as_str(), query.as_str()) {
            r.push(candidates[i].clone());
        }
        assert(r.deep_view() =~= containing(query@, c.subrange(0, i + 1)));
        i = i + 1;
    }
    assert(c.subrange(0, c.len() as int) =~= c);
    r
}

/// The best fuzzy matches of a non-empty `query`: at most `FUZZY_LIMIT`,
/// best first, those with score zero left out.
pub fn search_fuzzy(query: &String, candidates: &Vec<String>) -> (r: Vec<String>)
    ensures
        ({
            let kept = positive_entries(
                fuzzy_best_of(query@, candidates.deep_view(), FUZZY_LIMIT as nat),
            );
            &&& r.deep_view() == entry_names(kept)
            &&& is_ranked_selection(kept, candidates.deep_view())
        }),
{
    let ranked = fuzzy_best_n(query.as_str(), candidates, FUZZY_LIMIT);
    proof {
        lemma_positive_entries_ranked(ranked.deep_view(), candidates.deep_view());
    }
    positive_matches(ranked)
}

/// The result list for `query` over `candidates` under `strategy`: the
/// candidates unchanged for the empty query.
pub fn search(strategy: SearchStrategy, query: &String, candidates: &Vec<String>) -> (r: Vec<
    String,
>)
    ensures
        r.deep_view() == search_results(strategy, query@, candidates.deep_view()),
        strategy is Fuzzy && query@.len() > 0 ==> is_ranked_selection(
            positive_entries(
                fuzzy_best_of(query@, candidates.deep_view(), FUZZY_LIMIT as nat),
            ),
            candidates.deep_view(),
        ),
{
    if query.as_str().is_empty() {
        copy_strings(candidates)
    } else {
        match strategy {
            SearchStrategy::Substring => search_substring(query, candidates),
            SearchStrategy::Fuzzy => search_fuzzy(query, candidates),
        }
    }
}

/// A fuzzy selection as results are listed: at most `FUZZY_LIMIT` entries,
/// each a candidate with a positive score, scores non-increasing.
pub open spec fn is_ranked_selection(kept: Seq<(Seq<char>, u32)>, candidates: Seq<Seq<char>>) -> bool {
    &&& kept.len() <= FUZZY_LIMIT
    &&& forall|i: int| 0 <= i < kept.len() ==> #[trigger] kept[i].1 > 0
    &&& forall|i: int| 0 <= i < kept.len() ==> candidates.contains(#[trigger] kept[i].0)
    &&& forall|i: int, j: int| 0 <= i < j < kept.len() ==> kept[i].1 >= kept[j].1
}

/// Keeping the positive entries of a ranking keeps their order: the kept
/// entries are entries of the ranking, no more of them, with non-increasing
/// scores when the ranking has them.
pub proof fn lemma_positive_entries_keep_order(ranked: Seq<(Seq<char>, u32)>)
    ensures
        positive_entries(ranked).len() <= ranked.len(),
        forall|i: int|
            0 <= i < positive_entries(ranked).len() ==> ranked.contains(
                #[trigger] positive_entries(ranked)[i],
            ) && positive_entries(ranked)[i].1 > 0,
        (forall|i: int, j: int| 0 <= i < j < ranked.len() ==> ranked[i].1 >= ranked[j].1) ==> (
        forall|i: int, j: int|
            0 <= i < j < positive_entries(ranked).len() ==> positive_entries(ranked)[i].1
                >= positive_entries(ranked)[j].1),
    decreases ranked.len(),
{
    if ranked.len() > 0 {
        let prev = ranked.drop_last();
        lemma_positive_entries_keep_order(prev);
        let kept = positive_entries(ranked);
        assert forall|i: int| 0 <= i < kept.len() implies ranked.contains(#[trigger] kept[i])
            && kept[i].1 > 0 by {
            if i < positive_entries(prev).len() {
                let k = choose|k: int| 0 <= k < prev.len() && prev[k] == positive_entries(prev)[i];
                assert(ranked[k] == kept[i]);
            } else {
                assert(ranked[ranked.len() - 1] == kept[i]);
            }
        }
        if forall|i: int, j: int| 0 <= i < j < ranked.len() ==> ranked[i].1 >= ranked[j].1 {
            assert forall|i: int, j: int| 0 <= i < j < kept.len() implies kept[i].1
                >= kept[j].1 by {
                if j >= positive_entries(prev).len() {
                    let k = choose|k: int|
                        0 <= k < prev.len() && prev[k] == positive_entries(prev)[i];
                    assert(ranked[k] == kept[i]);
                    assert(kept[j] == ranked.last());
                }
            }
        }
    }
}

/// What follows from the facts of a fuzzy ranking of `FUZZY_LIMIT` entries
/// for its positive entries.
proof fn lemma_positive_entries_ranked(ranked: Seq<(Seq<char>, u32)>, candidates: Seq<Seq<char>>)
    requires
        is_fuzzy_ranking(ranked, candidates, FUZZY_LIMIT as nat),
    ensures
        is_ranked_selection(positive_entries(ranked), candidates),
{
    lemma_positive_entries_keep_order(ranked);
    let kept = positive_entries(ranked);
    assert forall|i: int| 0 <= i < kept.len() implies candidates.contains(#[trigger] kept[i].0) by {
        let k = choose|k: int| 0 <= k < ranked.len() && ranked[k] == kept[i];
        assert(candidates.contains(ranked[k].0));
    }
}

/// `idx` places each element of `a` at a position of `b`, at increasing
/// positions.
pub open spec fn embeds(idx: Seq<int>, a: Seq<Seq<char>>, b: Seq<Seq<char>>) -> bool {
    &&& idx.len() == a.len()
    &&& forall|i: int| 0 <= i < idx.len() ==> 0 <= #[trigger] idx[i] < b.len() && a[i] == b[idx[i]]
    &&& forall|i: int, j: int| 0 <= i < j < idx.len() ==> idx[i] < idx[j]
}

/// `a` is made of elements of `b`, taken in their order in `b`.
pub open spec fn is_subsequence(a: Seq<Seq<char>>, b: Seq<Seq<char>>) -> bool {
    exists|idx: Seq<int>| embeds(idx, a, b)
}

proof fn lemma_containing_embeds(query: Seq<char>, candidates: Seq<Seq<char>>) -> (idx: Seq<int>)
    ensures
        embeds(idx, containing(query, candidates), candidates),
        forall|i: int|
            0 <= i < containing(query, candidates).len() ==> is_substring(
                query,
                #[trigger] containing(query, candidates)[i],
            ),
    decreases candidates.len(),
{
    if candidates.len() == 0 {
        Seq::empty()
    } else {
        let prev = candidates.drop_last();
        let idx_prev = lemma_containing_embeds(query, prev);
        if is_substring(query, candidates.last()) {
            let idx = idx_prev.push(candidates.len() - 1);
            assert forall|i: int| 0 <= i < idx.len() implies 0 <= #[trigger] idx[i]
                < candidates.len() && containing(query, candidates)[i] == candidates[idx[i]] by {
                if i < idx_prev.len() {
                    assert(idx[i] == idx_prev[i]);
                }
            }
            idx
        } else {
            assert forall|i: int| 0 <= i < idx_prev.len() implies 0 <= #[trigger] idx_prev[i]
                < candidates.len() && containing(query, candidates)[i]
                == candidates[idx_prev[i]] by {
                assert(prev[idx_prev[i]] == candidates[idx_prev[i]]);
            }
            idx_prev
        }
    }
}

/// Under the substring strategy every result contains the query, and the
/// results are candidates kept in the order they were given.
pub proof fn lemma_substring_search_sound(query: Seq<char>, candidates: Seq<Seq<char>>)
    ensures
        forall|i: int|
            0 <= i < search_results(SearchStrategy::Substring, query, candidates).len()
                ==> is_substring(
                query,
                #[trigger] search_results(SearchStrategy::Substring, query, candidates)[i],
            ),
        is_subsequence(search_results(SearchStrategy::Substring, query, candidates), candidates),
{
    if query.len() == 0 {
        let idx = Seq::new(candidates.len(), |i: int| i);
        assert(embeds(idx, candidates, candidates));
        assert forall|i: int| 0 <= i < candidates.len() implies is_substring(
            query,
            #[trigger] candidates[i],
        ) by {
            assert(candidates[i].subrange(0, 0) =~= query);
            assert(crate::text::occurs_at(candidates[i], query, 0));
        }
    } else {
        let idx = lemma_containing_embeds(query, candidates);
        assert(embeds(idx, containing(query, candidates), candidates));
    }
}

} // verus!
