//! Listing tasks by status and fuzzy search, as the `list` tool of the MCP
//! endpoint and the command line client do it.

use vstd::prelude::*;

use crate::cache::TaskCache;
use crate::task::{Infos, InfosView, Task};
use crate::text::{spec_is_whitespace, spec_trim, str_trim};

verus! {

/// Which tasks to list by status.
#[derive(Clone, Copy, Debug, PartialEq, Eq, Structural)]
pub enum StatusFilter {
    Open,
    Done,
    All,
}

impl Default for StatusFilter {
    /// Open tasks.
    fn default() -> (f: StatusFilter)
        ensures
            f == StatusFilter::Open,
    {
        StatusFilter::Open
    }
}

/// A task passes the status filter.
pub open spec fn status_passes(f: StatusFilter, done: bool) -> bool {
    match f {
        StatusFilter::All => true,
        StatusFilter::Open => !done,
        StatusFilter::Done => done,
    }
}

/// Whether `sublime_fuzzy::best_match` finds the query in the target.
pub uninterp spec fn spec_fuzzy_found(query: Seq<char>, target: Seq<char>) -> bool;

/// The words of a text, as `str::split_whitespace` yields them: the
/// maximal runs of characters that are not whitespace, in order.
pub open spec fn spec_split_whitespace(s: Seq<char>) -> Seq<Seq<char>>
    decreases s.len(),
{
    if s.len() == 0 {
        Seq::empty()
    } else {
        let words = spec_split_whitespace(s.drop_last());
        let c = s.last();
        if spec_is_whitespace(c) {
            words
        } else if s.len() >= 2 && !spec_is_whitespace(s[s.len() - 2]) {
            words.update(words.len() - 1, words.last().push(c))
        } else {
            words.push(seq![c])
        }
    }
}

/// `sublime_fuzzy::best_match(query, target).is_some()`; its result is
/// named.
#[verifier::external_body]
fn fuzzy_found(query: &str, target: &str) -> (b: bool)
    ensures
        b == spec_fuzzy_found(query@, target@),
{
    sublime_fuzzy::best_match(query, target).is_some()
}

/// `str::split_whitespace`, collected: the words of the text.
#[verifier::external_body]
fn split_whitespace(s: &str) -> (words: Vec<&str>)
    ensures
        words@.map_values(|w: &str| w@) == spec_split_whitespace(s@),
{
    s.split_whitespace().collect()
}

/// The names joined with single spaces.
pub open spec fn spec_join_spaced(names: Seq<Seq<char>>) -> Seq<char>
    decreases names.len(),
{
    if names.len() == 0 {
        Seq::empty()
    } else if names.len() == 1 {
        names[0]
    } else {
        spec_join_spaced(names.drop_last()) + seq![' '] + names.last()
    }
}

/// What the search looks in: summary, category and contexts, separated
/// by spaces.
pub open spec fn spec_haystack(info: InfosView) -> Seq<char> {
    info.0 + seq![' '] + info.2 + seq![' '] + spec_join_spaced(info.3)
}

/// The words of a search: none when there is no search or it is blank.
pub open spec fn spec_search_words(search: Option<Seq<char>>) -> Option<Seq<Seq<char>>> {
    match search {
        Some(q) => if spec_trim(q).len() == 0 {
            None
        } else {
            Some(spec_split_whitespace(spec_trim(q)))
        },
        None => None,
    }
}

/// Every word is found in the text.
pub open spec fn all_words_found(ws: Seq<Seq<char>>, hay: Seq<char>) -> bool {
    forall|i: int| 0 <= i < ws.len() ==> spec_fuzzy_found(#[trigger] ws[i], hay)
}

/// A task is found when every word of the search is.
pub open spec fn spec_found(words: Option<Seq<Seq<char>>>, info: InfosView) -> bool {
    match words {
        None => true,
        Some(ws) => all_words_found(ws, spec_haystack(info)),
    }
}

/// The ids of the listed tasks, in cache order.
pub open spec fn spec_listed(entries: Seq<(u128, Task)>, words: Option<Seq<Seq<char>>>, f: StatusFilter) -> Seq<u128>
    decreases entries.len(),
{
    if entries.len() == 0 {
        Seq::empty()
    } else {
        let prev = spec_listed(entries.drop_last(), words, f);
        let e = entries.last();
        if status_passes(f, e.1.spec_info().spec_is_done()) && spec_found(words, e.1.spec_info()@) {
            prev.push(e.0)
        } else {
            prev
        }
    }
}

/// Whether the task `e` answers a listing with search `q` and status
/// filter `f`: its status passes and, for a search that is not blank,
/// every single word of the trimmed search is fuzzy-found in the task's
/// summary, category and contexts.
pub open spec fn answers_listing(e: (u128, Task), q: Option<Seq<char>>, f: StatusFilter) -> bool {
    &&& match f {
        StatusFilter::All => true,
        StatusFilter::Open => !e.1.spec_info().spec_is_done(),
        StatusFilter::Done => e.1.spec_info().spec_is_done(),
    }
    &&& match q {
        None => true,
        Some(q) => spec_trim(q).len() == 0 || forall|k: int|
            0 <= k < spec_split_whitespace(spec_trim(q)).len() ==> spec_fuzzy_found(
                #[trigger] spec_split_whitespace(spec_trim(q))[k],
                spec_haystack(e.1.spec_info()@),
            ),
    }
}

/// A task is listed exactly when it answers the listing: its status passes
/// the filter and every word of the search is found in it, not just some.
pub proof fn law_listed_iff_every_word_found(entries: Seq<(u128, Task)>, q: Option<Seq<char>>, f: StatusFilter, id: u128)
    ensures
        spec_listed(entries, spec_search_words(q), f).contains(id) <==> exists|j: int|
            0 <= j < entries.len() && (#[trigger] entries[j]).0 == id && answers_listing(entries[j], q, f),
    decreases entries.len(),
{
    if entries.len() > 0 {
        let prev = entries.drop_last();
        law_listed_iff_every_word_found(prev, q, f, id);
        let e = entries.last();
        assert(e == entries[entries.len() - 1]);
        let before = spec_listed(prev, spec_search_words(q), f);
        let after = spec_listed(entries, spec_search_words(q), f);
        assert(status_passes(f, e.1.spec_info().spec_is_done()) && spec_found(spec_search_words(q), e.1.spec_info()@)
            <==> answers_listing(e, q, f));
        if after.contains(id) {
            if before.contains(id) {
                let j = choose|j: int| 0 <= j < prev.len() && (#[trigger] prev[j]).0 == id && answers_listing(prev[j], q, f);
                assert(entries[j] == prev[j]);
            } else {
                assert(after != before);
                assert(after == before.push(e.0));
                let k = choose|k: int| 0 <= k < after.len() && after[k] == id;
                assert(k == before.len());
            }
        }
        if exists|j: int| 0 <= j < entries.len() && (#[trigger] entries[j]).0 == id && answers_listing(entries[j], q, f) {
            let j = choose|j: int| 0 <= j < entries.len() && (#[trigger] entries[j]).0 == id && answers_listing(entries[j], q, f);
            if j < prev.len() {
                assert(prev[j] == entries[j]);
                assert(before.contains(id));
                let k = choose|k: int| 0 <= k < before.len() && before[k] == id;
                if after != before {
                    assert(after == before.push(e.0));
                    assert(after[k] == id);
                }
            } else {
                assert(after == before.push(e.0));
                assert(after[before.len() as int] == id);
            }
        }
    }
}

/// Whether every word is found in the text.
fn all_found(words: &Vec<&str>, hay: &str) -> (b: bool)
    ensures
        b == all_words_found(words@.map_values(|w: &str| w@), hay@),
{
    let ghost wv = words@.map_values(|w: &str| w@);
    let mut k: usize = 0;
    while k < words.len()
        invariant
            wv == words@.map_values(|w: &str| w@),
            k <= words.len(),
            forall|j: int| 0 <= j < k ==> spec_fuzzy_found(#[trigger] wv[j], hay@),
        decreases words.len() - k,
    {
        assert(wv[k as int] == words@[k as int]@);
        if !fuzzy_found(words[k], hay) {
            return false;
        }
        k += 1;
    }
    true
}

/// The text searched for a task.
pub fn haystack(info: &Infos) -> (s: String)
    ensures
        s@ == spec_haystack(info@),
{
    proof {
        reveal_strlit(" ");
    }
    let mut s = String::from_str(info.summary());
    s.append(" ");
    s.append(info.category().as_str());
    s.append(" ");
    let ghost head = s@;
    let contexts = info.contexts();
    let ghost names = info@.3;
    let mut k: usize = 0;
    while k < contexts.len()
        invariant
            names == crate::task::context_names(contexts@),
            k <= contexts.len(),
            s@ == head + spec_join_spaced(names.take(k as int)),
        decreases contexts.len() - k,
    {
        proof {
            assert(names.take(k + 1).drop_last() =~= names.take(k as int));
            assert(names.take(k + 1).last() == contexts@[k as int]@);
        }
        let ghost before = s@;
        proof {
            reveal_strlit(" ");
        }
        if k > 0 {
            s.append(" ");
            assert(" "@ =~= seq![' ']);
            assert(s@ =~= before + seq![' ']);
        }
        s.append(contexts[k].as_str());
        proof {
            assert(names[k as int] == contexts@[k as int]@);
            if k == 0 {
                assert(names.take(1).len() == 1);
                assert(spec_join_spaced(names.take(1)) == names[0]);
                assert(names.take(0) =~= Seq::<Seq<char>>::empty());
                assert(s@ =~= head + spec_join_spaced(names.take(k + 1)));
            } else {
                assert(spec_join_spaced(names.take(k + 1)) == spec_join_spaced(names.take(k as int)) + seq![' '] + names[k as int]);
                assert(s@ =~= head + spec_join_spaced(names.take(k + 1)));
            }
        }
        k += 1;
    }
    proof {
        assert(names.take(contexts.len() as int) =~= names);
    }
    s
}

/// The ids of the tasks that pass the status filter and match every word
/// of the search, in cache order.
pub fn list_matching(cache: &TaskCache, search: Option<&str>, status: StatusFilter) -> (ids: Vec<u128>)
    ensures
        ids@ == spec_listed(
            cache.spec_entries(),
            spec_search_words(
                match search {
                    Some(q) => Some(q@),
                    None => None,
                },
            ),
            status,
        ),
        forall|id: u128|
            #![trigger ids@.contains(id)]
            ids@.contains(id) <==> exists|j: int|
                0 <= j < cache.spec_entries().len() && (#[trigger] cache.spec_entries()[j]).0 == id && answers_listing(
                    cache.spec_entries()[j],
                    match search {
                        Some(q) => Some(q@),
                        None => None,
                    },
                    status,
                ),
{
    let ghost words = spec_search_words(
        match search {
            Some(q) => Some(q@),
            None => None,
        },
    );
    let query: Option<Vec<&str>> = match search {
        Some(q) => {
            let t = str_trim(q);
            if t.unicode_len() == 0 {
                None
            } else {
                Some(split_whitespace(t))
            }
        },
        None => None,
    };
    assert(match query {
        Some(ws) => words == Some(ws@.map_values(|w: &str| w@)),
        None => words is None,
    });
    let n = cache.len();
    let ghost entries = cache.spec_entries();
    let mut ids: Vec<u128> = Vec::new();
    let mut i: usize = 0;
    while i < n
        invariant
            entries == cache.spec_entries(),
            n == entries.len(),
            i <= n,
            match query {
                Some(ws) => words == Some(ws@.map_values(|w: &str| w@)),
                None => words is None,
            },
            ids@ == spec_listed(entries.take(i as int), words, status),
        decreases n - i,
    {
        let (id, task) = cache.entry_at(i);
        proof {
            assert(entries.take(i + 1).drop_last() =~= entries.take(i as int));
            assert(entries.take(i + 1).last() == entries[i as int]);
        }
        let done = task.info().is_done();
        let passes = match status {
            StatusFilter::All => true,
            StatusFilter::Open => !done,
            StatusFilter::Done => done,
        };
        if passes {
            let found = match &query {
                None => true,
                Some(ws) => {
                    let hay = haystack(task.info());
                    let r = all_found(ws, hay.as_str());
                    proof {
                        let wv = ws@.map_values(|w: &str| w@);
                        assert(words == Some(wv));
                        assert(hay@ == spec_haystack(task.spec_info()@));
                    }
                    r
                },
            };
            assert(found == spec_found(words, task.spec_info()@));
            if found {
                ids.push(id);
            }
        }
        i += 1;
    }
    proof {
        assert(entries.take(n as int) =~= entries);
        let qv = match search {
            Some(q) => Some(q@),
            None => None,
        };
        assert forall|id: u128| #![trigger ids@.contains(id)] ids@.contains(id) <==> exists|j: int|
            0 <= j < entries.len() && (#[trigger] entries[j]).0 == id && answers_listing(entries[j], qv, status) by {
            law_listed_iff_every_word_found(entries, qv, status, id);
        }
    }
    ids
}

} // verus!
