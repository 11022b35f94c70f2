//! The resolver: a total, pure function from a raw query string to the
//! destination URL to redirect to.
//!
//! The query is split on `+` into words.  The first word that is a recognized
//! shortcut token selects an entry; the rest of the words, rejoined with `+`,
//! become the residual query.  With more than one word the entry's search
//! template is filled with the residual query; a lone token goes to the
//! entry's site template verbatim, or, when the entry has none, to its search
//! template filled with the empty query.  In every remaining case the
//! destination is the default search template filled with the whole original
//! query.

use vstd::prelude::*;

use crate::table::{lookup_in, EntryView, ShortcutTable};
use crate::text::{
    join_plus, join_words, lemma_join_split, lemma_split_at_plus, lemma_split_no_plus,
    lemma_split_plus_nonempty, split_plus, split_words, subst, subst_str,
};

verus! {

/// The fallback search template used when no shortcut token applies.
pub open spec fn default_template() -> Seq<char> {
    "https://duckduckgo.com/?q=%s"@
}

/// The fallback search template as a string slice.
pub fn default_template_str() -> (r: &'static str)
    ensures
        r@ == default_template(),
{
    "https://duckduckgo.com/?q=%s"
}

/// The index of the first word that is a recognized token, or `words.len()`
/// when none is.
pub open spec fn first_match_idx(entries: Seq<EntryView>, words: Seq<Seq<char>>) -> int
    decreases words.len(),
{
    if words.len() == 0 {
        0
    } else if lookup_in(entries, words[0]) is Some {
        0
    } else {
        1 + first_match_idx(entries, words.drop_first())
    }
}

/// The scan index stays within the word list, and stopping short of the end
/// means the word there is recognized.
proof fn lemma_first_match_bounds(entries: Seq<EntryView>, words: Seq<Seq<char>>)
    ensures
        0 <= first_match_idx(entries, words) <= words.len(),
        first_match_idx(entries, words) < words.len() ==> lookup_in(
            entries,
            words[first_match_idx(entries, words)],
        ) is Some,
    decreases words.len(),
{
    if words.len() > 0 && lookup_in(entries, words[0]) is None {
        lemma_first_match_bounds(entries, words.drop_first());
    }
}

/// When word `i` is recognized and no earlier word is, the scan stops at `i`.
proof fn lemma_first_match_at(entries: Seq<EntryView>, words: Seq<Seq<char>>, i: int)
    requires
        0 <= i < words.len(),
        lookup_in(entries, words[i]) is Some,
        forall|j: int| 0 <= j < i ==> lookup_in(entries, #[trigger] words[j]) is None,
    ensures
        first_match_idx(entries, words) == i,
    decreases i,
{
    if i > 0 {
        let tail = words.drop_first();
        assert(forall|j: int| 0 <= j < tail.len() ==> #[trigger] tail[j] == words[j + 1]);
        lemma_first_match_at(entries, tail, i - 1);
    }
}

/// When no word is recognized, the scan runs off the end.
proof fn lemma_first_match_none(entries: Seq<EntryView>, words: Seq<Seq<char>>)
    requires
        forall|j: int| 0 <= j < words.len() ==> lookup_in(entries, #[trigger] words[j]) is None,
    ensures
        first_match_idx(entries, words) == words.len(),
    decreases words.len(),
{
    if words.len() > 0 {
        let tail = words.drop_first();
        assert(forall|j: int| 0 <= j < tail.len() ==> #[trigger] tail[j] == words[j + 1]);
        lemma_first_match_none(entries, tail);
    }
}

/// The destination URL for query `q` against the table `entries`.
pub open spec fn resolve_spec(entries: Seq<EntryView>, q: Seq<char>) -> Seq<char> {
    let words = split_plus(q);
    let i = first_match_idx(entries, words);
    if i == words.len() {
        subst(default_template(), q)
    } else {
        let e = lookup_in(entries, words[i])->0;
        if words.len() > 1 {
            if e.search is Some {
                subst(e.search->0, join_plus(words.remove(i)))
            } else {
                subst(default_template(), q)
            }
        } else {
            if e.site is Some {
                e.site->0
            } else if e.search is Some {
                subst(e.search->0, Seq::<char>::empty())
            } else {
                subst(default_template(), q)
            }
        }
    }
}

impl ShortcutTable {
    /// The index of the first word recognized as a token, or `words.len()`.
    fn first_match(&self, words: &Vec<String>) -> (i: usize)
        ensures
            i as int == first_match_idx(self@, words.deep_view()),
            i <= words.len(),
    {
        let n = words.len();
        let mut i: usize = 0;
        while i < n
            invariant
                n == words.len(),
                0 <= i <= n,
                words.deep_view().len() == n,
                forall|j: int|
                    0 <= j < i ==> lookup_in(self@, #[trigger] words.deep_view()[j]) is None,
            decreases n - i,
        {
            if self.lookup(words[i].as_str()).is_some() {
                proof {
                    lemma_first_match_at(self@, words.deep_view(), i as int);
                }
                return i;
            }
            i += 1;
        }
        proof {
            lemma_first_match_none(self@, words.deep_view());
        }
        n
    }

    /// Resolve `full_query` to the destination URL to redirect to.  Total:
    /// every query, the empty one included, gets a destination.
    pub fn resolve(&self, full_query: &str) -> (r: String)
        ensures
            r@ == resolve_spec(self@, full_query@),
    {
        let mut words = split_words(full_query);
        let ghost wv = words.deep_view();
        let idx = self.first_match(&words);
        if idx == words.len() {
            return subst_str(default_template_str(), full_query);
        }
        proof {
            lemma_first_match_bounds(self@, wv);
        }
        if let Some(entry) = self.lookup(words[idx].as_str()) {
            assert(Some(entry@) == lookup_in(self@, wv[idx as int]));
            if words.len() > 1 {
                if let Some(search) = &entry.search {
                    let search = search.clone();
                    words.remove(idx);
                    proof {
                        assert(words.deep_view() =~= wv.remove(idx as int));
                        assert(words.deep_view().skip(0) =~= words.deep_view());
                    }
                    let residual = join_words(&words, 0);
                    subst_str(search.as_str(), residual.as_str())
                } else {
                    subst_str(default_template_str(), full_query)
                }
            } else {
                if let Some(site) = &entry.site {
                    site.clone()
                } else if let Some(search) = &entry.search {
                    proof {
                        reveal_strlit("");
                        assert(""@ =~= Seq::<char>::empty());
                    }
                    subst_str(search.as_str(), "")
                } else {
                    subst_str(default_template_str(), full_query)
                }
            }
        } else {
            // the scan stopped before the end, so this lookup cannot miss
            assert(false);
            subst_str(default_template_str(), full_query)
        }
    }
}

/// The destination URL for `full_query` against the built-in shortcut table.
pub fn get_redirect_location(full_query: &str) -> (r: String)
    ensures
        r@ == resolve_spec(crate::table::default_view(), full_query@),
{
    let t = ShortcutTable::default_table();
    t.resolve(full_query)
}

/// When no word of the query is a recognized token, the destination is the
/// default search template with the whole query substituted verbatim.
pub proof fn lemma_resolve_no_token(entries: Seq<EntryView>, q: Seq<char>)
    requires
        forall|j: int|
            0 <= j < split_plus(q).len() ==> lookup_in(
                entries,
                #[trigger] split_plus(q)[j],
            ) is None,
    ensures
        resolve_spec(entries, q) == subst(default_template(), q),
{
    lemma_first_match_none(entries, split_plus(q));
}

/// A single-word query equal to a token whose entry has a site template
/// resolves to that site template unchanged.
pub proof fn lemma_resolve_site(entries: Seq<EntryView>, q: Seq<char>)
    requires
        forall|j: int| 0 <= j < q.len() ==> q[j] != '+',
        lookup_in(entries, q) is Some,
        lookup_in(entries, q)->0.site is Some,
    ensures
        resolve_spec(entries, q) == lookup_in(entries, q)->0.site->0,
{
    lemma_split_no_plus(q);
    let words = split_plus(q);
    assert(words == seq![q]);
    assert(words[0] == q);
    assert(first_match_idx(entries, words) == 0);
}

/// `token+rest`, where `token` is recognized and its entry has a search
/// template, resolves to that search template with `rest` substituted.
pub proof fn lemma_resolve_search(entries: Seq<EntryView>, token: Seq<char>, rest: Seq<char>)
    requires
        forall|j: int| 0 <= j < token.len() ==> token[j] != '+',
        lookup_in(entries, token) is Some,
        lookup_in(entries, token)->0.search is Some,
    ensures
        resolve_spec(entries, token + seq!['+'] + rest) == subst(
            lookup_in(entries, token)->0.search->0,
            rest,
        ),
{
    let q = token + seq!['+'] + rest;
    let n = token.len() as int;
    assert(q[n] == '+');
    assert(forall|j: int| 0 <= j < n ==> q[j] == token[j]);
    lemma_split_at_plus(q, n);
    assert(q.take(n) =~= token);
    assert(q.skip(n + 1) =~= rest);
    let words = split_plus(q);
    lemma_split_plus_nonempty(rest);
    assert(words == seq![token] + split_plus(rest));
    assert(words.len() >= 2);
    assert(words[0] == token);
    assert(first_match_idx(entries, words) == 0);
    assert(words.remove(0) =~= split_plus(rest));
    lemma_join_split(rest);
}

/// Leftmost match wins: when word `i` and some later word `j` are both
/// recognized and no word before `i` is, the destination is derived from word
/// `i`'s entry alone.
pub proof fn lemma_resolve_leftmost(entries: Seq<EntryView>, q: Seq<char>, i: int, j: int)
    requires
        0 <= i < j < split_plus(q).len(),
        forall|k: int|
            0 <= k < i ==> lookup_in(entries, #[trigger] split_plus(q)[k]) is None,
        lookup_in(entries, split_plus(q)[i]) is Some,
        lookup_in(entries, split_plus(q)[j]) is Some,
        lookup_in(entries, split_plus(q)[i])->0.search is Some,
    ensures
        resolve_spec(entries, q) == subst(
            lookup_in(entries, split_plus(q)[i])->0.search->0,
            join_plus(split_plus(q).remove(i)),
        ),
{
    lemma_first_match_at(entries, split_plus(q), i);
}

} // verus!
