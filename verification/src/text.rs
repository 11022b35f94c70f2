//! String primitives for the resolver: equality, word splitting and joining,
//! and single-occurrence template substitution.

use vstd::prelude::*;

verus! {

/// `template` with the first occurrence of the placeholder `%s` replaced by
/// `query`; `template` unchanged when it holds no placeholder.
pub open spec fn subst(template: Seq<char>, query: Seq<char>) -> Seq<char>
    decreases template.len(),
{
    if template.len() < 2 {
        template
    } else if template[0] == '%' && template[1] == 's' {
        query + template.skip(2)
    } else {
        seq![template[0]] + subst(template.drop_first(), query)
    }
}

/// Where the placeholder first occurs at `i`, substitution splices `query`
/// between the text before and after the placeholder.
proof fn lemma_subst_found(template: Seq<char>, query: Seq<char>, i: int)
    requires
        0 <= i,
        i + 2 <= template.len(),
        template[i] == '%',
        template[i + 1] == 's',
        forall|j: int| 0 <= j < i ==> !(#[trigger] template[j] == '%' && template[j + 1] == 's'),
    ensures
        subst(template, query) == template.take(i) + query + template.skip(i + 2),
    decreases i,
{
    if i == 0 {
        assert(subst(template, query) =~= template.take(0) + query + template.skip(2));
    } else {
        let rest = template.drop_first();
        assert(!(template[0] == '%' && template[1] == 's'));
        assert forall|j: int| 0 <= j < i - 1 implies !(#[trigger] rest[j] == '%' && rest[j + 1] == 's') by {
            assert(rest[j] == template[j + 1]);
            assert(rest[j + 1] == template[j + 2]);
        }
        lemma_subst_found(rest, query, i - 1);
        assert(subst(template, query) =~= template.take(i) + query + template.skip(i + 2));
    }
}

/// A template with no placeholder is left unchanged by substitution.
proof fn lemma_subst_absent(template: Seq<char>, query: Seq<char>)
    requires
        forall|j: int| 0 <= j && j + 2 <= template.len() ==> !(#[trigger] template[j] == '%' && template[j + 1] == 's'),
    ensures
        subst(template, query) == template,
    decreases template.len(),
{
    if template.len() < 2 {
    } else {
        let rest = template.drop_first();
        assert forall|j: int| 0 <= j && j + 2 <= rest.len() implies !(#[trigger] rest[j] == '%' && rest[j + 1] == 's') by {
            assert(rest[j] == template[j + 1]);
            assert(rest[j + 1] == template[j + 2]);
        }
        lemma_subst_absent(rest, query);
        assert(subst(template, query) =~= template);
    }
}

/// Fill `template`'s first `%s` placeholder with `query`.
pub fn subst_str(template: &str, query: &str) -> (r: String)
    ensures
        r@ == subst(template@, query@),
{
    let n = template.unicode_len();
    if n >= 2 {
        let mut i: usize = 0;
        while i <= n - 2
            invariant
                n == template@.len(),
                2 <= n,
                0 <= i <= n,
                forall|j: int| 0 <= j < i ==> !(#[trigger] template@[j] == '%' && template@[j + 1] == 's'),
            decreases n - i,
        {
            if template.get_char(i) == '%' && template.get_char(i + 1) == 's' {
                proof {
                    lemma_subst_found(template@, query@, i as int);
                }
                let pre = template.substring_char(0, i);
                let post = template.substring_char(i + 2, n);
                let r = String::from_str(pre).concat(query).concat(post);
                assert(r@ =~= subst(template@, query@));
                return r;
            }
            i += 1;
        }
    }
    proof {
        lemma_subst_absent(template@, query@);
    }
    String::from_str(template)
}

/// Character-for-character equality of two string slices.
pub fn str_eq(a: &str, b: &str) -> (r: bool)
    ensures
        r == (a@ == b@),
{
    let na = a.unicode_len();
    let nb = b.unicode_len();
    if na != nb {
        return false;
    }
    let mut i: usize = 0;
    while i < na
        invariant
            na == a@.len(),
            na == b@.len(),
            0 <= i <= na,
            forall|j: int| 0 <= j < i ==> a@[j] == b@[j],
        decreases na - i,
    {
        if a.get_char(i) != b.get_char(i) {
            return false;
        }
        i += 1;
    }
    proof {
        assert(a@ =~= b@);
    }
    true
}

/// The words of `q`, split on the `+` delimiter: the empty string yields one
/// empty word, and each delimiter starts a new word, so the result is never
/// empty and rejoining it with `+` restores `q`.
pub open spec fn split_plus(q: Seq<char>) -> Seq<Seq<char>>
    decreases q.len(),
{
    if q.len() == 0 {
        seq![Seq::<char>::empty()]
    } else if q[0] == '+' {
        seq![Seq::<char>::empty()] + split_plus(q.drop_first())
    } else {
        let rest = split_plus(q.drop_first());
        seq![seq![q[0]] + rest[0]] + rest.drop_first()
    }
}

/// Splitting always produces at least one word.
pub proof fn lemma_split_plus_nonempty(q: Seq<char>)
    ensures
        split_plus(q).len() >= 1,
    decreases q.len(),
{
    if q.len() > 0 {
        lemma_split_plus_nonempty(q.drop_first());
    }
}

/// A delimiter-free string is a single word.
pub proof fn lemma_split_no_plus(q: Seq<char>)
    requires
        forall|j: int| 0 <= j < q.len() ==> q[j] != '+',
    ensures
        split_plus(q) == seq![q],
    decreases q.len(),
{
    if q.len() == 0 {
        assert(q =~= Seq::<char>::empty());
        assert(split_plus(q) =~= seq![q]);
    } else {
        let tail = q.drop_first();
        assert(forall|j: int| 0 <= j < tail.len() ==> #[trigger] tail[j] == q[j + 1]);
        lemma_split_no_plus(tail);
        let rest = split_plus(tail);
        assert(q[0] != '+');
        assert(split_plus(q) == seq![seq![q[0]] + rest[0]] + rest.drop_first());
        assert(rest.drop_first() =~= Seq::<Seq<char>>::empty());
        assert(seq![q[0]] + rest[0] =~= q);
        assert(split_plus(q) =~= seq![q]);
    }
}

/// Splitting peels off the text before the first delimiter as the first word.
pub proof fn lemma_split_at_plus(q: Seq<char>, i: int)
    requires
        0 <= i < q.len(),
        q[i] == '+',
        forall|j: int| 0 <= j < i ==> q[j] != '+',
    ensures
        split_plus(q) == seq![q.take(i)] + split_plus(q.skip(i + 1)),
    decreases i,
{
    if i == 0 {
        assert(q.drop_first() =~= q.skip(1));
        assert(q.take(0) =~= Seq::<char>::empty());
        assert(split_plus(q) =~= seq![q.take(0)] + split_plus(q.skip(1)));
    } else {
        let tail = q.drop_first();
        assert(forall|j: int| 0 <= j < tail.len() ==> #[trigger] tail[j] == q[j + 1]);
        lemma_split_at_plus(tail, i - 1);
        let rest = split_plus(tail);
        lemma_split_plus_nonempty(tail.skip(i));
        assert(rest == seq![tail.take(i - 1)] + split_plus(tail.skip(i)));
        assert(rest[0] == tail.take(i - 1));
        assert(rest.drop_first() =~= split_plus(tail.skip(i)));
        assert(seq![q[0]] + tail.take(i - 1) =~= q.take(i));
        assert(tail.skip(i) =~= q.skip(i + 1));
        assert(split_plus(q) =~= seq![q.take(i)] + split_plus(q.skip(i + 1)));
    }
}

/// `ws` joined into one string with the `+` delimiter between the words.
pub open spec fn join_plus(ws: Seq<Seq<char>>) -> Seq<char>
    decreases ws.len(),
{
    if ws.len() == 0 {
        Seq::empty()
    } else if ws.len() == 1 {
        ws[0]
    } else {
        ws[0] + seq!['+'] + join_plus(ws.drop_first())
    }
}

/// Joining the words of a split restores the original string.
pub proof fn lemma_join_split(q: Seq<char>)
    ensures
        join_plus(split_plus(q)) == q,
    decreases q.len(),
{
    if q.len() == 0 {
    } else {
        let tail = q.drop_first();
        lemma_join_split(tail);
        lemma_split_plus_nonempty(tail);
        let rest = split_plus(tail);
        if q[0] == '+' {
            assert(split_plus(q) == seq![Seq::<char>::empty()] + rest);
            assert((seq![Seq::<char>::empty()] + rest).drop_first() =~= rest);
            assert(join_plus(split_plus(q)) =~= q);
        } else {
            let ws = seq![seq![q[0]] + rest[0]] + rest.drop_first();
            assert(split_plus(q) == ws);
            if rest.len() == 1 {
                assert(join_plus(rest) == rest[0]);
                assert(join_plus(ws) == seq![q[0]] + rest[0]);
                assert(join_plus(ws) =~= q);
            } else {
                assert(ws.len() >= 2);
                assert(ws.drop_first() =~= rest.drop_first());
                assert(join_plus(ws) == ws[0] + seq!['+'] + join_plus(rest.drop_first()));
                assert(join_plus(rest) == rest[0] + seq!['+'] + join_plus(rest.drop_first()));
                assert(q =~= seq![q[0]] + tail);
                assert(join_plus(ws) =~= q);
            }
        }
    }
}

/// Split `q` into its `+`-separated words.
pub fn split_words(q: &str) -> (r: Vec<String>)
    ensures
        r.deep_view() == split_plus(q@),
        r.len() >= 1,
    decreases q@.len(),
{
    let n = q.unicode_len();
    let mut i: usize = 0;
    while i < n
        invariant
            n == q@.len(),
            0 <= i <= n,
            forall|j: int| 0 <= j < i ==> q@[j] != '+',
        decreases n - i,
    {
        if q.get_char(i) == '+' {
            let word = q.substring_char(0, i);
            let rest = q.substring_char(i + 1, n);
            let mut r = split_words(rest);
            r.insert(0, String::from_str(word));
            proof {
                lemma_split_at_plus(q@, i as int);
                assert(r.deep_view() =~= seq![q@.take(i as int)] + split_plus(
                    q@.skip(i as int + 1),
                ));
            }
            return r;
        }
        i += 1;
    }
    let mut r: Vec<String> = Vec::new();
    r.push(String::from_str(q));
    proof {
        lemma_split_no_plus(q@);
        assert(r.deep_view() =~= seq![q@]);
    }
    r
}

/// Join `ws[from..]` with the `+` delimiter.
pub fn join_words(ws: &Vec<String>, from: usize) -> (r: String)
    requires
        from <= ws.len(),
    ensures
        r@ == join_plus(ws.deep_view().skip(from as int)),
    decreases ws.len() - from,
{
    if from == ws.len() {
        let r = String::new();
        assert(r@ =~= join_plus(ws.deep_view().skip(from as int)));
        r
    } else if from + 1 == ws.len() {
        let r = ws[from].clone();
        proof {
            let part = ws.deep_view().skip(from as int);
            assert(part.len() == 1);
            assert(part[0] == ws.deep_view()[from as int]);
        }
        r
    } else {
        let tail = join_words(ws, from + 1);
        let r = ws[from].clone().concat("+").concat(tail.as_str());
        proof {
            reveal_strlit("+");
            assert("+"@ =~= seq!['+']);
            let part = ws.deep_view().skip(from as int);
            assert(part.len() >= 2);
            assert(part[0] == ws.deep_view()[from as int]);
            assert(part.drop_first() =~= ws.deep_view().skip(from as int + 1));
            assert(r@ =~= join_plus(part));
        }
        r
    }
}

} // verus!
