//! The shortcut table: an immutable set of shortcut definitions with
//! exact-match lookup by token, and the built-in definitions.

use vstd::prelude::*;

use crate::text::str_eq;

verus! {

/// Mathematical image of one shortcut definition.
pub struct EntryView {
    pub token: Seq<char>,
    pub site: Option<Seq<char>>,
    pub search: Option<Seq<char>>,
}

impl EntryView {
    /// Every entry offers at least one destination template.
    pub open spec fn wf(self) -> bool {
        self.site is Some || self.search is Some
    }
}

/// One shortcut definition: a token such as `!gh` (sentinel prefix included),
/// an optional site URL used when the token stands alone, and an optional
/// search URL with a `%s` placeholder used when search words accompany the
/// token.
pub struct ShortcutEntry {
    pub token: String,
    pub site: Option<String>,
    pub search: Option<String>,
}

/// The view of an optional URL string.
pub open spec fn opt_view(o: Option<String>) -> Option<Seq<char>> {
    match o {
        Some(s) => Some(s@),
        None => None,
    }
}

impl View for ShortcutEntry {
    type V = EntryView;

    open spec fn view(&self) -> EntryView {
        EntryView {
            token: self.token@,
            site: opt_view(self.site),
            search: opt_view(self.search),
        }
    }
}

/// The first entry of `entries` whose token is exactly `token`, if any.
pub open spec fn lookup_in(entries: Seq<EntryView>, token: Seq<char>) -> Option<EntryView>
    decreases entries.len(),
{
    if entries.len() == 0 {
        None
    } else if entries[0].token == token {
        Some(entries[0])
    } else {
        lookup_in(entries.drop_first(), token)
    }
}

/// What a lookup must return: exactly the first entry with that token.
pub open spec fn lookup_post(
    entries: Seq<EntryView>,
    token: Seq<char>,
    r: Option<EntryView>,
) -> bool {
    r == lookup_in(entries, token)
}

/// A lookup result's view.
pub open spec fn opt_entry_view(r: Option<&ShortcutEntry>) -> Option<EntryView> {
    match r {
        Some(e) => Some(e@),
        None => None,
    }
}

/// When a token matches at `i` and nowhere earlier, the lookup finds entry `i`.
proof fn lemma_lookup_at(entries: Seq<EntryView>, token: Seq<char>, i: int)
    requires
        0 <= i < entries.len(),
        entries[i].token == token,
        forall|j: int| 0 <= j < i ==> (#[trigger] entries[j]).token != token,
    ensures
        lookup_in(entries, token) == Some(entries[i]),
    decreases i,
{
    if i > 0 {
        lemma_lookup_at(entries.drop_first(), token, i - 1);
    }
}

/// When no entry carries the token, the lookup finds nothing, and conversely.
proof fn lemma_lookup_none(entries: Seq<EntryView>, token: Seq<char>)
    ensures
        lookup_in(entries, token) is None <==> forall|j: int|
            0 <= j < entries.len() ==> (#[trigger] entries[j]).token != token,
    decreases entries.len(),
{
    if entries.len() > 0 {
        let tail = entries.drop_first();
        lemma_lookup_none(tail, token);
        assert(forall|j: int| 0 <= j < tail.len() ==> #[trigger] tail[j] == entries[j + 1]);
        if lookup_in(entries, token) is None {
            assert forall|j: int| 0 <= j < entries.len() implies (#[trigger] entries[j]).token
                != token by {
                if j > 0 {
                    assert(tail[j - 1].token != token);
                }
            }
        } else {
            if entries[0].token != token {
                assert(lookup_in(tail, token) is Some);
                let j = choose|j: int|
                    0 <= j < tail.len() && (#[trigger] tail[j]).token == token;
                assert(entries[j + 1].token == token);
            }
        }
    }
}

/// Looking the same token up twice in the same table yields identical
/// results: the lookup contract admits exactly one answer.
pub proof fn lemma_lookup_idempotent(
    entries: Seq<EntryView>,
    token: Seq<char>,
    r1: Option<EntryView>,
    r2: Option<EntryView>,
)
    requires
        lookup_post(entries, token, r1),
        lookup_post(entries, token, r2),
    ensures
        r1 == r2,
{
}

/// An immutable mapping from shortcut token to its URL templates.
///
/// Built once, read thereafter: no method mutates an existing entry, and
/// [`ShortcutTable::add_entry`] refuses a duplicate token, so tokens stay
/// unique.
pub struct ShortcutTable {
    entries: Vec<ShortcutEntry>,
}

impl View for ShortcutTable {
    type V = Seq<EntryView>;

    closed spec fn view(&self) -> Seq<EntryView> {
        Seq::new(self.entries@.len(), |i: int| self.entries@[i]@)
    }
}

impl ShortcutTable {
    /// Each entry has a template, and no token occurs twice.
    pub open spec fn wf(self) -> bool {
        &&& forall|i: int| 0 <= i < self@.len() ==> (#[trigger] self@[i]).wf()
        &&& forall|i: int, j: int|
            0 <= i < j < self@.len() ==> (#[trigger] self@[i]).token != (#[trigger] self@[j]).token
    }

    /// A table with no entries.
    pub fn empty() -> (t: ShortcutTable)
        ensures
            t@ =~= Seq::<EntryView>::empty(),
            t.wf(),
    {
        ShortcutTable { entries: Vec::new() }
    }

    /// Exact-match lookup: the entry whose token equals `token` character for
    /// character, sentinel prefix included.  No prefix matching, no case
    /// folding.
    pub fn lookup(&self, token: &str) -> (r: Option<&ShortcutEntry>)
        ensures
            lookup_post(self@, token@, opt_entry_view(r)),
    {
        let n = self.entries.len();
        let mut i: usize = 0;
        while i < n
            invariant
                n == self.entries.len(),
                0 <= i <= n,
                forall|j: int| 0 <= j < i ==> (#[trigger] self@[j]).token != token@,
            decreases n - i,
        {
            let entry = &self.entries[i];
            if str_eq(entry.token.as_str(), token) {
                proof {
                    lemma_lookup_at(self@, token@, i as int);
                }
                return Some(entry);
            }
            i += 1;
        }
        proof {
            lemma_lookup_none(self@, token@);
        }
        None
    }

    /// Add one shortcut definition.  The entry is refused, and the table left
    /// unchanged, when it offers no template at all or when its token is
    /// already present.
    pub fn add_entry(&mut self, entry: ShortcutEntry) -> (added: bool)
        ensures
            added == (entry@.wf() && lookup_in(old(self)@, entry@.token) is None),
            added ==> final(self)@ =~= old(self)@.push(entry@),
            !added ==> final(self)@ =~= old(self)@,
            old(self).wf() ==> final(self).wf(),
    {
        if entry.site.is_none() && entry.search.is_none() {
            return false;
        }
        if self.lookup(entry.token.as_str()).is_some() {
            return false;
        }
        proof {
            lemma_lookup_none(self@, entry@.token);
        }
        self.entries.push(entry);
        proof {
            assert(self@ =~= old(self)@.push(entry@));
        }
        true
    }
}

/// Build one entry from string slices.
fn mk_entry(token: &str, site: Option<&str>, search: Option<&str>) -> (e: ShortcutEntry)
    ensures
        e@.token == token@,
        e@.site == (match site {
            Some(s) => Some(s@),
            None => None::<Seq<char>>,
        }),
        e@.search == (match search {
            Some(s) => Some(s@),
            None => None::<Seq<char>>,
        }),
{
    ShortcutEntry {
        token: String::from_str(token),
        site: match site {
            Some(s) => Some(String::from_str(s)),
            None => None,
        },
        search: match search {
            Some(s) => Some(String::from_str(s)),
            None => None,
        },
    }
}

/// The built-in shortcut definitions.
pub open spec fn default_view() -> Seq<EntryView> {
    seq![
        (EntryView {
            token: "!rust"@,
            site: None,
            search: Some("https://doc.rust-lang.org/std/?search=%s"@),
        }),
        (EntryView {
            token: "!docsrs"@,
            site: None,
            search: Some("https://docs.rs/releases/search?query=%s"@),
        }),
        (EntryView { token: "!cargo"@, site: None, search: Some("https://crates.io/search?q=%s"@) }),
        (EntryView {
            token: "!w"@,
            site: Some("https://en.wikipedia.org/"@),
            search: Some("https://en.wikipedia.org/wiki/Special:Search?go=Go&search=%s&ns0=1"@),
        }),
        (EntryView {
            token: "!wr"@,
            site: Some("https://ru.wikipedia.org/"@),
            search: Some("https://ru.wikipedia.org/w/index.php?search=%s&ns0=1"@),
        }),
        (EntryView {
            token: "!aw"@,
            site: Some("https://wiki.archlinux.org/"@),
            search: Some("https://wiki.archlinux.org/index.php?search=%s"@),
        }),
        (EntryView {
            token: "!aur"@,
            site: None,
            search: Some("https://aur.archlinux.org/packages?K=%s"@),
        }),
        (EntryView {
            token: "!yt"@,
            site: Some("https://youtube.com/"@),
            search: Some("https://www.youtube.com/results?search_query=%s"@),
        }),
        (EntryView {
            token: "!gh"@,
            site: Some("https://github.com/"@),
            search: Some("https://github.com/search?q=%s"@),
        }),
        (EntryView {
            token: "!g"@,
            site: Some("https://google.com/"@),
            search: Some("https://google.com/search?q=%s"@),
        }),
        (EntryView {
            token: "!ya"@,
            site: Some("https://ya.ru/"@),
            search: Some("https://yandex.ru/search/?text=%s"@),
        }),
        (EntryView {
            token: "!rc"@,
            site: None,
            search: Some("https://context.reverso.net/translation/english-russian/%s"@),
        }),
        (EntryView {
            token: "!py"@,
            site: None,
            search: Some("https://docs.python.org/3/search.html?q=%s"@),
        }),
    ]
}

impl ShortcutTable {
    /// The built-in table of shortcuts.
    #[verifier::rlimit(100)]
    pub fn default_table() -> (t: ShortcutTable)
        ensures
            t@ == default_view(),
            t.wf(),
    {
        let mut v: Vec<ShortcutEntry> = Vec::new();
        v.push(mk_entry("!rust", None, Some("https://doc.rust-lang.org/std/?search=%s")));
        v.push(mk_entry("!docsrs", None, Some("https://docs.rs/releases/search?query=%s")));
        v.push(mk_entry("!cargo", None, Some("https://crates.io/search?q=%s")));
        v.push(
            mk_entry(
                "!w",
                Some("https://en.wikipedia.org/"),
                Some("https://en.wikipedia.org/wiki/Special:Search?go=Go&search=%s&ns0=1"),
            ),
        );
        v.push(
            mk_entry(
                "!wr",
                Some("https://ru.wikipedia.org/"),
                Some("https://ru.wikipedia.org/w/index.php?search=%s&ns0=1"),
            ),
        );
        v.push(
            mk_entry(
                "!aw",
                Some("https://wiki.archlinux.org/"),
                Some("https://wiki.archlinux.org/index.php?search=%s"),
            ),
        );
        v.push(mk_entry("!aur", None, Some("https://aur.archlinux.org/packages?K=%s")));
        v.push(
            mk_entry(
                "!yt",
                Some("https://youtube.com/"),
                Some("https://www.youtube.com/results?search_query=%s"),
            ),
        );
        v.push(
            mk_entry("!gh", Some("https://github.com/"), Some("https://github.com/search?q=%s")),
        );
        v.push(mk_entry("!g", Some("https://google.com/"), Some("https://google.com/search?q=%s")));
        v.push(mk_entry("!ya", Some("https://ya.ru/"), Some("https://yandex.ru/search/?text=%s")));
        v.push(
            mk_entry(
                "!rc",
                None,
                Some("https://context.reverso.net/translation/english-russian/%s"),
            ),
        );
        v.push(mk_entry("!py", None, Some("https://docs.python.org/3/search.html?q=%s")));
        let t = ShortcutTable { entries: v };
        proof {
            assert(t@ =~= default_view());
            reveal_strlit("!rust");
            reveal_strlit("!docsrs");
            reveal_strlit("!cargo");
            reveal_strlit("!w");
            reveal_strlit("!wr");
            reveal_strlit("!aw");
            reveal_strlit("!aur");
            reveal_strlit("!yt");
            reveal_strlit("!gh");
            reveal_strlit("!g");
            reveal_strlit("!ya");
            reveal_strlit("!rc");
            reveal_strlit("!py");
            let dv = default_view();
            assert forall|i: int| 0 <= i < dv.len() implies (#[trigger] dv[i]).wf() by {
                assert(dv.len() == 13);
            }
            assert forall|i: int, j: int| 0 <= i < j < dv.len() implies (#[trigger] dv[i]).token
                != (#[trigger] dv[j]).token by {
                assert(dv.len() == 13);
                assert(i == 0 || i == 1 || i == 2 || i == 3 || i == 4 || i == 5 || i == 6 || i == 7
                    || i == 8 || i == 9 || i == 10 || i == 11 || i == 12);
                assert(j == 1 || j == 2 || j == 3 || j == 4 || j == 5 || j == 6 || j == 7 || j == 8
                    || j == 9 || j == 10 || j == 11 || j == 12);
                assert("!rust"@.len() == 5);
                assert("!docsrs"@.len() == 7);
                assert("!cargo"@.len() == 6);
                assert("!w"@.len() == 2);
                assert("!wr"@.len() == 3);
                assert("!aw"@.len() == 3);
                assert("!aur"@.len() == 4);
                assert("!yt"@.len() == 3);
                assert("!gh"@.len() == 3);
                assert("!g"@.len() == 2);
                assert("!ya"@.len() == 3);
                assert("!rc"@.len() == 3);
                assert("!py"@.len() == 3);
                assert("!w"@[1] == 'w' && "!g"@[1] == 'g');
                assert("!wr"@[1] == 'w' && "!aw"@[1] == 'a' && "!yt"@[1] == 'y' && "!gh"@[1] == 'g'
                    && "!ya"@[1] == 'y' && "!rc"@[1] == 'r' && "!py"@[1] == 'p');
                assert("!yt"@[2] == 't' && "!ya"@[2] == 'a');
            }
            assert(t.wf());
        }
        t
    }
}

} // verus!
