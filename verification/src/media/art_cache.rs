//! In-memory cache of decoded covers, keyed by URL: the least recently used
//! one is evicted past capacity, and a URL already on its way is not
//! requested twice. The recency order is kept by the `lru` crate.
use vstd::prelude::*;
use crate::media::art::{Art, ArtModel, CACHE_CAPACITY};
use crate::media::selection::without_name;
use crate::text::{owned, str_eq, strings_view};

verus! {

/// The `lru` crate's cache, carried as it is.
#[verifier::external_type_specification]
#[verifier::external_body]
#[verifier::reject_recursive_types(K)]
#[verifier::reject_recursive_types(V)]
#[verifier::reject_recursive_types(S)]
pub struct ExLruCache<K, V, S>(lru::LruCache<K, V, S>);

/// The hasher the `lru` crate builds its caches with by default.
#[verifier::external_type_specification]
#[verifier::external_body]
pub struct ExDefaultHasher(lru::DefaultHasher);

/// What an LRU cache of covers holds: its entries from the least to the
/// most recently used, each a URL and its cover.
pub uninterp spec fn lru_entries(cache: lru::LruCache<String, Art>) -> Seq<(Seq<char>, ArtModel)>;

/// The capacity an LRU cache of covers was made with.
pub uninterp spec fn lru_capacity(cache: lru::LruCache<String, Art>) -> nat;

/// The first entry for `url` at or after `i`.
pub open spec fn find_from(s: Seq<(Seq<char>, ArtModel)>, url: Seq<char>, i: int) -> Option<int>
    decreases s.len() - i,
{
    if i < 0 || i >= s.len() {
        None
    } else if s[i].0 == url {
        Some(i)
    } else {
        find_from(s, url, i + 1)
    }
}

/// The entry for `url`.
pub open spec fn find(s: Seq<(Seq<char>, ArtModel)>, url: Seq<char>) -> Option<int> {
    find_from(s, url, 0)
}

/// No URL occurs twice.
pub open spec fn distinct_urls(s: Seq<(Seq<char>, ArtModel)>) -> bool {
    forall|i: int, j: int| 0 <= i < j < s.len() ==> s[i].0 != s[j].0
}

/// `s` with the entry at `i` moved to the most recent end.
pub open spec fn to_newest(s: Seq<(Seq<char>, ArtModel)>, i: int) -> Seq<(Seq<char>, ArtModel)> {
    s.remove(i).push(s[i])
}

/// What `LruCache::put` does to the entries: a known URL gets the new cover
/// and becomes the most recent; a new one is added as the most recent, after
/// the least recent entry is evicted when the cache is full.
pub open spec fn put_spec(s: Seq<(Seq<char>, ArtModel)>, cap: nat, url: Seq<char>, art: ArtModel) -> Seq<
    (Seq<char>, ArtModel),
> {
    match find(s, url) {
        Some(i) => s.remove(i).push((url, art)),
        None => if s.len() == cap {
            s.drop_first().push((url, art))
        } else {
            s.push((url, art))
        },
    }
}

/// `LruCache::new`: an empty cache that holds at most `cap` entries.
#[verifier::external_body]
fn lru_new(cap: usize) -> (c: lru::LruCache<String, Art>)
    requires
        cap > 0,
    ensures
        lru_entries(c) == Seq::<(Seq<char>, ArtModel)>::empty(),
        lru_capacity(c) == cap,
{
    lru::LruCache::new(std::num::NonZeroUsize::new(cap).unwrap())
}

/// `LruCache::peek`: the cover for `url`, without counting the look as a
/// use.
#[verifier::external_body]
fn lru_peek<'a>(c: &'a lru::LruCache<String, Art>, url: &str) -> (a: Option<&'a Art>)
    ensures
        match find(lru_entries(*c), url@) {
            Some(i) => a is Some && a->0@ == lru_entries(*c)[i].1,
            None => a is None,
        },
{
    c.peek(url)
}

/// `LruCache::contains`: whether `url` has an entry, without counting the
/// look as a use.
#[verifier::external_body]
fn lru_contains(c: &lru::LruCache<String, Art>, url: &str) -> (b: bool)
    ensures
        b == (find(lru_entries(*c), url@) is Some),
{
    c.contains(url)
}

/// `LruCache::promote`: `url`, when it has an entry, becomes the most
/// recently used; nothing else changes.
#[verifier::external_body]
fn lru_promote(c: &mut lru::LruCache<String, Art>, url: &str)
    requires
        distinct_urls(lru_entries(*old(c))),
        lru_entries(*old(c)).len() <= lru_capacity(*old(c)),
    ensures
        lru_entries(*final(c)) == match find(lru_entries(*old(c)), url@) {
            Some(i) => to_newest(lru_entries(*old(c)), i),
            None => lru_entries(*old(c)),
        },
        lru_capacity(*final(c)) == lru_capacity(*old(c)),
{
    c.promote(url)
}

/// `LruCache::put`: see [`put_spec`]. Returns the cover it replaced under
/// the same URL.
#[verifier::external_body]
fn lru_put(c: &mut lru::LruCache<String, Art>, url: String, art: Art) -> (replaced: Option<Art>)
    requires
        distinct_urls(lru_entries(*old(c))),
        lru_entries(*old(c)).len() <= lru_capacity(*old(c)),
        lru_capacity(*old(c)) > 0,
    ensures
        lru_entries(*final(c)) == put_spec(lru_entries(*old(c)), lru_capacity(*old(c)), url@, art@),
        lru_capacity(*final(c)) == lru_capacity(*old(c)),
        match find(lru_entries(*old(c)), url@) {
            Some(i) => replaced is Some && replaced->0@ == lru_entries(*old(c))[i].1,
            None => replaced is None,
        },
{
    c.put(url, art)
}

/// The cache as values: its entries, least recently used first, and the URLs
/// whose fetch is on its way.
pub struct ArtCacheModel {
    pub entries: Seq<(Seq<char>, ArtModel)>,
    pub pending: Seq<Seq<char>>,
}

/// Covers kept decoded, so skipping back and forth does not refetch.
pub struct ArtCache {
    entries: lru::LruCache<String, Art>,
    pending: Vec<String>,
}

impl View for ArtCache {
    type V = ArtCacheModel;

    closed spec fn view(&self) -> ArtCacheModel {
        ArtCacheModel { entries: lru_entries(self.entries), pending: strings_view(self.pending@) }
    }
}

/// The cache holds at most its capacity, and each URL once.
pub open spec fn well_formed(m: ArtCacheModel) -> bool {
    &&& distinct_urls(m.entries)
    &&& m.entries.len() <= CACHE_CAPACITY
}

/// [`ArtCache::request`]: a URL neither cached nor on its way has to be
/// fetched, and is then on its way; a cached one counts as a use.
pub open spec fn request_spec(m: ArtCacheModel, url: Seq<char>) -> (ArtCacheModel, bool) {
    match find(m.entries, url) {
        Some(i) => (ArtCacheModel { entries: to_newest(m.entries, i), ..m }, false),
        None => if m.pending.contains(url) {
            (m, false)
        } else {
            (ArtCacheModel { pending: m.pending.push(url), ..m }, true)
        },
    }
}

/// [`ArtCache::insert`]: the URL is no longer on its way, and its cover is
/// stored as the most recently used.
pub open spec fn insert_spec(m: ArtCacheModel, url: Seq<char>, art: ArtModel) -> ArtCacheModel {
    ArtCacheModel {
        entries: put_spec(m.entries, CACHE_CAPACITY as nat, url, art),
        pending: without_name(m.pending, url),
    }
}

impl ArtCache {
    /// The entries are well formed and the cache has the capacity it was
    /// made with.
    pub closed spec fn wf(&self) -> bool {
        &&& well_formed(self@)
        &&& lru_capacity(self.entries) == CACHE_CAPACITY
    }

    pub fn new() -> (c: ArtCache)
        ensures
            c.wf(),
            c@.entries.len() == 0,
            c@.pending.len() == 0,
    {
        let c = ArtCache { entries: lru_new(CACHE_CAPACITY), pending: Vec::new() };
        assert(c@.pending =~= seq![]);
        c
    }

    /// The cover to show, without counting the look as a use: a view holds
    /// only `&self` and must not reorder the cache while composing a frame.
    pub fn peek(&self, url: &str) -> (a: Option<&Art>)
        ensures
            match find(self@.entries, url@) {
                Some(i) => a is Some && a->0@ == self@.entries[i].1,
                None => a is None,
            },
    {
        lru_peek(&self.entries, url)
    }

    fn pending_index(&self, url: &str) -> (r: Option<usize>)
        ensures
            match r {
                Some(i) => i < self.pending.len() && self@.pending[i as int] == url@,
                None => !self@.pending.contains(url@),
            },
    {
        let mut i: usize = 0;
        while i < self.pending.len()
            invariant
                i <= self.pending.len(),
                forall|j: int| 0 <= j < i ==> self@.pending[j] != url@,
            decreases self.pending.len() - i,
        {
            if str_eq(self.pending[i].as_str(), url) {
                return Some(i);
            }
            i += 1;
        }
        None
    }

    /// Whether `url` has to be fetched: neither cached nor already on its
    /// way. A `true` marks it as on its way. A cache hit counts as a use,
    /// promoting it so a track that stays in view survives eviction.
    pub fn request(&mut self, url: &str) -> (fetch: bool)
        requires
            old(self).wf(),
        ensures
            final(self).wf(),
            (final(self)@, fetch) == request_spec(old(self)@, url@),
            well_formed(final(self)@),
    {
        if lru_contains(&self.entries, url) {
            let ghost before = lru_entries(self.entries);
            proof {
                lemma_find_from(before, url@, 0);
                lemma_to_newest_keeps(before, find(before, url@)->0);
            }
            lru_promote(&mut self.entries, url);
            return false;
        }
        if self.pending_index(url).is_some() {
            return false;
        }
        let ghost before = self@.pending;
        self.pending.push(owned(url));
        assert(self@.pending =~= before.push(url@));
        true
    }

    /// Store a finished fetch, evicting the least recently used cover past
    /// the capacity.
    pub fn insert(&mut self, url: String, art: Art)
        requires
            old(self).wf(),
        ensures
            final(self).wf(),
            final(self)@ == insert_spec(old(self)@, url@, art@),
            well_formed(final(self)@),
    {
        let ghost pending = self@.pending;
        let mut kept: Vec<String> = Vec::new();
        let mut i: usize = 0;
        while i < self.pending.len()
            invariant
                i <= self.pending.len(),
                pending == strings_view(self.pending@),
                strings_view(kept@) == without_name(pending.take(i as int), url@),
            decreases self.pending.len() - i,
        {
            assert(pending.take(i + 1).drop_last() == pending.take(i as int));
            if !str_eq(self.pending[i].as_str(), url.as_str()) {
                let ghost prev = kept@;
                kept.push(self.pending[i].clone());
                assert(strings_view(kept@) =~= strings_view(prev).push(pending[i as int]));
            }
            i += 1;
        }
        assert(pending.take(i as int) == pending);
        self.pending = kept;
        let ghost before = lru_entries(self.entries);
        proof {
            lemma_put_keeps(before, CACHE_CAPACITY as nat, url@, art@);
        }
        lru_put(&mut self.entries, url, art);
    }
}

proof fn lemma_find_from(s: Seq<(Seq<char>, ArtModel)>, url: Seq<char>, i: int)
    requires
        0 <= i,
    ensures
        match find_from(s, url, i) {
            Some(j) => i <= j < s.len() && s[j].0 == url,
            None => forall|k: int| i <= k < s.len() ==> s[k].0 != url,
        },
    decreases s.len() - i,
{
    if i < s.len() && s[i].0 != url {
        lemma_find_from(s, url, i + 1);
    }
}

proof fn lemma_put_keeps(s: Seq<(Seq<char>, ArtModel)>, cap: nat, url: Seq<char>, art: ArtModel)
    requires
        distinct_urls(s),
        s.len() <= cap,
        cap > 0,
    ensures
        distinct_urls(put_spec(s, cap, url, art)),
        put_spec(s, cap, url, art).len() <= cap,
{
    lemma_find_from(s, url, 0);
    let t = put_spec(s, cap, url, art);
    match find(s, url) {
        Some(i) => {
            assert forall|a: int, b: int| 0 <= a < b < t.len() implies t[a].0 != t[b].0 by {
                let sa = if a < i { a } else { a + 1 };
                assert(t[a] == s[sa]);
                if b == t.len() - 1 {
                    assert(t[b].0 == url);
                } else {
                    let sb = if b < i { b } else { b + 1 };
                    assert(t[b] == s[sb]);
                }
            }
        },
        None => {
            let base = if s.len() == cap { s.drop_first() } else { s };
            assert(t == base.push((url, art)));
            assert forall|a: int, b: int| 0 <= a < b < t.len() implies t[a].0 != t[b].0 by {
                if s.len() == cap {
                    assert(t[a] == s[a + 1]);
                    if b < t.len() - 1 {
                        assert(t[b] == s[b + 1]);
                    }
                } else {
                    assert(t[a] == s[a]);
                    if b < t.len() - 1 {
                        assert(t[b] == s[b]);
                    }
                }
            }
        },
    }
}

proof fn lemma_to_newest_keeps(s: Seq<(Seq<char>, ArtModel)>, i: int)
    requires
        0 <= i < s.len(),
        distinct_urls(s),
    ensures
        distinct_urls(to_newest(s, i)),
        to_newest(s, i).len() == s.len(),
{
    let t = to_newest(s, i);
    assert forall|a: int, b: int| 0 <= a < b < t.len() implies t[a].0 != t[b].0 by {
        let sa = if a < i { a } else { a + 1 };
        if b == t.len() - 1 {
            assert(t[b] == s[i]);
            assert(t[a] == s[sa]);
        } else {
            let sb = if b < i { b } else { b + 1 };
            assert(t[a] == s[sa]);
            assert(t[b] == s[sb]);
        }
    }
}

/// A URL is fetched once until it lands: asking again, whether it was
/// cached or went on its way, asks for nothing.
pub proof fn lemma_requested_once(m: ArtCacheModel, url: Seq<char>)
    ensures
        request_spec(request_spec(m, url).0, url).1 == false,
{
    let (n, _) = request_spec(m, url);
    lemma_find_from(m.entries, url, 0);
    if let Some(i) = find(m.entries, url) {
        let t = to_newest(m.entries, i);
        lemma_find_from(t, url, 0);
        assert(t[t.len() - 1].0 == url);
    } else if !m.pending.contains(url) {
        assert(n.pending == m.pending.push(url));
        assert(n.pending[n.pending.len() - 1] == url);
        assert(n.pending.contains(url));
    }
}

/// A stored cover, loaded or failed, is cached under its URL as the most
/// recently used, so it is not fetched again; and a well-formed cache stays
/// within its capacity.
pub proof fn lemma_insert_caches(m: ArtCacheModel, url: Seq<char>, art: ArtModel)
    requires
        well_formed(m),
    ensures
        ({
            let n = insert_spec(m, url, art);
            &&& n.entries.last() == (url, art)
            &&& find(n.entries, url) is Some
            &&& request_spec(n, url).1 == false
            &&& well_formed(n)
        }),
{
    lemma_put_keeps(m.entries, CACHE_CAPACITY as nat, url, art);
    let t = insert_spec(m, url, art).entries;
    lemma_find_from(m.entries, url, 0);
    lemma_find_from(t, url, 0);
    assert(t[t.len() - 1].0 == url);
}

proof fn lemma_without_name_contains(s: Seq<Seq<char>>, key: Seq<char>, u: Seq<char>)
    ensures
        without_name(s, key).contains(u) <==> (s.contains(u) && u != key),
    decreases s.len(),
{
    if s.len() > 0 {
        let rest = without_name(s.drop_last(), key);
        lemma_without_name_contains(s.drop_last(), key, u);
        if s.contains(u) && u != key {
            let i = choose|i: int| 0 <= i < s.len() && s[i] == u;
            if i < s.len() - 1 {
                assert(s.drop_last()[i] == u);
            }
        }
        if s.drop_last().contains(u) {
            let i = choose|i: int| 0 <= i < s.drop_last().len() && s.drop_last()[i] == u;
            assert(s[i] == u);
        }
        if s.last() != key {
            if rest.push(s.last()).contains(u) {
                let i = choose|i: int| 0 <= i < rest.len() + 1 && rest.push(s.last())[i] == u;
                if i < rest.len() {
                    assert(rest[i] == u);
                } else {
                    assert(s[s.len() - 1] == u);
                }
            }
            if rest.contains(u) {
                let i = choose|i: int| 0 <= i < rest.len() && rest[i] == u;
                assert(rest.push(s.last())[i] == u);
            }
            if u == s.last() {
                assert(rest.push(s.last())[rest.len() as int] == u);
            }
        }
    }
}

/// Landing one cover touches no other fetch: the URL that landed is no
/// longer on its way, every other URL that was on its way still is, and
/// nothing else becomes so; a URL still on its way is therefore not
/// requested again.
pub proof fn lemma_landing_keeps_other_fetches(m: ArtCacheModel, url: Seq<char>, art: ArtModel, u: Seq<char>)
    ensures
        insert_spec(m, url, art).pending.contains(u) <==> (m.pending.contains(u) && u != url),
        (m.pending.contains(u) && u != url) ==> request_spec(insert_spec(m, url, art), u).1 == false,
{
    lemma_without_name_contains(m.pending, url, u);
}

} // verus!
