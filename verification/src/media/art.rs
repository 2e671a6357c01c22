//! Album art for the media panel: where a cover comes from, the cache that
//! keeps the last few, and decoding a fetched cover to RGBA.
use std::collections::VecDeque;
use vstd::prelude::*;
use crate::cli::{after_prefix, has_prefix, strip_prefix};
use crate::raster::{decoded_size, decodes_as_image, load_image, thumbnail, to_rgba};
use crate::text::{chars_of, lossy_string, owned, starts_with_lit, str_eq, utf8_lossy};

verus! {

/// Longest side of a decoded cover. The panel is a few hundred pixels wide,
/// so anything larger only costs memory.
pub const ART_SIZE: u32 = 512;

/// Covers kept decoded, so skipping back and forth does not refetch.
pub const CACHE_CAPACITY: usize = 8;

/// A decoded cover: RGBA8 pixels, row by row.
#[derive(Debug, Clone, PartialEq, Eq)]
pub struct Cover {
    pub width: u32,
    pub height: u32,
    pub pixels: Vec<u8>,
}

/// What a fetch of a cover gave.
#[derive(Debug, Clone, PartialEq, Eq)]
pub enum Art {
    Loaded(Cover),
    /// Remembered so a broken URL is not retried on every update.
    Failed,
}

/// An [`Art`] as values: the size and pixels of a loaded cover.
pub enum ArtModel {
    Loaded(u32, u32, Seq<u8>),
    Failed,
}

impl View for Art {
    type V = ArtModel;

    open spec fn view(&self) -> ArtModel {
        match self {
            Art::Loaded(c) => ArtModel::Loaded(c.width, c.height, c.pixels@),
            Art::Failed => ArtModel::Failed,
        }
    }
}

/// Where a cover is read from.
#[derive(Debug, Clone, PartialEq, Eq)]
pub enum ArtSource {
    File(String),
    Http(String),
}

/// Whether `b` is an ASCII hex digit.
pub open spec fn is_hex(b: u8) -> bool {
    (48 <= b <= 57) || (65 <= b <= 70) || (97 <= b <= 102)
}

/// The value of a hex digit.
pub open spec fn hex_value(b: u8) -> int {
    if 48 <= b <= 57 {
        b - 48
    } else if 65 <= b <= 70 {
        b - 55
    } else {
        b - 87
    }
}

/// The byte two hex digits spell.
pub open spec fn hex_byte_spec(hi: u8, lo: u8) -> Option<u8> {
    if is_hex(hi) && is_hex(lo) {
        Some((hex_value(hi) * 16 + hex_value(lo)) as u8)
    } else {
        None
    }
}

pub fn hex_byte(hi: u8, lo: u8) -> (r: Option<u8>)
    ensures
        r == hex_byte_spec(hi, lo),
{
    let h = hex_digit(hi);
    let l = hex_digit(lo);
    match (h, l) {
        (Some(h), Some(l)) => Some(h * 16 + l),
        _ => None,
    }
}

fn hex_digit(b: u8) -> (r: Option<u8>)
    ensures
        match r {
            Some(v) => is_hex(b) && v == hex_value(b) && v < 16,
            None => !is_hex(b),
        },
{
    if 48 <= b && b <= 57 {
        Some(b - 48)
    } else if 65 <= b && b <= 70 {
        Some(b - 55)
    } else if 97 <= b && b <= 102 {
        Some(b - 87)
    } else {
        None
    }
}

/// The bytes of `b` with each well-formed `%XX` escape replaced by the byte
/// it names; a malformed escape is kept as it is.
pub open spec fn unescape(b: Seq<u8>) -> Seq<u8>
    decreases b.len(),
{
    if b.len() == 0 {
        b
    } else if b.len() >= 3 && b[0] == 37 && hex_byte_spec(b[1], b[2]) is Some {
        seq![hex_byte_spec(b[1], b[2])->0] + unescape(b.skip(3))
    } else {
        seq![b[0]] + unescape(b.skip(1))
    }
}

/// Decode the `%XX` escapes of a URI path, reading the result as UTF-8.
pub open spec fn percent_decode_spec(raw: Seq<char>) -> Seq<char> {
    utf8_lossy(unescape(vstd::utf8::encode_utf8(raw)))
}

proof fn lemma_unescape_step(b: Seq<u8>, i: int, n: int)
    requires
        0 <= i,
        i + n <= b.len(),
        n == 1 || n == 3,
        n == 3 <==> (b.len() - i >= 3 && b[i] == 37 && hex_byte_spec(b[i + 1], b[i + 2]) is Some),
    ensures
        unescape(b.skip(i)) == (if n == 3 {
            seq![hex_byte_spec(b[i + 1], b[i + 2])->0]
        } else {
            seq![b[i]]
        }) + unescape(b.skip(i + n)),
{
    let s = b.skip(i);
    assert(s.len() > 0);
    assert(s.skip(n) == b.skip(i + n));
    if n == 3 {
        assert(s[0] == b[i] && s[1] == b[i + 1] && s[2] == b[i + 2]);
    } else {
        assert(s[0] == b[i]);
        if s.len() >= 3 {
            assert(s[1] == b[i + 1] && s[2] == b[i + 2]);
        }
    }
}

/// Decode the `%XX` escapes of a URI path. A malformed escape is kept as is.
pub fn percent_decode(raw: &str) -> (decoded: String)
    ensures
        decoded@ == percent_decode_spec(raw@),
{
    let bytes = raw.as_bytes();
    let ghost b = bytes@;
    let mut out: Vec<u8> = Vec::new();
    let mut i: usize = 0;
    assert(b.skip(0) == b);
    assert(out@ + unescape(b) == unescape(b));
    while i < bytes.len()
        invariant
            i <= bytes.len(),
            b == bytes@,
            out@ + unescape(b.skip(i as int)) == unescape(b),
        decreases bytes.len() - i,
    {
        let first = bytes[i];
        let mut n: usize = 1;
        let mut byte = first;
        if first == 37 && bytes.len() - i >= 3 {
            if let Some(v) = hex_byte(bytes[i + 1], bytes[i + 2]) {
                byte = v;
                n = 3;
            }
        }
        proof {
            lemma_unescape_step(b, i as int, n as int);
        }
        let ghost before = out@;
        out.push(byte);
        assert(out@ == before + seq![byte]);
        assert(before + (seq![byte] + unescape(b.skip(i + n))) == out@ + unescape(b.skip(i + n)));
        i += n;
    }
    assert(b.skip(i as int).len() == 0);
    assert(unescape(b.skip(i as int)) == Seq::<u8>::empty());
    assert(out@ + Seq::<u8>::empty() == out@);
    lossy_string(out.as_slice())
}

/// Where the cover at `url` is read from: a `file://` URL (with or without
/// the `localhost` host) names a decoded path, an `http://` or `https://`
/// URL is fetched as given, and anything else is not supported.
pub open spec fn art_source_spec(url: Seq<char>) -> Option<(bool, Seq<char>)> {
    if has_prefix(url, "file://"@) {
        let path = after_prefix(url, "file://"@);
        let path = if has_prefix(path, "localhost"@) {
            after_prefix(path, "localhost"@)
        } else {
            path
        };
        Some((true, percent_decode_spec(path)))
    } else if has_prefix(url, "http://"@) || has_prefix(url, "https://"@) {
        Some((false, url))
    } else {
        None
    }
}

/// The view of a source: whether it is a file, and its path or URL.
pub open spec fn source_view(s: Option<ArtSource>) -> Option<(bool, Seq<char>)> {
    match s {
        Some(ArtSource::File(p)) => Some((true, p@)),
        Some(ArtSource::Http(u)) => Some((false, u@)),
        None => None,
    }
}

impl ArtSource {
    pub fn parse(url: &str) -> (s: Option<ArtSource>)
        ensures
            source_view(s) == art_source_spec(url@),
    {
        if let Some(path) = strip_prefix(url, "file://") {
            let path = match strip_prefix(path.as_str(), "localhost") {
                Some(rest) => rest,
                None => path,
            };
            return Some(ArtSource::File(percent_decode(path.as_str())));
        }
        let cs = chars_of(url);
        if starts_with_lit(cs.as_slice(), "http://") || starts_with_lit(cs.as_slice(), "https://") {
            Some(ArtSource::Http(owned(url)))
        } else {
            None
        }
    }
}

/// The recent covers, oldest first, and the one URL on its way.
pub struct ArtCacheModel {
    pub entries: Seq<(Seq<char>, ArtModel)>,
    pub pending: Option<Seq<char>>,
}

/// Covers by URL, oldest first, at most [`CACHE_CAPACITY`] of them, and the
/// one URL whose fetch is on its way.
#[derive(Debug)]
pub struct ArtCache {
    entries: VecDeque<(String, Art)>,
    pending: Option<String>,
}

pub open spec fn entries_view(v: Seq<(String, Art)>) -> Seq<(Seq<char>, ArtModel)> {
    v.map_values(|e: (String, Art)| (e.0@, e.1@))
}

impl View for ArtCache {
    type V = ArtCacheModel;

    closed spec fn view(&self) -> ArtCacheModel {
        ArtCacheModel {
            entries: entries_view(self.entries@),
            pending: match self.pending {
                Some(p) => Some(p@),
                None => None,
            },
        }
    }
}

/// The first entry for `url` at or after `i`.
pub open spec fn find_url_from(s: Seq<(Seq<char>, ArtModel)>, url: Seq<char>, i: int) -> Option<int>
    decreases s.len() - i,
{
    if i < 0 || i >= s.len() {
        None
    } else if s[i].0 == url {
        Some(i)
    } else {
        find_url_from(s, url, i + 1)
    }
}

/// The cover cached for `url`.
pub open spec fn cached(m: ArtCacheModel, url: Seq<char>) -> Option<ArtModel> {
    match find_url_from(m.entries, url, 0) {
        Some(i) => Some(m.entries[i].1),
        None => None,
    }
}

/// The entries of `s` for any URL but `url`, in order.
pub open spec fn without_url(s: Seq<(Seq<char>, ArtModel)>, url: Seq<char>) -> Seq<(Seq<char>, ArtModel)>
    decreases s.len(),
{
    if s.len() == 0 {
        s
    } else if s.last().0 == url {
        without_url(s.drop_last(), url)
    } else {
        without_url(s.drop_last(), url).push(s.last())
    }
}

/// `s` cut to its newest `n` entries.
pub open spec fn newest(s: Seq<(Seq<char>, ArtModel)>, n: int) -> Seq<(Seq<char>, ArtModel)> {
    if s.len() > n {
        s.skip(s.len() - n)
    } else {
        s
    }
}

/// [`ArtCache::request`]: a URL neither cached nor on its way has to be
/// fetched, and is then the one on its way.
pub open spec fn request_spec(m: ArtCacheModel, url: Seq<char>) -> (ArtCacheModel, bool) {
    if cached(m, url) is Some || m.pending == Some(url) {
        (m, false)
    } else {
        (ArtCacheModel { pending: Some(url), ..m }, true)
    }
}

/// [`ArtCache::insert`]: the fetch is no longer on its way, and the cover
/// becomes the newest entry, evicting the oldest past the capacity.
pub open spec fn insert_spec(m: ArtCacheModel, url: Seq<char>, art: ArtModel) -> ArtCacheModel {
    ArtCacheModel {
        entries: newest(without_url(m.entries, url).push((url, art)), CACHE_CAPACITY as int),
        pending: if m.pending == Some(url) {
            None
        } else {
            m.pending
        },
    }
}

impl Default for ArtCache {
    fn default() -> (c: ArtCache)
        ensures
            c@.entries.len() == 0,
            c@.pending is None,
    {
        ArtCache { entries: VecDeque::new(), pending: None }
    }
}

fn clone_art(a: &Art) -> (c: Art)
    ensures
        c@ == a@,
{
    match a {
        Art::Failed => Art::Failed,
        Art::Loaded(cover) => {
            let pixels = cover.pixels.clone();
            assert(pixels@ =~= cover.pixels@);
            Art::Loaded(Cover { width: cover.width, height: cover.height, pixels })
        },
    }
}

impl ArtCache {
    fn find(&self, url: &str) -> (r: Option<usize>)
        ensures
            match r {
                Some(i) => find_url_from(self@.entries, url@, 0) == Some(i as int) && i
                    < self.entries.len(),
                None => find_url_from(self@.entries, url@, 0) is None,
            },
    {
        let ghost ev = entries_view(self.entries@);
        let mut i: usize = 0;
        while i < self.entries.len()
            invariant
                i <= self.entries.len(),
                ev == entries_view(self.entries@),
                find_url_from(ev, url@, 0) == find_url_from(ev, url@, i as int),
            decreases self.entries.len() - i,
        {
            if str_eq(self.entries[i].0.as_str(), url) {
                return Some(i);
            }
            i += 1;
        }
        None
    }

    /// The cached cover for `url`.
    pub fn get(&self, url: &str) -> (a: Option<&Art>)
        ensures
            match a {
                Some(a) => cached(self@, url@) == Some(a@),
                None => cached(self@, url@) is None,
            },
    {
        match self.find(url) {
            Some(i) => Some(&self.entries[i].1),
            None => None,
        }
    }

    /// Whether `url` has to be fetched: neither cached nor already on its
    /// way. A `true` marks it as on its way.
    pub fn request(&mut self, url: &str) -> (fetch: bool)
        ensures
            (final(self)@, fetch) == request_spec(old(self)@, url@),
    {
        if self.find(url).is_some() {
            return false;
        }
        if let Some(p) = &self.pending {
            if str_eq(p.as_str(), url) {
                return false;
            }
        }
        self.pending = Some(owned(url));
        true
    }

    /// Store a finished fetch, evicting the oldest cover past the capacity.
    pub fn insert(&mut self, url: String, art: Art)
        ensures
            final(self)@ == insert_spec(old(self)@, url@, art@),
    {
        let done = match &self.pending {
            Some(p) => str_eq(p.as_str(), url.as_str()),
            None => false,
        };
        if done {
            self.pending = None;
        }
        let ghost old_entries = entries_view(self.entries@);
        let mut kept: VecDeque<(String, Art)> = VecDeque::new();
        let mut i: usize = 0;
        while i < self.entries.len()
            invariant
                i <= self.entries.len(),
                old_entries == entries_view(self.entries@),
                entries_view(kept@) == without_url(old_entries.take(i as int), url@),
            decreases self.entries.len() - i,
        {
            assert(old_entries.take(i + 1).drop_last() == old_entries.take(i as int));
            if !str_eq(self.entries[i].0.as_str(), url.as_str()) {
                let ghost prev = kept@;
                let key = self.entries[i].0.clone();
                let value = clone_art(&self.entries[i].1);
                kept.push_back((key, value));
                assert(entries_view(kept@) =~= entries_view(prev).push(old_entries[i as int]));
            }
            i += 1;
        }
        assert(old_entries.take(i as int) == old_entries);
        let ghost key = url@;
        let ghost prev = kept@;
        kept.push_back((url, art));
        assert(entries_view(kept@) =~= entries_view(prev).push((key, art@)));
        let ghost full = entries_view(kept@);
        while kept.len() > CACHE_CAPACITY
            invariant
                entries_view(kept@) == full.skip(full.len() - kept@.len()),
                kept@.len() <= full.len(),
                full.len() > CACHE_CAPACITY ==> kept@.len() >= CACHE_CAPACITY,
                full.len() <= CACHE_CAPACITY ==> kept@.len() == full.len(),
            decreases kept@.len(),
        {
            let ghost before = kept@;
            kept.pop_front();
            assert(entries_view(kept@) =~= entries_view(before).drop_first());
        }
        assert(full.skip(0) == full);
        self.entries = kept;
    }
}

/// Whether a cover of this size has to be scaled down to fit [`ART_SIZE`].
pub fn needs_fitting(width: u32, height: u32) -> (b: bool)
    ensures
        b == (width > ART_SIZE || height > ART_SIZE),
{
    width > ART_SIZE || height > ART_SIZE
}

/// Decode a fetched cover to RGBA, scaled down to fit [`ART_SIZE`] on its
/// longer side when it is larger; `None` when the bytes are no image this
/// build decodes. A cover that fits already keeps its size.
pub fn decode(bytes: &[u8]) -> (r: Option<Cover>)
    ensures
        r is Some == decodes_as_image(bytes@),
        r matches Some(c) ==> {
            &&& c.width <= ART_SIZE
            &&& c.height <= ART_SIZE
            &&& c.pixels@.len() == (c.width as int) * (c.height as int) * 4
            &&& (decoded_size(bytes@).0 <= ART_SIZE && decoded_size(bytes@).1 <= ART_SIZE) ==> (
            c.width,
            c.height,
            ) == decoded_size(bytes@)
        },
{
    let img = match load_image(bytes) {
        Ok(img) => img,
        Err(_) => return None,
    };
    if needs_fitting(img.width(), img.height()) {
        let small = thumbnail(&img, ART_SIZE, ART_SIZE);
        let pixels = to_rgba(&small);
        Some(Cover { width: small.width(), height: small.height(), pixels })
    } else {
        let pixels = to_rgba(&img);
        Some(Cover { width: img.width(), height: img.height(), pixels })
    }
}

proof fn lemma_without_url_lacks(s: Seq<(Seq<char>, ArtModel)>, url: Seq<char>)
    ensures
        forall|k: int| 0 <= k < without_url(s, url).len() ==> #[trigger] without_url(s, url)[k].0 != url,
        without_url(s, url).len() <= s.len(),
    decreases s.len(),
{
    if s.len() > 0 {
        let rest = without_url(s.drop_last(), url);
        lemma_without_url_lacks(s.drop_last(), url);
        if s.last().0 != url {
            assert forall|k: int| 0 <= k < rest.push(s.last()).len() implies #[trigger] rest.push(
                s.last(),
            )[k].0 != url by {
                if k < rest.len() {
                    assert(rest.push(s.last())[k] == rest[k]);
                }
            }
        }
    }
}

proof fn lemma_find_url_last(s: Seq<(Seq<char>, ArtModel)>, url: Seq<char>, i: int)
    requires
        0 <= i < s.len(),
        s.last().0 == url,
        forall|k: int| 0 <= k < s.len() - 1 ==> #[trigger] s[k].0 != url,
    ensures
        find_url_from(s, url, i) == Some(s.len() - 1),
    decreases s.len() - i,
{
    if i < s.len() - 1 {
        lemma_find_url_last(s, url, i + 1);
    }
}

/// A URL is fetched once until it lands: asking again while it is on its
/// way asks for nothing.
pub proof fn lemma_requested_once(m: ArtCacheModel, url: Seq<char>)
    ensures
        request_spec(request_spec(m, url).0, url).1 == false,
{
}

/// A stored cover, loaded or failed, is cached under its URL, so it is not
/// fetched again; and the cache never holds more than its capacity.
pub proof fn lemma_insert_caches(m: ArtCacheModel, url: Seq<char>, art: ArtModel)
    ensures
        cached(insert_spec(m, url, art), url) == Some(art),
        request_spec(insert_spec(m, url, art), url).1 == false,
        insert_spec(m, url, art).entries.len() <= CACHE_CAPACITY,
{
    let kept = without_url(m.entries, url);
    lemma_without_url_lacks(m.entries, url);
    let full = kept.push((url, art));
    let cut = newest(full, CACHE_CAPACITY as int);
    assert forall|k: int| 0 <= k < cut.len() - 1 implies #[trigger] cut[k].0 != url by {
        if full.len() > CACHE_CAPACITY {
            assert(cut[k] == full[k + full.len() - CACHE_CAPACITY]);
            assert(full[k + full.len() - CACHE_CAPACITY] == kept[k + full.len() - CACHE_CAPACITY]);
        } else {
            assert(cut[k] == kept[k]);
        }
    }
    assert(cut.last() == (url, art));
    lemma_find_url_last(cut, url, 0);
}

/// Landing one cover leaves another fetch on its way: a URL other than the
/// one that landed, on its way before, is still so, and is not requested
/// again; the URL that landed is no longer on its way.
pub proof fn lemma_landing_keeps_the_other_fetch(m: ArtCacheModel, url: Seq<char>, art: ArtModel, u: Seq<char>)
    ensures
        (m.pending == Some(u) && u != url) ==> (insert_spec(m, url, art).pending == Some(u) && request_spec(
            insert_spec(m, url, art),
            u,
        ).1 == false),
        insert_spec(m, url, art).pending != Some(url),
{
}

} // verus!
