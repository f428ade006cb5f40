//! Searching through the yggapi.eu API: request URLs, conversion of its
//! answers into torrents, the ban-word filter and the local sort.
use vstd::prelude::*;
use crate::numbers::{decimal, usize_to_string};
use crate::parser::{
    effective_order, effective_sort, is_stable_sort, lemma_stable_sort_is_permutation, Torrent,
};
use crate::search::{Order, Sort};
use crate::text::{
    chars_range_to_string, contains_chars, contains_seq, find_chars, find_seq, lowercase,
    push_str, str_to_chars, to_lowercase,
};
use crate::urls::{url_encode, url_encoded};

verus! {

/// A torrent as yggapi.eu describes it.
#[derive(Debug)]
pub struct YggApiTorrent {
    pub id: usize,
    pub title: String,
    pub seeders: usize,
    pub leechers: usize,
    pub downloads: Option<usize>,
    pub size: u64,
    pub category_id: usize,
    pub uploaded_at: String,
    pub link: String,
}

/// The Unix timestamp that `chrono::DateTime::parse_from_rfc3339` reads from a
/// text, if it parses; a function of the text alone.
pub uninterp spec fn rfc3339_timestamp(s: Seq<char>) -> Option<i64>;

/// The Unix timestamp (as UTC) of the date and time that
/// `chrono::NaiveDateTime::parse_from_str` reads from a text with a format, if it
/// parses; a function of the two texts alone.
pub uninterp spec fn naive_utc_timestamp(s: Seq<char>, fmt: Seq<char>) -> Option<i64>;

/// Calls `chrono::DateTime::parse_from_rfc3339` and takes the parsed time's
/// `timestamp`.  Only the name `rfc3339_timestamp` is claimed of the result.
#[verifier::external_body]
fn parse_rfc3339_timestamp(s: &str) -> (r: Option<i64>)
    ensures
        r == rfc3339_timestamp(s@),
{
    chrono::DateTime::parse_from_rfc3339(s).ok().map(|dt| dt.timestamp())
}

/// Calls `chrono::NaiveDateTime::parse_from_str` and takes the parsed time's UTC
/// `timestamp`.  Only the name `naive_utc_timestamp` is claimed of the result.
#[verifier::external_body]
fn parse_naive_utc_timestamp(s: &str, fmt: &str) -> (r: Option<i64>)
    ensures
        r == naive_utc_timestamp(s@, fmt@),
{
    chrono::NaiveDateTime::parse_from_str(s, fmt).ok().map(|dt| dt.and_utc().timestamp())
}

/// The publication stamp of an upload date: its RFC 3339 timestamp, else its
/// `%Y-%m-%dT%H:%M:%S` timestamp taken as UTC, else 0; a negative timestamp is
/// reinterpreted as `usize`, as a cast does.
pub open spec fn upload_age_stamp(uploaded_at: Seq<char>) -> usize {
    match rfc3339_timestamp(uploaded_at) {
        Some(t) => t as usize,
        None => match naive_utc_timestamp(uploaded_at, "%Y-%m-%dT%H:%M:%S"@) {
            Some(t) => t as usize,
            None => 0,
        },
    }
}

/// The info path of a torrent: what follows the first `/torrent/` of its link,
/// else its id, after `/torrent/info/`.
pub open spec fn info_path(link: Seq<char>, id: usize) -> Seq<char> {
    match find_seq(link, "/torrent/"@) {
        Some(p) => "/torrent/info/"@ + link.skip(p + 9),
        None => "/torrent/info/"@ + decimal(id as nat),
    }
}

/// `t` is the torrent that the API record `a` describes.
pub open spec fn converts_to(a: YggApiTorrent, t: Torrent) -> bool {
    &&& t.category_id == a.category_id
    &&& t.name@ == a.title@
    &&& t.id == a.id
    &&& t.comments_count == 0
    &&& t.age_stamp == upload_age_stamp(a.uploaded_at@)
    &&& t.size == a.size
    &&& t.completed == match a.downloads {
        Some(d) => d,
        None => 0,
    }
    &&& t.seed == a.seeders
    &&& t.leech == a.leechers
    &&& t.info_url@ == info_path(a.link@, a.id)
    &&& t.link@ == a.link@
}

/// The publication stamp of an upload date.
pub fn age_stamp_of(uploaded_at: &str) -> (r: usize)
    ensures
        r == upload_age_stamp(uploaded_at@),
{
    match parse_rfc3339_timestamp(uploaded_at) {
        Some(ts) => #[verifier::truncate] (ts as usize),
        None => match parse_naive_utc_timestamp(uploaded_at, "%Y-%m-%dT%H:%M:%S") {
            Some(ts) => #[verifier::truncate] (ts as usize),
            None => 0,
        },
    }
}

/// The info path of a torrent with link `link` and id `id`.
pub fn info_path_of(link: &str, id: usize) -> (r: String)
    ensures
        r@ == info_path(link@, id),
{
    let link_chars = str_to_chars(link);
    let marker = str_to_chars("/torrent/");
    let mut info_url = String::from_str("/torrent/info/");
    proof {
        reveal_strlit("/torrent/");
        assert(marker@.len() == 9);
    }
    match find_chars(&link_chars, &marker) {
        Some(pos) => {
            let n = link_chars.len();
            assert(pos + 9 <= n);
            let tail = chars_range_to_string(&link_chars, pos + 9, n);
            push_str(&mut info_url, tail.as_str());
            assert(link_chars@.subrange(pos + 9, link_chars@.len() as int) =~= link_chars@.skip(
                pos + 9,
            ));
        },
        None => {
            let id = usize_to_string(id);
            push_str(&mut info_url, id.as_str());
        },
    }
    info_url
}

impl YggApiTorrent {
    /// The torrent that this API record describes.
    pub fn into_torrent(self) -> (t: Torrent)
        ensures
            converts_to(self, t),
    {
        let age_stamp = age_stamp_of(self.uploaded_at.as_str());
        let info_url = info_path_of(self.link.as_str(), self.id);
        let completed = match self.downloads {
            Some(d) => d,
            None => 0,
        };
        Torrent {
            category_id: self.category_id,
            name: self.title,
            id: self.id,
            comments_count: 0,
            age_stamp,
            size: self.size,
            completed,
            seed: self.seeders,
            leech: self.leechers,
            info_url,
            link: self.link,
        }
    }
}

/// The torrents that a list of API records describes, in order.
pub fn convert_api_torrents(api: Vec<YggApiTorrent>) -> (r: Vec<Torrent>)
    ensures
        r@.len() == api@.len(),
        forall|i: int| 0 <= i < api@.len() ==> converts_to(#[trigger] api@[i], r@[i]),
{
    let ghost orig = api@;
    let mut rest = api;
    let mut out: Vec<Torrent> = Vec::new();
    let total = rest.len();
    assert(orig.len() == total);
    while rest.len() > 0
        invariant
            out@.len() + rest@.len() == orig.len(),
            orig.len() <= usize::MAX,
            rest@ == orig.skip(out@.len() as int),
            forall|i: int| 0 <= i < out@.len() ==> converts_to(#[trigger] orig[i], out@[i]),
        decreases rest@.len(),
    {
        let ghost n = out@.len() as int;
        let a = rest.remove(0);
        assert(a == orig[n]);
        let t = a.into_torrent();
        out.push(t);
        assert(rest@ =~= orig.skip(n + 1));
    }
    out
}

/// The name yggapi.eu gives a sort criterion, for the criteria it sorts by itself.
pub open spec fn api_sort_name(sort: Sort) -> Option<Seq<char>> {
    match sort {
        Sort::Seed => Some("seeders"@),
        Sort::PublishDate => Some("uploaded_at"@),
        Sort::Completed => Some("downloads"@),
        _ => None,
    }
}

/// The name yggapi.eu gives a sort criterion, for the criteria it sorts by itself.
pub fn sort_to_api(sort: &Sort) -> (r: Option<&'static str>)
    ensures
        match api_sort_name(*sort) {
            Some(n) => r is Some && r->Some_0@ == n,
            None => r is None,
        },
{
    match sort {
        Sort::Seed => Some("seeders"),
        Sort::PublishDate => Some("uploaded_at"),
        Sort::Completed => Some("downloads"),
        _ => None,
    }
}

/// The `&category_id=` parameters of a list of categories.
pub open spec fn categories_query(cats: Seq<usize>) -> Seq<char>
    decreases cats.len(),
{
    if cats.len() == 0 {
        Seq::empty()
    } else {
        categories_query(cats.drop_last()) + "&category_id="@ + decimal(cats.last() as nat)
    }
}

/// The `&order_by=` parameter of a sort criterion that yggapi.eu applies itself.
pub open spec fn order_by_query(sort: Option<Sort>) -> Seq<char> {
    match sort {
        Some(s) => match api_sort_name(s) {
            Some(n) => "&order_by="@ + n,
            None => Seq::empty(),
        },
        None => Seq::empty(),
    }
}

/// The URL of a yggapi.eu search by text.
pub open spec fn search_url_spec(
    name: Seq<char>,
    page: Option<usize>,
    cats: Seq<usize>,
    sort: Option<Sort>,
) -> Seq<char> {
    "https://yggapi.eu/torrents?per_page=100"@ + (if name.len() > 0 {
        "&q="@ + url_encoded(name)
    } else {
        Seq::empty()
    }) + (match page {
        Some(p) => if p > 0 {
            "&page="@ + decimal(p as nat)
        } else {
            Seq::empty()
        },
        None => Seq::empty(),
    }) + categories_query(cats) + order_by_query(sort)
}

/// The URL of a yggapi.eu search by TMDB id.
pub open spec fn tmdb_url_spec(
    tmdb_id: usize,
    media_type: Option<Seq<char>>,
    cats: Seq<usize>,
    sort: Option<Sort>,
) -> Seq<char> {
    "https://yggapi.eu/torrents?per_page=100&tmdb_id="@ + decimal(tmdb_id as nat) + (match media_type {
        Some(m) => "&type="@ + m,
        None => Seq::empty(),
    }) + categories_query(cats) + order_by_query(sort)
}

fn push_categories(url: &mut String, cats: &[usize])
    ensures
        final(url)@ == old(url)@ + categories_query(cats@),
{
    let ghost start = url@;
    let mut i: usize = 0;
    while i < cats.len()
        invariant
            i <= cats@.len(),
            url@ == start + categories_query(cats@.take(i as int)),
        decreases cats@.len() - i,
    {
        assert(cats@.take(i + 1).drop_last() =~= cats@.take(i as int));
        assert(cats@.take(i + 1).last() == cats@[i as int]);
        push_str(url, "&category_id=");
        let c = usize_to_string(cats[i]);
        push_str(url, c.as_str());
        i = i + 1;
    }
    assert(cats@.take(cats@.len() as int) =~= cats@);
}

fn push_order_by(url: &mut String, sort: Option<Sort>)
    ensures
        final(url)@ == old(url)@ + order_by_query(sort),
{
    match sort {
        Some(s) => match sort_to_api(&s) {
            Some(n) => {
                push_str(url, "&order_by=");
                push_str(url, n);
            },
            None => {
                assert(url@ =~= url@ + Seq::<char>::empty());
            },
        },
        None => {
            assert(url@ =~= url@ + Seq::<char>::empty());
        },
    }
}

/// The URL of a yggapi.eu search by text, page, categories and sort.
pub fn search_url(name: &str, page: Option<usize>, categories: &[usize], sort: Option<Sort>) -> (r: String)
    ensures
        r@ == search_url_spec(name@, page, categories@, sort),
{
    let mut url = String::from_str("https://yggapi.eu/torrents?per_page=100");
    let ghost u0 = url@;
    if !name.is_empty() {
        push_str(&mut url, "&q=");
        let e = url_encode(name);
        push_str(&mut url, e.as_str());
    }
    let ghost u1 = url@;
    match page {
        Some(p) => {
            if p > 0 {
                push_str(&mut url, "&page=");
                let ps = usize_to_string(p);
                push_str(&mut url, ps.as_str());
            }
        },
        None => {},
    }
    let ghost u2 = url@;
    push_categories(&mut url, categories);
    push_order_by(&mut url, sort);
    proof {
        let a: Seq<char> = if name@.len() > 0 {
            "&q="@ + url_encoded(name@)
        } else {
            Seq::empty()
        };
        let b: Seq<char> = match page {
            Some(p) => if p > 0 {
                "&page="@ + decimal(p as nat)
            } else {
                Seq::empty()
            },
            None => Seq::empty(),
        };
        assert(u1 =~= u0 + a);
        assert(u2 =~= u1 + b);
        assert(url@ =~= u0 + a + b + categories_query(categories@) + order_by_query(sort));
    }
    url
}

/// The URL of a yggapi.eu search by TMDB id, media type, categories and sort.
pub fn tmdb_url(
    tmdb_id: usize,
    media_type: Option<&str>,
    categories: &[usize],
    sort: Option<Sort>,
) -> (r: String)
    ensures
        r@ == tmdb_url_spec(
            tmdb_id,
            match media_type {
                Some(m) => Some(m@),
                None => None,
            },
            categories@,
            sort,
        ),
{
    let mut url = String::from_str("https://yggapi.eu/torrents?per_page=100&tmdb_id=");
    let id = usize_to_string(tmdb_id);
    push_str(&mut url, id.as_str());
    let ghost u0 = url@;
    match media_type {
        Some(m) => {
            push_str(&mut url, "&type=");
            push_str(&mut url, m);
        },
        None => {},
    }
    let ghost u1 = url@;
    push_categories(&mut url, categories);
    push_order_by(&mut url, sort);
    proof {
        let a: Seq<char> = match media_type {
            Some(m) => "&type="@ + m@,
            None => Seq::empty(),
        };
        assert(u1 =~= u0 + a);
        assert(url@ =~= u0 + a + categories_query(categories@) + order_by_query(sort));
    }
    url
}

/// Whether a torrent name holds one of the ban words, ignoring case.
pub open spec fn is_banned(name: Seq<char>, ban_words: Seq<Seq<char>>) -> bool {
    exists|i: int| 0 <= i < ban_words.len() && contains_seq(lowercase(name), lowercase(#[trigger] ban_words[i]))
}

/// The torrents whose name holds none of the ban words.
pub open spec fn unbanned(torrents: Seq<Torrent>, ban_words: Seq<Seq<char>>) -> Seq<Torrent> {
    torrents.filter(|t: Torrent| !is_banned(t.name@, ban_words))
}

/// Whether the results must be sorted here: the criterion is one yggapi.eu does
/// not apply, or the direction is ascending.
pub open spec fn needs_local_sort_spec(sort: Option<Sort>, order: Option<Order>) -> bool {
    (match sort {
        Some(s) => api_sort_name(s) is None,
        None => false,
    }) || order == Some(Order::Ascending)
}

/// Whether the results must be sorted here.
pub fn needs_local_sort(sort: Option<Sort>, order: Option<Order>) -> (b: bool)
    ensures
        b == needs_local_sort_spec(sort, order),
{
    let by_api = match sort {
        Some(s) => sort_to_api(&s).is_none(),
        None => false,
    };
    let ascending = match order {
        Some(Order::Ascending) => true,
        _ => false,
    };
    by_api || ascending
}

fn name_is_banned(name: &str, lowered_words: &Vec<Vec<char>>, ban_words: Ghost<Seq<Seq<char>>>) -> (b: bool)
    requires
        lowered_words@.len() == ban_words@.len(),
        forall|i: int| 0 <= i < ban_words@.len() ==> #[trigger] lowered_words@[i]@ == lowercase(ban_words@[i]),
    ensures
        b == is_banned(name@, ban_words@),
{
    let lower = to_lowercase(name);
    let lc = str_to_chars(lower.as_str());
    let mut i: usize = 0;
    while i < lowered_words.len()
        invariant
            i <= lowered_words@.len(),
            lowered_words@.len() == ban_words@.len(),
            forall|k: int| 0 <= k < ban_words@.len() ==> #[trigger] lowered_words@[k]@ == lowercase(ban_words@[k]),
            lc@ == lowercase(name@),
            forall|k: int| 0 <= k < i ==> !contains_seq(lowercase(name@), lowercase(#[trigger] ban_words@[k])),
        decreases lowered_words@.len() - i,
    {
        if contains_chars(&lc, &lowered_words[i]) {
            assert(lowered_words@[i as int]@ == lowercase(ban_words@[i as int]));
            return true;
        }
        i = i + 1;
    }
    false
}

/// Keeps the torrents whose name holds none of the ban words, ignoring case.
pub fn retain_unbanned(torrents: Vec<Torrent>, ban_words: &Vec<String>) -> (r: Vec<Torrent>)
    ensures
        r@ == unbanned(torrents@, ban_words@.map_values(|w: String| w@)),
{
    let ghost bw = ban_words@.map_values(|w: String| w@);
    let mut lowered: Vec<Vec<char>> = Vec::new();
    let mut j: usize = 0;
    while j < ban_words.len()
        invariant
            j <= ban_words@.len(),
            bw == ban_words@.map_values(|w: String| w@),
            lowered@.len() == j,
            forall|k: int| 0 <= k < j ==> #[trigger] lowered@[k]@ == lowercase(bw[k]),
        decreases ban_words@.len() - j,
    {
        let l = to_lowercase(ban_words[j].as_str());
        lowered.push(str_to_chars(l.as_str()));
        j = j + 1;
    }
    let ghost orig = torrents@;
    let ghost p = |t: Torrent| !is_banned(t.name@, bw);
    let mut rest = torrents;
    let mut out: Vec<Torrent> = Vec::new();
    let mut n: usize = 0;
    let total = rest.len();
    assert(orig.len() == total);
    assert(orig.take(0) =~= Seq::<Torrent>::empty());
    while rest.len() > 0
        invariant
            n + rest@.len() == orig.len(),
            orig.len() <= usize::MAX,
            rest@ == orig.skip(n as int),
            lowered@.len() == bw.len(),
            forall|k: int| 0 <= k < bw.len() ==> #[trigger] lowered@[k]@ == lowercase(bw[k]),
            p == (|t: Torrent| !is_banned(t.name@, bw)),
            out@ == orig.take(n as int).filter(p),
        decreases rest@.len(),
    {
        let t = rest.remove(0);
        assert(t == orig[n as int]);
        assert(orig.take(n + 1) =~= orig.take(n as int).push(t));
        proof {
            orig.take(n as int).lemma_filter_push(t, p);
        }
        let banned = name_is_banned(t.name.as_str(), &lowered, Ghost(bw));
        if !banned {
            out.push(t);
        }
        n = n + 1;
        assert(rest@ =~= orig.skip(n as int));
    }
    assert(orig.take(n as int) =~= orig);
    out
}

/// The views of the ban words of a search, if any.
pub open spec fn ban_words_view(ban_words: Option<&Vec<String>>) -> Option<Seq<Seq<char>>> {
    match ban_words {
        Some(w) => Some(w@.map_values(|s: String| s@)),
        None => None,
    }
}

/// `r` is the result of finishing a yggapi.eu search of `torrents`: the
/// torrents that no ban word bans, sorted here when yggapi.eu cannot have
/// sorted them as asked, else in the API's order.
pub open spec fn search_finished(
    torrents: Seq<Torrent>,
    ban_words: Option<Seq<Seq<char>>>,
    sort: Option<Sort>,
    order: Option<Order>,
    r: Seq<Torrent>,
) -> bool {
    let kept = match ban_words {
        Some(w) => unbanned(torrents, w),
        None => torrents,
    };
    if needs_local_sort_spec(sort, order) {
        is_stable_sort(r, kept, effective_sort(sort), effective_order(order))
    } else {
        r == kept
    }
}

/// yggapi.eu sorts only by seeders, upload date and downloads, and only
/// newest or largest first.  So a search asked to sort by any other criterion,
/// in either direction, or to sort in ascending order, gives the stable sort of
/// its unbanned torrents by that criterion and direction; a search by a
/// criterion the API applies, not in ascending order, keeps the API's order.
pub proof fn lemma_local_sort_when_the_api_cannot(
    torrents: Seq<Torrent>,
    ban_words: Option<Seq<Seq<char>>>,
    sort: Option<Sort>,
    order: Option<Order>,
    r: Seq<Torrent>,
)
    requires
        search_finished(torrents, ban_words, sort, order, r),
    ensures
        ({
            let kept = match ban_words {
                Some(w) => unbanned(torrents, w),
                None => torrents,
            };
            &&& (match sort {
                Some(s) => api_sort_name(s) is None,
                None => false,
            }) ==> is_stable_sort(r, kept, effective_sort(sort), effective_order(order))
            &&& order == Some(Order::Ascending) ==> is_stable_sort(r, kept, effective_sort(sort), effective_order(order))
            &&& (match sort {
                Some(s) => api_sort_name(s) is Some,
                None => true,
            }) && order != Some(Order::Ascending) ==> r == kept
        }),
{
}

/// Finishes a yggapi.eu search: drops banned torrents, then sorts here when
/// yggapi.eu cannot have sorted them as asked.  No torrent of the result is banned.
pub fn finish_search(
    torrents: Vec<Torrent>,
    ban_words: Option<&Vec<String>>,
    sort: Option<Sort>,
    order: Option<Order>,
) -> (r: Vec<Torrent>)
    ensures
        ({
            let kept = match ban_words {
                Some(w) => unbanned(torrents@, w@.map_values(|s: String| s@)),
                None => torrents@,
            };
            if needs_local_sort_spec(sort, order) {
                is_stable_sort(r@, kept, effective_sort(sort), effective_order(order))
            } else {
                r@ == kept
            }
        }),
        ban_words matches Some(w) ==> forall|i: int|
            0 <= i < r@.len() ==> !is_banned(#[trigger] r@[i].name@, w@.map_values(|s: String| s@)),
        search_finished(torrents@, ban_words_view(ban_words), sort, order, r@),
{
    let ghost before = torrents@;
    let mut kept = match ban_words {
        Some(w) => retain_unbanned(torrents, w),
        None => torrents,
    };
    let ghost filtered = kept@;
    if needs_local_sort(sort, order) {
        Torrent::sort(&mut kept, sort, order);
        proof {
            lemma_stable_sort_is_permutation(kept@, filtered, effective_sort(sort), effective_order(order));
        }
    }
    proof {
        if let Some(w) = ban_words {
            let bw = w@.map_values(|s: String| s@);
            let p = |t: Torrent| !is_banned(t.name@, bw);
            assert(filtered == before.filter(p));
            assert forall|i: int| 0 <= i < kept@.len() implies !is_banned(#[trigger] kept@[i].name@, bw) by {
                let t = kept@[i];
                if !needs_local_sort_spec(sort, order) {
                    before.lemma_filter_pred(p, i);
                } else {
                    assert(kept@.contains(t));
                    kept@.to_multiset_ensures();
                    filtered.to_multiset_ensures();
                    assert(kept@.to_multiset().count(t) > 0);
                    assert(filtered.to_multiset().count(t) > 0);
                    assert(filtered.contains(t));
                    let k = choose|k: int| 0 <= k < filtered.len() && filtered[k] == t;
                    before.lemma_filter_pred(p, k);
                }
            }
        }
    }
    kept
}

} // verus!
