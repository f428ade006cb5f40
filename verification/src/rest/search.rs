//! The search endpoint: reading its query string, choosing how to search, and
//! combining the results of several searches.
use vstd::prelude::*;
use crate::numbers::{parse_unsigned_spec, parse_usize};
use crate::parser::{
    effective_order, effective_sort, is_stable_sort, lemma_stable_sort_is_permutation, Torrent,
};
use crate::search::{order_from_name, sort_from_name, Order, Sort};
use crate::text::{chars_to_string, split_chars, split_on, str_eq, str_to_chars, trim, trim_chars};
use crate::urls::{decode_or_keep, query_get, query_param, qstring_safe, url_decoded};

verus! {

/// The views of a sequence of strings.
pub open spec fn strings_view(v: Seq<String>) -> Seq<Seq<char>> {
    v.map_values(|s: String| s@)
}

/// The `usize` that `text` denotes, if it parses as one.
pub open spec fn usize_of(text: Seq<char>) -> Option<usize> {
    match parse_unsigned_spec(text, usize::MAX as nat) {
        Some(n) => Some(n as usize),
        None => None,
    }
}

/// The ban words of a comma-separated list: its trimmed, nonempty entries.
pub open spec fn ban_word_entry(piece: Seq<char>) -> Option<Seq<char>> {
    if trim(piece).len() > 0 {
        Some(trim(piece))
    } else {
        None
    }
}

/// The ban words given by the text of the `ban_words` parameter, or `None` when it has none.
pub open spec fn ban_words_spec(s: Seq<char>) -> Option<Seq<Seq<char>>> {
    let w = split_on(s, ',').filter_map(|p: Seq<char>| ban_word_entry(p));
    if w.len() > 0 {
        Some(w)
    } else {
        None
    }
}

/// The category ids of a comma-separated list (after percent-decoding): the
/// entries that parse as numbers once trimmed, or `None` when there are none.
pub open spec fn category_list_spec(s: Seq<char>) -> Option<Seq<usize>> {
    let v = split_on(url_decoded(s), ',').filter_map(|p: Seq<char>| usize_of(trim(p)));
    if v.len() > 0 {
        Some(v)
    } else {
        None
    }
}

/// Reads the ban words of a comma-separated list.
pub fn parse_ban_words(s: &str) -> (r: Option<Vec<String>>)
    ensures
        match ban_words_spec(s@) {
            Some(w) => r is Some && strings_view(r->Some_0@) == w,
            None => r is None,
        },
{
    let v = str_to_chars(s);
    let pieces = split_chars(&v, ',');
    let ghost sp = split_on(v@, ',');
    let ghost f = |p: Seq<char>| ban_word_entry(p);
    let mut out: Vec<String> = Vec::new();
    let mut i: usize = 0;
    while i < pieces.len()
        invariant
            i <= pieces@.len(),
            pieces@.len() == sp.len(),
            forall|k: int| 0 <= k < pieces@.len() ==> #[trigger] pieces@[k]@ == sp[k],
            f == (|p: Seq<char>| ban_word_entry(p)),
            strings_view(out@) == sp.take(i as int).filter_map(f),
        decreases pieces@.len() - i,
    {
        let t = trim_chars(&pieces[i]);
        proof {
            sp.lemma_filter_map_take_succ(f, i as int);
        }
        assert(t@ == trim(sp[i as int]));
        if t.len() > 0 {
            let w = chars_to_string(&t);
            let ghost before = out@;
            out.push(w);
            assert(f(sp[i as int]) == Some(w@));
            assert(strings_view(out@) =~= strings_view(before) + seq![w@]);
        } else {
            assert(f(sp[i as int]) is None);
        }
        i = i + 1;
    }
    assert(sp.take(sp.len() as int) == sp);
    if out.len() > 0 {
        Some(out)
    } else {
        None
    }
}

/// Reads the category ids of a comma-separated, possibly percent-encoded, list.
pub fn parse_category_list(s: &str) -> (r: Option<Vec<usize>>)
    ensures
        match category_list_spec(s@) {
            Some(c) => r is Some && r->Some_0@ == c,
            None => r is None,
        },
{
    let decoded = decode_or_keep(s);
    let v = str_to_chars(decoded.as_str());
    let pieces = split_chars(&v, ',');
    let ghost sp = split_on(v@, ',');
    let ghost f = |p: Seq<char>| usize_of(trim(p));
    let mut out: Vec<usize> = Vec::new();
    let mut i: usize = 0;
    while i < pieces.len()
        invariant
            i <= pieces@.len(),
            pieces@.len() == sp.len(),
            forall|k: int| 0 <= k < pieces@.len() ==> #[trigger] pieces@[k]@ == sp[k],
            f == (|p: Seq<char>| usize_of(trim(p))),
            out@ == sp.take(i as int).filter_map(f),
        decreases pieces@.len() - i,
    {
        let t = trim_chars(&pieces[i]);
        let ts = chars_to_string(&t);
        proof {
            sp.lemma_filter_map_take_succ(f, i as int);
        }
        assert(ts@ == trim(sp[i as int]));
        match parse_usize(ts.as_str()) {
            Some(n) => {
                assert(f(sp[i as int]) == Some(n));
                out.push(n);
            },
            None => {
                assert(f(sp[i as int]) is None);
            },
        }
        i = i + 1;
    }
    assert(sp.take(sp.len() as int) == sp);
    if out.len() > 0 {
        Some(out)
    } else {
        None
    }
}

/// The parameters of a search request, as read from its query string.
#[derive(Debug)]
pub struct SearchRequest {
    /// `name`, else `q`, else empty.
    pub name: String,
    pub offset: Option<usize>,
    pub category: Option<usize>,
    pub sub_category: Option<usize>,
    pub sort: Option<Sort>,
    pub order: Option<Order>,
    /// The categories of `categories`; dropped when `connarr` is given and there are more than two.
    pub categories: Option<Vec<usize>>,
    /// Whether `connarr` is present.
    pub connarr: bool,
    /// Whether `quote_search` is `true`.
    pub quote_search: bool,
    pub ban_words: Option<Vec<String>>,
    /// The raw `tmdbid` parameter.
    pub tmdb_id: Option<String>,
    /// The raw `imdbid` parameter.
    pub imdb_id: Option<String>,
}

/// The `usize` given by the query parameter `name`, when it is present and parses.
pub open spec fn query_usize(query: Seq<char>, name: Seq<char>) -> Option<usize> {
    match query_param(query, name) {
        Some(v) => usize_of(v),
        None => None,
    }
}

/// The views of an optional string.
pub open spec fn opt_view(o: Option<String>) -> Option<Seq<char>> {
    match o {
        Some(s) => Some(s@),
        None => None,
    }
}

fn get_usize(query: &str, name: &str) -> (r: Option<usize>)
    requires
        qstring_safe(query@),
    ensures
        r == query_usize(query@, name@),
{
    match query_get(query, name) {
        Some(v) => parse_usize(v.as_str()),
        None => None,
    }
}

/// `r` is the search request that the query string `query` gives: each field
/// is read from its parameter (see `parse_search_query`).
pub open spec fn search_request_of(query: Seq<char>, r: SearchRequest) -> bool {
    &&& r.name@ == match query_param(query, "name"@) {
        Some(n) => n,
        None => match query_param(query, "q"@) {
            Some(q) => q,
            None => Seq::<char>::empty(),
        },
    }
    &&& r.offset == query_usize(query, "offset"@)
    &&& r.category == query_usize(query, "category"@)
    &&& r.sub_category == query_usize(query, "sub_category"@)
    &&& r.sort == match query_param(query, "sort"@) {
        Some(s) => sort_from_name(s),
        None => None,
    }
    &&& r.order == match query_param(query, "order"@) {
        Some(s) => order_from_name(s),
        None => None,
    }
    &&& r.connarr == query_param(query, "connarr"@) is Some
    &&& r.quote_search == (query_param(query, "quote_search"@) == Some("true"@))
    &&& match query_param(query, "ban_words"@) {
        Some(b) => match ban_words_spec(b) {
            Some(w) => r.ban_words is Some && strings_view(r.ban_words->Some_0@) == w,
            None => r.ban_words is None,
        },
        None => r.ban_words is None,
    }
    &&& match (match query_param(query, "categories"@) {
        Some(c) => category_list_spec(c),
        None => None,
    }) {
        Some(c) => if r.connarr && c.len() > 2 {
            r.categories is None
        } else {
            r.categories is Some && r.categories->Some_0@ == c
        },
        None => r.categories is None,
    }
    &&& opt_view(r.tmdb_id) == query_param(query, "tmdbid"@)
    &&& opt_view(r.imdb_id) == query_param(query, "imdbid"@)
}

/// Reads the parameters of a search request from its query string.
pub fn parse_search_query(query: &str) -> (r: SearchRequest)
    requires
        qstring_safe(query@),
    ensures
        search_request_of(query@, r),
{
    let name = match query_get(query, "name") {
        Some(n) => n,
        None => match query_get(query, "q") {
            Some(q) => q,
            None => String::new(),
        },
    };
    let offset = get_usize(query, "offset");
    let category = get_usize(query, "category");
    let sub_category = get_usize(query, "sub_category");
    let sort = match query_get(query, "sort") {
        Some(s) => match Sort::from_str(s.as_str()) {
            Ok(x) => Some(x),
            Err(_) => None,
        },
        None => None,
    };
    let order = match query_get(query, "order") {
        Some(s) => match Order::from_str(s.as_str()) {
            Ok(x) => Some(x),
            Err(_) => None,
        },
        None => None,
    };
    let connarr = query_get(query, "connarr").is_some();
    let quote_search = match query_get(query, "quote_search") {
        Some(v) => str_eq(v.as_str(), "true"),
        None => false,
    };
    let ban_words = match query_get(query, "ban_words") {
        Some(b) => parse_ban_words(b.as_str()),
        None => None,
    };
    let mut categories = match query_get(query, "categories") {
        Some(c) => parse_category_list(c.as_str()),
        None => None,
    };
    if connarr {
        let too_many = match &categories {
            Some(c) => c.len() > 2,
            None => false,
        };
        if too_many {
            categories = None;
        }
    }
    let tmdb_id = query_get(query, "tmdbid");
    let imdb_id = query_get(query, "imdbid");
    SearchRequest {
        name,
        offset,
        category,
        sub_category,
        sort,
        order,
        categories,
        connarr,
        quote_search,
        ban_words,
        tmdb_id,
        imdb_id,
    }
}

/// Which external database an id refers to.
#[derive(Debug, Clone, Copy, PartialEq, Eq, Structural)]
pub enum DatabaseKind {
    Tmdb,
    Imdb,
}

/// How a search request is served.
#[derive(Debug)]
pub enum SearchRoute {
    /// By database id (a TMDB token is configured): first the native TMDB search
    /// when `tmdb_id` is a number, then a text search of the titles that the
    /// database gives for `db_id`.
    Database { tmdb_id: Option<usize>, db_id: String, kind: DatabaseKind },
    /// A database id was given but no TMDB token is configured: the answer is empty.
    NoDatabaseToken,
    /// One search per listed category, merged.
    Categories { categories: Vec<usize> },
    /// One plain search.
    Standard,
}

/// The route of a search request and the sort to apply.
#[derive(Debug)]
pub struct SearchPlan {
    pub route: SearchRoute,
    pub sort: Option<Sort>,
    pub order: Option<Order>,
}

/// `p` is how a search request `req` is served (see `plan_search`).
pub open spec fn search_plan_of(req: SearchRequest, tmdb_configured: bool, p: SearchPlan) -> bool {
    let has_id = req.tmdb_id is Some || req.imdb_id is Some;
    if tmdb_configured && has_id {
        &&& p.route matches SearchRoute::Database { tmdb_id, db_id, kind } && ({
            &&& tmdb_id == match req.tmdb_id {
                Some(t) => usize_of(t@),
                None => None,
            }
            &&& match req.tmdb_id {
                Some(t) => db_id@ == t@ && kind == DatabaseKind::Tmdb,
                None => db_id@ == req.imdb_id->Some_0@ && kind == DatabaseKind::Imdb,
            }
        })
        &&& p.sort == req.sort && p.order == req.order
    } else if has_id {
        p.route is NoDatabaseToken && p.sort == req.sort && p.order == req.order
    } else {
        &&& if req.name@.len() == 0 && req.connarr {
            p.sort == Some(Sort::PublishDate) && p.order == Some(Order::Descending)
        } else {
            p.sort == req.sort && p.order == req.order
        }
        &&& match (req.category, req.categories) {
            (None, Some(c)) => p.route matches SearchRoute::Categories { categories } && categories@
                == c@,
            _ => p.route is Standard,
        }
    }
}

/// Chooses how to serve a search request.  With a TMDB token and a database id
/// it searches by id; with an id but no token it answers nothing; otherwise an
/// empty name with `connarr` asks for the newest first, and a category list
/// without a single category searches each listed category.
pub fn plan_search(req: &SearchRequest, tmdb_configured: bool) -> (p: SearchPlan)
    ensures
        search_plan_of(*req, tmdb_configured, p),
{
    let has_id = req.tmdb_id.is_some() || req.imdb_id.is_some();
    if tmdb_configured && has_id {
        let tmdb_id = match &req.tmdb_id {
            Some(t) => parse_usize(t.as_str()),
            None => None,
        };
        let (db_id, kind) = match &req.tmdb_id {
            Some(t) => (t.clone(), DatabaseKind::Tmdb),
            None => {
                let i = match &req.imdb_id {
                    Some(i) => i.clone(),
                    None => String::new(),
                };
                (i, DatabaseKind::Imdb)
            },
        };
        return SearchPlan {
            route: SearchRoute::Database { tmdb_id, db_id, kind },
            sort: req.sort,
            order: req.order,
        };
    }
    if has_id {
        return SearchPlan { route: SearchRoute::NoDatabaseToken, sort: req.sort, order: req.order };
    }
    let (sort, order) = if req.name.as_str().is_empty() && req.connarr {
        (Some(Sort::PublishDate), Some(Order::Descending))
    } else {
        (req.sort, req.order)
    };
    let route = match (&req.category, &req.categories) {
        (None, Some(c)) => SearchRoute::Categories { categories: c.clone() },
        _ => SearchRoute::Standard,
    };
    SearchPlan { route, sort, order }
}

/// The newest-first order of Prowlarr's feed applies only to a search with an
/// empty name and `connarr`: any other search keeps the sort and order it asked
/// for, whatever its route.
pub proof fn lemma_plan_keeps_asked_sort(req: SearchRequest, tmdb_configured: bool, p: SearchPlan)
    requires
        search_plan_of(req, tmdb_configured, p),
        req.name@.len() > 0 || !req.connarr,
    ensures
        p.sort == req.sort,
        p.order == req.order,
{
}

/// Two routes that search the same way.
pub open spec fn same_route(a: SearchRoute, b: SearchRoute) -> bool {
    match (a, b) {
        (SearchRoute::Standard, SearchRoute::Standard) => true,
        (SearchRoute::Categories { categories: x }, SearchRoute::Categories { categories: y }) => x@ == y@,
        _ => false,
    }
}

/// Two search requests that agree on everything but their sort and order.
pub open spec fn same_but_sort_and_order(a: SearchRequest, b: SearchRequest) -> bool {
    &&& a.name@ == b.name@ && a.offset == b.offset && a.category == b.category
    &&& a.sub_category == b.sub_category && a.connarr == b.connarr && a.quote_search == b.quote_search
    &&& match (a.categories, b.categories) {
        (Some(x), Some(y)) => x@ == y@,
        (None, None) => true,
        _ => false,
    }
    &&& match (a.ban_words, b.ban_words) {
        (Some(x), Some(y)) => strings_view(x@) == strings_view(y@),
        (None, None) => true,
        _ => false,
    }
    &&& opt_view(a.tmdb_id) == opt_view(b.tmdb_id) && opt_view(a.imdb_id) == opt_view(b.imdb_id)
}

/// The feed that Prowlarr reads: a search with no database id, an empty name and
/// `connarr` is served newest first, whatever `sort` and `order` it carries.
/// Two query strings that differ only in those parameters give requests that
/// agree on everything else, and plans that search the same way with the same
/// sort and order.
pub proof fn lemma_connarr_feed_ignores_sort_and_order(
    q1: Seq<char>,
    q2: Seq<char>,
    r1: SearchRequest,
    r2: SearchRequest,
    tmdb_configured: bool,
    p1: SearchPlan,
    p2: SearchPlan,
)
    requires
        forall|n: Seq<char>| n != "sort"@ && n != "order"@ ==> #[trigger] query_param(q1, n) == query_param(q2, n),
        query_param(q1, "tmdbid"@) is None && query_param(q1, "imdbid"@) is None,
        query_param(q1, "connarr"@) is Some,
        search_request_of(q1, r1),
        search_request_of(q2, r2),
        r1.name@.len() == 0,
        search_plan_of(r1, tmdb_configured, p1),
        search_plan_of(r2, tmdb_configured, p2),
    ensures
        same_but_sort_and_order(r1, r2),
        p1.sort == Some(Sort::PublishDate) && p2.sort == Some(Sort::PublishDate),
        p1.order == Some(Order::Descending) && p2.order == Some(Order::Descending),
        same_route(p1.route, p2.route),
{
    reveal_strlit("sort");
    reveal_strlit("order");
    reveal_strlit("name");
    reveal_strlit("q");
    reveal_strlit("offset");
    reveal_strlit("category");
    reveal_strlit("sub_category");
    reveal_strlit("connarr");
    reveal_strlit("quote_search");
    reveal_strlit("ban_words");
    reveal_strlit("categories");
    reveal_strlit("tmdbid");
    reveal_strlit("imdbid");
    assert("name"@[0] != "sort"@[0] && "name"@[0] != "order"@[0]);
    assert(query_param(q1, "name"@) == query_param(q2, "name"@));
    assert("q"@[0] != "sort"@[0] && "q"@[0] != "order"@[0]);
    assert(query_param(q1, "q"@) == query_param(q2, "q"@));
    assert("offset"@[0] != "sort"@[0] && "offset"@[1] != "order"@[1]);
    assert(query_param(q1, "offset"@) == query_param(q2, "offset"@));
    assert("category"@[0] != "sort"@[0] && "category"@[0] != "order"@[0]);
    assert(query_param(q1, "category"@) == query_param(q2, "category"@));
    assert("sub_category"@[1] != "sort"@[1] && "sub_category"@[0] != "order"@[0]);
    assert(query_param(q1, "sub_category"@) == query_param(q2, "sub_category"@));
    assert("connarr"@[0] != "sort"@[0] && "connarr"@[0] != "order"@[0]);
    assert(query_param(q1, "connarr"@) == query_param(q2, "connarr"@));
    assert("quote_search"@[0] != "sort"@[0] && "quote_search"@[0] != "order"@[0]);
    assert(query_param(q1, "quote_search"@) == query_param(q2, "quote_search"@));
    assert("ban_words"@[0] != "sort"@[0] && "ban_words"@[0] != "order"@[0]);
    assert(query_param(q1, "ban_words"@) == query_param(q2, "ban_words"@));
    assert("categories"@[0] != "sort"@[0] && "categories"@[0] != "order"@[0]);
    assert(query_param(q1, "categories"@) == query_param(q2, "categories"@));
    assert("tmdbid"@[0] != "sort"@[0] && "tmdbid"@[0] != "order"@[0]);
    assert(query_param(q1, "tmdbid"@) == query_param(q2, "tmdbid"@));
    assert("imdbid"@[0] != "sort"@[0] && "imdbid"@[0] != "order"@[0]);
    assert(query_param(q1, "imdbid"@) == query_param(q2, "imdbid"@));
}

/// Whether two torrents agree in every field.
pub open spec fn same_torrent(a: Torrent, b: Torrent) -> bool {
    &&& a.category_id == b.category_id
    &&& a.name@ == b.name@
    &&& a.id == b.id
    &&& a.comments_count == b.comments_count
    &&& a.age_stamp == b.age_stamp
    &&& a.size == b.size
    &&& a.completed == b.completed
    &&& a.seed == b.seed
    &&& a.leech == b.leech
    &&& a.info_url@ == b.info_url@
    &&& a.link@ == b.link@
}

/// Whether `s` holds a torrent that agrees with `t` in every field.
pub open spec fn has_torrent(s: Seq<Torrent>, t: Torrent) -> bool {
    exists|i: int| 0 <= i < s.len() && same_torrent(#[trigger] s[i], t)
}

/// `s` with every torrent that repeats an earlier one left out.
pub open spec fn distinct_torrents(s: Seq<Torrent>) -> Seq<Torrent>
    decreases s.len(),
{
    if s.len() == 0 {
        s
    } else {
        let d = distinct_torrents(s.drop_last());
        if has_torrent(d, s.last()) {
            d
        } else {
            d.push(s.last())
        }
    }
}

/// The torrents of a search that succeeded, or `None` for one that failed.
pub open spec fn outcome_view(r: Result<Vec<Torrent>, String>) -> Option<Seq<Torrent>> {
    match r {
        Ok(v) => Some(v@),
        Err(_) => None,
    }
}

/// The views of the outcomes of several searches.
pub open spec fn outcomes_view(v: Seq<Result<Vec<Torrent>, String>>) -> Seq<Option<Seq<Torrent>>> {
    v.map_values(|r: Result<Vec<Torrent>, String>| outcome_view(r))
}

/// Where the search over several alternative titles stands after some of them.
pub enum BestState {
    /// A title gave more than five torrents: they are the answer.
    Found(Seq<Torrent>),
    /// The torrents gathered so far.
    Gathering(Seq<Torrent>),
}

/// Goes through the outcomes in order: more than five torrents answer at once;
/// exactly five are gathered; fewer (but some) are gathered only while nothing is.
pub open spec fn best_state(results: Seq<Option<Seq<Torrent>>>) -> BestState
    decreases results.len(),
{
    if results.len() == 0 {
        BestState::Gathering(Seq::empty())
    } else {
        match best_state(results.drop_last()) {
            BestState::Found(ts) => BestState::Found(ts),
            BestState::Gathering(c) => match results.last() {
                Some(ts) => if ts.len() > 5 {
                    BestState::Found(ts)
                } else if ts.len() == 5 || (ts.len() > 0 && c.len() == 0) {
                    BestState::Gathering(c + ts)
                } else {
                    BestState::Gathering(c)
                },
                None => BestState::Gathering(c),
            },
        }
    }
}

/// A title whose search succeeded but found no torrent changes nothing: the
/// merge of the outcomes `s`, that empty answer, then `t` is the merge of `s`
/// then `t`.  So while nothing is gathered, the first answer with torrents is
/// gathered, whatever empty answers came before it.
pub proof fn lemma_empty_answer_changes_no_merge(s: Seq<Option<Seq<Torrent>>>, t: Seq<Option<Seq<Torrent>>>)
    ensures
        best_state(s.push(Some(Seq::empty())) + t) == best_state(s + t),
    decreases t.len(),
{
    let e = Some(Seq::<Torrent>::empty());
    if t.len() == 0 {
        assert(s.push(e) + t =~= s.push(e));
        assert(s + t =~= s);
        assert(s.push(e).drop_last() =~= s);
        match best_state(s) {
            BestState::Found(_) => {},
            BestState::Gathering(c) => {},
        }
    } else {
        lemma_empty_answer_changes_no_merge(s, t.drop_last());
        assert((s.push(e) + t).drop_last() =~= s.push(e) + t.drop_last());
        assert((s + t).drop_last() =~= s + t.drop_last());
        assert((s.push(e) + t).last() == t.last());
        assert((s + t).last() == t.last());
    }
}

/// No two torrents of `s` agree in every field.
pub open spec fn no_repeated_torrent(s: Seq<Torrent>) -> bool {
    forall|i: int, j: int| 0 <= i < j < s.len() ==> !same_torrent(#[trigger] s[i], #[trigger] s[j])
}

/// `a` and `b` hold the same torrents, up to agreement in every field.
pub open spec fn same_torrents(a: Seq<Torrent>, b: Seq<Torrent>) -> bool {
    forall|t: Torrent| #[trigger] has_torrent(a, t) <==> has_torrent(b, t)
}

/// Leaving out repetitions keeps one torrent of each kind and loses none: no two
/// torrents of the result agree in every field, and the result holds a torrent
/// exactly when the input does.
pub proof fn lemma_distinct_torrents(s: Seq<Torrent>)
    ensures
        no_repeated_torrent(distinct_torrents(s)),
        same_torrents(distinct_torrents(s), s),
    decreases s.len(),
{
    if s.len() > 0 {
        let init = s.drop_last();
        let x = s.last();
        lemma_distinct_torrents(init);
        let d = distinct_torrents(init);
        assert forall|t: Torrent| #[trigger] has_torrent(s, t) <==> (has_torrent(init, t) || same_torrent(x, t)) by {
            if has_torrent(s, t) {
                let i = choose|i: int| 0 <= i < s.len() && same_torrent(#[trigger] s[i], t);
                if i < init.len() {
                    assert(init[i] == s[i]);
                }
            }
            if has_torrent(init, t) {
                let i = choose|i: int| 0 <= i < init.len() && same_torrent(#[trigger] init[i], t);
                assert(s[i] == init[i]);
            }
            if same_torrent(x, t) {
                assert(s[s.len() - 1] == x);
            }
        }
        if has_torrent(d, x) {
            let k = choose|k: int| 0 <= k < d.len() && same_torrent(#[trigger] d[k], x);
            assert forall|t: Torrent| #[trigger] has_torrent(d, t) <==> has_torrent(s, t) by {
                if same_torrent(x, t) {
                    assert(same_torrent(d[k], t));
                }
            }
        } else {
            let e = d.push(x);
            assert forall|t: Torrent| #[trigger] has_torrent(e, t) <==> has_torrent(s, t) by {
                if has_torrent(e, t) {
                    let i = choose|i: int| 0 <= i < e.len() && same_torrent(#[trigger] e[i], t);
                    if i < d.len() {
                        assert(d[i] == e[i]);
                    }
                }
                if has_torrent(d, t) {
                    let i = choose|i: int| 0 <= i < d.len() && same_torrent(#[trigger] d[i], t);
                    assert(e[i] == d[i]);
                }
                if same_torrent(x, t) {
                    assert(e[e.len() - 1] == x);
                }
            }
            assert forall|i: int, j: int| 0 <= i < j < e.len() implies !same_torrent(#[trigger] e[i], #[trigger] e[j]) by {
                if j == e.len() - 1 {
                    assert(e[j] == x && e[i] == d[i]);
                    if same_torrent(e[i], e[j]) {
                        assert(same_torrent(d[i], x));
                    }
                } else {
                    assert(e[i] == d[i] && e[j] == d[j]);
                }
            }
        }
    }
}

/// A rearrangement of distinct torrents keeps them distinct and loses none.
pub proof fn lemma_permutation_keeps_distinct(out: Seq<Torrent>, inp: Seq<Torrent>)
    requires
        out.to_multiset() == inp.to_multiset(),
        no_repeated_torrent(inp),
    ensures
        no_repeated_torrent(out),
        same_torrents(out, inp),
{
    broadcast use vstd::multiset::group_multiset_axioms;

    out.to_multiset_ensures();
    inp.to_multiset_ensures();
    assert forall|t: Torrent| #[trigger] has_torrent(out, t) <==> has_torrent(inp, t) by {
        if has_torrent(out, t) {
            let i = choose|i: int| 0 <= i < out.len() && same_torrent(#[trigger] out[i], t);
            assert(out.contains(out[i]));
            assert(out.to_multiset().count(out[i]) > 0);
            assert(inp.contains(out[i]));
            let j = choose|j: int| 0 <= j < inp.len() && inp[j] == out[i];
            assert(same_torrent(inp[j], t));
        }
        if has_torrent(inp, t) {
            let i = choose|i: int| 0 <= i < inp.len() && same_torrent(#[trigger] inp[i], t);
            assert(inp.contains(inp[i]));
            assert(inp.to_multiset().count(inp[i]) > 0);
            assert(out.contains(inp[i]));
            let j = choose|j: int| 0 <= j < out.len() && out[j] == inp[i];
            assert(same_torrent(out[j], t));
        }
    }
    assert forall|i: int, j: int| 0 <= i < j < out.len() implies !same_torrent(#[trigger] out[i], #[trigger] out[j]) by {
        if same_torrent(out[i], out[j]) {
            if out[i] == out[j] {
                let x = out[i];
                let r = out.remove(i);
                assert(r[j - 1] == x);
                assert(r.contains(x));
                r.to_multiset_ensures();
                assert(r.to_multiset() =~= out.to_multiset().remove(x));
                assert(r.to_multiset().count(x) > 0);
                assert(out.to_multiset().count(x) >= 2);
                assert(inp.to_multiset().count(x) >= 2);
                assert(inp.contains(x));
                let p = choose|p: int| 0 <= p < inp.len() && inp[p] == x;
                let q = inp.remove(p);
                q.to_multiset_ensures();
                assert(q.to_multiset() =~= inp.to_multiset().remove(x));
                assert(q.to_multiset().count(x) > 0);
                assert(q.contains(x));
                let k = choose|k: int| 0 <= k < q.len() && q[k] == x;
                let k2 = if k < p {
                    k
                } else {
                    k + 1
                };
                assert(inp[k2] == x);
                assert(same_torrent(inp[k2], inp[p]));
                if k2 < p {
                    assert(!same_torrent(inp[k2], inp[p]));
                } else {
                    assert(!same_torrent(inp[p], inp[k2]));
                }
            } else {
                assert(out.contains(out[i]) && out.contains(out[j]));
                assert(out.to_multiset().count(out[i]) > 0 && out.to_multiset().count(out[j]) > 0);
                assert(inp.contains(out[i]) && inp.contains(out[j]));
                let p = choose|p: int| 0 <= p < inp.len() && inp[p] == out[i];
                let q = choose|q: int| 0 <= q < inp.len() && inp[q] == out[j];
                assert(p != q);
                if p < q {
                    assert(!same_torrent(inp[p], inp[q]));
                } else {
                    assert(!same_torrent(inp[q], inp[p]));
                }
            }
        }
    }
}

/// Whether `s` holds a torrent that agrees with `t` in every field.
pub fn contains_torrent(s: &Vec<Torrent>, t: &Torrent) -> (b: bool)
    ensures
        b == has_torrent(s@, *t),
{
    let mut i: usize = 0;
    while i < s.len()
        invariant
            i <= s@.len(),
            forall|k: int| 0 <= k < i ==> !same_torrent(#[trigger] s@[k], *t),
        decreases s@.len() - i,
    {
        let u = &s[i];
        if u.category_id == t.category_id && u.name == t.name && u.id == t.id && u.comments_count
            == t.comments_count && u.age_stamp == t.age_stamp && u.size == t.size && u.completed
            == t.completed && u.seed == t.seed && u.leech == t.leech && u.info_url == t.info_url
            && u.link == t.link {
            assert(same_torrent(s@[i as int], *t));
            return true;
        }
        i = i + 1;
    }
    false
}

/// `v` with every torrent that repeats an earlier one left out.
pub fn dedup_torrents(v: Vec<Torrent>) -> (r: Vec<Torrent>)
    ensures
        r@ == distinct_torrents(v@),
{
    let ghost orig = v@;
    let mut rest = v;
    let mut out: Vec<Torrent> = Vec::new();
    let mut n: usize = 0;
    let total = rest.len();
    assert(orig.len() == total);
    assert(orig.take(0) =~= Seq::<Torrent>::empty());
    while rest.len() > 0
        invariant
            n + rest@.len() == orig.len(),
            orig.len() <= usize::MAX,
            rest@ == orig.skip(n as int),
            out@ == distinct_torrents(orig.take(n as int)),
        decreases rest@.len(),
    {
        let t = rest.remove(0);
        assert(t == orig[n as int]);
        assert(orig.take(n + 1).drop_last() =~= orig.take(n as int));
        assert(orig.take(n + 1).last() == t);
        if !contains_torrent(&out, &t) {
            out.push(t);
        }
        n = n + 1;
        assert(rest@ =~= orig.skip(n as int));
    }
    assert(orig.take(n as int) =~= orig);
    out
}

/// Merges the outcomes of the searches of one name in several categories: the
/// torrents of the searches that succeeded, each once, sorted.
pub fn combine_category_results(
    results: Vec<Result<Vec<Torrent>, String>>,
    sort: Option<Sort>,
    order: Option<Order>,
) -> (r: Vec<Torrent>)
    ensures
        is_stable_sort(
            r@,
            distinct_torrents(
                outcomes_view(results@).filter_map(|o: Option<Seq<Torrent>>| o).flatten(),
            ),
            effective_sort(sort),
            effective_order(order),
        ),
        no_repeated_torrent(r@),
        same_torrents(r@, outcomes_view(results@).filter_map(|o: Option<Seq<Torrent>>| o).flatten()),
{
    let ghost ov = outcomes_view(results@);
    let ghost f = |o: Option<Seq<Torrent>>| o;
    let mut rest = results;
    let mut all: Vec<Torrent> = Vec::new();
    let mut n: usize = 0;
    let total = rest.len();
    assert(ov.len() == total);
    assert(ov.take(0) =~= Seq::<Option<Seq<Torrent>>>::empty());
    while rest.len() > 0
        invariant
            n + rest@.len() == ov.len(),
            ov.len() <= usize::MAX,
            outcomes_view(rest@) == ov.skip(n as int),
            f == (|o: Option<Seq<Torrent>>| o),
            all@ == ov.take(n as int).filter_map(f).flatten(),
        decreases rest@.len(),
    {
        let ghost before = rest@;
        let r = rest.remove(0);
        assert(outcome_view(r) == ov[n as int]) by {
            assert(outcomes_view(before)[0] == outcome_view(before[0]));
        }
        assert(outcomes_view(rest@) =~= ov.skip(n + 1)) by {
            assert forall|k: int| 0 <= k < rest@.len() implies outcomes_view(rest@)[k] == ov.skip(
                n + 1,
            )[k] by {
                assert(rest@[k] == before[k + 1]);
                assert(outcomes_view(before)[k + 1] == ov.skip(n as int)[k + 1]);
            }
        }
        proof {
            ov.lemma_filter_map_take_succ(f, n as int);
        }
        let ghost acc = ov.take(n as int).filter_map(f);
        match r {
            Ok(mut ts) => {
                let ghost tv = ts@;
                all.append(&mut ts);
                assert(ov.take(n + 1).filter_map(f) =~= acc + seq![tv]);
                assert((acc + seq![tv]).flatten() =~= acc.flatten() + tv) by {
                    lemma_flatten_push(acc, tv);
                }
            },
            Err(_) => {
                assert(ov.take(n + 1).filter_map(f) =~= acc);
            },
        }
        n = n + 1;
    }
    assert(ov.take(n as int) =~= ov);
    let ghost merged = all@;
    let mut out = dedup_torrents(all);
    let ghost d = out@;
    Torrent::sort(&mut out, sort, order);
    proof {
        lemma_distinct_torrents(merged);
        lemma_stable_sort_is_permutation(out@, d, effective_sort(sort), effective_order(order));
        lemma_permutation_keeps_distinct(out@, d);
    }
    out
}

proof fn lemma_flatten_push(acc: Seq<Seq<Torrent>>, tv: Seq<Torrent>)
    ensures
        (acc + seq![tv]).flatten() == acc.flatten() + tv,
    decreases acc.len(),
{
    let e = Seq::<Seq<Torrent>>::empty();
    if acc.len() == 0 {
        assert(acc + seq![tv] =~= seq![tv]);
        assert(seq![tv].drop_first() =~= e);
        assert(e.flatten() =~= Seq::<Torrent>::empty());
        assert(seq![tv].flatten() == tv + e.flatten());
        assert(tv + Seq::<Torrent>::empty() =~= tv);
        assert(acc.flatten() =~= Seq::<Torrent>::empty());
        assert(acc.flatten() + tv =~= tv);
    } else {
        lemma_flatten_push(acc.drop_first(), tv);
        let l = acc + seq![tv];
        assert(l.drop_first() =~= acc.drop_first() + seq![tv]);
        assert(l[0] == acc[0]);
        assert(l.flatten() == l[0] + l.drop_first().flatten());
        assert(acc.flatten() == acc[0] + acc.drop_first().flatten());
        assert(l.flatten() =~= acc.flatten() + tv);
    }
}

/// Merges the outcomes of the searches of several alternative titles, taken in
/// order: the first that gives more than five torrents is the answer (sorted);
/// otherwise the torrents gathered by `best_state`, each once, sorted.
pub fn combine_best_results(
    results: Vec<Result<Vec<Torrent>, String>>,
    sort: Option<Sort>,
    order: Option<Order>,
) -> (r: Vec<Torrent>)
    ensures
        match best_state(outcomes_view(results@)) {
            BestState::Found(ts) => is_stable_sort(r@, ts, effective_sort(sort), effective_order(order)),
            BestState::Gathering(c) => is_stable_sort(
                r@,
                distinct_torrents(c),
                effective_sort(sort),
                effective_order(order),
            ),
        },
        best_state(outcomes_view(results@)) matches BestState::Gathering(c) ==> no_repeated_torrent(r@)
            && same_torrents(r@, c),
{
    let ghost ov = outcomes_view(results@);
    let mut rest = results;
    let mut gathered: Vec<Torrent> = Vec::new();
    let mut n: usize = 0;
    let total = rest.len();
    assert(ov.len() == total);
    assert(ov.take(0) =~= Seq::<Option<Seq<Torrent>>>::empty());
    while rest.len() > 0
        invariant
            n + rest@.len() == ov.len(),
            ov.len() <= usize::MAX,
            outcomes_view(rest@) == ov.skip(n as int),
            best_state(ov.take(n as int)) == BestState::Gathering(gathered@),
            ov == outcomes_view(results@),
        decreases rest@.len(),
    {
        let ghost before = rest@;
        let r = rest.remove(0);
        assert(outcome_view(r) == ov[n as int]) by {
            assert(outcomes_view(before)[0] == outcome_view(before[0]));
        }
        assert(outcomes_view(rest@) =~= ov.skip(n + 1)) by {
            assert forall|k: int| 0 <= k < rest@.len() implies outcomes_view(rest@)[k] == ov.skip(
                n + 1,
            )[k] by {
                assert(rest@[k] == before[k + 1]);
                assert(outcomes_view(before)[k + 1] == ov.skip(n as int)[k + 1]);
            }
        }
        assert(ov.take(n + 1).drop_last() =~= ov.take(n as int));
        assert(ov.take(n + 1).last() == ov[n as int]);
        match r {
            Ok(mut ts) => {
                if ts.len() > 5 {
                    let ghost tv = ts@;
                    assert(ov[n as int] == Some(tv));
                    assert(best_state(ov.take(n + 1)) == BestState::Found(tv));
                    proof {
                        lemma_best_state_found_stays(ov, n as int + 1);
                    }
                    assert(ov.take(ov.len() as int) =~= ov);
                    assert(best_state(ov) == BestState::Found(tv));
                    Torrent::sort(&mut ts, sort, order);
                    assert(is_stable_sort(ts@, tv, effective_sort(sort), effective_order(order)));
                    return ts;
                } else if ts.len() == 5 || (ts.len() > 0 && gathered.len() == 0) {
                    gathered.append(&mut ts);
                }
            },
            Err(_) => {},
        }
        n = n + 1;
    }
    assert(ov.take(n as int) =~= ov);
    let ghost merged = gathered@;
    let mut out = dedup_torrents(gathered);
    let ghost d = out@;
    Torrent::sort(&mut out, sort, order);
    proof {
        lemma_distinct_torrents(merged);
        lemma_stable_sort_is_permutation(out@, d, effective_sort(sort), effective_order(order));
        lemma_permutation_keeps_distinct(out@, d);
    }
    out
}

/// Once the search over alternative titles has found its answer, later
/// outcomes do not change it.
proof fn lemma_best_state_found_stays(ov: Seq<Option<Seq<Torrent>>>, n: int)
    requires
        0 <= n <= ov.len(),
        best_state(ov.take(n)) is Found,
    ensures
        best_state(ov) == best_state(ov.take(n)),
    decreases ov.len() - n,
{
    if n < ov.len() {
        assert(ov.take(n + 1).drop_last() =~= ov.take(n));
        lemma_best_state_found_stays(ov, n + 1);
    } else {
        assert(ov.take(n) =~= ov);
    }
}

} // verus!
