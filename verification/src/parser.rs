//! Torrents as the indexer returns them, their URLs, and their ordering.
use vstd::prelude::*;
use crate::html::{
    attribute_of, compile_selector, descendant_matches, document_matches, element_attribute,
    element_text, first_in_page, first_of, first_under, opt_string_view, parse_page,
    select_descendants, selector_parses, text_of, Page,
};
use crate::numbers::{decimal, is_digit, parse_unsigned_spec, parse_usize, usize_to_string};
use crate::search::{Order, Sort};
use crate::text::{
    chars_range_to_string, chars_to_string, contains_seq, find_chars, find_from, find_seq,
    lemma_first_occurrence_from, lemma_first_occurrence_skip, join_strings, join_with, lowercase,
    push_str, starts_with_chars, str_contains, str_eq, str_to_chars, to_lowercase, trim,
    trim_chars, trim_str,
};

verus! {

/// One torrent of a search result.
#[derive(Debug, Clone, PartialEq, Eq, Hash)]
pub struct Torrent {
    pub category_id: usize,
    pub name: String,
    pub id: usize,
    pub comments_count: usize,
    pub age_stamp: usize,
    pub size: u64,
    pub completed: usize,
    pub seed: usize,
    pub leech: usize,
    pub info_url: String,
    pub link: String,
}

/// The URL from which the tracker serves the torrent file of torrent `id` on `domain`.
pub open spec fn torrent_file_url(domain: Seq<char>, id: nat) -> Seq<char> {
    "https://"@ + domain + "/engine/download_torrent?id="@ + decimal(id)
}

/// The path under which this service offers the torrent file of torrent `id`.
pub open spec fn download_path(id: nat) -> Seq<char> {
    "/torrent/"@ + decimal(id)
}

/// Characters as their code points.
pub open spec fn chars_as_ints(s: Seq<char>) -> Seq<int> {
    s.map_values(|c: char| (c as u32) as int)
}

/// Unsigned integers as mathematical integers.
pub open spec fn u64s_as_ints(s: Seq<u64>) -> Seq<int> {
    s.map_values(|x: u64| x as int)
}

/// The key by which `sort` orders torrents: the lowercase name (compared by code
/// points, which is the order of its UTF-8 bytes) or one counter.
pub open spec fn sort_key(t: Torrent, sort: Sort) -> Seq<int> {
    match sort {
        Sort::Name => chars_as_ints(lowercase(t.name@)),
        Sort::Seed => seq![t.seed as int],
        Sort::Comments => seq![t.comments_count as int],
        Sort::PublishDate => seq![t.age_stamp as int],
        Sort::Completed => seq![t.completed as int],
        Sort::Leech => seq![t.leech as int],
    }
}

/// Strict lexicographic order: `a` is a proper prefix of `b`, or at the first
/// position where they differ `a` holds the smaller value.
pub open spec fn lex_lt(a: Seq<int>, b: Seq<int>) -> bool
    decreases a.len(),
{
    if a.len() == 0 {
        b.len() > 0
    } else if b.len() == 0 {
        false
    } else if a[0] < b[0] {
        true
    } else if a[0] == b[0] {
        lex_lt(a.drop_first(), b.drop_first())
    } else {
        false
    }
}

/// Whether `a` must come strictly before `b` when ordering by `sort` in direction `order`.
pub open spec fn goes_before(a: Torrent, b: Torrent, sort: Sort, order: Order) -> bool {
    match order {
        Order::Ascending => lex_lt(sort_key(a, sort), sort_key(b, sort)),
        Order::Descending => lex_lt(sort_key(b, sort), sort_key(a, sort)),
    }
}

/// No torrent of `s` must come strictly before one that precedes it.
pub open spec fn sorted_by(s: Seq<Torrent>, sort: Sort, order: Order) -> bool {
    forall|i: int, j: int| 0 <= i < j < s.len() ==> !goes_before(#[trigger] s[j], #[trigger] s[i], sort, order)
}

/// The torrents whose key for `sort` equals that of `t`.
pub open spec fn same_key_as(t: Torrent, sort: Sort) -> spec_fn(Torrent) -> bool {
    |x: Torrent| sort_key(x, sort) == sort_key(t, sort)
}

/// `out` is the stable sort of `inp`: it is ordered, and the torrents of each key
/// appear in it exactly as, and in the same order as, in `inp`.
pub open spec fn is_stable_sort(out: Seq<Torrent>, inp: Seq<Torrent>, sort: Sort, order: Order) -> bool {
    &&& sorted_by(out, sort, order)
    &&& forall|t: Torrent| #[trigger] out.filter(same_key_as(t, sort)) == inp.filter(same_key_as(t, sort))
}

/// The sort criterion used when none is given: the publication date.
pub open spec fn effective_sort(sort: Option<Sort>) -> Sort {
    match sort {
        Some(s) => s,
        None => Sort::PublishDate,
    }
}

/// The direction used when none is given: descending.
pub open spec fn effective_order(order: Option<Order>) -> Order {
    match order {
        Some(o) => o,
        None => Order::Descending,
    }
}

proof fn lemma_lex_irreflexive(a: Seq<int>)
    ensures
        !lex_lt(a, a),
    decreases a.len(),
{
    if a.len() > 0 {
        lemma_lex_irreflexive(a.drop_first());
    }
}

proof fn lemma_lex_transitive(a: Seq<int>, b: Seq<int>, c: Seq<int>)
    requires
        lex_lt(a, b),
        lex_lt(b, c),
    ensures
        lex_lt(a, c),
    decreases a.len(),
{
    if a.len() > 0 && b.len() > 0 && c.len() > 0 && a[0] == b[0] && b[0] == c[0] {
        lemma_lex_transitive(a.drop_first(), b.drop_first(), c.drop_first());
    }
}

proof fn lemma_lex_total(a: Seq<int>, b: Seq<int>)
    ensures
        lex_lt(a, b) || a == b || lex_lt(b, a),
    decreases a.len(),
{
    if a.len() == 0 && b.len() == 0 {
        assert(a =~= b);
    } else if a.len() > 0 && b.len() > 0 && a[0] == b[0] {
        lemma_lex_total(a.drop_first(), b.drop_first());
        if a.drop_first() == b.drop_first() {
            assert(a =~= seq![a[0]] + a.drop_first());
            assert(b =~= seq![b[0]] + b.drop_first());
        }
    }
}

proof fn lemma_goes_before_irreflexive(a: Torrent, sort: Sort, order: Order)
    ensures
        !goes_before(a, a, sort, order),
{
    lemma_lex_irreflexive(sort_key(a, sort));
}

proof fn lemma_goes_before_transitive(a: Torrent, b: Torrent, c: Torrent, sort: Sort, order: Order)
    requires
        goes_before(a, b, sort, order),
        goes_before(b, c, sort, order),
    ensures
        goes_before(a, c, sort, order),
{
    match order {
        Order::Ascending => lemma_lex_transitive(
            sort_key(a, sort),
            sort_key(b, sort),
            sort_key(c, sort),
        ),
        Order::Descending => lemma_lex_transitive(
            sort_key(c, sort),
            sort_key(b, sort),
            sort_key(a, sort),
        ),
    }
}

proof fn lemma_goes_before_total(a: Torrent, b: Torrent, sort: Sort, order: Order)
    ensures
        goes_before(a, b, sort, order) || sort_key(a, sort) == sort_key(b, sort) || goes_before(
            b,
            a,
            sort,
            order,
        ),
{
    lemma_lex_total(sort_key(a, sort), sort_key(b, sort));
}

/// Inserting `x` after exactly the torrents that must precede it keeps `res`
/// a stable sort, now of `x` followed by `inp`.
proof fn lemma_insert_keeps_stable_sort(
    res: Seq<Torrent>,
    inp: Seq<Torrent>,
    x: Torrent,
    idx: int,
    sort: Sort,
    order: Order,
)
    requires
        is_stable_sort(res, inp, sort, order),
        0 <= idx <= res.len(),
        forall|k: int| 0 <= k < idx ==> goes_before(#[trigger] res[k], x, sort, order),
        idx < res.len() ==> !goes_before(res[idx], x, sort, order),
    ensures
        is_stable_sort(res.insert(idx, x), seq![x] + inp, sort, order),
{
    let r = res.insert(idx, x);
    assert forall|i: int, j: int| 0 <= i < j < r.len() implies !goes_before(
        #[trigger] r[j],
        #[trigger] r[i],
        sort,
        order,
    ) by {
        if i < idx && j < idx {
            assert(r[i] == res[i] && r[j] == res[j]);
        } else if i < idx && j == idx {
            assert(r[i] == res[i] && r[j] == x);
            if goes_before(x, res[i], sort, order) {
                lemma_goes_before_transitive(x, res[i], x, sort, order);
                lemma_goes_before_irreflexive(x, sort, order);
            }
        } else if i < idx && j > idx {
            assert(r[i] == res[i] && r[j] == res[j - 1]);
        } else if i == idx {
            assert(r[i] == x && r[j] == res[j - 1]);
            let y = res[j - 1];
            let z = res[idx];
            if goes_before(y, x, sort, order) {
                if j - 1 > idx {
                    assert(!goes_before(y, z, sort, order));
                    lemma_goes_before_total(z, x, sort, order);
                    if goes_before(x, z, sort, order) {
                        lemma_goes_before_transitive(y, x, z, sort, order);
                    }
                }
            }
        } else {
            assert(r[i] == res[i - 1] && r[j] == res[j - 1]);
        }
    }
    let pre = res.subrange(0, idx);
    let post = res.subrange(idx, res.len() as int);
    assert(res =~= pre + post);
    assert(r =~= pre + seq![x] + post);
    assert forall|t: Torrent| #[trigger] r.filter(same_key_as(t, sort)) == (seq![x] + inp).filter(
        same_key_as(t, sort),
    ) by {
        let p = same_key_as(t, sort);
        Seq::filter_distributes_over_add(pre, post, p);
        Seq::filter_distributes_over_add(pre + seq![x], post, p);
        Seq::filter_distributes_over_add(pre, seq![x], p);
        inp.lemma_filter_prepend(x, p);
        res.lemma_filter_prepend(x, p);
        reveal_with_fuel(Seq::filter, 2);
        if p(x) {
            assert forall|k: int| 0 <= k < pre.len() implies !p(#[trigger] pre[k]) by {
                assert(pre[k] == res[k]);
                assert(goes_before(res[k], x, sort, order));
                lemma_goes_before_irreflexive(x, sort, order);
            }
            assert(pre.all(|y: Torrent| !p(y)));
            pre.lemma_all_neg_filter_empty(p);
            assert(pre.filter(p) =~= Seq::<Torrent>::empty());
            assert(res.filter(p) == post.filter(p));
            assert(seq![x].filter(p) =~= seq![x]);
            assert(r.filter(p) =~= seq![x] + post.filter(p));
        } else {
            assert(seq![x].filter(p) =~= Seq::<Torrent>::empty());
            assert(r.filter(p) =~= pre.filter(p) + post.filter(p));
        }
    }
}

/// Whether key `a` must come strictly before key `b` in direction `order`.
fn key_goes_before(a: &Vec<u64>, b: &Vec<u64>, order: Order) -> (r: bool)
    ensures
        r == match order {
            Order::Ascending => lex_lt(u64s_as_ints(a@), u64s_as_ints(b@)),
            Order::Descending => lex_lt(u64s_as_ints(b@), u64s_as_ints(a@)),
        },
{
    match order {
        Order::Ascending => keys_lex_lt(a, b),
        Order::Descending => keys_lex_lt(b, a),
    }
}

proof fn lemma_lex_lt_skip(a: Seq<int>, b: Seq<int>, i: int)
    requires
        0 <= i <= a.len(),
        i <= b.len(),
        a.take(i) == b.take(i),
    ensures
        lex_lt(a, b) == lex_lt(a.skip(i), b.skip(i)),
    decreases i,
{
    if i > 0 {
        assert(a[0] == a.take(i)[0] && b[0] == b.take(i)[0]);
        assert(a.drop_first().take(i - 1) =~= a.take(i).drop_first());
        assert(b.drop_first().take(i - 1) =~= b.take(i).drop_first());
        lemma_lex_lt_skip(a.drop_first(), b.drop_first(), i - 1);
        assert(a.drop_first().skip(i - 1) =~= a.skip(i));
        assert(b.drop_first().skip(i - 1) =~= b.skip(i));
    } else {
        assert(a.skip(0) =~= a);
        assert(b.skip(0) =~= b);
    }
}

/// Strict lexicographic comparison of two keys.
fn keys_lex_lt(a: &Vec<u64>, b: &Vec<u64>) -> (r: bool)
    ensures
        r == lex_lt(u64s_as_ints(a@), u64s_as_ints(b@)),
{
    let ghost x = u64s_as_ints(a@);
    let ghost y = u64s_as_ints(b@);
    let mut i: usize = 0;
    while i < a.len() && i < b.len()
        invariant
            i <= a.len(),
            i <= b.len(),
            x == u64s_as_ints(a@),
            y == u64s_as_ints(b@),
            x.take(i as int) == y.take(i as int),
        decreases a.len() - i,
    {
        if a[i] != b[i] {
            proof {
                lemma_lex_lt_skip(x, y, i as int);
            }
            assert(x.skip(i as int)[0] == a[i as int] as int);
            assert(y.skip(i as int)[0] == b[i as int] as int);
            return a[i] < b[i];
        }
        assert(x.take(i + 1) =~= x.take(i as int).push(x[i as int]));
        assert(y.take(i + 1) =~= y.take(i as int).push(y[i as int]));
        i = i + 1;
    }
    proof {
        lemma_lex_lt_skip(x, y, i as int);
    }
    a.len() < b.len()
}

/// The key of `t` for `sort`, as unsigned integers.
fn torrent_key(t: &Torrent, sort: Sort) -> (k: Vec<u64>)
    ensures
        u64s_as_ints(k@) == sort_key(*t, sort),
{
    let mut k: Vec<u64> = Vec::new();
    match sort {
        Sort::Name => {
            let lower = to_lowercase(t.name.as_str());
            let cs = str_to_chars(lower.as_str());
            let mut i: usize = 0;
            while i < cs.len()
                invariant
                    i <= cs.len(),
                    k@.len() == i,
                    forall|j: int| 0 <= j < i ==> k@[j] as int == (cs@[j] as u32) as int,
                decreases cs.len() - i,
            {
                let u: u32 = cs[i] as u32;
                k.push(u as u64);
                i = i + 1;
            }
            assert(u64s_as_ints(k@) =~= chars_as_ints(cs@));
        },
        Sort::Seed => {
            k.push(t.seed as u64);
            assert(u64s_as_ints(k@) =~= seq![t.seed as int]);
        },
        Sort::Comments => {
            k.push(t.comments_count as u64);
            assert(u64s_as_ints(k@) =~= seq![t.comments_count as int]);
        },
        Sort::PublishDate => {
            k.push(t.age_stamp as u64);
            assert(u64s_as_ints(k@) =~= seq![t.age_stamp as int]);
        },
        Sort::Completed => {
            k.push(t.completed as u64);
            assert(u64s_as_ints(k@) =~= seq![t.completed as int]);
        },
        Sort::Leech => {
            k.push(t.leech as u64);
            assert(u64s_as_ints(k@) =~= seq![t.leech as int]);
        },
    }
    k
}

impl Torrent {
    /// The URL from which the tracker on `domain` serves this torrent's file.
    pub fn get_url(&self, domain: &str) -> (r: String)
        ensures
            r@ == torrent_file_url(domain@, self.id as nat),
    {
        let mut r = String::from_str("https://");
        push_str(&mut r, domain);
        push_str(&mut r, "/engine/download_torrent?id=");
        let id = usize_to_string(self.id);
        push_str(&mut r, id.as_str());
        r
    }

    /// The path under which this service offers this torrent's file.
    pub fn get_download_url(&self) -> (r: String)
        ensures
            r@ == download_path(self.id as nat),
    {
        let mut r = String::from_str("/torrent/");
        let id = usize_to_string(self.id);
        push_str(&mut r, id.as_str());
        r
    }

    /// Sorts `torrents` stably by `sort` (default: publication date) in direction
    /// `order` (default: descending); torrents with equal keys keep their order.
    pub fn sort(torrents: &mut Vec<Torrent>, sort: Option<Sort>, order: Option<Order>)
        ensures
            is_stable_sort(
                final(torrents)@,
                old(torrents)@,
                effective_sort(sort),
                effective_order(order),
            ),
    {
        let s = match sort {
            Some(x) => x,
            None => Sort::PublishDate,
        };
        let o = match order {
            Some(x) => x,
            None => Order::Descending,
        };
        let mut input: Vec<Torrent> = Vec::new();
        std::mem::swap(&mut input, torrents);
        let ghost orig = input@;
        let mut res: Vec<Torrent> = Vec::new();
        let mut keys: Vec<Vec<u64>> = Vec::new();
        assert(orig.skip(orig.len() as int) =~= Seq::<Torrent>::empty());
        assert(res@ =~= Seq::<Torrent>::empty());
        while input.len() > 0
            invariant
                input@ == orig.take(input@.len() as int),
                input@.len() <= orig.len(),
                keys@.len() == res@.len(),
                forall|k: int| 0 <= k < res@.len() ==> u64s_as_ints(#[trigger] keys@[k]@) == sort_key(res@[k], s),
                is_stable_sort(res@, orig.skip(input@.len() as int), s, o),
            decreases input@.len(),
        {
            let ghost n = input@.len() as int;
            let t = input.pop().unwrap();
            assert(t == orig[n - 1]);
            assert(input@ =~= orig.take(n - 1));
            assert(orig.skip(n - 1) =~= seq![t] + orig.skip(n));
            let k = torrent_key(&t, s);
            let mut idx: usize = 0;
            while idx < res.len() && key_goes_before(&keys[idx], &k, o)
                invariant
                    idx <= res@.len(),
                    keys@.len() == res@.len(),
                    forall|j: int| 0 <= j < res@.len() ==> u64s_as_ints(#[trigger] keys@[j]@) == sort_key(res@[j], s),
                    u64s_as_ints(k@) == sort_key(t, s),
                    forall|j: int| 0 <= j < idx ==> goes_before(#[trigger] res@[j], t, s, o),
                decreases res@.len() - idx,
            {
                assert(u64s_as_ints(keys@[idx as int]@) == sort_key(res@[idx as int], s));
                idx = idx + 1;
            }
            if idx < res.len() {
                assert(u64s_as_ints(keys@[idx as int]@) == sort_key(res@[idx as int], s));
            }
            proof {
                lemma_insert_keeps_stable_sort(res@, orig.skip(n), t, idx as int, s, o);
            }
            let ghost old_res = res@;
            let ghost old_keys = keys@;
            res.insert(idx, t);
            keys.insert(idx, k);
            assert forall|j: int| 0 <= j < res@.len() implies u64s_as_ints(#[trigger] keys@[j]@) == sort_key(res@[j], s) by {
                if j < idx {
                    assert(keys@[j] == old_keys[j] && res@[j] == old_res[j]);
                } else if j > idx {
                    assert(keys@[j] == old_keys[j - 1] && res@[j] == old_res[j - 1]);
                }
            }
        }
        assert(orig.skip(0) =~= orig);
        *torrents = res;
    }
}

proof fn lemma_count_through_filter(s: Seq<Torrent>, p: spec_fn(Torrent) -> bool, e: Torrent)
    requires
        p(e),
    ensures
        s.to_multiset().count(e) == s.filter(p).to_multiset().count(e),
    decreases s.len(),
{
    broadcast use vstd::seq_lib::group_to_multiset_ensures;

    if s.len() > 0 {
        let init = s.drop_last();
        lemma_count_through_filter(init, p, e);
        assert(s =~= init.push(s.last()));
        init.lemma_filter_push(s.last(), p);
    }
}

/// A stable sort rearranges its input: every torrent occurs in the result as
/// often as in the input.
pub proof fn lemma_stable_sort_is_permutation(
    out: Seq<Torrent>,
    inp: Seq<Torrent>,
    sort: Sort,
    order: Order,
)
    requires
        is_stable_sort(out, inp, sort, order),
    ensures
        out.to_multiset() == inp.to_multiset(),
{
    assert forall|e: Torrent| out.to_multiset().count(e) == inp.to_multiset().count(e) by {
        let p = same_key_as(e, sort);
        lemma_count_through_filter(out, p, e);
        lemma_count_through_filter(inp, p, e);
        assert(out.filter(p) == inp.filter(p));
    }
    assert(out.to_multiset() =~= inp.to_multiset());
}

proof fn lemma_filter_of_first(s: Seq<Torrent>, p: spec_fn(Torrent) -> bool)
    requires
        s.len() > 0,
    ensures
        s.filter(p) == (if p(s[0]) {
            seq![s[0]]
        } else {
            Seq::<Torrent>::empty()
        }) + s.drop_first().filter(p),
{
    assert(s =~= seq![s[0]] + s.drop_first());
    s.drop_first().lemma_filter_prepend(s[0], p);
}

proof fn lemma_drop_first_sorted(s: Seq<Torrent>, sort: Sort, order: Order)
    requires
        sorted_by(s, sort, order),
        s.len() > 0,
    ensures
        sorted_by(s.drop_first(), sort, order),
{
    let d = s.drop_first();
    assert forall|i: int, j: int| 0 <= i < j < d.len() implies !goes_before(
        #[trigger] d[j],
        #[trigger] d[i],
        sort,
        order,
    ) by {
        assert(d[i] == s[i + 1] && d[j] == s[j + 1]);
    }
}

/// In an ordered sequence whose first torrent must come after `x`, no torrent
/// has the key of `x`.
proof fn lemma_no_key_before_first(b: Seq<Torrent>, x: Torrent, sort: Sort, order: Order)
    requires
        sorted_by(b, sort, order),
        b.len() > 0,
        goes_before(x, b[0], sort, order),
    ensures
        b.filter(same_key_as(x, sort)).len() == 0,
{
    let p = same_key_as(x, sort);
    assert forall|k: int| 0 <= k < b.len() implies !p(#[trigger] b[k]) by {
        if p(b[k]) {
            assert(goes_before(b[k], b[0], sort, order));
            if k == 0 {
                lemma_goes_before_irreflexive(b[0], sort, order);
            }
        }
    }
    assert(b.all(|z: Torrent| !p(z)));
    b.lemma_all_neg_filter_empty(p);
}

proof fn lemma_first_keys_agree(a: Seq<Torrent>, b: Seq<Torrent>, sort: Sort, order: Order)
    requires
        sorted_by(a, sort, order),
        sorted_by(b, sort, order),
        a.len() > 0,
        b.len() > 0,
        forall|t: Torrent| #[trigger] a.filter(same_key_as(t, sort)) == b.filter(same_key_as(t, sort)),
    ensures
        sort_key(a[0], sort) == sort_key(b[0], sort),
{
    let x = a[0];
    let y = b[0];
    lemma_goes_before_total(x, y, sort, order);
    if goes_before(x, y, sort, order) {
        lemma_filter_of_first(a, same_key_as(x, sort));
        assert(a.filter(same_key_as(x, sort)) == b.filter(same_key_as(x, sort)));
        lemma_no_key_before_first(b, x, sort, order);
    } else if goes_before(y, x, sort, order) {
        lemma_filter_of_first(b, same_key_as(y, sort));
        assert(a.filter(same_key_as(y, sort)) == b.filter(same_key_as(y, sort)));
        lemma_no_key_before_first(a, y, sort, order);
    }
}

proof fn lemma_tails_same_classes(a: Seq<Torrent>, b: Seq<Torrent>, sort: Sort)
    requires
        a.len() > 0,
        b.len() > 0,
        a[0] == b[0],
        forall|t: Torrent| #[trigger] a.filter(same_key_as(t, sort)) == b.filter(same_key_as(t, sort)),
    ensures
        forall|t: Torrent| #[trigger] a.drop_first().filter(same_key_as(t, sort)) == b.drop_first().filter(
            same_key_as(t, sort),
        ),
{
    assert forall|t: Torrent| #[trigger] a.drop_first().filter(same_key_as(t, sort)) == b.drop_first().filter(
        same_key_as(t, sort),
    ) by {
        let p = same_key_as(t, sort);
        lemma_filter_of_first(a, p);
        lemma_filter_of_first(b, p);
        assert(a.filter(p) == b.filter(p));
        if p(a[0]) {
            assert(a.drop_first().filter(p) =~= a.filter(p).drop_first());
            assert(b.drop_first().filter(p) =~= b.filter(p).drop_first());
        }
    }
}

/// Two ordered sequences that hold the same torrents of each key, in the same
/// order, are equal.
proof fn lemma_sorted_same_classes_equal(a: Seq<Torrent>, b: Seq<Torrent>, sort: Sort, order: Order)
    requires
        sorted_by(a, sort, order),
        sorted_by(b, sort, order),
        forall|t: Torrent| #[trigger] a.filter(same_key_as(t, sort)) == b.filter(same_key_as(t, sort)),
    ensures
        a == b,
    decreases a.len() + b.len(),
{
    if a.len() == 0 && b.len() == 0 {
        assert(a =~= b);
    } else if a.len() == 0 {
        let p = same_key_as(b[0], sort);
        lemma_filter_of_first(b, p);
        assert(a.filter(p) == b.filter(p));
        assert(a.filter(p) =~= Seq::<Torrent>::empty()) by {
            reveal_with_fuel(Seq::filter, 1);
        }
    } else if b.len() == 0 {
        let p = same_key_as(a[0], sort);
        lemma_filter_of_first(a, p);
        assert(a.filter(p) == b.filter(p));
        assert(b.filter(p) =~= Seq::<Torrent>::empty()) by {
            reveal_with_fuel(Seq::filter, 1);
        }
    } else {
        lemma_first_keys_agree(a, b, sort, order);
        let px = same_key_as(a[0], sort);
        lemma_filter_of_first(a, px);
        lemma_filter_of_first(b, px);
        assert(a.filter(px) == b.filter(px));
        assert(a.filter(px)[0] == a[0]);
        assert(b.filter(px)[0] == b[0]);
        lemma_tails_same_classes(a, b, sort);
        lemma_drop_first_sorted(a, sort, order);
        lemma_drop_first_sorted(b, sort, order);
        lemma_sorted_same_classes_equal(a.drop_first(), b.drop_first(), sort, order);
        assert(a =~= seq![a[0]] + a.drop_first());
        assert(b =~= seq![b[0]] + b.drop_first());
    }
}

/// The stable sort of a sequence is unique: two stable sorts of the same input
/// by the same criterion and direction are equal.
pub proof fn lemma_stable_sort_unique(
    a: Seq<Torrent>,
    b: Seq<Torrent>,
    inp: Seq<Torrent>,
    sort: Sort,
    order: Order,
)
    requires
        is_stable_sort(a, inp, sort, order),
        is_stable_sort(b, inp, sort, order),
    ensures
        a == b,
{
    assert forall|t: Torrent| #[trigger] a.filter(same_key_as(t, sort)) == b.filter(
        same_key_as(t, sort),
    ) by {
        assert(a.filter(same_key_as(t, sort)) == inp.filter(same_key_as(t, sort)));
    }
    lemma_sorted_same_classes_equal(a, b, sort, order);
}

/// Sorting an already ordered sequence leaves it unchanged; in particular
/// sorting twice by the same criterion and direction gives what sorting once gives.
pub proof fn lemma_sort_of_sorted_is_identity(
    out: Seq<Torrent>,
    inp: Seq<Torrent>,
    sort: Sort,
    order: Order,
)
    requires
        sorted_by(inp, sort, order),
        is_stable_sort(out, inp, sort, order),
    ensures
        out == inp,
{
    lemma_stable_sort_unique(out, inp, inp, sort, order);
}

/// The number that an optional text denotes once trimmed, or 0.
pub open spec fn usize_or_zero(text: Option<Seq<char>>) -> usize {
    match text {
        Some(t) => match parse_unsigned_spec(trim(t), usize::MAX as nat) {
            Some(n) => n as usize,
            None => 0,
        },
        None => 0,
    }
}

/// The number that the first of some texts denotes once trimmed, or 0.
pub fn first_text_usize(texts: &Vec<String>) -> (r: usize)
    ensures
        r == usize_or_zero(if texts@.len() > 0 {
            Some(texts@[0]@)
        } else {
            None
        }),
{
    if texts.len() == 0 {
        return 0;
    }
    let t = trim_str(texts[0].as_str());
    match parse_usize(t.as_str()) {
        Some(n) => n,
        None => 0,
    }
}

/// The absolute URL of a link of the tracker's pages on `domain`: links that
/// begin with `http` are kept, others are taken as paths on `domain`.
pub open spec fn absolute_link_spec(href: Seq<char>, domain: Seq<char>) -> Seq<char> {
    if href.len() >= 4 && href.take(4) == "http"@ {
        href
    } else {
        "https://"@ + domain + href
    }
}

/// The absolute URL of a link of the tracker's pages on `domain`.
pub fn absolute_link(href: &str, domain: &str) -> (r: String)
    ensures
        r@ == absolute_link_spec(href@, domain@),
{
    let h = str_to_chars(href);
    let p = str_to_chars("http");
    proof {
        reveal_strlit("http");
    }
    if starts_with_chars(&h, &p) {
        href.to_owned()
    } else {
        let mut r = String::from_str("https://");
        push_str(&mut r, domain);
        push_str(&mut r, href);
        r
    }
}

/// What follows the first `/torrent/` of a URL, up to the next `/torrent/`.
pub open spec fn torrent_segment(url: Seq<char>) -> Seq<char> {
    let start = find_seq(url, "/torrent/"@).unwrap() + 9;
    let rest = url.skip(start);
    match find_seq(rest, "/torrent/"@) {
        Some(e) => rest.take(e),
        None => rest,
    }
}

/// The info path of a torrent whose page is `url`: `/torrent/info/` followed by
/// what comes after `/torrent/` in the URL.
pub fn info_url_from_link(url: &str) -> (r: String)
    requires
        contains_seq(url@, "/torrent/"@),
    ensures
        r@ == "/torrent/info/"@ + torrent_segment(url@),
{
    let u = str_to_chars(url);
    let marker = str_to_chars("/torrent/");
    proof {
        reveal_strlit("/torrent/");
        assert(marker@.len() == 9);
    }
    let n = u.len();
    let start = match find_chars(&u, &marker) {
        Some(i) => i + 9,
        None => 0,
    };
    let found = find_from(&u, &marker, start);
    proof {
        lemma_first_occurrence_skip(u@, marker@, start as int, 0);
        lemma_first_occurrence_from(u@, marker@, start as int);
    }
    let end = match found {
        Some(e) => e,
        None => n,
    };
    proof {
        let rest = u@.skip(start as int);
        match found {
            Some(e) => {
                assert(rest.take(e - start) =~= u@.subrange(start as int, end as int));
            },
            None => {
                assert(rest =~= u@.subrange(start as int, n as int));
            },
        }
    }
    let seg = chars_range_to_string(&u, start, end);
    let mut r = String::from_str("/torrent/info/");
    push_str(&mut r, seg.as_str());
    r
}

/// The cells of one row of the tracker's result table, read as the table gives them.
#[derive(Debug)]
pub struct TorrentRow {
    pub category_id: usize,
    pub name: String,
    pub id: usize,
    pub comments_count: usize,
    pub age_stamp: usize,
    /// The size column, as written (converted to bytes by the caller).
    pub size_text: Option<String>,
    pub completed: usize,
    pub seed: usize,
    pub leech: usize,
    /// The absolute URL of the torrent page, when the row links to it.
    pub link: Option<String>,
}

impl TorrentRow {
    /// The torrent of a row, given its size in bytes; its info path is taken from
    /// the link (which must hold `/torrent/`), or empty without a link.
    pub fn into_torrent(self, size: u64) -> (t: Torrent)
        requires
            self.link matches Some(l) ==> contains_seq(l@, "/torrent/"@),
        ensures
            t.category_id == self.category_id,
            t.name@ == self.name@,
            t.id == self.id,
            t.comments_count == self.comments_count,
            t.age_stamp == self.age_stamp,
            t.size == size,
            t.completed == self.completed,
            t.seed == self.seed,
            t.leech == self.leech,
            match self.link {
                Some(l) => t.link@ == l@ && t.info_url@ == "/torrent/info/"@ + torrent_segment(l@),
                None => t.link@.len() == 0 && t.info_url@.len() == 0,
            },
    {
        let (link, info_url) = match self.link {
            Some(l) => {
                let i = info_url_from_link(l.as_str());
                (l, i)
            },
            None => (String::new(), String::new()),
        };
        Torrent {
            category_id: self.category_id,
            name: self.name,
            id: self.id,
            comments_count: self.comments_count,
            age_stamp: self.age_stamp,
            size,
            completed: self.completed,
            seed: self.seed,
            leech: self.leech,
            info_url,
            link,
        }
    }
}

/// The texts and attributes of one row of the result table that the torrent
/// is read from, as the page gives them.
#[derive(Debug)]
pub struct RowCells {
    /// The text nodes of the row's first `div` (`None` when it has none).
    pub category_texts: Option<Vec<String>>,
    /// The text nodes of the name cell.
    pub name_texts: Vec<String>,
    /// The `target` of the `#get_nfo` link of the third cell.
    pub nfo_target: Option<String>,
    /// The text nodes of the comments cell.
    pub comments_texts: Vec<String>,
    /// The text nodes of the `div.hidden` of the age cell (empty when it has none).
    pub age_texts: Vec<String>,
    /// The text nodes of the size cell.
    pub size_texts: Vec<String>,
    /// The text nodes of the completed, seed and leech cells.
    pub completed_texts: Vec<String>,
    pub seed_texts: Vec<String>,
    pub leech_texts: Vec<String>,
    /// The `href` of the `a#torrent_name` link of the name cell.
    pub href: Option<String>,
}

/// The first of some texts, if any.
pub open spec fn first_text(v: Seq<String>) -> Option<Seq<char>> {
    if v.len() > 0 {
        Some(v[0]@)
    } else {
        None
    }
}

/// The views of some strings.
pub open spec fn texts_view(v: Seq<String>) -> Seq<Seq<char>> {
    v.map_values(|s: String| s@)
}

/// The `usize` that a text denotes as it stands (no trimming), or 0.
pub open spec fn usize_as_is_or_zero(t: Option<Seq<char>>) -> usize {
    match t {
        Some(x) => match parse_unsigned_spec(x, usize::MAX as nat) {
            Some(n) => n as usize,
            None => 0,
        },
        None => 0,
    }
}

/// `r` is the row read from the cells `c` of a page of `domain`: the counters are
/// the numbers of their cells' first texts (0 when missing or not numbers), the
/// name is the cell's texts joined by spaces and trimmed, the id is the number of
/// the NFO link's target, the size is the first text of its cell, trimmed, and
/// the link is made absolute.
pub open spec fn row_of_cells(c: RowCells, domain: Seq<char>, r: TorrentRow) -> bool {
    &&& r.category_id == match c.category_texts {
        Some(v) => usize_or_zero(first_text(v@)),
        None => 0,
    }
    &&& r.name@ == trim(join_with(texts_view(c.name_texts@), seq![' ']))
    &&& r.id == usize_as_is_or_zero(match c.nfo_target {
        Some(t) => Some(t@),
        None => None,
    })
    &&& r.comments_count == usize_or_zero(first_text(c.comments_texts@))
    &&& r.age_stamp == usize_or_zero(first_text(c.age_texts@))
    &&& match first_text(c.size_texts@) {
        Some(t) => r.size_text matches Some(x) && x@ == trim(t),
        None => r.size_text is None,
    }
    &&& r.completed == usize_or_zero(first_text(c.completed_texts@))
    &&& r.seed == usize_or_zero(first_text(c.seed_texts@))
    &&& r.leech == usize_or_zero(first_text(c.leech_texts@))
    &&& match c.href {
        Some(h) => r.link matches Some(l) && l@ == absolute_link_spec(h@, domain),
        None => r.link is None,
    }
}

/// Reads a row of the result table from its cells' texts and attributes.
pub fn torrent_row(cells: RowCells, domain: &str) -> (r: TorrentRow)
    ensures
        row_of_cells(cells, domain@, r),
{
    let category_id = match &cells.category_texts {
        Some(v) => first_text_usize(v),
        None => 0,
    };
    let joined = join_strings(&cells.name_texts, " ");
    let name = trim_str(joined.as_str());
    proof {
        reveal_strlit(" ");
        assert(" "@ =~= seq![' ']);
    }
    let id = match &cells.nfo_target {
        Some(t) => match parse_usize(t.as_str()) {
            Some(n) => n,
            None => 0,
        },
        None => 0,
    };
    let comments_count = first_text_usize(&cells.comments_texts);
    let age_stamp = first_text_usize(&cells.age_texts);
    let size_text = if cells.size_texts.len() > 0 {
        Some(trim_str(cells.size_texts[0].as_str()))
    } else {
        None
    };
    let completed = first_text_usize(&cells.completed_texts);
    let seed = first_text_usize(&cells.seed_texts);
    let leech = first_text_usize(&cells.leech_texts);
    let link = match &cells.href {
        Some(h) => Some(absolute_link(h.as_str(), domain)),
        None => None,
    };
    TorrentRow {
        category_id,
        name,
        id,
        comments_count,
        age_stamp,
        size_text,
        completed,
        seed,
        leech,
        link,
    }
}

/// The selector of the result table's body.
pub open spec fn result_table_selector() -> Seq<char> {
    "#\\#torrents div.table-responsive > table > tbody"@
}

/// The selectors that reading one row of the result table uses all compile
/// (they do; they are constants).
pub open spec fn row_selectors_parse() -> bool {
    &&& selector_parses("div"@) && selector_parses("#get_nfo"@)
    &&& selector_parses("a#torrent_name"@) && selector_parses("div.hidden"@)
}

/// Whether row `row` of the page parsed from `b` has nine cells or more.
pub open spec fn is_long_row(b: Seq<char>, row: usize) -> bool {
    descendant_matches(b, row, "td"@).len() >= 9
}

/// Whether the table body `table` of the page parsed from `b` has a row with
/// nine cells or more.
pub open spec fn has_long_row(b: Seq<char>, table: usize) -> bool {
    exists|k: int| 0 <= k < descendant_matches(b, table, "tr"@).len()
        && #[trigger] is_long_row(b, descendant_matches(b, table, "tr"@)[k])
}

/// The rows of the table body `table` of the page parsed from `b` that have nine
/// cells or more, in document order.
pub open spec fn long_rows(b: Seq<char>, table: usize) -> Seq<usize> {
    descendant_matches(b, table, "tr"@).filter(|row: usize| is_long_row(b, row))
}

/// The text nodes of the first descendant of `el` that matches `selector`, if any.
pub open spec fn first_texts_under(b: Seq<char>, el: usize, selector: Seq<char>) -> Option<Seq<Seq<char>>> {
    match first_of(descendant_matches(b, el, selector)) {
        Some(e) => Some(element_text(b, e)),
        None => None,
    }
}

/// Attribute `name` of the first descendant of `el` that matches `selector`, if any.
pub open spec fn first_attribute_under(b: Seq<char>, el: usize, selector: Seq<char>, name: Seq<char>) -> Option<Seq<char>> {
    match first_of(descendant_matches(b, el, selector)) {
        Some(e) => element_attribute(b, e, name),
        None => None,
    }
}

/// `c` holds what row `row` of the page parsed from `b` shows: the texts of
/// its first `div` (the category), of its cells 1 (name), 3 (comments), 5
/// (size), 6, 7, 8 (completed, seeders, leechers) and of the first `div.hidden`
/// of cell 4 (age), the `target` of the first `#get_nfo` of cell 2 and the
/// `href` of the first `a#torrent_name` of cell 1.
pub open spec fn cells_on_page(b: Seq<char>, row: usize, c: RowCells) -> bool {
    let tds = descendant_matches(b, row, "td"@);
    &&& match first_texts_under(b, row, "div"@) {
        Some(t) => c.category_texts is Some && texts_view(c.category_texts->Some_0@) == t,
        None => c.category_texts is None,
    }
    &&& texts_view(c.name_texts@) == element_text(b, tds[1])
    &&& opt_string_view(c.nfo_target) == first_attribute_under(b, tds[2], "#get_nfo"@, "target"@)
    &&& texts_view(c.comments_texts@) == element_text(b, tds[3])
    &&& texts_view(c.age_texts@) == match first_texts_under(b, tds[4], "div.hidden"@) {
        Some(t) => t,
        None => Seq::empty(),
    }
    &&& texts_view(c.size_texts@) == element_text(b, tds[5])
    &&& texts_view(c.completed_texts@) == element_text(b, tds[6])
    &&& texts_view(c.seed_texts@) == element_text(b, tds[7])
    &&& texts_view(c.leech_texts@) == element_text(b, tds[8])
    &&& opt_string_view(c.href) == first_attribute_under(b, tds[1], "a#torrent_name"@, "href"@)
}

/// `r` is the row that row `row` of the page parsed from `b` gives, on `domain`:
/// read by `torrent_row` from what the row shows.
pub open spec fn row_on_page(b: Seq<char>, row: usize, domain: Seq<char>, r: TorrentRow) -> bool {
    exists|c: RowCells| #[trigger] cells_on_page(b, row, c) && row_of_cells(c, domain, r)
}

pub(crate) fn texts_under(page: &Page, el: usize, selector: &str) -> (r: Result<Option<Vec<String>>, String>)
    ensures
        r is Ok <==> selector_parses(selector@),
        r is Ok ==> match first_texts_under(page.body(), el, selector@) {
            Some(t) => r->Ok_0 is Some && texts_view(r->Ok_0->Some_0@) == t,
            None => r->Ok_0 is None,
        },
{
    match first_under(page, el, selector)? {
        Some(e) => Ok(Some(text_of(page, e))),
        None => Ok(None),
    }
}

pub(crate) fn attribute_under(page: &Page, el: usize, selector: &str, name: &str) -> (r: Result<Option<String>, String>)
    ensures
        r is Ok <==> selector_parses(selector@),
        r is Ok ==> opt_string_view(r->Ok_0) == first_attribute_under(page.body(), el, selector@, name@),
{
    match first_under(page, el, selector)? {
        Some(e) => Ok(attribute_of(page, e, name)),
        None => Ok(None),
    }
}

/// Reads what row `row` of the page shows (see `cells_on_page`); the row has
/// nine cells `tds`.
fn row_cells(page: &Page, row: usize, tds: &Vec<usize>) -> (r: Result<RowCells, String>)
    requires
        tds@ == descendant_matches(page.body(), row, "td"@),
        tds@.len() >= 9,
    ensures
        r is Ok <==> row_selectors_parse(),
        r is Ok ==> cells_on_page(page.body(), row, r->Ok_0),
{
    let category_texts = texts_under(page, row, "div")?;
    let nfo_target = attribute_under(page, tds[2], "#get_nfo", "target")?;
    let href = attribute_under(page, tds[1], "a#torrent_name", "href")?;
    let age_texts = match texts_under(page, tds[4], "div.hidden")? {
        Some(t) => t,
        None => Vec::new(),
    };
    proof {
        assert(texts_view(Seq::<String>::empty()) =~= Seq::<Seq<char>>::empty());
    }
    Ok(RowCells {
        category_texts,
        name_texts: text_of(page, tds[1]),
        nfo_target,
        comments_texts: text_of(page, tds[3]),
        age_texts,
        size_texts: text_of(page, tds[5]),
        completed_texts: text_of(page, tds[6]),
        seed_texts: text_of(page, tds[7]),
        leech_texts: text_of(page, tds[8]),
        href,
    })
}

/// Reads the rows of the tracker's result page: no rows when it says
/// `Aucun résultat `; otherwise, when it has no result table, the error
/// `Unable to find table`; else one row for each row of the table that has nine
/// cells or more, in order, read by `torrent_row` from what it shows.  A
/// selector that does not compile is an error where it is first used: the
/// table's, then `tr` and `td`, then those of a row with nine cells.
pub fn extract_torrent_rows(body: &str, domain: &str) -> (r: Result<Vec<TorrentRow>, String>)
    ensures
        contains_seq(body@, "Aucun résultat "@) ==> r is Ok && r->Ok_0@.len() == 0,
        !contains_seq(body@, "Aucun résultat "@) ==> ({
            if !selector_parses(result_table_selector()) {
                r is Err
            } else {
                match first_of(document_matches(body@, result_table_selector())) {
                    None => r is Err && r->Err_0@ == "Unable to find table"@,
                    Some(t) => if !(selector_parses("tr"@) && selector_parses("td"@)) {
                        r is Err
                    } else if has_long_row(body@, t) && !row_selectors_parse() {
                        r is Err
                    } else {
                        &&& r is Ok
                        &&& r->Ok_0@.len() == long_rows(body@, t).len()
                        &&& forall|i: int| 0 <= i < r->Ok_0@.len() ==> row_on_page(body@, long_rows(body@, t)[i], domain@, #[trigger] r->Ok_0@[i])
                    },
                }
            }
        }),
{
    if str_contains(body, "Aucun résultat ") {
        return Ok(Vec::new());
    }
    let page = parse_page(body);
    let table = match first_in_page(&page, "#\\#torrents div.table-responsive > table > tbody")? {
        Some(t) => t,
        None => {
            return Err(String::from_str("Unable to find table"));
        },
    };
    let tr = compile_selector("tr")?;
    let td = compile_selector("td")?;
    let rows = select_descendants(&page, table, &tr);
    let ghost b = body@;
    let ghost p = |row: usize| is_long_row(b, row);
    let mut out: Vec<TorrentRow> = Vec::new();
    let mut i: usize = 0;
    while i < rows.len()
        invariant
            !contains_seq(body@, "Aucun résultat "@),
            b == body@,
            page.body() == b,
            p == (|row: usize| is_long_row(b, row)),
            td.text() == "td"@,
            i <= rows@.len(),
            rows@ == descendant_matches(b, table, "tr"@),
            selector_parses(result_table_selector()),
            selector_parses("tr"@) && selector_parses("td"@),
            first_of(document_matches(b, result_table_selector())) == Some(table),
            (exists|k: int| 0 <= k < i && #[trigger] is_long_row(b, rows@[k])) ==> row_selectors_parse(),
            out@.len() == rows@.take(i as int).filter(p).len(),
            forall|k: int| 0 <= k < out@.len() ==> row_on_page(b, rows@.take(i as int).filter(p)[k], domain@, #[trigger] out@[k]),
        decreases rows@.len() - i,
    {
        let row = rows[i];
        let ghost kept = rows@.take(i as int).filter(p);
        assert(rows@.take(i + 1) =~= rows@.take(i as int).push(row));
        proof {
            rows@.take(i as int).lemma_filter_push(row, p);
        }
        let ghost k0 = i as int;
        i = i + 1;
        let columns = select_descendants(&page, row, &td);
        if columns.len() < 9 {
            assert(!is_long_row(b, rows@[k0]));
            continue;
        }
        assert(is_long_row(b, rows@[k0]));
        let cells = row_cells(&page, row, &columns)?;
        let ghost c = cells;
        let tr_row = torrent_row(cells, domain);
        let ghost before = out@;
        out.push(tr_row);
        proof {
            assert(cells_on_page(b, row, c) && row_of_cells(c, domain@, tr_row));
            assert forall|k: int| 0 <= k < out@.len() implies row_on_page(b, rows@.take(i as int).filter(p)[k], domain@, #[trigger] out@[k]) by {
                if k < before.len() {
                    assert(out@[k] == before[k]);
                    assert(rows@.take(i as int).filter(p)[k] == kept[k]);
                } else {
                    assert(rows@.take(i as int).filter(p)[k] == row);
                }
            }
        }
    }
    assert(rows@.take(rows@.len() as int) =~= rows@);
    Ok(out)
}

/// The number of leading characters of `s` that are digits or `.`.
pub open spec fn leading_number_len(s: Seq<char>) -> nat
    decreases s.len(),
{
    if s.len() > 0 && (is_digit(s[0]) || s[0] == '.') {
        1 + leading_number_len(s.drop_first())
    } else {
        0
    }
}

/// The power of 1024 that a size unit of the result table stands for.
pub open spec fn size_unit_power(unit: Seq<char>) -> Option<u32> {
    if unit == "o"@ {
        Some(0u32)
    } else if unit == "ko"@ {
        Some(1u32)
    } else if unit == "Mo"@ {
        Some(2u32)
    } else if unit == "Go"@ {
        Some(3u32)
    } else if unit == "To"@ {
        Some(4u32)
    } else {
        None
    }
}

/// How a size of the result table splits into its number and the power of 1024
/// of its unit: the leading digits and dots of the trimmed text, and the trimmed
/// rest, which must be a unit.
pub open spec fn size_parts_spec(size: Seq<char>) -> Result<(Seq<char>, u32), Seq<char>> {
    let t = trim(size);
    let k = leading_number_len(t);
    if k == 0 {
        Err("Format invalide : "@ + t)
    } else {
        let unit = trim(t.skip(k as int));
        match size_unit_power(unit) {
            Some(p) => Ok((t.take(k as int), p)),
            None => Err("Unité non supportée : "@ + unit),
        }
    }
}

proof fn lemma_leading_number_len(s: Seq<char>, i: int)
    requires
        0 <= i <= s.len(),
        forall|k: int| 0 <= k < i ==> is_digit(#[trigger] s[k]) || s[k] == '.',
        i == s.len() || !(is_digit(s[i]) || s[i] == '.'),
    ensures
        leading_number_len(s) == i,
    decreases i,
{
    if i > 0 {
        let t = s.drop_first();
        assert forall|k: int| 0 <= k < i - 1 implies is_digit(#[trigger] t[k]) || t[k] == '.' by {
            assert(t[k] == s[k + 1]);
        }
        lemma_leading_number_len(t, i - 1);
    }
}

fn size_unit_power_of(unit: &str) -> (r: Option<u32>)
    ensures
        r == size_unit_power(unit@),
{
    if str_eq(unit, "o") {
        Some(0)
    } else if str_eq(unit, "ko") {
        Some(1)
    } else if str_eq(unit, "Mo") {
        Some(2)
    } else if str_eq(unit, "Go") {
        Some(3)
    } else if str_eq(unit, "To") {
        Some(4)
    } else {
        None
    }
}

/// Splits a size of the result table into its number (as written) and the
/// power of 1024 of its unit (`o`, `ko`, `Mo`, `Go`, `To`).
pub fn size_parts(size: &str) -> (r: Result<(String, u32), String>)
    ensures
        match size_parts_spec(size@) {
            Ok((n, p)) => r is Ok && r->Ok_0.0@ == n && r->Ok_0.1 == p,
            Err(m) => r is Err && r->Err_0@ == m,
        },
{
    let v = str_to_chars(size);
    let t = trim_chars(&v);
    let mut k: usize = 0;
    while k < t.len() && (('0' <= t[k] && t[k] <= '9') || t[k] == '.')
        invariant
            k <= t@.len(),
            forall|j: int| 0 <= j < k ==> is_digit(#[trigger] t@[j]) || t@[j] == '.',
        decreases t@.len() - k,
    {
        k = k + 1;
    }
    proof {
        lemma_leading_number_len(t@, k as int);
    }
    if k == 0 {
        let mut m = String::from_str("Format invalide : ");
        let ts = chars_to_string(&t);
        push_str(&mut m, ts.as_str());
        return Err(m);
    }
    let num = chars_range_to_string(&t, 0, k);
    let rest = chars_range_to_string(&t, k, t.len());
    let unit = trim_str(rest.as_str());
    assert(t@.subrange(k as int, t@.len() as int) =~= t@.skip(k as int));
    assert(t@.subrange(0, k as int) =~= t@.take(k as int));
    match size_unit_power_of(unit.as_str()) {
        Some(p) => Ok((num, p)),
        None => {
            let mut m = String::from_str("Unité non supportée : ");
            push_str(&mut m, unit.as_str());
            Err(m)
        },
    }
}

} // verus!
