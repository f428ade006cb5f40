//! Sort criteria and sort directions of a search, with their textual names.
use vstd::prelude::*;
use crate::text::{
    chars_to_string, join_strings, join_with, push_char, push_str, split_chars_any, split_on_any,
    str_eq, str_to_chars,
};
use crate::urls::{decode_or_keep, url_decoded};

verus! {

/// The criterion by which search results are ordered.
#[derive(Debug, Clone, Copy, PartialEq, Eq, Structural)]
pub enum Sort {
    Name,
    Seed,
    Comments,
    PublishDate,
    Completed,
    Leech,
}

/// The direction in which search results are ordered.
#[derive(Debug, Clone, Copy, PartialEq, Eq, Structural)]
pub enum Order {
    Ascending,
    Descending,
}

/// The textual name of a sort criterion.
pub open spec fn sort_name(s: Sort) -> Seq<char> {
    match s {
        Sort::Name => "name"@,
        Sort::Seed => "seed"@,
        Sort::Comments => "comments"@,
        Sort::PublishDate => "publish_date"@,
        Sort::Completed => "completed"@,
        Sort::Leech => "leech"@,
    }
}

/// The textual name of a sort direction.
pub open spec fn order_name(o: Order) -> Seq<char> {
    match o {
        Order::Ascending => "asc"@,
        Order::Descending => "desc"@,
    }
}

/// The sort criterion named by `s`, if any.
pub open spec fn sort_from_name(s: Seq<char>) -> Option<Sort> {
    if s == "name"@ {
        Some(Sort::Name)
    } else if s == "seed"@ {
        Some(Sort::Seed)
    } else if s == "comments"@ {
        Some(Sort::Comments)
    } else if s == "publish_date"@ {
        Some(Sort::PublishDate)
    } else if s == "completed"@ {
        Some(Sort::Completed)
    } else if s == "leech"@ {
        Some(Sort::Leech)
    } else {
        None
    }
}

/// The sort direction named by `s`, if any.
pub open spec fn order_from_name(s: Seq<char>) -> Option<Order> {
    if s == "asc"@ {
        Some(Order::Ascending)
    } else if s == "desc"@ {
        Some(Order::Descending)
    } else {
        None
    }
}

impl Sort {
    /// The textual name of this criterion.
    pub fn as_str(&self) -> (r: &'static str)
        ensures
            r@ == sort_name(*self),
    {
        match self {
            Sort::Name => "name",
            Sort::Seed => "seed",
            Sort::Comments => "comments",
            Sort::PublishDate => "publish_date",
            Sort::Completed => "completed",
            Sort::Leech => "leech",
        }
    }

    /// Reads a criterion from its textual name; any other text is refused with
    /// the message `Valeur de tri invalide : <text>`.
    pub fn from_str(s: &str) -> (r: Result<Sort, String>)
        ensures
            match sort_from_name(s@) {
                Some(x) => r == Ok::<Sort, String>(x),
                None => r is Err && r->Err_0@ == "Valeur de tri invalide : "@ + s@,
            },
    {
        if str_eq(s, "name") {
            Ok(Sort::Name)
        } else if str_eq(s, "seed") {
            Ok(Sort::Seed)
        } else if str_eq(s, "comments") {
            Ok(Sort::Comments)
        } else if str_eq(s, "publish_date") {
            Ok(Sort::PublishDate)
        } else if str_eq(s, "completed") {
            Ok(Sort::Completed)
        } else if str_eq(s, "leech") {
            Ok(Sort::Leech)
        } else {
            let mut m = String::from_str("Valeur de tri invalide : ");
            push_str(&mut m, s);
            Err(m)
        }
    }
}

impl Order {
    /// The textual name of this direction.
    pub fn as_str(&self) -> (r: &'static str)
        ensures
            r@ == order_name(*self),
    {
        match self {
            Order::Ascending => "asc",
            Order::Descending => "desc",
        }
    }

    /// Reads a direction from its textual name; any other text is refused with
    /// the message `Ordre invalide : <text>`.
    pub fn from_str(s: &str) -> (r: Result<Order, String>)
        ensures
            match order_from_name(s@) {
                Some(x) => r == Ok::<Order, String>(x),
                None => r is Err && r->Err_0@ == "Ordre invalide : "@ + s@,
            },
    {
        if str_eq(s, "asc") {
            Ok(Order::Ascending)
        } else if str_eq(s, "desc") {
            Ok(Order::Descending)
        } else {
            let mut m = String::from_str("Ordre invalide : ");
            push_str(&mut m, s);
            Err(m)
        }
    }
}

impl std::str::FromStr for Sort {
    type Err = String;

    /// Reads a criterion from its textual name (see `Sort::from_str`).
    fn from_str(s: &str) -> (r: Result<Sort, String>)
        ensures
            match sort_from_name(s@) {
                Some(x) => r == Ok::<Sort, String>(x),
                None => r is Err && r->Err_0@ == "Valeur de tri invalide : "@ + s@,
            },
    {
        Sort::from_str(s)
    }
}

impl std::str::FromStr for Order {
    type Err = String;

    /// Reads a direction from its textual name (see `Order::from_str`).
    fn from_str(s: &str) -> (r: Result<Order, String>)
        ensures
            match order_from_name(s@) {
                Some(x) => r == Ok::<Order, String>(x),
                None => r is Err && r->Err_0@ == "Ordre invalide : "@ + s@,
            },
    {
        Order::from_str(s)
    }
}

/// Reading back the name of a sort criterion gives the criterion.
pub proof fn lemma_sort_name_roundtrip(s: Sort)
    ensures
        sort_from_name(sort_name(s)) == Some(s),
{
    reveal_strlit("name");
    reveal_strlit("seed");
    reveal_strlit("comments");
    reveal_strlit("publish_date");
    reveal_strlit("completed");
    reveal_strlit("leech");
    assert("name"@[0] == 'n' && "seed"@[0] == 's' && "comments"@[0] == 'c');
    assert("publish_date"@[0] == 'p' && "completed"@[0] == 'c' && "leech"@[0] == 'l');
    assert("comments"@.len() == 8 && "completed"@.len() == 9);
}

/// Reading back the name of a sort direction gives the direction.
pub proof fn lemma_order_name_roundtrip(o: Order)
    ensures
        order_from_name(order_name(o)) == Some(o),
{
    reveal_strlit("asc");
    reveal_strlit("desc");
    assert("asc"@.len() != "desc"@.len());
}

/// A word in double quotes.
pub open spec fn quoted(w: Seq<char>) -> Seq<char> {
    seq!['"'] + w + seq!['"']
}

/// The quoted form of a nonempty piece.
pub open spec fn quoted_term(p: Seq<char>) -> Option<Seq<char>> {
    if p.len() > 0 {
        Some(quoted(p))
    } else {
        None
    }
}

/// The text searched for a name: with `quote_search` and a nonempty name, the
/// words of the percent-decoded name (separated by `+` or spaces), each in
/// double quotes, joined by spaces; otherwise the name as given.
pub open spec fn search_text(name: Seq<char>, quote_search: bool) -> Seq<char> {
    if quote_search && name.len() > 0 {
        join_with(split_on_any(url_decoded(name), seq!['+', ' ']).filter_map(|p: Seq<char>| quoted_term(p)), seq![' '])
    } else {
        name
    }
}

/// The text to search for a name, quoting each word when `quote_search` is set.
pub fn search_query_text(name: &str, quote_search: bool) -> (r: String)
    ensures
        r@ == search_text(name@, quote_search),
{
    if !(quote_search && !name.is_empty()) {
        return name.to_owned();
    }
    let decoded = decode_or_keep(name);
    let v = str_to_chars(decoded.as_str());
    let mut seps: Vec<char> = Vec::new();
    seps.push('+');
    seps.push(' ');
    assert(seps@ =~= seq!['+', ' ']);
    let pieces = split_chars_any(&v, &seps);
    let ghost sp = split_on_any(v@, seps@);
    let ghost f = |p: Seq<char>| quoted_term(p);
    let mut words: Vec<String> = Vec::new();
    let mut i: usize = 0;
    while i < pieces.len()
        invariant
            i <= pieces@.len(),
            pieces@.len() == sp.len(),
            forall|k: int| 0 <= k < pieces@.len() ==> #[trigger] pieces@[k]@ == sp[k],
            f == (|p: Seq<char>| quoted_term(p)),
            words@.map_values(|w: String| w@) == sp.take(i as int).filter_map(f),
        decreases pieces@.len() - i,
    {
        proof {
            sp.lemma_filter_map_take_succ(f, i as int);
        }
        let ghost before = words@;
        if pieces[i].len() > 0 {
            let mut w = String::new();
            push_char(&mut w, '"');
            let inner = chars_to_string(&pieces[i]);
            push_str(&mut w, inner.as_str());
            push_char(&mut w, '"');
            assert(w@ =~= quoted(sp[i as int]));
            words.push(w);
            assert(words@.map_values(|w: String| w@) =~= before.map_values(|w: String| w@) + seq![
                quoted(sp[i as int]),
            ]);
        } else {
            assert(f(sp[i as int]) is None);
        }
        i = i + 1;
    }
    assert(sp.take(sp.len() as int) == sp);
    let r = join_strings(&words, " ");
    proof {
        reveal_strlit(" ");
        assert(" "@ =~= seq![' ']);
    }
    r
}

/// The categories a search is restricted to: the category, then the subcategory.
pub fn search_categories(category: Option<usize>, sub_category: Option<usize>) -> (r: Vec<usize>)
    ensures
        r@ == (match category {
            Some(c) => seq![c],
            None => Seq::<usize>::empty(),
        }) + (match sub_category {
            Some(c) => seq![c],
            None => Seq::<usize>::empty(),
        }),
{
    let mut r: Vec<usize> = Vec::new();
    if let Some(c) = category {
        r.push(c);
    }
    if let Some(c) = sub_category {
        r.push(c);
    }
    assert(r@ =~= (match category {
        Some(c) => seq![c],
        None => Seq::<usize>::empty(),
    }) + (match sub_category {
        Some(c) => seq![c],
        None => Seq::<usize>::empty(),
    }));
    r
}

} // verus!
