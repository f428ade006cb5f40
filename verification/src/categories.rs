//! The tracker's categories, as listed in the menu of its home page.
use vstd::prelude::*;
use crate::html::{
    attribute_of, compile_selector, descendant_matches, document_matches, element_attribute,
    element_text, parse_page, select_descendants, select_document, selector_parses, text_of, Page,
};
use crate::parser::texts_view;
use crate::rest::search::usize_of;
use crate::numbers::{
    int_error_message, int_error_text, parse_usize, unsigned_parse_error, unsigned_parse_error_of,
};
use crate::text::{
    chars_to_string, contains_chars, contains_seq, join_strings, join_with, matches_at, occurs_at,
    push_str, split_chars, split_on, str_to_chars, trim, trim_str,
};

verus! {

/// A category of the tracker, with its subcategories.
#[derive(Debug)]
pub struct Category {
    pub id: usize,
    pub name: String,
    pub sub_categories: Vec<Category>,
}

/// The first of some pieces that holds `param`.
pub open spec fn first_containing(pieces: Seq<Seq<char>>, param: Seq<char>) -> Option<Seq<char>>
    decreases pieces.len(),
{
    if pieces.len() == 0 {
        None
    } else if contains_seq(pieces[0], param) {
        Some(pieces[0])
    } else {
        first_containing(pieces.drop_first(), param)
    }
}

/// The value of a parameter of a link: the first `&`-separated part of the link
/// that mentions `param`, and in it what follows the first `=` up to the next.
pub open spec fn extract_param_spec(url: Seq<char>, param: Seq<char>) -> Option<Seq<char>> {
    match first_containing(split_on(url, '&'), param) {
        Some(p) => {
            let q = split_on(p, '=');
            if q.len() >= 2 {
                Some(q[1])
            } else {
                None
            }
        },
        None => None,
    }
}

/// The value of the parameter `param` of a link.
pub fn extract_param(url: &str, param: &str) -> (r: Option<String>)
    ensures
        match extract_param_spec(url@, param@) {
            Some(v) => r is Some && r->Some_0@ == v,
            None => r is None,
        },
{
    let u = str_to_chars(url);
    let p = str_to_chars(param);
    let pieces = split_chars(&u, '&');
    let ghost sp = split_on(u@, '&');
    let mut i: usize = 0;
    assert(sp.skip(0) =~= sp);
    while i < pieces.len()
        invariant
            i <= pieces@.len(),
            pieces@.len() == sp.len(),
            forall|k: int| 0 <= k < pieces@.len() ==> #[trigger] pieces@[k]@ == sp[k],
            p@ == param@,
            sp == split_on(url@, '&'),
            first_containing(sp, param@) == first_containing(sp.skip(i as int), param@),
        decreases pieces@.len() - i,
    {
        assert(sp.skip(i as int)[0] == sp[i as int]);
        if contains_chars(&pieces[i], &p) {
            assert(first_containing(sp.skip(i as int), param@) == Some(sp[i as int]));
            let parts = split_chars(&pieces[i], '=');
            if parts.len() >= 2 {
                return Some(chars_to_string(&parts[1]));
            } else {
                return None;
            }
        }
        assert(sp.skip(i as int).drop_first() =~= sp.skip(i + 1));
        i = i + 1;
    }
    assert(sp.skip(i as int) =~= Seq::<Seq<char>>::empty());
    None
}

/// `rep` before each character of `s` and after the last (what `str::replace`
/// gives for an empty pattern).
pub open spec fn interleave(s: Seq<char>, rep: Seq<char>) -> Seq<char>
    decreases s.len(),
{
    if s.len() == 0 {
        rep
    } else {
        rep + seq![s[0]] + interleave(s.drop_first(), rep)
    }
}

/// `s` with every occurrence of `pat`, taken from the left without overlapping,
/// replaced by `rep` (what `str::replace` gives); an empty `pat` occurs before
/// each character and at the end.
pub open spec fn replace_all(s: Seq<char>, pat: Seq<char>, rep: Seq<char>) -> Seq<char>
    decreases s.len(),
{
    if pat.len() == 0 {
        interleave(s, rep)
    } else if s.len() == 0 {
        s
    } else if occurs_at(s, pat, 0) {
        rep + replace_all(s.skip(pat.len() as int), pat, rep)
    } else {
        seq![s[0]] + replace_all(s.drop_first(), pat, rep)
    }
}

fn interleave_str(s: &str, rep: &str) -> (r: String)
    ensures
        r@ == interleave(s@, rep@),
{
    let v = str_to_chars(s);
    let mut out = String::new();
    let mut i: usize = 0;
    assert(v@.skip(0) =~= v@);
    while i < v.len()
        invariant
            i <= v@.len(),
            v@ == s@,
            out@ + interleave(v@.skip(i as int), rep@) == interleave(s@, rep@),
        decreases v@.len() - i,
    {
        let ghost rest = v@.skip(i as int);
        assert(rest.drop_first() =~= v@.skip(i + 1));
        let ghost before = out@;
        push_str(&mut out, rep);
        crate::text::push_char(&mut out, v[i]);
        assert(out@ + interleave(v@.skip(i + 1), rep@) =~= before + (rep@ + seq![rest[0]]
            + interleave(rest.drop_first(), rep@)));
        i = i + 1;
    }
    assert(v@.skip(i as int) =~= Seq::<char>::empty());
    push_str(&mut out, rep);
    out
}

/// Replaces every occurrence of `pat` by `rep`, as `str::replace` does.
pub fn replace_str(s: &str, pat: &str, rep: &str) -> (r: String)
    ensures
        r@ == replace_all(s@, pat@, rep@),
{
    if pat.unicode_len() == 0 {
        return interleave_str(s, rep);
    }
    let v = str_to_chars(s);
    let p = str_to_chars(pat);
    let mut out = String::new();
    let mut i: usize = 0;
    assert(v@.skip(0) =~= v@);
    while i < v.len()
        invariant
            i <= v@.len(),
            p@ == pat@,
            p@.len() > 0,
            out@ + replace_all(v@.skip(i as int), pat@, rep@) == replace_all(s@, pat@, rep@),
            v@ == s@,
        decreases v@.len() - i,
    {
        let ghost rest = v@.skip(i as int);
        if matches_at(&v, &p, i) {
            assert(rest.subrange(0, p@.len() as int) =~= v@.subrange(i as int, i + p@.len()));
            assert(occurs_at(rest, pat@, 0));
            assert(rest.skip(p@.len() as int) =~= v@.skip(i + p@.len()));
            let ghost before = out@;
            push_str(&mut out, rep);
            assert(out@ + replace_all(v@.skip(i + p@.len()), pat@, rep@) =~= before + (rep@
                + replace_all(rest.skip(p@.len() as int), pat@, rep@)));
            i = i + p.len();
        } else {
            proof {
                if p@.len() <= rest.len() {
                    assert(rest.subrange(0, p@.len() as int) =~= v@.subrange(i as int, i + p@.len()));
                }
            }
            assert(!occurs_at(rest, pat@, 0));
            assert(rest.drop_first() =~= v@.skip(i + 1));
            let ghost before = out@;
            crate::text::push_char(&mut out, v[i]);
            assert(out@ + replace_all(v@.skip(i + 1), pat@, rep@) =~= before + (seq![rest[0]]
                + replace_all(rest.drop_first(), pat@, rep@)));
            i = i + 1;
        }
    }
    assert(v@.skip(i as int) =~= Seq::<char>::empty());
    out
}

/// The name of a menu link made of its text nodes: the text, trimmed, with the
/// line breaks and indentation of the page's markup turned into spaces.
pub open spec fn link_name_spec(texts: Seq<Seq<char>>) -> Seq<char> {
    replace_all(trim(join_with(texts, Seq::empty())), "\n\t\t\t\t\t\t\t"@, " "@)
}

fn link_name(texts: &Vec<String>) -> (r: String)
    ensures
        r@ == link_name_spec(texts_view(texts@)),
{
    let text = join_strings(texts, "");
    let trimmed = trim_str(text.as_str());
    proof {
        reveal_strlit("");
        reveal_strlit("\n\t\t\t\t\t\t\t");
        assert(""@ =~= Seq::<char>::empty());
    }
    replace_str(trimmed.as_str(), "\n\t\t\t\t\t\t\t", " ")
}

/// The message of `usize`'s parse error for a text that is not a `usize`.
pub open spec fn usize_error_message(text: Seq<char>) -> Seq<char> {
    match unsigned_parse_error(text, usize::MAX as nat) {
        Some(k) => int_error_message(k),
        None => Seq::empty(),
    }
}

fn usize_error(text: &str) -> (r: String)
    ensures
        r@ == usize_error_message(text@),
{
    let v = str_to_chars(text);
    match unsigned_parse_error_of(&v, usize::MAX as u64) {
        Some(k) => int_error_text(k),
        None => String::new(),
    }
}

/// A link of the category menu: its `href` (empty when it has none) and its
/// text nodes.
#[derive(Debug)]
pub struct MenuLink {
    pub href: String,
    pub texts: Vec<String>,
}

/// The `href` and name of a menu link.
pub open spec fn menu_link_view(l: MenuLink) -> (Seq<char>, Seq<char>) {
    (l.href@, link_name_spec(texts_view(l.texts@)))
}

/// The subcategories (id and name) named by menu links (`href` and name), in
/// order: each link whose `href` has a `sub_category` gives one; the first such
/// id that is not a `usize` is an error with `usize`'s parse message.
pub open spec fn subcategories_of(links: Seq<(Seq<char>, Seq<char>)>) -> Result<Seq<(usize, Seq<char>)>, Seq<char>>
    decreases links.len(),
{
    if links.len() == 0 {
        Ok(Seq::empty())
    } else {
        match extract_param_spec(links[0].0, "sub_category"@) {
            None => subcategories_of(links.drop_first()),
            Some(t) => match usize_of(t) {
                None => Err(usize_error_message(t)),
                Some(n) => match subcategories_of(links.drop_first()) {
                    Ok(rest) => Ok(seq![(n, links[0].1)] + rest),
                    Err(e) => Err(e),
                },
            },
        }
    }
}

/// `c` is the category `id` named `name` with the subcategories `subs`.
pub open spec fn is_category(c: Category, id: usize, name: Seq<char>, subs: Seq<(usize, Seq<char>)>) -> bool {
    &&& c.id == id
    &&& c.name@ == name
    &&& c.sub_categories@.len() == subs.len()
    &&& forall|i: int| 0 <= i < subs.len() ==> {
        &&& (#[trigger] c.sub_categories@[i]).id == subs[i].0
        &&& c.sub_categories@[i].name@ == subs[i].1
        &&& c.sub_categories@[i].sub_categories@.len() == 0
    }
}

/// What the links of one entry of the category menu give: nothing when the
/// entry has no link or its first link names no `category`; otherwise the
/// category that it names, with the subcategories of the further links, or the
/// error of the first id that is not a `usize` (subcategories first).
pub open spec fn menu_entry_spec(links: Seq<(Seq<char>, Seq<char>)>, r: Result<Option<Category>, String>) -> bool {
    if links.len() == 0 {
        r matches Ok(None)
    } else {
        match extract_param_spec(links[0].0, "category"@) {
            None => r matches Ok(None),
            Some(cid) => match subcategories_of(links.drop_first()) {
                Err(m) => r is Err && r->Err_0@ == m,
                Ok(subs) => match usize_of(cid) {
                    None => r is Err && r->Err_0@ == usize_error_message(cid),
                    Some(id) => r matches Ok(Some(c)) && is_category(c, id, links[0].1, subs),
                },
            },
        }
    }
}

/// The entry of the category menu with the links `links` gives the category `c`.
pub open spec fn entry_gives(links: Seq<(Seq<char>, Seq<char>)>, c: Category) -> bool {
    menu_entry_spec(links, Ok(Some(c)))
}

/// The error that the links of an entry of the category menu give, if any (see
/// `menu_entry_spec`).
pub open spec fn entry_error(links: Seq<(Seq<char>, Seq<char>)>) -> Option<Seq<char>> {
    if links.len() == 0 {
        None
    } else {
        match extract_param_spec(links[0].0, "category"@) {
            None => None,
            Some(cid) => match subcategories_of(links.drop_first()) {
                Err(m) => Some(m),
                Ok(_) => match usize_of(cid) {
                    None => Some(usize_error_message(cid)),
                    Some(_) => None,
                },
            },
        }
    }
}

/// Whether the first link of an entry of the category menu names a category.
pub open spec fn entry_names_category(links: Seq<(Seq<char>, Seq<char>)>) -> bool {
    links.len() > 0 && extract_param_spec(links[0].0, "category"@) is Some
}

/// What the reading of one entry gives, by the error and the category it names.
proof fn lemma_entry_outcome(links: Seq<(Seq<char>, Seq<char>)>, r: Result<Option<Category>, String>)
    requires
        menu_entry_spec(links, r),
    ensures
        r is Err ==> entry_error(links) == Some(r->Err_0@),
        r is Ok ==> entry_error(links) is None,
        r is Ok ==> (r->Ok_0 is Some <==> entry_names_category(links)),
{
}

/// Reads one entry of the category menu from its links.
pub fn category_from_links(links: &Vec<MenuLink>) -> (r: Result<Option<Category>, String>)
    ensures
        menu_entry_spec(links@.map_values(|l: MenuLink| menu_link_view(l)), r),
{
    let ghost lv = links@.map_values(|l: MenuLink| menu_link_view(l));
    if links.len() == 0 {
        return Ok(None);
    }
    let cat_id = match extract_param(links[0].href.as_str(), "category") {
        Some(c) => c,
        None => {
            return Ok(None);
        },
    };
    let main_name = link_name(&links[0].texts);
    assert(lv[0] == menu_link_view(links@[0]));
    let ghost t = lv.drop_first();
    let mut subs: Vec<Category> = Vec::new();
    let ghost mut done: Seq<(usize, Seq<char>)> = Seq::empty();
    let mut j: usize = 1;
    assert(t.skip(0) =~= t);
    while j < links.len()
        invariant
            1 <= j <= links@.len(),
            lv == links@.map_values(|l: MenuLink| menu_link_view(l)),
            t == lv.drop_first(),
            extract_param_spec(lv[0].0, "category"@) == Some(cat_id@),
            subcategories_of(t) == match subcategories_of(t.skip(j - 1)) {
                Ok(rest) => Ok(done + rest),
                Err(e) => Err::<Seq<(usize, Seq<char>)>, Seq<char>>(e),
            },
            subs@.len() == done.len(),
            forall|i: int| 0 <= i < done.len() ==> {
                &&& (#[trigger] subs@[i]).id == done[i].0
                &&& subs@[i].name@ == done[i].1
                &&& subs@[i].sub_categories@.len() == 0
            },
        decreases links@.len() - j,
    {
        let ghost rest = t.skip(j - 1);
        assert(rest[0] == lv[j as int]);
        assert(lv[j as int] == menu_link_view(links@[j as int]));
        assert(rest.drop_first() =~= t.skip(j as int));
        let link = &links[j];
        match extract_param(link.href.as_str(), "sub_category") {
            Some(sub_id) => {
                match parse_usize(sub_id.as_str()) {
                    Some(n) => {
                        let name = link_name(&link.texts);
                        let ghost before = subs@;
                        subs.push(Category { id: n, name, sub_categories: Vec::new() });
                        proof {
                            let e = (n, lv[j as int].1);
                            assert(done + (seq![e] + Seq::<(usize, Seq<char>)>::empty()) =~= done.push(e));
                            match subcategories_of(t.skip(j as int)) {
                                Ok(r2) => {
                                    assert(done + (seq![e] + r2) =~= done.push(e) + r2);
                                },
                                Err(_) => {},
                            }
                            done = done.push(e);
                            assert forall|i: int| 0 <= i < done.len() implies {
                                &&& (#[trigger] subs@[i]).id == done[i].0
                                &&& subs@[i].name@ == done[i].1
                                &&& subs@[i].sub_categories@.len() == 0
                            } by {
                                if i < before.len() {
                                    assert(subs@[i] == before[i]);
                                }
                            }
                        }
                    },
                    None => {
                        proof {
                            assert(rest[0].0 == links@[j as int].href@);
                            assert(usize_of(sub_id@) is None);
                            assert(subcategories_of(rest) == Err::<Seq<(usize, Seq<char>)>, Seq<char>>(
                                usize_error_message(sub_id@),
                            ));
                        }
                        return Err(usize_error(sub_id.as_str()));
                    },
                }
            },
            None => {},
        }
        j = j + 1;
    }
    assert(t.skip(j - 1) =~= Seq::<(Seq<char>, Seq<char>)>::empty());
    assert(done + Seq::<(usize, Seq<char>)>::empty() =~= done);
    match parse_usize(cat_id.as_str()) {
        Some(id) => Ok(Some(Category { id, name: main_name, sub_categories: subs })),
        None => Err(usize_error(cat_id.as_str())),
    }
}

/// The selector of the entries of the category menu.
pub open spec fn menu_selector() -> Seq<char> {
    "#cat > ul > li:not(.misc)"@
}

/// The `href` (empty when it has none) and the name of link `a` of the page
/// parsed from `b`.
pub open spec fn link_on_page(b: Seq<char>, a: usize) -> (Seq<char>, Seq<char>) {
    (
        match element_attribute(b, a, "href"@) {
            Some(h) => h,
            None => Seq::empty(),
        },
        link_name_spec(element_text(b, a)),
    )
}

/// The links (`a`) of entry `e` of the category menu of the page parsed from `b`.
pub open spec fn entry_links(b: Seq<char>, e: usize) -> Seq<(Seq<char>, Seq<char>)> {
    descendant_matches(b, e, "a"@).map_values(|a: usize| link_on_page(b, a))
}

/// The entries of the category menu of the page parsed from `b` that name a
/// category, in order.
pub open spec fn naming_entries(b: Seq<char>) -> Seq<usize> {
    document_matches(b, menu_selector()).filter(|e: usize| entry_names_category(entry_links(b, e)))
}

fn menu_link(page: &Page, a: usize) -> (r: MenuLink)
    ensures
        menu_link_view(r) == link_on_page(page.body(), a),
{
    let href = match attribute_of(page, a, "href") {
        Some(h) => h,
        None => String::new(),
    };
    MenuLink { href, texts: text_of(page, a) }
}

/// Reads the categories from the menu of the tracker's home page, entry by entry
/// (`#cat > ul > li` but `.misc`), each by `category_from_links` from its links:
/// an entry whose first link names a category gives that category, in order;
/// the first entry that gives an error stops the reading with that error.  A
/// menu or link selector that does not compile is an error.
pub fn categories_from_page(body: &str) -> (r: Result<Vec<Category>, String>)
    ensures
        !(selector_parses(menu_selector()) && selector_parses("a"@)) ==> r is Err,
        selector_parses(menu_selector()) && selector_parses("a"@) ==> {
            let entries = document_matches(body@, menu_selector());
            &&& r is Ok <==> forall|k: int| 0 <= k < entries.len() ==> (#[trigger] entry_error(entry_links(body@, entries[k]))) is None
            &&& r is Ok ==> r->Ok_0@.len() == naming_entries(body@).len()
            &&& r is Ok ==> forall|i: int| 0 <= i < r->Ok_0@.len() ==> entry_gives(entry_links(body@, naming_entries(body@)[i]), #[trigger] r->Ok_0@[i])
            &&& r is Err ==> exists|k: int| 0 <= k < entries.len()
                && (forall|j: int| 0 <= j < k ==> (#[trigger] entry_error(entry_links(body@, entries[j]))) is None)
                && entry_error(entry_links(body@, entries[k])) == Some(r->Err_0@)
        },
{
    let page = parse_page(body);
    let cat_sel = compile_selector("#cat > ul > li:not(.misc)")?;
    let link_sel = compile_selector("a")?;
    let items = select_document(&page, &cat_sel);
    let ghost b = body@;
    let ghost q = |e: usize| entry_names_category(entry_links(b, e));
    let ghost f = |a: usize| link_on_page(b, a);
    let mut out: Vec<Category> = Vec::new();
    let mut i: usize = 0;
    while i < items.len()
        invariant
            b == body@,
            page.body() == b,
            q == (|e: usize| entry_names_category(entry_links(b, e))),
            f == (|a: usize| link_on_page(b, a)),
            link_sel.text() == "a"@,
            items@ == document_matches(b, menu_selector()),
            i <= items@.len(),
            forall|k: int| 0 <= k < i ==> (#[trigger] entry_error(entry_links(b, items@[k]))) is None,
            out@.len() == items@.take(i as int).filter(q).len(),
            forall|k: int| 0 <= k < out@.len() ==> entry_gives(entry_links(b, items@.take(i as int).filter(q)[k]), #[trigger] out@[k]),
        decreases items@.len() - i,
    {
        let item = items[i];
        let elements = select_descendants(&page, item, &link_sel);
        let mut links: Vec<MenuLink> = Vec::new();
        let mut k: usize = 0;
        while k < elements.len()
            invariant
                page.body() == b,
                f == (|a: usize| link_on_page(b, a)),
                k <= elements@.len(),
                links@.map_values(|l: MenuLink| menu_link_view(l)) == elements@.take(k as int).map_values(f),
            decreases elements@.len() - k,
        {
            let l = menu_link(&page, elements[k]);
            let ghost before = links@;
            links.push(l);
            assert(links@.map_values(|l: MenuLink| menu_link_view(l)) =~= before.map_values(
                |l: MenuLink| menu_link_view(l),
            ).push(menu_link_view(l)));
            assert(elements@.take(k + 1).map_values(f) =~= elements@.take(k as int).map_values(f).push(
                f(elements@[k as int]),
            ));
            k = k + 1;
        }
        assert(elements@.take(elements@.len() as int) =~= elements@);
        assert(links@.map_values(|l: MenuLink| menu_link_view(l)) =~= entry_links(b, item));
        let res = category_from_links(&links);
        proof {
            lemma_entry_outcome(entry_links(b, item), res);
        }
        let ghost kept = items@.take(i as int).filter(q);
        assert(items@.take(i + 1) =~= items@.take(i as int).push(item));
        proof {
            items@.take(i as int).lemma_filter_push(item, q);
        }
        match res {
            Err(m) => {
                assert(entry_error(entry_links(b, items@[i as int])) == Some(m@));
                return Err(m);
            },
            Ok(None) => {},
            Ok(Some(c)) => {
                let ghost before = out@;
                out.push(c);
                assert forall|k: int| 0 <= k < out@.len() implies entry_gives(entry_links(b, items@.take(i + 1).filter(q)[k]), #[trigger] out@[k]) by {
                    if k < before.len() {
                        assert(out@[k] == before[k]);
                        assert(items@.take(i + 1).filter(q)[k] == kept[k]);
                    }
                }
            },
        }
        i = i + 1;
    }
    assert(items@.take(items@.len() as int) =~= items@);
    Ok(out)
}

} // verus!
