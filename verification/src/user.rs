//! The account page of the user: what it says of the account.
use vstd::prelude::*;
use crate::categories::{replace_all, replace_str};
use crate::html::{
    attribute_of, compile_selector, descendant_matches, document_matches, element_attribute,
    element_text, first_in_page, first_of, first_under, opt_string_view, parse_page,
    select_descendants, select_document, selector_parses, text_of, Page,
};
use crate::parser::texts_view;
use crate::numbers::{parse_i32, parse_signed_spec, parse_u16, parse_unsigned_spec};
use crate::text::{
    chars_range_to_string, chars_to_string, contains_seq, ends_with_chars, join_strings, join_with,
    lemma_split_on_nonempty, split_chars, split_on, str_contains, str_to_chars, trim, trim_str,
};

verus! {

/// What the account page says of the account.  The uploaded and downloaded
/// amounts are kept as written, in `sizes`, in the order the page gives them.
#[derive(Debug)]
pub struct UserAccount {
    pub username: String,
    pub rank: String,
    pub join_date: String,
    pub last_activity: String,
    pub torrents_count: u16,
    pub comments_count: u16,
    pub reputation_score: i32,
    pub passkey: String,
    pub avatar_url: String,
    pub email: String,
    pub age: Option<u16>,
    pub gender: Option<String>,
    pub country: Option<String>,
    pub country_code: Option<String>,
    /// The amounts of the tracker table, as `(field, text)`, in page order.
    pub sizes: Vec<(SizeField, String)>,
    /// Whether the tracker table has a row of two cells or more.
    pub has_tracker_rows: bool,
}

/// Which amount a size of the account page gives.
#[derive(Debug, Clone, Copy, PartialEq, Eq, Structural)]
pub enum SizeField {
    Uploaded,
    Downloaded,
}

impl UserAccount {
    /// An account about which nothing is known yet.
    pub fn empty() -> (a: UserAccount)
        ensures
            a.username@.len() == 0 && a.rank@.len() == 0 && a.join_date@.len() == 0,
            a.last_activity@.len() == 0 && a.passkey@.len() == 0,
            a.avatar_url@.len() == 0 && a.email@.len() == 0,
            a.torrents_count == 0 && a.comments_count == 0 && a.reputation_score == 0,
            a.age is None && a.gender is None && a.country is None && a.country_code is None,
            a.sizes@.len() == 0 && !a.has_tracker_rows,
    {
        UserAccount {
            username: String::new(),
            rank: String::new(),
            join_date: String::new(),
            last_activity: String::new(),
            torrents_count: 0,
            comments_count: 0,
            reputation_score: 0,
            passkey: String::new(),
            avatar_url: String::new(),
            email: String::new(),
            age: None,
            gender: None,
            country: None,
            country_code: None,
            sizes: Vec::new(),
            has_tracker_rows: false,
        }
    }
}

/// The user name in the `Pseudo` line: what precedes the first `(`, trimmed.
pub open spec fn pseudo_name(value: Seq<char>) -> Seq<char> {
    trim(split_on(value, '(')[0])
}

/// The rank in the `Pseudo` line: what follows the first `(` up to the next,
/// without its closing `)`, trimmed; empty when there is no `(` or no `)` at its end.
pub open spec fn pseudo_rank(value: Seq<char>) -> Seq<char> {
    let parts = split_on(value, '(');
    if parts.len() >= 2 && parts[1].len() > 0 && parts[1].last() == ')' {
        trim(parts[1].drop_last())
    } else {
        Seq::empty()
    }
}

/// A number of the account page, or 0 when it is not one.
pub open spec fn u16_or_zero(text: Seq<char>) -> u16 {
    match parse_unsigned_spec(text, u16::MAX as nat) {
        Some(n) => n as u16,
        None => 0,
    }
}

/// The field of the account table that a line sets, by its key.
#[derive(Debug, Clone, Copy, PartialEq, Eq, Structural)]
pub enum BaseKey {
    Pseudo,
    JoinDate,
    LastActivity,
    Torrents,
    Comments,
    Reputation,
}

/// The field that a key of the account table names: the first of `Pseudo`,
/// `Date d'inscription`, `Dernière activité`, `Mes torrents`, `Commentaires` and
/// `Réputation` that it mentions.
pub open spec fn base_key_of(key: Seq<char>) -> Option<BaseKey> {
    if contains_seq(key, "Pseudo"@) {
        Some(BaseKey::Pseudo)
    } else if contains_seq(key, "Date d'inscription"@) {
        Some(BaseKey::JoinDate)
    } else if contains_seq(key, "Dernière activité"@) {
        Some(BaseKey::LastActivity)
    } else if contains_seq(key, "Mes torrents"@) {
        Some(BaseKey::Torrents)
    } else if contains_seq(key, "Commentaires"@) {
        Some(BaseKey::Comments)
    } else if contains_seq(key, "Réputation"@) {
        Some(BaseKey::Reputation)
    } else {
        None
    }
}

/// The reputation of the account table: the `i32` of the text, or 0.
pub open spec fn i32_or_zero(text: Seq<char>) -> i32 {
    match parse_signed_spec(text, i32::MIN as int, i32::MAX as int) {
        Some(n) => n as i32,
        None => 0i32,
    }
}

/// The fields that the tracker table and the rest of the page set are those of `o`.
pub open spec fn same_other_than_base(a: UserAccount, o: UserAccount) -> bool {
    &&& a.passkey == o.passkey
    &&& a.avatar_url == o.avatar_url
    &&& a.email == o.email
    &&& a.age == o.age
    &&& a.gender == o.gender
    &&& a.country == o.country
    &&& a.country_code == o.country_code
    &&& a.sizes@ == o.sizes@
    &&& a.has_tracker_rows == o.has_tracker_rows
}

/// `a` is `o` with the line (`key`, `value`) of the account table read into it.
pub open spec fn base_info_applied(o: UserAccount, key: Seq<char>, value: Seq<char>, a: UserAccount) -> bool {
    let k = base_key_of(key);
    &&& a.username@ == if k == Some(BaseKey::Pseudo) {
        pseudo_name(value)
    } else {
        o.username@
    }
    &&& a.rank@ == if k == Some(BaseKey::Pseudo) {
        pseudo_rank(value)
    } else {
        o.rank@
    }
    &&& a.join_date@ == if k == Some(BaseKey::JoinDate) {
        value
    } else {
        o.join_date@
    }
    &&& a.last_activity@ == if k == Some(BaseKey::LastActivity) {
        value
    } else {
        o.last_activity@
    }
    &&& a.torrents_count == if k == Some(BaseKey::Torrents) {
        u16_or_zero(value)
    } else {
        o.torrents_count
    }
    &&& a.comments_count == if k == Some(BaseKey::Comments) {
        u16_or_zero(value)
    } else {
        o.comments_count
    }
    &&& a.reputation_score == if k == Some(BaseKey::Reputation) {
        i32_or_zero(value)
    } else {
        o.reputation_score
    }
    &&& same_other_than_base(a, o)
}

/// Reads one line (`key`, trimmed `value`) of the account table into the account:
/// the first of `Pseudo`, `Date d'inscription`, `Dernière activité`, `Mes torrents`,
/// `Commentaires` and `Réputation` that the key mentions says which field it sets.
pub fn apply_base_info(account: &mut UserAccount, key: &str, value: &str)
    ensures
        base_info_applied(*old(account), key@, value@, *final(account)),
{
    if str_contains(key, "Pseudo") {
        let v = str_to_chars(value);
        let parts = split_chars(&v, '(');
        proof {
            lemma_split_on_nonempty(v@, '(');
        }
        let name = chars_to_string(&parts[0]);
        account.username = trim_str(name.as_str());
        let rank = if parts.len() >= 2 && parts[1].len() > 0 && parts[1][parts[1].len() - 1] == ')' {
            let inner = chars_range_to_string(&parts[1], 0, parts[1].len() - 1);
            assert(parts@[1]@.subrange(0, parts@[1]@.len() - 1) =~= parts@[1]@.drop_last());
            trim_str(inner.as_str())
        } else {
            String::new()
        };
        account.rank = rank;
    } else if str_contains(key, "Date d'inscription") {
        account.join_date = value.to_owned();
    } else if str_contains(key, "Dernière activité") {
        account.last_activity = value.to_owned();
    } else if str_contains(key, "Mes torrents") {
        account.torrents_count = match parse_u16(value) {
            Some(n) => n,
            None => 0,
        };
    } else if str_contains(key, "Commentaires") {
        account.comments_count = match parse_u16(value) {
            Some(n) => n,
            None => 0,
        };
    } else if str_contains(key, "Réputation") {
        account.reputation_score = match parse_i32(value) {
            Some(n) => n,
            None => 0,
        };
    }
}

/// The value of the last line of `rows` whose key names the field `k`.
pub open spec fn last_value_for(rows: Seq<(Seq<char>, Seq<char>)>, k: BaseKey) -> Option<Seq<char>>
    decreases rows.len(),
{
    if rows.len() == 0 {
        None
    } else if base_key_of(rows.last().0) == Some(k) {
        Some(rows.last().1)
    } else {
        last_value_for(rows.drop_last(), k)
    }
}

/// The views of the lines of a table.
pub open spec fn rows_view(rows: Seq<(String, String)>) -> Seq<(Seq<char>, Seq<char>)> {
    rows.map_values(|r: (String, String)| (r.0@, r.1@))
}

/// `a` is `o` with the lines `rows` of the account table read into it, in order:
/// each field takes its value from the last line that names it.
pub open spec fn base_rows_applied(o: UserAccount, rows: Seq<(Seq<char>, Seq<char>)>, a: UserAccount) -> bool {
    &&& a.username@ == match last_value_for(rows, BaseKey::Pseudo) {
        Some(v) => pseudo_name(v),
        None => o.username@,
    }
    &&& a.rank@ == match last_value_for(rows, BaseKey::Pseudo) {
        Some(v) => pseudo_rank(v),
        None => o.rank@,
    }
    &&& a.join_date@ == match last_value_for(rows, BaseKey::JoinDate) {
        Some(v) => v,
        None => o.join_date@,
    }
    &&& a.last_activity@ == match last_value_for(rows, BaseKey::LastActivity) {
        Some(v) => v,
        None => o.last_activity@,
    }
    &&& a.torrents_count == match last_value_for(rows, BaseKey::Torrents) {
        Some(v) => u16_or_zero(v),
        None => o.torrents_count,
    }
    &&& a.comments_count == match last_value_for(rows, BaseKey::Comments) {
        Some(v) => u16_or_zero(v),
        None => o.comments_count,
    }
    &&& a.reputation_score == match last_value_for(rows, BaseKey::Reputation) {
        Some(v) => i32_or_zero(v),
        None => o.reputation_score,
    }
    &&& same_other_than_base(a, o)
}

/// Reads the lines (key, trimmed value) of the account table into the account, in order.
pub fn apply_base_rows(account: &mut UserAccount, rows: &Vec<(String, String)>)
    ensures
        base_rows_applied(*old(account), rows_view(rows@), *final(account)),
{
    let ghost o = *account;
    let ghost rv = rows_view(rows@);
    let mut i: usize = 0;
    assert(rv.take(0) =~= Seq::<(Seq<char>, Seq<char>)>::empty());
    while i < rows.len()
        invariant
            i <= rows@.len(),
            rv == rows_view(rows@),
            base_rows_applied(o, rv.take(i as int), *account),
        decreases rows@.len() - i,
    {
        let ghost before = *account;
        apply_base_info(account, rows[i].0.as_str(), rows[i].1.as_str());
        proof {
            let t = rv.take(i + 1);
            assert(t.drop_last() =~= rv.take(i as int));
            assert(t.last() == rv[i as int]);
            assert(rv[i as int] == (rows@[i as int].0@, rows@[i as int].1@));
        }
        i = i + 1;
    }
    assert(rv.take(rows@.len() as int) =~= rv);
}

/// The amount that a line of the tracker table gives (when it names no passkey).
pub open spec fn size_entry(key: Seq<char>, value: Seq<char>) -> Option<(SizeField, Seq<char>)> {
    if contains_seq(key, "Passkey"@) {
        None
    } else if contains_seq(key, "Qtt uploadée"@) {
        Some((SizeField::Uploaded, value))
    } else if contains_seq(key, "Qtt téléchargée"@) {
        Some((SizeField::Downloaded, value))
    } else {
        None
    }
}

/// The views of the amounts of an account.
pub open spec fn sizes_view(s: Seq<(SizeField, String)>) -> Seq<(SizeField, Seq<char>)> {
    s.map_values(|e: (SizeField, String)| (e.0, e.1@))
}

/// The fields that the account table and the rest of the page set are those of `o`.
pub open spec fn same_other_than_tracker(a: UserAccount, o: UserAccount) -> bool {
    &&& a.username == o.username
    &&& a.rank == o.rank
    &&& a.join_date == o.join_date
    &&& a.last_activity == o.last_activity
    &&& a.torrents_count == o.torrents_count
    &&& a.comments_count == o.comments_count
    &&& a.reputation_score == o.reputation_score
    &&& a.avatar_url == o.avatar_url
    &&& a.email == o.email
    &&& a.age == o.age
    &&& a.gender == o.gender
    &&& a.country == o.country
    &&& a.country_code == o.country_code
}

/// Reads one line (trimmed `key`, trimmed `value`) of the tracker table into the
/// account: the passkey, or an uploaded or downloaded amount, which is kept.
pub fn apply_tracker_info(account: &mut UserAccount, key: &str, value: &str)
    ensures
        ({
            let a = *final(account);
            let o = *old(account);
            &&& a.has_tracker_rows
            &&& a.passkey@ == if contains_seq(key@, "Passkey"@) {
                value@
            } else {
                o.passkey@
            }
            &&& sizes_view(a.sizes@) == sizes_view(o.sizes@) + match size_entry(key@, value@) {
                Some(e) => seq![e],
                None => Seq::empty(),
            }
            &&& same_other_than_tracker(a, o)
        }),
{
    let ghost before = account.sizes@;
    if str_contains(key, "Passkey") {
        account.passkey = value.to_owned();
        assert(sizes_view(account.sizes@) =~= sizes_view(before) + Seq::<(SizeField, Seq<char>)>::empty());
    } else if str_contains(key, "Qtt uploadée") {
        account.sizes.push((SizeField::Uploaded, value.to_owned()));
        assert(sizes_view(account.sizes@) =~= sizes_view(before) + seq![(SizeField::Uploaded, value@)]);
    } else if str_contains(key, "Qtt téléchargée") {
        account.sizes.push((SizeField::Downloaded, value.to_owned()));
        assert(sizes_view(account.sizes@) =~= sizes_view(before) + seq![(SizeField::Downloaded, value@)]);
    } else {
        assert(sizes_view(account.sizes@) =~= sizes_view(before) + Seq::<(SizeField, Seq<char>)>::empty());
    }
    account.has_tracker_rows = true;
}

/// The value of the last line of `rows` whose key mentions `Passkey`.
pub open spec fn last_passkey(rows: Seq<(Seq<char>, Seq<char>)>) -> Option<Seq<char>>
    decreases rows.len(),
{
    if rows.len() == 0 {
        None
    } else if contains_seq(rows.last().0, "Passkey"@) {
        Some(rows.last().1)
    } else {
        last_passkey(rows.drop_last())
    }
}

/// The amounts that the lines of the tracker table give, in order.
pub open spec fn size_entries(rows: Seq<(Seq<char>, Seq<char>)>) -> Seq<(SizeField, Seq<char>)> {
    rows.filter_map(|r: (Seq<char>, Seq<char>)| size_entry(r.0, r.1))
}

/// `a` is `o` with the lines `rows` of the tracker table read into it, in order.
pub open spec fn tracker_rows_applied(o: UserAccount, rows: Seq<(Seq<char>, Seq<char>)>, a: UserAccount) -> bool {
    &&& a.passkey@ == match last_passkey(rows) {
        Some(v) => v,
        None => o.passkey@,
    }
    &&& sizes_view(a.sizes@) == sizes_view(o.sizes@) + size_entries(rows)
    &&& a.has_tracker_rows == (o.has_tracker_rows || rows.len() > 0)
    &&& same_other_than_tracker(a, o)
}

/// Reads the lines (trimmed key, trimmed value) of the tracker table into the
/// account, in order.
pub fn apply_tracker_rows(account: &mut UserAccount, rows: &Vec<(String, String)>)
    ensures
        tracker_rows_applied(*old(account), rows_view(rows@), *final(account)),
{
    let ghost o = *account;
    let ghost rv = rows_view(rows@);
    let ghost f = |r: (Seq<char>, Seq<char>)| size_entry(r.0, r.1);
    let mut i: usize = 0;
    assert(rv.take(0) =~= Seq::<(Seq<char>, Seq<char>)>::empty());
    assert(sizes_view(o.sizes@) + Seq::<(SizeField, Seq<char>)>::empty() =~= sizes_view(o.sizes@));
    while i < rows.len()
        invariant
            i <= rows@.len(),
            rv == rows_view(rows@),
            f == (|r: (Seq<char>, Seq<char>)| size_entry(r.0, r.1)),
            tracker_rows_applied(o, rv.take(i as int), *account),
        decreases rows@.len() - i,
    {
        let ghost before = *account;
        apply_tracker_info(account, rows[i].0.as_str(), rows[i].1.as_str());
        proof {
            let t = rv.take(i + 1);
            assert(t.drop_last() =~= rv.take(i as int));
            assert(t.last() == rv[i as int]);
            assert(rv[i as int] == (rows@[i as int].0@, rows@[i as int].1@));
            rv.lemma_filter_map_take_succ(f, i as int);
            match size_entry(rv[i as int].0, rv[i as int].1) {
                Some(e) => {
                    assert(sizes_view(o.sizes@) + size_entries(t) =~= sizes_view(o.sizes@) + size_entries(
                        rv.take(i as int),
                    ) + seq![e]);
                },
                None => {
                    assert(sizes_view(o.sizes@) + size_entries(rv.take(i as int)) + Seq::<
                        (SizeField, Seq<char>),
                    >::empty() =~= sizes_view(o.sizes@) + size_entries(t));
                },
            }
        }
        i = i + 1;
    }
    assert(rv.take(rows@.len() as int) =~= rv);
}

/// The number part, written with a dot, and the power of 1024 of an amount of
/// the account page: the last of `o`, `Ko`, `Mo`, `Go`, `To`, `Po` that it ends
/// with, checked from `Po` down; the rest has its commas turned into dots and is
/// trimmed.
pub open spec fn amount_parts_spec(s: Seq<char>) -> Option<(Seq<char>, u32)> {
    let num = |k: int| trim(replace_all(s.take(s.len() - k), ","@, "."@));
    if s.len() >= 2 && s.skip(s.len() - 2) == "Po"@ {
        Some((num(2), 5u32))
    } else if s.len() >= 2 && s.skip(s.len() - 2) == "To"@ {
        Some((num(2), 4u32))
    } else if s.len() >= 2 && s.skip(s.len() - 2) == "Go"@ {
        Some((num(2), 3u32))
    } else if s.len() >= 2 && s.skip(s.len() - 2) == "Mo"@ {
        Some((num(2), 2u32))
    } else if s.len() >= 2 && s.skip(s.len() - 2) == "Ko"@ {
        Some((num(2), 1u32))
    } else if s.len() >= 1 && s.skip(s.len() - 1) == "o"@ {
        Some((num(1), 0u32))
    } else {
        None
    }
}

fn ends_with_unit(v: &Vec<char>, unit: &str) -> (b: bool)
    ensures
        b == (unit@.len() <= v@.len() && v@.skip(v@.len() - unit@.len()) == unit@),
{
    let u = str_to_chars(unit);
    ends_with_chars(v, &u)
}

fn amount_number(v: &Vec<char>, k: usize) -> (r: String)
    requires
        k <= v@.len(),
    ensures
        r@ == trim(replace_all(v@.take(v@.len() - k), ","@, "."@)),
{
    let head = chars_range_to_string(v, 0, v.len() - k);
    assert(v@.subrange(0, v@.len() - k) =~= v@.take(v@.len() - k));
    proof {
        reveal_strlit(",");
    }
    let dotted = replace_str(head.as_str(), ",", ".");
    trim_str(dotted.as_str())
}

/// Splits an amount of the account page into its number (written with a dot)
/// and the power of 1024 of its unit.
pub fn amount_parts(s: &str) -> (r: Option<(String, u32)>)
    ensures
        match amount_parts_spec(s@) {
            Some((n, p)) => r is Some && r->Some_0.0@ == n && r->Some_0.1 == p,
            None => r is None,
        },
{
    let v = str_to_chars(s);
    proof {
        reveal_strlit("Po");
        reveal_strlit("To");
        reveal_strlit("Go");
        reveal_strlit("Mo");
        reveal_strlit("Ko");
        reveal_strlit("o");
    }
    if ends_with_unit(&v, "Po") {
        Some((amount_number(&v, 2), 5))
    } else if ends_with_unit(&v, "To") {
        Some((amount_number(&v, 2), 4))
    } else if ends_with_unit(&v, "Go") {
        Some((amount_number(&v, 2), 3))
    } else if ends_with_unit(&v, "Mo") {
        Some((amount_number(&v, 2), 2))
    } else if ends_with_unit(&v, "Ko") {
        Some((amount_number(&v, 2), 1))
    } else if ends_with_unit(&v, "o") {
        Some((amount_number(&v, 1), 0))
    } else {
        None
    }
}

/// The text of element `e` of the page parsed from `b`: its text nodes joined.
pub open spec fn cell_text_spec(b: Seq<char>, e: usize) -> Seq<char> {
    join_with(element_text(b, e), Seq::empty())
}

/// Whether row `row` of the page parsed from `b` has two cells or more.
pub open spec fn has_two_cells(b: Seq<char>, row: usize) -> bool {
    descendant_matches(b, row, "td"@).len() >= 2
}

/// The line that row `row` gives: the text of its first cell (trimmed when
/// `trim_key`) and the trimmed text of its second.
pub open spec fn line_of_row(b: Seq<char>, row: usize, trim_key: bool) -> (Seq<char>, Seq<char>) {
    let tds = descendant_matches(b, row, "td"@);
    let k = cell_text_spec(b, tds[0]);
    (if trim_key { trim(k) } else { k }, trim(cell_text_spec(b, tds[1])))
}

/// The lines of table `table` of the page parsed from `b`: one for each of its
/// rows with two cells or more, in order.
pub open spec fn table_lines(b: Seq<char>, table: usize, trim_key: bool) -> Seq<(Seq<char>, Seq<char>)> {
    descendant_matches(b, table, "tr"@).filter(|row: usize| has_two_cells(b, row)).map_values(
        |row: usize| line_of_row(b, row, trim_key),
    )
}

fn cell_text(page: &Page, cell: usize) -> (r: String)
    ensures
        r@ == cell_text_spec(page.body(), cell),
{
    let chunks = text_of(page, cell);
    let r = join_strings(&chunks, "");
    proof {
        reveal_strlit("");
        assert(""@ =~= Seq::<char>::empty());
    }
    r
}

/// Reads the lines of a table (see `table_lines`).
fn read_table_lines(page: &Page, table: usize, trim_key: bool) -> (r: Result<Vec<(String, String)>, String>)
    ensures
        r is Ok <==> selector_parses("tr"@) && selector_parses("td"@),
        r is Ok ==> rows_view(r->Ok_0@) == table_lines(page.body(), table, trim_key),
{
    let tr = compile_selector("tr")?;
    let td = compile_selector("td")?;
    let rows = select_descendants(page, table, &tr);
    let ghost b = page.body();
    let ghost p = |row: usize| has_two_cells(b, row);
    let ghost g = |row: usize| line_of_row(b, row, trim_key);
    let mut lines: Vec<(String, String)> = Vec::new();
    let mut i: usize = 0;
    while i < rows.len()
        invariant
            b == page.body(),
            p == (|row: usize| has_two_cells(b, row)),
            g == (|row: usize| line_of_row(b, row, trim_key)),
            td.text() == "td"@,
            i <= rows@.len(),
            rows@ == descendant_matches(b, table, "tr"@),
            rows_view(lines@) == rows@.take(i as int).filter(p).map_values(g),
        decreases rows@.len() - i,
    {
        let row = rows[i];
        let cells = select_descendants(page, row, &td);
        assert(rows@.take(i + 1) =~= rows@.take(i as int).push(row));
        proof {
            rows@.take(i as int).lemma_filter_push(row, p);
        }
        if cells.len() >= 2 {
            let key = cell_text(page, cells[0]);
            let raw_value = cell_text(page, cells[1]);
            let k = if trim_key {
                trim_str(key.as_str())
            } else {
                key
            };
            let line = (k, trim_str(raw_value.as_str()));
            let ghost before = lines@;
            lines.push(line);
            assert(rows_view(lines@) =~= rows_view(before).push((line.0@, line.1@)));
            assert(rows@.take(i + 1).filter(p).map_values(g) =~= rows@.take(i as int).filter(p).map_values(g).push(
                g(row),
            ));
        }
        i = i + 1;
    }
    assert(rows@.take(rows@.len() as int) =~= rows@);
    Ok(lines)
}

/// The selectors that reading the account table uses all compile.
pub open spec fn base_selectors_parse() -> bool {
    selector_parses("table.detail-account"@) && selector_parses("tr"@) && selector_parses("td"@)
}

/// Reads the account table of the account page (the first
/// `table.detail-account`), which must be there: its lines (see `table_lines`),
/// keys as they are, values trimmed.
pub fn parse_base_infos(page: &Page, account: &mut UserAccount) -> (r: Result<(), String>)
    ensures
        !selector_parses("table.detail-account"@) ==> r is Err,
        selector_parses("table.detail-account"@) ==> match first_of(document_matches(page.body(), "table.detail-account"@)) {
            None => r is Err && r->Err_0@ == "Account table not found"@,
            Some(t) => if selector_parses("tr"@) && selector_parses("td"@) {
                r is Ok && base_rows_applied(*old(account), table_lines(page.body(), t, false), *final(account))
            } else {
                r is Err
            },
        },
        r is Err ==> *final(account) == *old(account),
{
    let table = match first_in_page(page, "table.detail-account")? {
        Some(t) => t,
        None => {
            return Err(String::from_str("Account table not found"));
        },
    };
    let lines = read_table_lines(page, table, false)?;
    apply_base_rows(account, &lines);
    Ok(())
}

/// The title of section `s` of the page parsed from `b`: the text of its first
/// `h2`, if it has one.
pub open spec fn section_title(b: Seq<char>, s: usize) -> Option<Seq<char>> {
    match first_of(descendant_matches(b, s, "h2"@)) {
        Some(h) => Some(cell_text_spec(b, h)),
        None => None,
    }
}

/// Whether section `s` is the tracker section: its title mentions
/// `Informations relatives au Tracker`.
pub open spec fn is_tracker_section(b: Seq<char>, s: usize) -> bool {
    section_title(b, s) matches Some(t) && contains_seq(t, "Informations relatives au Tracker"@)
}

/// The first of some sections that is the tracker section.
pub open spec fn first_tracker_section(b: Seq<char>, sections: Seq<usize>) -> Option<usize>
    decreases sections.len(),
{
    if sections.len() == 0 {
        None
    } else if is_tracker_section(b, sections[0]) {
        Some(sections[0])
    } else {
        first_tracker_section(b, sections.drop_first())
    }
}

/// The lines of the tracker table of the page parsed from `b`: those of the first
/// `table` of the first content section that is the tracker section (keys and
/// values trimmed); none without such a section or table.
pub open spec fn tracker_lines(b: Seq<char>) -> Seq<(Seq<char>, Seq<char>)> {
    match first_tracker_section(b, document_matches(b, "section.content"@)) {
        None => Seq::empty(),
        Some(s) => match first_of(descendant_matches(b, s, "table"@)) {
            None => Seq::empty(),
            Some(t) => table_lines(b, t, true),
        },
    }
}

/// The selectors that reading the tracker table uses all compile.
pub open spec fn tracker_selectors_parse() -> bool {
    &&& selector_parses("section.content"@) && selector_parses("h2"@) && selector_parses("table"@)
    &&& selector_parses("tr"@) && selector_parses("td"@)
}

/// Reads the tracker table (see `tracker_lines`) into the account.
pub fn parse_tracker_stats(page: &Page, account: &mut UserAccount) -> (r: Result<(), String>)
    ensures
        tracker_selectors_parse() ==> r is Ok && tracker_rows_applied(*old(account), tracker_lines(page.body()), *final(account)),
        r is Err ==> *final(account) == *old(account),
{
    let section_sel = compile_selector("section.content")?;
    let sections = select_document(page, &section_sel);
    let ghost b = page.body();
    let mut lines: Vec<(String, String)> = Vec::new();
    let mut i: usize = 0;
    assert(sections@.skip(0) =~= sections@);
    while i < sections.len()
        invariant
            b == page.body(),
            *account == *old(account),
            i <= sections@.len(),
            sections@ == document_matches(b, "section.content"@),
            first_tracker_section(b, sections@) == first_tracker_section(b, sections@.skip(i as int)),
            lines@.len() == 0,
        decreases sections@.len() - i,
    {
        let section = sections[i];
        assert(sections@.skip(i as int)[0] == section);
        assert(sections@.skip(i as int).drop_first() =~= sections@.skip(i + 1));
        i = i + 1;
        if let Some(h2) = first_under(page, section, "h2")? {
            let title = cell_text(page, h2);
            if str_contains(title.as_str(), "Informations relatives au Tracker") {
                if let Some(table) = first_under(page, section, "table")? {
                    let found = read_table_lines(page, table, true)?;
                    lines = found;
                }
                apply_tracker_rows(account, &lines);
                proof {
                    assert(rows_view(Seq::<(String, String)>::empty()) =~= Seq::<(Seq<char>, Seq<char>)>::empty());
                }
                return Ok(());
            }
        }
    }
    assert(sections@.skip(i as int) =~= Seq::<usize>::empty());
    apply_tracker_rows(account, &lines);
    assert(rows_view(lines@) =~= Seq::<(Seq<char>, Seq<char>)>::empty());
    Ok(())
}

/// Attribute `name` of the first element of the page parsed from `b` that
/// matches `selector`, if any.
pub open spec fn first_attribute_in(b: Seq<char>, selector: Seq<char>, name: Seq<char>) -> Option<Seq<char>> {
    match first_of(document_matches(b, selector)) {
        Some(e) => element_attribute(b, e, name),
        None => None,
    }
}

fn first_attr(page: &Page, selector: &str, attr: &str) -> (r: Result<Option<String>, String>)
    ensures
        r is Ok <==> selector_parses(selector@),
        r is Ok ==> opt_string_view(r->Ok_0) == first_attribute_in(page.body(), selector@, attr@),
{
    match first_in_page(page, selector)? {
        Some(e) => Ok(attribute_of(page, e, attr)),
        None => Ok(None),
    }
}

/// The age of the account page's age field: none for 0 or a text that is not a number.
pub fn age_of(value: &str) -> (r: Option<u16>)
    ensures
        r == if u16_or_zero(value@) > 0 {
            Some(u16_or_zero(value@))
        } else {
            None::<u16>
        },
{
    let age: u16 = match parse_u16(value) {
        Some(n) => n,
        None => 0,
    };
    if age > 0 {
        Some(age)
    } else {
        None
    }
}

/// What the rest of the account page gives, as the page has it.
#[derive(Debug)]
pub struct MiscInfo {
    /// The `src` of the avatar image.
    pub avatar_src: Option<String>,
    /// The `value` of the e-mail field.
    pub email_value: Option<String>,
    /// The `value` of the age field.
    pub age_value: Option<String>,
    /// The `value` of the checked gender.
    pub gender_value: Option<String>,
    /// The text nodes and the `value` of the selected country.
    pub country: Option<(Vec<String>, Option<String>)>,
}

/// `a` is `o` with the avatar, e-mail, age, gender and country of `misc` read
/// into it.
pub open spec fn misc_infos_applied(o: UserAccount, misc: MiscInfo, a: UserAccount) -> bool {
    &&& a.avatar_url == match misc.avatar_src {
        Some(v) => v,
        None => o.avatar_url,
    }
    &&& a.email == match misc.email_value {
        Some(v) => v,
        None => o.email,
    }
    &&& a.age == match misc.age_value {
        Some(v) => if u16_or_zero(v@) > 0 {
            Some(u16_or_zero(v@))
        } else {
            o.age
        },
        None => o.age,
    }
    &&& a.gender == match misc.gender_value {
        Some(v) => Some(v),
        None => o.gender,
    }
    &&& match misc.country {
        Some((texts, code)) => {
            &&& a.country matches Some(c) && c@ == trim(join_with(texts_view(texts@), Seq::empty()))
            &&& a.country_code == match code {
                Some(v) => Some(v),
                None => o.country_code,
            }
        },
        None => a.country == o.country && a.country_code == o.country_code,
    }
    &&& a.username == o.username && a.rank == o.rank && a.join_date == o.join_date
    &&& a.last_activity == o.last_activity && a.passkey == o.passkey
    &&& a.torrents_count == o.torrents_count && a.comments_count == o.comments_count
    &&& a.reputation_score == o.reputation_score && a.sizes@ == o.sizes@
    &&& a.has_tracker_rows == o.has_tracker_rows
}

/// Reads the avatar, e-mail, age, gender and country into the account: each that
/// the page gives replaces the account's; an age of 0 or that is not a number is
/// ignored; the country's name is its text, trimmed.
pub fn apply_misc_infos(account: &mut UserAccount, misc: MiscInfo)
    ensures
        misc_infos_applied(*old(account), misc, *final(account)),
{
    if let Some(src) = misc.avatar_src {
        account.avatar_url = src;
    }
    if let Some(email) = misc.email_value {
        account.email = email;
    }
    if let Some(age) = misc.age_value {
        if let Some(n) = age_of(age.as_str()) {
            account.age = Some(n);
        }
    }
    if let Some(gender) = misc.gender_value {
        account.gender = Some(gender);
    }
    if let Some((texts, code)) = misc.country {
        let joined = join_strings(&texts, "");
        proof {
            reveal_strlit("");
            assert(""@ =~= Seq::<char>::empty());
        }
        account.country = Some(trim_str(joined.as_str()));
        if let Some(c) = code {
            account.country_code = Some(c);
        }
    }
}

/// `misc` holds what the page parsed from `b` gives: the `src` of the first
/// `img.card-img-top`, the `value` of the first e-mail, age and checked gender
/// fields, and the text nodes and `value` of the first selected, enabled
/// `option` of the first country `select`, if any.
pub open spec fn misc_on_page(b: Seq<char>, misc: MiscInfo) -> bool {
    &&& opt_string_view(misc.avatar_src) == first_attribute_in(b, "img.card-img-top"@, "src"@)
    &&& opt_string_view(misc.email_value) == first_attribute_in(b, "input[name=\"email\"]"@, "value"@)
    &&& opt_string_view(misc.age_value) == first_attribute_in(b, "input[name=\"age\"]"@, "value"@)
    &&& opt_string_view(misc.gender_value) == first_attribute_in(
        b,
        "input[name=\"gender\"][checked]"@,
        "value"@,
    )
    &&& match first_of(document_matches(b, "select[name=\"country\"]"@)) {
        None => misc.country is None,
        Some(sel) => match first_of(descendant_matches(b, sel, "option[selected]:not([disabled])"@)) {
            None => misc.country is None,
            Some(o) => misc.country matches Some((t, code)) && texts_view(t@) == element_text(b, o)
                && opt_string_view(code) == element_attribute(b, o, "value"@),
        },
    }
}

/// The selectors that reading the rest of the account page uses all compile.
pub open spec fn misc_selectors_parse() -> bool {
    &&& selector_parses("img.card-img-top"@) && selector_parses("input[name=\"email\"]"@)
    &&& selector_parses("input[name=\"age\"]"@) && selector_parses("input[name=\"gender\"][checked]"@)
    &&& selector_parses("select[name=\"country\"]"@) && selector_parses("option[selected]:not([disabled])"@)
}

/// Reads the avatar, e-mail, age, gender and country of the account page (see
/// `misc_on_page`) into the account (see `apply_misc_infos`).
pub fn parse_misc_infos(page: &Page, account: &mut UserAccount) -> (r: Result<(), String>)
    ensures
        misc_selectors_parse() ==> r is Ok && exists|misc: MiscInfo|
            misc_on_page(page.body(), misc) && misc_infos_applied(*old(account), misc, *final(account)),
        r is Err ==> *final(account) == *old(account),
{
    let avatar_src = first_attr(page, "img.card-img-top", "src")?;
    let email_value = first_attr(page, "input[name=\"email\"]", "value")?;
    let age_value = first_attr(page, "input[name=\"age\"]", "value")?;
    let gender_value = first_attr(page, "input[name=\"gender\"][checked]", "value")?;
    let mut country: Option<(Vec<String>, Option<String>)> = None;
    if let Some(select) = first_in_page(page, "select[name=\"country\"]")? {
        if let Some(option) = first_under(page, select, "option[selected]:not([disabled])")? {
            country = Some((text_of(page, option), attribute_of(page, option, "value")));
        }
    }
    let misc = MiscInfo { avatar_src, email_value, age_value, gender_value, country };
    let ghost before = *account;
    let ghost m = misc;
    apply_misc_infos(account, misc);
    proof {
        if misc_selectors_parse() {
            assert(misc_on_page(page.body(), m) && misc_infos_applied(before, m, *account));
        }
    }
    Ok(())
}

/// An account about which nothing is known.
pub open spec fn is_empty_account(a: UserAccount) -> bool {
    &&& a.username@.len() == 0 && a.rank@.len() == 0 && a.join_date@.len() == 0
    &&& a.last_activity@.len() == 0 && a.passkey@.len() == 0
    &&& a.avatar_url@.len() == 0 && a.email@.len() == 0
    &&& a.torrents_count == 0 && a.comments_count == 0 && a.reputation_score == 0
    &&& a.age is None && a.gender is None && a.country is None && a.country_code is None
    &&& a.sizes@.len() == 0 && !a.has_tracker_rows
}

/// `a` is what the page parsed from `b` gives when its account table is `t`: an
/// empty account with the lines of the account table read into it, then the
/// lines of the tracker table, then the rest of the page.
pub open spec fn account_on_page(b: Seq<char>, t: usize, a: UserAccount) -> bool {
    exists|e: UserAccount, a1: UserAccount, a2: UserAccount, m: MiscInfo|
        #![trigger base_rows_applied(e, table_lines(b, t, false), a1), tracker_rows_applied(a1, tracker_lines(b), a2), misc_infos_applied(a2, m, a)]
        is_empty_account(e) && base_rows_applied(e, table_lines(b, t, false), a1) && tracker_rows_applied(
            a1,
            tracker_lines(b),
            a2,
        ) && misc_on_page(b, m) && misc_infos_applied(a2, m, a)
}

/// Reads the account page: fails with `Account table not found` without an
/// account table; otherwise reads its account table, then its tracker table,
/// then the rest, into an empty account.
pub fn account_from_page(body: &str) -> (r: Result<UserAccount, String>)
    ensures
        !selector_parses("table.detail-account"@) ==> r is Err,
        base_selectors_parse() && tracker_selectors_parse() && misc_selectors_parse() ==> match first_of(
            document_matches(body@, "table.detail-account"@),
        ) {
            None => r is Err && r->Err_0@ == "Account table not found"@,
            Some(t) => r is Ok && account_on_page(body@, t, r->Ok_0),
        },
{
    let page = parse_page(body);
    let mut account = UserAccount::empty();
    let ghost e = account;
    parse_base_infos(&page, &mut account)?;
    let ghost a1 = account;
    parse_tracker_stats(&page, &mut account)?;
    let ghost a2 = account;
    parse_misc_infos(&page, &mut account)?;
    proof {
        if base_selectors_parse() && tracker_selectors_parse() && misc_selectors_parse() {
            let t = first_of(document_matches(body@, "table.detail-account"@))->Some_0;
            let m = choose|misc: MiscInfo| misc_on_page(body@, misc) && misc_infos_applied(a2, misc, account);
            assert(is_empty_account(e));
            assert(base_rows_applied(e, table_lines(body@, t, false), a1) && tracker_rows_applied(
                a1,
                tracker_lines(body@),
                a2,
            ) && misc_infos_applied(a2, m, account));
        }
    }
    Ok(account)
}

} // verus!
