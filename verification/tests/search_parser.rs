use ygege::parser::{
    absolute_link, extract_torrent_rows, first_text_usize, info_url_from_link, size_parts, torrent_row,
    RowCells, Torrent,
};
use ygege::search::{search_categories, search_query_text, Order, Sort};

fn torrent(id: usize, name: &str, seed: usize, age_stamp: usize) -> Torrent {
    Torrent {
        category_id: 2183,
        name: name.to_string(),
        id,
        comments_count: id % 3,
        age_stamp,
        size: 1024,
        completed: 10 * id,
        seed,
        leech: 100 - id,
        info_url: format!("/torrent/info/{}", id),
        link: format!("https://example.org/torrent/{}", id),
    }
}

fn ids(v: &[Torrent]) -> Vec<usize> {
    v.iter().map(|t| t.id).collect()
}

#[test]
fn sort_and_order_have_textual_names() {
    let all = [
        (Sort::Name, "name"),
        (Sort::Seed, "seed"),
        (Sort::Comments, "comments"),
        (Sort::PublishDate, "publish_date"),
        (Sort::Completed, "completed"),
        (Sort::Leech, "leech"),
    ];
    for (s, n) in all {
        assert_eq!(s.as_str(), n);
        assert_eq!(Sort::from_str(n), Ok(s));
    }
    assert_eq!(Order::Ascending.as_str(), "asc");
    assert_eq!(Order::Descending.as_str(), "desc");
    assert_eq!(Order::from_str("asc"), Ok(Order::Ascending));
    assert_eq!(Order::from_str("desc"), Ok(Order::Descending));
}

#[test]
fn unknown_sort_names_are_refused() {
    assert_eq!(Sort::from_str("size"), Err("Valeur de tri invalide : size".to_string()));
    assert_eq!(Sort::from_str("Name"), Err("Valeur de tri invalide : Name".to_string()));
    assert_eq!(Order::from_str("up"), Err("Ordre invalide : up".to_string()));
    assert_eq!(Order::from_str(""), Err("Ordre invalide : ".to_string()));
    assert_eq!("seed".parse::<Sort>(), Ok(Sort::Seed));
    assert_eq!("up".parse::<Order>(), Err("Ordre invalide : up".to_string()));
}

#[test]
fn quote_search_quotes_each_word() {
    assert_eq!(search_query_text("the matrix", false), "the matrix");
    assert_eq!(search_query_text("the+matrix  1999", true), "\"the\" \"matrix\" \"1999\"");
    assert_eq!(search_query_text("", true), "");
    assert_eq!(search_query_text("%C3%A9t%C3%A9+x", true), "\"été\" \"x\"");
    assert_eq!(search_query_text("+ +", true), "");
    assert_eq!(search_query_text("100%", true), "\"100%\"");
}

#[test]
fn search_categories_lists_category_then_subcategory() {
    assert_eq!(search_categories(Some(2145), Some(2183)), vec![2145, 2183]);
    assert_eq!(search_categories(None, Some(5)), vec![5]);
    assert_eq!(search_categories(Some(7), None), vec![7]);
    assert!(search_categories(None, None).is_empty());
}

#[test]
fn torrent_urls() {
    let t = torrent(42, "x", 0, 0);
    assert_eq!(
        t.get_url("www.yggtorrent.top"),
        "https://www.yggtorrent.top/engine/download_torrent?id=42"
    );
    assert_eq!(t.get_download_url(), "/torrent/42");
    assert_eq!(torrent(0, "x", 0, 0).get_download_url(), "/torrent/0");
}

#[test]
fn default_sort_is_newest_first() {
    let mut v = vec![torrent(1, "a", 0, 10), torrent(2, "b", 0, 30), torrent(3, "c", 0, 20)];
    Torrent::sort(&mut v, None, None);
    assert_eq!(ids(&v), vec![2, 3, 1]);
    Torrent::sort(&mut v, None, Some(Order::Ascending));
    assert_eq!(ids(&v), vec![1, 3, 2]);
}

#[test]
fn sort_is_stable_for_equal_keys() {
    let mut v = vec![
        torrent(1, "a", 5, 0),
        torrent(2, "b", 9, 0),
        torrent(3, "c", 5, 0),
        torrent(4, "d", 9, 0),
        torrent(5, "e", 1, 0),
    ];
    Torrent::sort(&mut v, Some(Sort::Seed), Some(Order::Descending));
    assert_eq!(ids(&v), vec![2, 4, 1, 3, 5]);
    Torrent::sort(&mut v, Some(Sort::Seed), Some(Order::Ascending));
    assert_eq!(ids(&v), vec![5, 1, 3, 2, 4]);
}

#[test]
fn sort_by_name_ignores_case() {
    let mut v = vec![
        torrent(1, "beta", 0, 0),
        torrent(2, "Alpha", 0, 0),
        torrent(3, "alpha", 0, 0),
        torrent(4, "Été", 0, 0),
        torrent(5, "gamma", 0, 0),
    ];
    Torrent::sort(&mut v, Some(Sort::Name), Some(Order::Ascending));
    assert_eq!(ids(&v), vec![2, 3, 1, 5, 4]);
    Torrent::sort(&mut v, Some(Sort::Name), None);
    assert_eq!(ids(&v), vec![4, 5, 1, 2, 3]);
}

#[test]
fn sort_by_each_counter() {
    let base = vec![torrent(1, "a", 3, 1), torrent(2, "b", 1, 2), torrent(3, "c", 2, 3)];
    let mut v = base.clone();
    Torrent::sort(&mut v, Some(Sort::Completed), Some(Order::Ascending));
    assert_eq!(ids(&v), vec![1, 2, 3]);
    let mut v = base.clone();
    Torrent::sort(&mut v, Some(Sort::Leech), Some(Order::Ascending));
    assert_eq!(ids(&v), vec![3, 2, 1]);
    let mut v = base.clone();
    Torrent::sort(&mut v, Some(Sort::Comments), Some(Order::Descending));
    assert_eq!(ids(&v), vec![2, 1, 3]);
    let mut v: Vec<Torrent> = Vec::new();
    Torrent::sort(&mut v, Some(Sort::Name), None);
    assert!(v.is_empty());
}

#[test]
fn sorting_a_sorted_list_changes_nothing() {
    let mut v = vec![torrent(1, "a", 9, 0), torrent(2, "b", 5, 0), torrent(3, "c", 5, 0)];
    let before = v.clone();
    Torrent::sort(&mut v, Some(Sort::Seed), Some(Order::Descending));
    assert_eq!(v, before);
}

#[test]
fn links_are_made_absolute() {
    assert_eq!(absolute_link("/torrent/a/1-x", "ygg.example"), "https://ygg.example/torrent/a/1-x");
    assert_eq!(absolute_link("https://other/torrent/1", "ygg.example"), "https://other/torrent/1");
    assert_eq!(absolute_link("http://other/x", "ygg.example"), "http://other/x");
    assert_eq!(absolute_link("", "d"), "https://d");
}

#[test]
fn info_url_takes_the_segment_after_torrent() {
    assert_eq!(
        info_url_from_link("https://d/torrent/filmvideo/film/123-abc"),
        "/torrent/info/filmvideo/film/123-abc"
    );
    assert_eq!(info_url_from_link("https://d/torrent/a/torrent/b"), "/torrent/info/a");
    assert_eq!(info_url_from_link("/torrent/"), "/torrent/info/");
}

#[test]
fn first_text_reads_a_number_or_zero() {
    assert_eq!(first_text_usize(&vec![" 12 ".to_string(), "7".to_string()]), 12);
    assert_eq!(first_text_usize(&vec!["x".to_string()]), 0);
    assert_eq!(first_text_usize(&vec!["-3".to_string()]), 0);
    assert_eq!(first_text_usize(&Vec::new()), 0);
}

#[test]
fn size_parts_splits_number_and_unit() {
    assert_eq!(size_parts("1.5 Go"), Ok(("1.5".to_string(), 3)));
    assert_eq!(size_parts("  700Mo "), Ok(("700".to_string(), 2)));
    assert_eq!(size_parts("12o"), Ok(("12".to_string(), 0)));
    assert_eq!(size_parts("3 ko"), Ok(("3".to_string(), 1)));
    assert_eq!(size_parts("2To"), Ok(("2".to_string(), 4)));
    assert_eq!(size_parts(" abc "), Err("Format invalide : abc".to_string()));
    assert_eq!(size_parts(""), Err("Format invalide : ".to_string()));
    assert_eq!(size_parts("12 Xo"), Err("Unité non supportée : Xo".to_string()));
    assert_eq!(size_parts("12"), Err("Unité non supportée : ".to_string()));
}

const PAGE: &str = "<html><body>
<div id='#torrents'><div class='table-responsive'><table>
<thead><tr><th>a</th></tr></thead>
<tbody>
<tr>
 <td><div class='hidden'>2183</div></td>
 <td><a id='torrent_name' href='/torrent/filmvideo/film/123-the-matrix'>The Matrix</a></td>
 <td><a id='get_nfo' target='123'>nfo</a></td>
 <td>5</td>
 <td><div class='hidden'>1700000000</div>il y a 2 jours</td>
 <td>1.5 Go</td>
 <td>100</td>
 <td>20</td>
 <td>3</td>
</tr>
<tr><td>too</td><td>short</td></tr>
<tr>
 <td><div>x</div></td>
 <td><a id='torrent_name' href='https://mirror.example/torrent/serie/9-show'>Show</a></td>
 <td></td>
 <td>n/a</td>
 <td></td>
 <td>700 Mo</td>
 <td>1</td>
 <td>2</td>
 <td>3</td>
</tr>
</tbody></table></div></div>
</body></html>";

#[test]
fn test_extract_torrents() {
    let rows = extract_torrent_rows(PAGE, "www.yggtorrent.top").unwrap();
    assert_eq!(rows.len(), 2);
    let first = &rows[0];
    assert_eq!(first.category_id, 2183);
    assert_eq!(first.name, "The Matrix");
    assert_eq!(first.id, 123);
    assert_eq!(first.comments_count, 5);
    assert_eq!(first.age_stamp, 1700000000);
    assert_eq!(first.size_text.as_deref(), Some("1.5 Go"));
    assert_eq!((first.completed, first.seed, first.leech), (100, 20, 3));
    assert_eq!(
        first.link.as_deref(),
        Some("https://www.yggtorrent.top/torrent/filmvideo/film/123-the-matrix")
    );
    let second = &rows[1];
    assert_eq!((second.category_id, second.id, second.comments_count, second.age_stamp), (0, 0, 0, 0));
    assert_eq!(second.link.as_deref(), Some("https://mirror.example/torrent/serie/9-show"));

    let torrents: Vec<Torrent> = extract_torrent_rows(PAGE, "www.yggtorrent.top")
        .unwrap()
        .into_iter()
        .map(|r| r.into_torrent(1_610_612_736))
        .collect();
    assert_eq!(torrents[0].info_url, "/torrent/info/filmvideo/film/123-the-matrix");
    assert_eq!(torrents[0].size, 1_610_612_736);
    assert_eq!(torrents[1].info_url, "/torrent/info/serie/9-show");
    for t in &torrents {
        println!("{} : {}", t.name, t.get_url("www.yggtorrent.top"));
    }
}

#[test]
fn an_empty_result_page_has_no_torrents() {
    let rows = extract_torrent_rows("<p>Aucun résultat pour cette recherche</p>", "d").unwrap();
    assert!(rows.is_empty());
    let missing = extract_torrent_rows("<p>rien</p>", "d");
    assert_eq!(missing.unwrap_err(), "Unable to find table");
}

#[test]
fn a_row_without_link_has_empty_urls() {
    let page = PAGE.replace("id='torrent_name' href='/torrent/filmvideo/film/123-the-matrix'", "");
    let rows = extract_torrent_rows(&page, "d").unwrap();
    assert!(rows[0].link.is_none());
    let t = extract_torrent_rows(&page, "d").unwrap().remove(0).into_torrent(0);
    assert_eq!(t.link, "");
    assert_eq!(t.info_url, "");
}

fn texts(v: &[&str]) -> Vec<String> {
    v.iter().map(|t| t.to_string()).collect()
}

#[test]
fn a_row_is_read_from_its_cells() {
    let cells = RowCells {
        category_texts: Some(texts(&[" 2183 ", "x"])),
        name_texts: texts(&["  The", "Matrix ", ""]),
        nfo_target: Some("123".to_string()),
        comments_texts: texts(&["7"]),
        age_texts: texts(&["1700000000"]),
        size_texts: texts(&[" 1.5 Go ", "ignored"]),
        completed_texts: texts(&["x"]),
        seed_texts: Vec::new(),
        leech_texts: texts(&[" 4"]),
        href: Some("/torrent/a/1-b".to_string()),
    };
    let r = torrent_row(cells, "ygg.example");
    assert_eq!(r.category_id, 2183);
    assert_eq!(r.name, "The Matrix");
    assert_eq!(r.id, 123);
    assert_eq!((r.comments_count, r.age_stamp), (7, 1700000000));
    assert_eq!(r.size_text.as_deref(), Some("1.5 Go"));
    assert_eq!((r.completed, r.seed, r.leech), (0, 0, 4));
    assert_eq!(r.link.as_deref(), Some("https://ygg.example/torrent/a/1-b"));

    let r = torrent_row(
        RowCells {
            category_texts: None,
            name_texts: Vec::new(),
            nfo_target: Some(" 5".to_string()),
            comments_texts: Vec::new(),
            age_texts: Vec::new(),
            size_texts: Vec::new(),
            completed_texts: Vec::new(),
            seed_texts: Vec::new(),
            leech_texts: Vec::new(),
            href: None,
        },
        "d",
    );
    assert_eq!((r.category_id, r.id), (0, 0));
    assert_eq!(r.name, "");
    assert!(r.size_text.is_none() && r.link.is_none());
}

#[test]
fn a_one_cell_row_is_skipped() {
    let body = "<div id='#torrents'><div class='table-responsive'><table><tbody><tr><td>h</td></tr><tr><td><div>2183</div></td><td><a id='torrent_name' href='https://x.org/torrent/film/1-a'>Foo</a></td><td><a id='get_nfo' target='42'></a></td><td>3</td><td><div class='hidden'>99</div></td><td>1.5 Go</td><td>10</td><td>5</td><td>2</td></tr></tbody></table></div></div>";
    let rows = extract_torrent_rows(body, "x.org").unwrap();
    assert_eq!(rows.len(), 1);
    let t = rows.into_iter().next().unwrap().into_torrent(1_610_612_736);
    assert_eq!(
        t,
        Torrent {
            category_id: 2183,
            name: "Foo".into(),
            id: 42,
            comments_count: 3,
            age_stamp: 99,
            size: 1_610_612_736,
            completed: 10,
            seed: 5,
            leech: 2,
            info_url: "/torrent/info/film/1-a".into(),
            link: "https://x.org/torrent/film/1-a".into(),
        }
    );
}
