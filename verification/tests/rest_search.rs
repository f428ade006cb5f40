use ygege::parser::Torrent;
use ygege::urls::is_qstring_safe;
use ygege::rest::search::{
    combine_best_results, combine_category_results, contains_torrent, dedup_torrents,
    parse_ban_words, parse_category_list, parse_search_query, plan_search, DatabaseKind,
    SearchRoute,
};
use ygege::search::{Order, Sort};

fn torrent(id: usize, seed: usize) -> Torrent {
    Torrent {
        category_id: 1,
        name: format!("t{}", id),
        id,
        comments_count: 0,
        age_stamp: 1000 + id,
        size: 0,
        completed: 0,
        seed,
        leech: 0,
        info_url: String::new(),
        link: String::new(),
    }
}

fn many(from: usize, n: usize) -> Vec<Torrent> {
    (from..from + n).map(|i| torrent(i, i)).collect()
}

fn ids(v: &[Torrent]) -> Vec<usize> {
    v.iter().map(|t| t.id).collect()
}

#[test]
fn ban_words_are_trimmed_and_nonempty() {
    assert_eq!(
        parse_ban_words(" foo, ,BAR ,"),
        Some(vec!["foo".to_string(), "BAR".to_string()])
    );
    assert_eq!(parse_ban_words("  , "), None);
    assert_eq!(parse_ban_words(""), None);
    assert_eq!(parse_ban_words("cam"), Some(vec!["cam".to_string()]));
}

#[test]
fn category_lists_keep_the_numbers() {
    assert_eq!(parse_category_list("2145%2C2183, x ,7"), Some(vec![2145, 2183, 7]));
    assert_eq!(parse_category_list("x,,y"), None);
    assert_eq!(parse_category_list(" 12 "), Some(vec![12]));
    assert_eq!(parse_category_list("-1,3"), Some(vec![3]));
}

#[test]
fn search_query_parameters_are_read() {
    let r = parse_search_query(
        "q=matrix&offset=2&category=2145&sub_category=x&sort=seed&order=asc&ban_words=cam,ts&quote_search=true",
    );
    assert_eq!(r.name, "matrix");
    assert_eq!(r.offset, Some(2));
    assert_eq!(r.category, Some(2145));
    assert_eq!(r.sub_category, None);
    assert_eq!(r.sort, Some(Sort::Seed));
    assert_eq!(r.order, Some(Order::Ascending));
    assert_eq!(r.ban_words, Some(vec!["cam".to_string(), "ts".to_string()]));
    assert!(r.quote_search);
    assert!(!r.connarr);
    assert_eq!(r.categories, None);
    assert_eq!(r.tmdb_id, None);
    assert_eq!(r.imdb_id, None);
}

#[test]
fn name_wins_over_q_and_unknown_sorts_are_dropped() {
    let r = parse_search_query("?name=a%20b&q=other&sort=size&order=down&quote_search=1");
    assert_eq!(r.name, "a b");
    assert_eq!(r.sort, None);
    assert_eq!(r.order, None);
    assert!(!r.quote_search);
    let empty = parse_search_query("");
    assert_eq!(empty.name, "");
    assert_eq!(empty.offset, None);
}

#[test]
fn connarr_drops_long_category_lists() {
    let r = parse_search_query("categories=1,2,3&connarr");
    assert!(r.connarr);
    assert_eq!(r.categories, None);
    let r = parse_search_query("categories=1,2&connarr=1");
    assert_eq!(r.categories, Some(vec![1, 2]));
    let r = parse_search_query("categories=1,2,3");
    assert_eq!(r.categories, Some(vec![1, 2, 3]));
}

#[test]
fn plans_a_database_search_with_a_token() {
    let req = parse_search_query("tmdbid=603&imdbid=tt0133093&sort=name");
    let p = plan_search(&req, true);
    match p.route {
        SearchRoute::Database { tmdb_id, db_id, kind } => {
            assert_eq!(tmdb_id, Some(603));
            assert_eq!(db_id, "603");
            assert_eq!(kind, DatabaseKind::Tmdb);
        }
        other => panic!("unexpected route {:?}", other),
    }
    assert_eq!(p.sort, Some(Sort::Name));
    let req = parse_search_query("imdbid=tt0133093");
    match plan_search(&req, true).route {
        SearchRoute::Database { tmdb_id, db_id, kind } => {
            assert_eq!(tmdb_id, None);
            assert_eq!(db_id, "tt0133093");
            assert_eq!(kind, DatabaseKind::Imdb);
        }
        other => panic!("unexpected route {:?}", other),
    }
}

#[test]
fn plans_nothing_for_an_id_without_token() {
    let req = parse_search_query("imdbid=tt0133093&name=x");
    assert!(matches!(plan_search(&req, false).route, SearchRoute::NoDatabaseToken));
}

#[test]
fn plans_rss_and_category_searches() {
    let req = parse_search_query("connarr&sort=seed&order=asc");
    let p = plan_search(&req, false);
    assert_eq!(p.sort, Some(Sort::PublishDate));
    assert_eq!(p.order, Some(Order::Descending));
    assert!(matches!(p.route, SearchRoute::Standard));

    let req = parse_search_query("name=x&categories=5,6&sort=seed");
    let p = plan_search(&req, true);
    assert_eq!(p.sort, Some(Sort::Seed));
    match p.route {
        SearchRoute::Categories { categories } => assert_eq!(categories, vec![5, 6]),
        other => panic!("unexpected route {:?}", other),
    }

    let req = parse_search_query("name=x&category=1&categories=5,6");
    assert!(matches!(plan_search(&req, false).route, SearchRoute::Standard));
}

#[test]
fn dedup_keeps_first_occurrences() {
    let v = vec![torrent(1, 1), torrent(2, 2), torrent(1, 1), torrent(3, 3), torrent(2, 2)];
    assert_eq!(ids(&dedup_torrents(v)), vec![1, 2, 3]);
    let mut other = torrent(1, 1);
    other.seed = 9;
    let v = vec![torrent(1, 1), other.clone()];
    assert_eq!(dedup_torrents(v).len(), 2);
    assert!(contains_torrent(&vec![torrent(4, 4)], &torrent(4, 4)));
    assert!(!contains_torrent(&vec![torrent(4, 4)], &other));
    assert!(dedup_torrents(Vec::new()).is_empty());
}

#[test]
fn category_results_are_merged_once_and_sorted() {
    let results = vec![
        Ok(vec![torrent(1, 5), torrent(2, 7)]),
        Err("boom".to_string()),
        Ok(vec![torrent(2, 7), torrent(3, 6)]),
    ];
    let r = combine_category_results(results, Some(Sort::Seed), Some(Order::Descending));
    assert_eq!(ids(&r), vec![2, 3, 1]);
    let r = combine_category_results(vec![Err("x".to_string())], None, None);
    assert!(r.is_empty());
}

#[test]
fn best_results_take_the_first_large_answer() {
    let results = vec![Ok(many(10, 3)), Ok(many(20, 6)), Ok(many(30, 7))];
    let r = combine_best_results(results, Some(Sort::Seed), Some(Order::Ascending));
    assert_eq!(ids(&r), vec![20, 21, 22, 23, 24, 25]);
}

#[test]
fn best_results_gather_fives_and_a_first_small_answer() {
    let results = vec![
        Err("down".to_string()),
        Ok(many(1, 2)),
        Ok(many(10, 1)),
        Ok(many(20, 5)),
        Ok(Vec::new()),
        Ok(many(1, 2)),
    ];
    let r = combine_best_results(results, Some(Sort::Seed), Some(Order::Ascending));
    assert_eq!(ids(&r), vec![1, 2, 20, 21, 22, 23, 24]);
    let r = combine_best_results(vec![Ok(Vec::new()), Err("e".to_string())], None, None);
    assert!(r.is_empty());
    let r = combine_best_results(vec![Ok(many(5, 5)), Ok(many(1, 2))], Some(Sort::Seed), None);
    assert_eq!(ids(&r), vec![9, 8, 7, 6, 5]);
}

#[test]
fn qstring_safety_of_query_strings() {
    assert!(is_qstring_safe(""));
    assert!(is_qstring_safe("name=é&q=ü"));
    assert!(is_qstring_safe("?a=1&b=2"));
    assert!(!is_qstring_safe("é=a"));
    assert!(!is_qstring_safe("a=1&é"));
    assert!(!is_qstring_safe("=é"));
    assert!(!is_qstring_safe("?é"));
    assert!(!is_qstring_safe("?==é"));
    assert!(is_qstring_safe("aé=1"));
}

#[test]
fn the_connarr_feed_ignores_sort_and_order() {
    let a = parse_search_query("connarr&sort=seed&order=asc&offset=50");
    let b = parse_search_query("connarr&sort=name&order=desc&offset=50");
    let pa = plan_search(&a, true);
    let pb = plan_search(&b, true);
    assert_eq!((pa.sort, pa.order), (Some(Sort::PublishDate), Some(Order::Descending)));
    assert_eq!((pb.sort, pb.order), (Some(Sort::PublishDate), Some(Order::Descending)));
    assert!(matches!(pa.route, SearchRoute::Standard) && matches!(pb.route, SearchRoute::Standard));
    assert_eq!((a.offset, b.offset), (Some(50), Some(50)));
}
