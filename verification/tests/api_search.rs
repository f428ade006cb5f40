use ygege::parser::Torrent;
use ygege::search::{Order, Sort};
use ygege::yggapi::{
    age_stamp_of, convert_api_torrents, finish_search, info_path_of, needs_local_sort,
    retain_unbanned, search_url, sort_to_api, tmdb_url, YggApiTorrent,
};

fn api(id: usize, uploaded_at: &str, link: &str, downloads: Option<usize>) -> YggApiTorrent {
    YggApiTorrent {
        id,
        title: format!("Title {}", id),
        seeders: 3,
        leechers: 1,
        downloads,
        size: 99,
        category_id: 2183,
        uploaded_at: uploaded_at.to_string(),
        link: link.to_string(),
    }
}

fn named(id: usize, name: &str, seed: usize) -> Torrent {
    Torrent {
        category_id: 0,
        name: name.to_string(),
        id,
        comments_count: 0,
        age_stamp: id,
        size: 0,
        completed: 0,
        seed,
        leech: 0,
        info_url: String::new(),
        link: String::new(),
    }
}

fn ids(v: &[Torrent]) -> Vec<usize> {
    v.iter().map(|t| t.id).collect()
}

#[test]
fn api_records_become_torrents() {
    let t = api(5, "2024-01-02T03:04:05Z", "https://ygg.example/torrent/film/5-t", Some(12)).into_torrent();
    assert_eq!(t.id, 5);
    assert_eq!(t.name, "Title 5");
    assert_eq!(t.category_id, 2183);
    assert_eq!((t.seed, t.leech, t.completed, t.comments_count, t.size), (3, 1, 12, 0, 99));
    assert_eq!(t.age_stamp, 1704164645);
    assert_eq!(t.info_url, "/torrent/info/film/5-t");
    assert_eq!(t.link, "https://ygg.example/torrent/film/5-t");

    let t = api(6, "2024-01-02T03:04:05", "no-marker", None).into_torrent();
    assert_eq!(t.age_stamp, 1704164645);
    assert_eq!(t.info_url, "/torrent/info/6");
    assert_eq!(t.completed, 0);
}

#[test]
fn upload_dates_are_read_as_rfc3339_then_naive() {
    assert_eq!(age_stamp_of("2024-01-02T03:04:05+01:00"), 1704161045);
    assert_eq!(age_stamp_of("2024-01-02T03:04:05Z"), 1704164645);
    assert_eq!(age_stamp_of("2024-01-02T03:04:05"), 1704164645);
    assert_eq!(age_stamp_of("yesterday"), 0);
    assert_eq!(age_stamp_of(""), 0);
}

#[test]
fn info_paths() {
    assert_eq!(info_path_of("https://x/torrent/a/torrent/b", 1), "/torrent/info/a/torrent/b");
    assert_eq!(info_path_of("https://x/torrent/", 1), "/torrent/info/");
    assert_eq!(info_path_of("", 77), "/torrent/info/77");
}

#[test]
fn conversion_keeps_the_order() {
    let v = convert_api_torrents(vec![api(1, "", "", None), api(2, "", "", None), api(3, "", "", None)]);
    assert_eq!(ids(&v), vec![1, 2, 3]);
    assert!(convert_api_torrents(Vec::new()).is_empty());
}

#[test]
fn api_sort_names() {
    assert_eq!(sort_to_api(&Sort::Seed), Some("seeders"));
    assert_eq!(sort_to_api(&Sort::PublishDate), Some("uploaded_at"));
    assert_eq!(sort_to_api(&Sort::Completed), Some("downloads"));
    assert_eq!(sort_to_api(&Sort::Name), None);
    assert_eq!(sort_to_api(&Sort::Comments), None);
    assert_eq!(sort_to_api(&Sort::Leech), None);
}

#[test]
fn search_urls() {
    assert_eq!(
        search_url("the matrix", Some(2), &[2145, 2183], Some(Sort::Seed)),
        "https://yggapi.eu/torrents?per_page=100&q=the%20matrix&page=2&category_id=2145&category_id=2183&order_by=seeders"
    );
    assert_eq!(search_url("", Some(0), &[], Some(Sort::Name)), "https://yggapi.eu/torrents?per_page=100");
    assert_eq!(
        search_url("\"été\"", None, &[], None),
        "https://yggapi.eu/torrents?per_page=100&q=%22%C3%A9t%C3%A9%22"
    );
}

#[test]
fn tmdb_urls() {
    assert_eq!(
        tmdb_url(603, Some("movie"), &[2183], Some(Sort::PublishDate)),
        "https://yggapi.eu/torrents?per_page=100&tmdb_id=603&type=movie&category_id=2183&order_by=uploaded_at"
    );
    assert_eq!(tmdb_url(1, None, &[], Some(Sort::Leech)), "https://yggapi.eu/torrents?per_page=100&tmdb_id=1");
}

#[test]
fn local_sort_is_needed_when_the_api_cannot_sort() {
    assert!(needs_local_sort(Some(Sort::Name), None));
    assert!(needs_local_sort(None, Some(Order::Ascending)));
    assert!(needs_local_sort(Some(Sort::Seed), Some(Order::Ascending)));
    assert!(!needs_local_sort(Some(Sort::Seed), Some(Order::Descending)));
    assert!(!needs_local_sort(None, None));
}

#[test]
fn banned_words_are_filtered_ignoring_case() {
    let v = vec![named(1, "Film CAM", 0), named(2, "Film 1080p", 0), named(3, "film TS", 0), named(4, "Été", 0)];
    let kept = retain_unbanned(v.clone(), &vec!["cam".to_string(), "ts".to_string()]);
    assert_eq!(ids(&kept), vec![2, 4]);
    let kept = retain_unbanned(v.clone(), &vec!["ÉTÉ".to_string()]);
    assert_eq!(ids(&kept), vec![1, 2, 3]);
    assert_eq!(ids(&retain_unbanned(v.clone(), &Vec::new())), vec![1, 2, 3, 4]);
    assert!(retain_unbanned(v, &vec![String::new()]).is_empty());
}

#[test]
fn finishing_a_search_filters_then_sorts_when_needed() {
    let v = vec![named(1, "b", 5), named(2, "a cam", 9), named(3, "c", 7)];
    let r = finish_search(v.clone(), Some(&vec!["CAM".to_string()]), Some(Sort::Seed), Some(Order::Ascending));
    assert_eq!(ids(&r), vec![1, 3]);
    let r = finish_search(v.clone(), None, Some(Sort::Seed), Some(Order::Descending));
    assert_eq!(ids(&r), vec![1, 2, 3]);
    let r = finish_search(v.clone(), None, Some(Sort::Name), None);
    assert_eq!(ids(&r), vec![3, 1, 2]);
}
