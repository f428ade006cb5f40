use ygege::categories::{categories_from_page, category_from_links, extract_param, replace_str, MenuLink};
use ygege::config::{
    check_file_config, config_from_env, level_from_config, parse_log_level, Config, EnvVars,
    LogLevel,
};
use ygege::user::{
    account_from_page, age_of, amount_parts, apply_base_info, apply_base_rows, apply_misc_infos,
    apply_tracker_info, apply_tracker_rows, MiscInfo, SizeField, UserAccount,
};
use ygege::utils::{remaining_downloads_from_page, remaining_from_counter, remaining_from_note};

#[test]
fn link_parameters() {
    let href = "/engine/search?category=2145&sub_category=2183";
    assert_eq!(extract_param(href, "sub_category"), Some("2183".to_string()));
    assert_eq!(extract_param(href, "category"), Some("2145".to_string()));
    assert_eq!(extract_param("a=b=c", "a"), Some("b".to_string()));
    assert_eq!(extract_param("x", "y"), None);
    assert_eq!(extract_param("foo&bar=1", "foo"), None);
}

#[test]
fn replacing_text() {
    assert_eq!(replace_str("a\n\t\t\t\t\t\t\tb", "\n\t\t\t\t\t\t\t", " "), "a b");
    assert_eq!(replace_str("aaa", "aa", "b"), "ba");
    assert_eq!(replace_str("1,5,", ",", "."), "1.5.");
    assert_eq!(replace_str("", ",", "."), "");
}

const MENU: &str = "<div id=\"cat\"><ul>
<li><a href=\"/engine/search?category=2145\">
 Film / Vidéo
</a><a href=\"/engine/search?category=2145&amp;sub_category=2178\">Animation</a><a href=\"/x\">nothing</a></li>
<li class=\"misc\"><a href=\"/engine/search?category=1\">misc</a></li>
<li><a href=\"/nocat\">x</a></li>
<li></li>
</ul></div>";

#[test]
fn categories_are_read_from_the_menu() {
    let cats = categories_from_page(MENU).unwrap();
    assert_eq!(cats.len(), 1);
    assert_eq!(cats[0].id, 2145);
    assert_eq!(cats[0].name, "Film / Vidéo");
    assert_eq!(cats[0].sub_categories.len(), 1);
    assert_eq!(cats[0].sub_categories[0].id, 2178);
    assert_eq!(cats[0].sub_categories[0].name, "Animation");
    assert!(categories_from_page("<p>none</p>").unwrap().is_empty());
    let bad = MENU.replace("category=2145\"", "category=abc\"");
    assert_eq!(categories_from_page(&bad).unwrap_err(), "invalid digit found in string");
}

#[test]
fn account_lines() {
    let mut a = UserAccount::empty();
    apply_base_info(&mut a, "Pseudo :", "bob (Membre)");
    assert_eq!((a.username.as_str(), a.rank.as_str()), ("bob", "Membre"));
    apply_base_info(&mut a, "Pseudo", "alice");
    assert_eq!((a.username.as_str(), a.rank.as_str()), ("alice", ""));
    apply_base_info(&mut a, "Mes torrents", "12");
    apply_base_info(&mut a, "Commentaires", "x");
    apply_base_info(&mut a, "Réputation", "-5");
    apply_base_info(&mut a, "Date d'inscription", "01/02/2020");
    apply_base_info(&mut a, "Dernière activité", "hier");
    apply_base_info(&mut a, "Autre", "ignored");
    assert_eq!((a.torrents_count, a.comments_count, a.reputation_score), (12, 0, -5));
    assert_eq!(a.join_date, "01/02/2020");
    assert_eq!(a.last_activity, "hier");

    apply_tracker_info(&mut a, "Passkey", "abc123");
    apply_tracker_info(&mut a, "Qtt uploadée", "1,5 Go");
    apply_tracker_info(&mut a, "Qtt téléchargée", "700 Mo");
    apply_tracker_info(&mut a, "Ratio", "2");
    assert_eq!(a.passkey, "abc123");
    assert_eq!(
        a.sizes,
        vec![(SizeField::Uploaded, "1,5 Go".to_string()), (SizeField::Downloaded, "700 Mo".to_string())]
    );
    assert!(a.has_tracker_rows);
}

#[test]
fn amounts_split_into_number_and_unit() {
    assert_eq!(amount_parts("1,5 Go"), Some(("1.5".to_string(), 3)));
    assert_eq!(amount_parts("12 o"), Some(("12".to_string(), 0)));
    assert_eq!(amount_parts("3 Po"), Some(("3".to_string(), 5)));
    assert_eq!(amount_parts("2Ko"), Some(("2".to_string(), 1)));
    assert_eq!(amount_parts("4 To"), Some(("4".to_string(), 4)));
    assert_eq!(amount_parts("9 Mo"), Some(("9".to_string(), 2)));
    assert_eq!(amount_parts("abc"), None);
    assert_eq!(amount_parts(""), None);
    assert_eq!(age_of("25"), Some(25));
    assert_eq!(age_of("0"), None);
    assert_eq!(age_of("x"), None);
}

const ACCOUNT: &str = "<html><body>
<table class=\"detail-account\">
<tr><td>Pseudo</td><td> bob (Membre) </td></tr>
<tr><td>Mes torrents</td><td>4</td></tr>
<tr><td>Réputation</td><td>17</td></tr>
<tr><td>seul</td></tr>
</table>
<section class=\"content\"><h2>Autre</h2><table><tr><td>Passkey</td><td>wrong</td></tr></table></section>
<section class=\"content\"><h2>Informations relatives au Tracker</h2><table>
<tr><td> Passkey </td><td> pk </td></tr>
<tr><td>Qtt uploadée</td><td>2 Go</td></tr>
<tr><td>Qtt téléchargée</td><td>1 Go</td></tr>
</table></section>
<img class=\"card-img-top\" src=\"/avatar.png\">
<input name=\"email\" value=\"bob@example.org\">
<input name=\"age\" value=\"30\">
<input name=\"gender\" value=\"m\" checked>
<select name=\"country\"><option value=\"\" disabled selected>--</option><option value=\"FR\" selected> France </option></select>
</body></html>";

#[test]
fn account_page_is_read() {
    let a = account_from_page(ACCOUNT).unwrap();
    assert_eq!(a.username, "bob");
    assert_eq!(a.rank, "Membre");
    assert_eq!(a.torrents_count, 4);
    assert_eq!(a.reputation_score, 17);
    assert_eq!(a.passkey, "pk");
    assert_eq!(a.sizes.len(), 2);
    assert_eq!(a.avatar_url, "/avatar.png");
    assert_eq!(a.email, "bob@example.org");
    assert_eq!(a.age, Some(30));
    assert_eq!(a.gender.as_deref(), Some("m"));
    assert_eq!(a.country.as_deref(), Some("France"));
    assert_eq!(a.country_code.as_deref(), Some("FR"));
    assert_eq!(account_from_page("<p></p>").unwrap_err(), "Account table not found");
}

#[test]
fn remaining_download_counters() {
    assert_eq!(remaining_from_counter("3/10"), Ok(3));
    assert_eq!(remaining_from_counter(" 7 / 10"), Ok(7));
    assert_eq!(remaining_from_counter("a/b"), Err("invalid digit found in string".to_string()));
    assert_eq!(remaining_from_counter("1/2/3"), Err("Invalid remaining downloads format".to_string()));
    assert_eq!(remaining_from_counter("5"), Err("Invalid remaining downloads format".to_string()));
    assert_eq!(remaining_from_counter("/5"), Err("cannot parse integer from empty string".to_string()));
    assert_eq!(
        remaining_from_counter("70000/1"),
        Err("number too large to fit in target type".to_string())
    );
}

#[test]
fn remaining_downloads_on_a_page() {
    assert_eq!(remaining_downloads_from_page("<p>Limite atteinte</p>"), Ok(0));
    assert_eq!(remaining_downloads_from_page("<p>nothing</p>"), Ok(u16::MAX));
    assert_eq!(
        remaining_downloads_from_page("<small style=\"color: #888;\">none</small>"),
        Err("Strong tag not found in remaining downloads info".to_string())
    );
    assert_eq!(
        remaining_downloads_from_page(
            "<small style=\"color: #888;\">Restants : <strong>4/10</strong></small>"
        ),
        Ok(4)
    );
}

#[test]
fn default_configuration() {
    let c = Config::default();
    assert_eq!(c.username, "your_ygg_username");
    assert_eq!(c.password, "your_ygg_password");
    assert_eq!(c.bind_ip, "0.0.0.0");
    assert_eq!(c.bind_port, 8715);
    assert_eq!(c.log_level, LogLevel::Debug);
    assert!(c.tmdb_token.is_none() && c.ygg_domain.is_none());
    assert!(c.turbo_enabled.is_none() && c.scrappey_api_key.is_none());
    assert_eq!(
        check_file_config(c).unwrap_err(),
        "Please set a valid YGG_USERNAME and YGG_PASSWORD in config.json."
    );
}

#[test]
fn log_levels() {
    for (l, n) in [
        (LogLevel::Off, "off"),
        (LogLevel::Error, "error"),
        (LogLevel::Warn, "warn"),
        (LogLevel::Info, "info"),
        (LogLevel::Debug, "debug"),
        (LogLevel::Trace, "trace"),
    ] {
        assert_eq!(l.as_str(), n);
        assert_eq!(parse_log_level(n), Some(l));
        assert_eq!(parse_log_level(&n.to_uppercase()), Some(l));
        assert_eq!(level_from_config(&n.to_uppercase()), Ok(l));
    }
    assert_eq!(parse_log_level("DeBuG"), Some(LogLevel::Debug));
    assert_eq!(parse_log_level("verbose"), None);
    assert_eq!(level_from_config("nope"), Err("Niveau de log invalide".to_string()));
}

fn env(user: Option<&str>, pass: Option<&str>) -> EnvVars {
    EnvVars {
        ygg_username: user.map(|s| s.to_string()),
        ygg_password: pass.map(|s| s.to_string()),
        ..EnvVars::default()
    }
}

#[test]
fn configuration_from_environment() {
    assert_eq!(config_from_env(env(None, Some("p"))).unwrap_err(), "YGG_USERNAME env var is undefined");
    assert_eq!(config_from_env(env(Some("u"), None)).unwrap_err(), "YGG_PASSWORD env var is undefined");
    let c = config_from_env(env(Some("u"), Some("p"))).unwrap();
    assert_eq!((c.username.as_str(), c.password.as_str(), c.bind_ip.as_str()), ("u", "p", "0.0.0.0"));
    assert_eq!(c.bind_port, 8715);
    assert_eq!(c.log_level, LogLevel::Debug);
    assert_eq!(c.turbo_enabled, None);

    let mut e = env(Some("u"), Some("p"));
    e.bind_port = Some("70000".to_string());
    assert_eq!(
        config_from_env(e).unwrap_err(),
        "BIND_PORT must be a valid number between 1 and 65535"
    );
    let mut e = env(Some("u"), Some("p"));
    e.log_level = Some("loud".to_string());
    assert_eq!(
        config_from_env(e).unwrap_err(),
        "LOG_LEVEL must be a valid log level (off, error, warn, info, debug, trace)"
    );
    let mut e = env(Some("u"), Some("p"));
    e.bind_ip = Some("127.0.0.1".to_string());
    e.bind_port = Some("9000".to_string());
    e.log_level = Some("WARN".to_string());
    e.turbo_enabled = Some("yes".to_string());
    e.tmdb_token = Some("tok".to_string());
    e.scrappey_api_key = Some("key".to_string());
    let c = config_from_env(e).unwrap();
    assert_eq!((c.bind_ip.as_str(), c.bind_port, c.log_level), ("127.0.0.1", 9000, LogLevel::Warn));
    assert_eq!(c.turbo_enabled, Some(false));
    assert_eq!(c.tmdb_token.as_deref(), Some("tok"));
    assert_eq!(c.scrappey_api_key.as_deref(), Some("key"));
    assert_eq!(c.ygg_domain, None);

    let mut ok = Config::default();
    ok.username = "me".to_string();
    ok.password = "secret".to_string();
    let checked = check_file_config(ok).unwrap();
    assert_eq!(checked.username, "me");
}

fn link(href: &str, texts: &[&str]) -> MenuLink {
    MenuLink { href: href.to_string(), texts: texts.iter().map(|t| t.to_string()).collect() }
}

#[test]
fn a_menu_entry_gives_a_category() {
    let links = vec![
        link("/engine/search?category=2139", &["\n\t\t\t\t\t\t\tAudio", "\n\t\t\t\t\t\t\tMusique "]),
        link("/engine/search?category=2139&sub_category=2147", &["Karaoké"]),
        link("", &["no link"]),
        link("/engine/search?category=2139&sub_category=2148", &[" Musique\n\t\t\t\t\t\t\tclassique "]),
    ];
    let c = category_from_links(&links).unwrap().unwrap();
    assert_eq!(c.id, 2139);
    assert_eq!(c.name, "Audio Musique");
    assert_eq!(c.sub_categories.len(), 2);
    assert_eq!((c.sub_categories[0].id, c.sub_categories[0].name.as_str()), (2147, "Karaoké"));
    assert_eq!((c.sub_categories[1].id, c.sub_categories[1].name.as_str()), (2148, "Musique classique"));
    assert!(c.sub_categories.iter().all(|s| s.sub_categories.is_empty()));
}

#[test]
fn menu_entries_without_category_or_with_bad_ids() {
    assert!(category_from_links(&Vec::new()).unwrap().is_none());
    assert!(category_from_links(&vec![link("/x", &["x"])]).unwrap().is_none());
    let bad_sub = vec![
        link("?category=x", &["A"]),
        link("?category=1&sub_category=", &["B"]),
    ];
    assert_eq!(category_from_links(&bad_sub).unwrap_err(), "cannot parse integer from empty string");
    let bad_main = vec![link("?category=99999999999999999999999", &["A"])];
    assert_eq!(category_from_links(&bad_main).unwrap_err(), "number too large to fit in target type");
}

fn lines(v: &[(&str, &str)]) -> Vec<(String, String)> {
    v.iter().map(|(k, x)| (k.to_string(), x.to_string())).collect()
}

#[test]
fn the_last_line_naming_a_field_wins() {
    let mut a = UserAccount::empty();
    apply_base_rows(
        &mut a,
        &lines(&[
            ("Pseudo", "first (Rank)"),
            ("Mes torrents", "3"),
            ("Pseudo / Commentaires", "second"),
            ("Commentaires", "8"),
            ("Rien", "x"),
        ]),
    );
    assert_eq!((a.username.as_str(), a.rank.as_str()), ("second", ""));
    assert_eq!((a.torrents_count, a.comments_count), (3, 8));
    assert!(!a.has_tracker_rows);

    apply_tracker_rows(
        &mut a,
        &lines(&[
            ("Passkey", "p1"),
            ("Qtt téléchargée", "5 Go"),
            ("Passkey Qtt uploadée", "p2"),
            ("Qtt uploadée", "7 Go"),
        ]),
    );
    assert_eq!(a.passkey, "p2");
    assert_eq!(
        a.sizes,
        vec![(SizeField::Downloaded, "5 Go".to_string()), (SizeField::Uploaded, "7 Go".to_string())]
    );
    assert!(a.has_tracker_rows);
    let mut b = UserAccount::empty();
    apply_tracker_rows(&mut b, &Vec::new());
    assert!(!b.has_tracker_rows);
}

#[test]
fn the_rest_of_the_page() {
    let mut a = UserAccount::empty();
    apply_misc_infos(
        &mut a,
        MiscInfo {
            avatar_src: Some("/a.png".to_string()),
            email_value: None,
            age_value: Some("0".to_string()),
            gender_value: Some("f".to_string()),
            country: Some((vec![" Bel".to_string(), "gique ".to_string()], None)),
        },
    );
    assert_eq!(a.avatar_url, "/a.png");
    assert_eq!(a.email, "");
    assert_eq!(a.age, None);
    assert_eq!(a.gender.as_deref(), Some("f"));
    assert_eq!(a.country.as_deref(), Some("Belgique"));
    assert_eq!(a.country_code, None);
    apply_misc_infos(
        &mut a,
        MiscInfo { avatar_src: None, email_value: None, age_value: Some("41".to_string()), gender_value: None, country: None },
    );
    assert_eq!(a.age, Some(41));
    assert_eq!(a.avatar_url, "/a.png");
    assert_eq!(a.country.as_deref(), Some("Belgique"));
}

#[test]
fn remaining_downloads_from_the_note() {
    assert_eq!(remaining_from_note(None), Ok(u16::MAX));
    assert_eq!(remaining_from_note(Some(None)), Err("Strong tag not found in remaining downloads info".to_string()));
    assert_eq!(remaining_from_note(Some(Some(vec!["1".to_string(), "2/".to_string(), "20".to_string()]))), Ok(12));
    assert_eq!(remaining_from_note(Some(Some(Vec::new()))), Err("Invalid remaining downloads format".to_string()));
}

#[test]
fn test_get_account() {
    let account = account_from_page(ACCOUNT).unwrap();
    println!("Account : {:?}", account);
    assert_eq!(account.username, "bob");
    assert_eq!(
        account.sizes,
        vec![(SizeField::Uploaded, "2 Go".to_string()), (SizeField::Downloaded, "1 Go".to_string())]
    );
}

#[test]
fn replacing_an_empty_pattern_interleaves() {
    assert_eq!(replace_str("ab", "", "x"), "xaxbx");
    assert_eq!(replace_str("", "", "x"), "x");
    assert_eq!(replace_str("1,5", ",", "."), "1.5");
}
