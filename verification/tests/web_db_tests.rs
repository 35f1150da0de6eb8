use open_english::db::{
    chronological, describe_error, has_postgres_mirror, insecure_tls_setting, install_failure, is_dual_mirror, mirror_for_label,
    mirror_labels, mirrors_from_values, pg_backup_step, pg_backup_summary, rsync_installers, RsyncError,
    StoredMessage,
};
use open_english::languages::{first_with_code, limited_languages, sorted_levels, summarize_questions};
use open_english::web::{
    decode_xml_entities, extract_rss_titles, news_feed_url, news_locale, percent_decode, query_param,
    sort_names_ignoring_case, strip_windows_verbatim_prefix, urlencoding_simple,
};

#[test]
fn query_params_are_decoded() {
    assert_eq!(query_param(Some("lang=ja&path=%2Fhome%2Fme"), "path"), Some("/home/me".to_string()));
    assert_eq!(query_param(Some("a=1&a=2"), "a"), Some("1".to_string()));
    assert_eq!(query_param(Some("flag&x=y"), "flag"), Some("".to_string()));
    assert_eq!(query_param(Some("x=y"), "z"), None);
    assert_eq!(query_param(None, "x"), None);
    assert_eq!(percent_decode("a+b%20c%zz%4"), "a b c%zz%4");
    assert_eq!(percent_decode("%+f"), "\u{f}");
    assert_eq!(percent_decode("%E3%81%82"), "あ");
    assert_eq!(percent_decode("日本%20語+x"), "日本 語 x");
    assert_eq!(percent_decode("%é"), "%é");
    assert_eq!(query_param(Some("q=日本+語&x=1"), "q"), Some("日本 語".to_string()));
}

#[test]
fn news_feed_for_languages() {
    assert_eq!(news_locale("ja"), ("ja", "JP"));
    assert_eq!(news_locale("zh-Hant"), ("zh-TW", "TW"));
    assert_eq!(news_locale("xx"), ("en", "US"));
    assert_eq!(news_feed_url("pt"), "https://news.google.com/rss?hl=pt-PT&gl=PT&ceid=PT:pt-PT");
}

#[test]
fn rss_titles_skip_the_channel_title() {
    let xml = "<rss><channel><title>Channel</title><item><title>First &amp; best</title></item>\
               <item><title><![CDATA[Second]]></title></item><item><title>   </title></item>\
               <item><title>Third</title></item></channel></rss>";
    assert_eq!(extract_rss_titles(xml, 8), vec!["First & best".to_string(), "Second".to_string(), "Third".to_string()]);
    assert_eq!(extract_rss_titles(xml, 2), vec!["First & best".to_string(), "Second".to_string()]);
    assert_eq!(extract_rss_titles("<title>no items</title>", 8), Vec::<String>::new());
    assert_eq!(decode_xml_entities("&lt;b&gt; &quot;q&quot; &#39;s&apos; &amp;amp;"), "<b> \"q\" 's' &amp;");
}

#[test]
fn small_encoders() {
    assert_eq!(urlencoding_simple("my-host.duckdns.org"), "my-host.duckdns.org");
    assert_eq!(urlencoding_simple("a b&c"), "a%20b%26c");
    assert_eq!(strip_windows_verbatim_prefix("\\\\?\\C:\\data"), "C:\\data");
    assert_eq!(strip_windows_verbatim_prefix("C:\\data"), "C:\\data");
}

#[test]
fn mirrors_and_errors() {
    let ms = mirrors_from_values(Some("host=a"), Some("  "));
    assert_eq!(ms.len(), 1);
    assert!(has_postgres_mirror(&ms));
    assert!(!is_dual_mirror(&ms));
    let ms = mirrors_from_values(Some("host=a"), Some("host=b"));
    assert!(is_dual_mirror(&ms));
    assert_eq!(mirror_labels(&ms), vec!["primary (aruaru-db)".to_string(), "secondary (PostgreSQL)".to_string()]);
    assert_eq!(mirror_for_label(&ms, "secondary (PostgreSQL)"), Some(1));
    assert_eq!(mirror_for_label(&ms, "other"), None);
    assert!(!has_postgres_mirror(&mirrors_from_values(None, None)));
    assert_eq!(
        describe_error(&vec!["connect failed".to_string(), "tls".to_string(), "bad cert".to_string()]),
        "connect failed -> tls -> bad cert"
    );
    assert_eq!(RsyncError::NotInstalled.message(), "rsync is not installed / rsyncがインストールされていません");
    assert_eq!(RsyncError::Other("boom".to_string()).message(), "boom");
}

#[test]
fn listed_messages_come_back_oldest_first() {
    let rows = vec![
        StoredMessage { id: 3, role: "trainer".to_string(), content: "hi there".to_string(), created_at_unix: 30 },
        StoredMessage { id: 2, role: "user".to_string(), content: "hello".to_string(), created_at_unix: 20 },
    ];
    let out = chronological(rows);
    assert_eq!(out[0].id, 2);
    assert_eq!(out[1].content, "hi there");
}

#[test]
fn levels_are_sorted_and_deduplicated() {
    let levels = vec!["B1".to_string(), "A1".to_string(), "B1".to_string(), "A2".to_string(), "A1".to_string()];
    assert_eq!(sorted_levels(&levels), vec!["A1".to_string(), "A2".to_string(), "B1".to_string()]);
    assert!(sorted_levels(&vec![]).is_empty());
    assert!(limited_languages(Some("1")));
    assert!(!limited_languages(Some("true")));
}

#[test]
fn percent_encoding_round_trips() {
    for s in ["日本 語&x=1+2", "a b/c?d=e%f", "", "plain-_.~"] {
        let enc = urlencoding_simple(s);
        assert!(enc.is_ascii());
        assert_eq!(percent_decode(&enc), s);
    }
    assert_eq!(urlencoding_simple("a b"), "a%20b");
}

#[test]
fn folder_names_sort_ignoring_case() {
    let names: Vec<String> = ["b", "A", "a", "C", "Äb"].iter().map(|s| s.to_string()).collect();
    assert_eq!(sort_names_ignoring_case(&names), vec!["A", "a", "b", "C", "Äb"]);
    assert!(sort_names_ignoring_case(&vec![]).is_empty());
}

#[test]
fn rsync_installers_by_system() {
    let w = rsync_installers(true, false, None);
    assert_eq!(w.len(), 2);
    assert_eq!(w[0].0, "winget");
    assert_eq!(w[1], ("choco".to_string(), vec!["install".to_string(), "rsync".to_string(), "-y".to_string()]));
    assert_eq!(rsync_installers(false, true, None)[0].0, "brew");
    assert_eq!(rsync_installers(false, false, Some("/data/data/com.termux/files/usr"))[0].0, "pkg");
    let l = rsync_installers(false, false, Some("/usr"));
    assert_eq!(l.iter().map(|c| c.0.as_str()).collect::<Vec<_>>(), vec!["apt-get", "dnf", "pacman"]);
    assert_eq!(l[2].1, vec!["-S".to_string(), "--noconfirm".to_string(), "rsync".to_string()]);
}

#[test]
fn backup_messages() {
    let tried = vec!["apt-get: not found".to_string(), "dnf: not found".to_string()];
    assert_eq!(
        install_failure(&tried).message(),
        "no working package manager found for rsync install (tried: apt-get: not found; dnf: not found)"
    );
    let none: Vec<String> = vec![];
    assert_eq!(pg_backup_step("primary", Ok("done".to_string()), &none).ok(), Some("primary: done".to_string()));
    let one = vec!["primary: done".to_string()];
    match pg_backup_step("secondary", Err(RsyncError::Other("boom".to_string())), &one) {
        Err(e) => assert_eq!(e.message(), "secondary failed: boom (succeeded before this: primary: done)"),
        Ok(_) => panic!("should fail"),
    }
    match pg_backup_step("secondary", Err(RsyncError::Other("boom".to_string())), &none) {
        Err(e) => assert_eq!(e.message(), "secondary failed: boom"),
        Ok(_) => panic!("should fail"),
    }
    assert!(matches!(pg_backup_step("x", Err(RsyncError::NotInstalled), &one), Err(RsyncError::NotInstalled)));
    assert_eq!(pg_backup_summary(&vec!["a: ok".to_string(), "b: ok".to_string()]), "a: ok; b: ok");
}

#[test]
fn region_lookup_by_code() {
    let codes = vec![None, Some("fr".to_string()), Some("de".to_string()), Some("fr".to_string())];
    assert_eq!(first_with_code(&codes, "fr"), Some(1));
    assert_eq!(first_with_code(&codes, "de"), Some(2));
    assert_eq!(first_with_code(&codes, "es"), None);
    assert_eq!(first_with_code(&codes, ""), None);
}

#[test]
fn add_and_list_messages_round_trips_in_chronological_order() {
    // Rows come from the database newest first; the listing gives them in
    // the order they were added.
    let newest_first = vec![
        StoredMessage { id: 2, role: "trainer".to_string(), content: "hi there".to_string(), created_at_unix: 2 },
        StoredMessage { id: 1, role: "user".to_string(), content: "hello".to_string(), created_at_unix: 1 },
    ];
    let msgs = chronological(newest_first);
    assert_eq!(msgs.len(), 2);
    assert_eq!(msgs[0].content, "hello");
    assert_eq!(msgs[1].content, "hi there");
}

#[test]
fn insecure_tls_setting_values() {
    assert!(insecure_tls_setting(Some("1")));
    assert!(insecure_tls_setting(Some("true")));
    assert!(insecure_tls_setting(Some("TrUe")));
    assert!(!insecure_tls_setting(Some("yes")));
    assert!(!insecure_tls_setting(Some("true ")));
    assert!(!insecure_tls_setting(Some("")));
    assert!(!insecure_tls_setting(None));
}

#[test]
fn names_equal_ignoring_case_keep_their_order() {
    let names: Vec<String> = vec!["b".to_string(), "B".to_string(), "a".to_string(), "A".to_string(), "b".to_string()];
    assert_eq!(sort_names_ignoring_case(&names), vec!["a", "A", "b", "B", "b"]);
    let names: Vec<String> = vec!["B".to_string(), "A".to_string(), "a".to_string(), "b".to_string()];
    assert_eq!(sort_names_ignoring_case(&names), vec!["A", "a", "B", "b"]);
}

#[test]
fn question_summary_counts_all_and_lists_given_levels() {
    let levels: Vec<Option<String>> =
        vec![Some("B1".to_string()), None, Some("A2".to_string()), Some("B1".to_string()), None];
    let s = summarize_questions(&levels);
    assert_eq!(s.question_count, 5);
    assert_eq!(s.levels, vec!["A2".to_string(), "B1".to_string()]);
    let s = summarize_questions(&vec![]);
    assert_eq!(s.question_count, 0);
    assert!(s.levels.is_empty());
}
