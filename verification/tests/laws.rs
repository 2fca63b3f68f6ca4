use forum_saver::auth::AuthMethod;
use forum_saver::downloader::{download_page_count_exec, later_pages_exec};
use forum_saver::forums::discuz::{DiscuzForum, DiscuzForumConfig};
use forum_saver::forums::nga::NGAForumConfig;
use forum_saver::forums::v2ex::V2exForumConfig;
use forum_saver::forums::{Forum, ForumConfig};
use forum_saver::downloader::Message;
use forum_saver::error::Error;
use forum_saver::i18n::{is_fluent_safe, select_language, translate, I18n, Language};
use forum_saver::text::usize_to_string;

fn forums() -> Vec<Forum> {
    let nga = NGAForumConfig::default().with_auth_method(AuthMethod::from_cookie_str("a=1"));
    vec![
        ForumConfig::Discuz(DiscuzForum::try_new("S1", "https://bbs.saraba1st.com/2b/", AuthMethod::Guest).config)
            .build_forum()
            .unwrap(),
        ForumConfig::V2ex(V2exForumConfig::default()).build_forum().unwrap(),
        ForumConfig::NGA(nga).build_forum().unwrap(),
    ]
}

#[test]
fn addresses_read_back_on_every_forum() {
    for forum in forums() {
        for pn in [1usize, 2, 10, 999] {
            let url = forum.generate_thread_url("31415", &usize_to_string(pn));
            assert_eq!(forum.extract_tid_pn(&url).unwrap(), ("31415".to_string(), pn), "{url}");
        }
    }
}

#[test]
fn discuz_file_names_read_back() {
    let forum = &forums()[0];
    for pn in [1usize, 2, 10, 999, usize::MAX] {
        let name = forum.generate_filename("31415", &usize_to_string(pn));
        assert_eq!(forum.extract_tid_pn(&name).unwrap(), ("31415".to_string(), pn), "{name}");
    }
}

#[test]
fn discuz_base_with_thread_word_reads_back() {
    // a base address holding `thread-<digits>` without a second number
    let forum = DiscuzForum::try_new("S1", "https://x.com/thread-12/", AuthMethod::Guest);
    let url = forum.generate_thread_url("31415", "3");
    assert_eq!(forum.extract_tid_pn(&url).unwrap(), ("31415".to_string(), 3));
}

#[test]
fn other_addresses_are_refused() {
    let all = forums();
    let discuz = &all[0];
    let v2ex = &all[1];
    let nga = &all[2];
    for (forum, url) in [
        (discuz, "https://b.cn/forum-2-1.html"),
        (v2ex, "https://v2ex.com/go/rust"),
        (nga, "https://nga.178.com/thread.php?fid=7"),
    ] {
        match forum.extract_tid_pn(url) {
            Err(Error::ThreadInfo(m)) => assert!(m.starts_with(&format!("'{url}'不是标准的")), "{m}"),
            other => panic!("{other:?}"),
        }
    }
}

#[test]
fn first_page_by_default() {
    let all = forums();
    let v2ex = &all[1];
    let nga = &all[2];
    assert_eq!(nga.extract_tid_pn("https://nga.178.com/read.php?tid=123").unwrap(), ("123".to_string(), 1));
    assert_eq!(nga.extract_tid_pn("https://nga.178.com/read.php?tid=123&page=x").unwrap(), ("123".to_string(), 1));
    assert_eq!(v2ex.extract_tid_pn("https://v2ex.com/t/77").unwrap(), ("77".to_string(), 1));
    assert_eq!(
        v2ex.extract_tid_pn("https://v2ex.com/t/77?p=99999999999999999999999").unwrap(),
        ("77".to_string(), 1)
    );
    assert_eq!(v2ex.extract_tid_pn("https://v2ex.com/t/77?p=").unwrap(), ("77".to_string(), 1));
}

#[test]
fn saved_page_files_are_distinct() {
    for forum in forums() {
        let names: Vec<String> = (1..=12).map(|pn| forum.generate_filename("7", &pn.to_string())).collect();
        for i in 0..names.len() {
            for j in 0..i {
                assert_ne!(names[i], names[j]);
            }
        }
    }
}

#[test]
fn other_threads_are_not_resumed() {
    let all = forums();
    let forum = &all[2];
    let theirs = forum.generate_filename("12", "5");
    assert_eq!(forum.extract_pn_from_filename(&theirs, "1"), None);
    assert_eq!(forum.extract_pn_from_filename(&theirs, "123"), None);
    assert_eq!(forum.extract_pn_from_filename(&theirs, "12"), Some(5));
}

#[test]
fn links_point_at_saved_pages() {
    let mut c = DiscuzForumConfig::default();
    c.base_url = "https://www.chiphell.com".to_string();
    let forum = DiscuzForum::from_config(c);
    for pn in 1..=4usize {
        let url = forum.generate_thread_url("88", &pn.to_string());
        assert_eq!(forum.localize_page_link(&url, "88", 4), Some(forum.generate_filename("88", &pn.to_string())));
    }
}

#[test]
fn progress_total_counts_saved_pages() {
    for total in 1..=6usize {
        for start in 1..=total {
            assert_eq!(download_page_count_exec(total, start), 1 + later_pages_exec(total, start).len());
            let pages = later_pages_exec(total, start);
            assert!(pages.windows(2).all(|w| w[0] < w[1]));
            assert!(pages.iter().all(|&p| p >= start.max(2) && p <= total));
        }
    }
    // a start page beyond the page count is where the two part
    assert_eq!(download_page_count_exec(3, 5), 2);
    assert_eq!(later_pages_exec(3, 5).len(), 0);
}

#[test]
fn entry_file_names_have_no_separators() {
    let all = forums();
    let forum = &all[0];
    assert_eq!(forum.entry_file_name("5", "a/b\\c//d"), "5-a_b_c__d.html");
    assert_eq!(forum.entry_file_name("5", "Q: why <a|b>? \"*\""), "5-Q_ why _a_b__ ___.html");
    assert_eq!(
        forum.entry_file_content("5"),
        "<meta http-equiv=\"refresh\" content=\"0;url=posts/thread-5-1-1.html\">"
    );
}

#[test]
fn configured_language_decides() {
    for system in [None, Some("zh-CN"), Some("en-US")] {
        assert_eq!(select_language(Some("zh"), system), Language::ZhCN);
        assert_eq!(select_language(Some("en"), system), Language::EnUS);
    }
}

#[test]
fn language_by_its_tag() {
    let zh = "greet = 你好 { $name }\n";
    let en = "greet = Hi { $name }!\n";
    let m = Message { key: "greet".to_string(), args: vec![("name".to_string(), "Bob".to_string())] };
    for name in ["ZH-tw", "zh", "Zh_Hans", "en", "EN-gb", "fr", "Ünïcode", ""] {
        for system in [None, Some("zh-CN"), Some("de")] {
            let by_name = I18n::new(Some(name), system, zh, en);
            let by_tag = I18n::new(Some(by_name.language().tag()), Some("de"), zh, en);
            assert_eq!(by_tag.language(), by_name.language());
            assert_eq!(by_tag.t(&m), by_name.t(&m));
        }
    }
    assert_eq!(I18n::new(Some("ZH-tw"), None, zh, en).t(&m), "你好 \u{2068}Bob\u{2069}");
    assert_eq!(I18n::new(Some("Ünïcode"), Some("zh"), zh, en).t(&m), "Hi \u{2068}Bob\u{2069}!");
    // with none configured, the system's locale decides, else `en`
    assert_eq!(I18n::new(None, Some("zh-HK"), zh, en).language(), Language::ZhCN);
    assert_eq!(I18n::new(None, None, zh, en).language(), Language::EnUS);
    assert_eq!(select_language(Some("ZH-tw"), None), Language::ZhCN);
}

#[test]
fn catalogues_fluent_can_format() {
    assert!(is_fluent_safe("hello = Hello\ngreet = Hi { $name }!\n"));
    assert!(is_fluent_safe("m = { 1.0000000000000000000 -> [one] a *[other] b }"));
    assert!(!is_fluent_safe("m = { 1.000000000000000000000 -> [one] a *[other] b }"));
    assert!(is_fluent_safe(""));
    assert!(is_fluent_safe("...................."));
}

#[test]
fn messages_in_words() {
    let catalogue = "hello = Hello\ngreet = Hi { $name }!\n";
    let hello = Message { key: "hello".to_string(), args: vec![] };
    let greet = Message { key: "greet".to_string(), args: vec![("name".to_string(), "Bob".to_string())] };
    let unknown = Message { key: "no-such-key".to_string(), args: vec![] };
    assert_eq!(translate(Language::EnUS, catalogue, &hello), "Hello");
    assert_eq!(translate(Language::ZhCN, catalogue, &greet), "Hi \u{2068}Bob\u{2069}!");
    assert_eq!(translate(Language::EnUS, catalogue, &unknown), "no-such-key");
    assert_eq!(translate(Language::EnUS, "", &hello), "hello");
    assert_eq!(translate(Language::EnUS, "= broken", &hello), "hello");
}

#[test]
fn unicode_digits_are_thread_ids() {
    let all = forums();
    let forum = &all[0];
    // `\d` also matches digits of other scripts: they make a thread id, but not a page number
    assert_eq!(
        forum.extract_tid_pn("https://x/thread-\u{0663}\u{0664}-2-1.html").unwrap(),
        ("\u{0663}\u{0664}".to_string(), 2)
    );
    assert!(forum.extract_tid_pn("https://x/thread-12-\u{0663}-1.html").is_err());
    assert!(forum.extract_tid_pn("https://x/thread-ab-1-1.html").is_err());
}

#[test]
fn neighbour_pages_and_jump_box() {
    let all = forums();
    let forum = &all[1];
    assert_eq!(forum.neighbour_files("9", 1, 3), (None, Some("t-9-2.html".to_string())));
    assert_eq!(
        forum.neighbour_files("9", 3, 3),
        (Some("t-9-2.html".to_string()), None)
    );
    assert_eq!(
        forum.page_jump_handler("9"),
        "if(event.keyCode==13){window.location=`t-9-${this.value}.html`;doane(event);}"
    );
}

#[test]
fn v2ex_links_point_at_saved_pages() {
    let forum = V2exForumConfig::default().build_forum().unwrap();
    for pn in 1..=3usize {
        let url = forum.generate_thread_url("100", &pn.to_string());
        assert_eq!(
            forum.localize_page_link(&url, "100", 3),
            Some(forum.generate_filename("100", &pn.to_string()))
        );
    }
    assert_eq!(forum.localize_page_link(&forum.generate_thread_url("100", "4"), "100", 3), None);
}
