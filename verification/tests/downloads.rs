use forum_saver::address::WebUrl;
use forum_saver::assets::{
    asset_kind, asset_path, document_base, is_downloadable, plan_attribute, url_extension_exec, AssetKind,
    saved_addresses, AssetLedger, AssetStep, AttrPlan,
};
use forum_saver::css::{build_css_table, css_raw_refs_exec, resolve_css_refs, rewrite_css_urls};
use forum_saver::downloader::{
    all_pages_fetched_message, download_page_count_exec, error_fetching_page_message,
    later_pages_exec, page_saved_message, requesting_page_message, resume_message, start_page,
    started_downloading_message, thread_domain, DownloadStrategy, Downloader, DownloaderConfig,
};
use forum_saver::error::Error;
use forum_saver::forums::discuz::DiscuzForumConfig;
use forum_saver::forums::nga::NGAForumConfig;
use forum_saver::forums::ForumConfig;
use forum_saver::schedule::{plan_pages, PageStep};
use forum_saver::types::DownloadInfo;

fn pairs(m: &forum_saver::downloader::Message) -> Vec<(&str, &str)> {
    m.args.iter().map(|(a, b)| (a.as_str(), b.as_str())).collect()
}

#[test]
fn default_downloader_config() {
    let c = DownloaderConfig::default();
    assert!(c.forums.is_empty());
    assert_eq!(c.max_depth, 3);
    assert_eq!(c.store_dir, "./data");
    assert_eq!(c.semaphore_count, 8);
    assert_eq!(c.strategy, DownloadStrategy::ResumeLatest);
    assert!(c.downloadable_attrs.iter().any(|a| a == "src"));
    assert!(c.downloadable_extensions.iter().any(|e| e == "css"));
}

#[test]
fn forums_are_found_by_domain() {
    let mut c = DownloaderConfig::default();
    let mut a = DiscuzForumConfig::default();
    a.base_url = "https://www.chiphell.com".to_string();
    a.name = "first".to_string();
    let mut b = DiscuzForumConfig::default();
    b.base_url = "https://www.chiphell.com/".to_string();
    b.name = "second".to_string();
    c.forums = vec![ForumConfig::Discuz(a), ForumConfig::NGA(NGAForumConfig::default()), ForumConfig::Discuz(b)];
    let d = Downloader::from_config(c);
    assert_eq!(d.supported_forums(), vec!["www.chiphell.com".to_string(), "nga.178.com".to_string()]);
    match d.find_forum("www.chiphell.com").unwrap() {
        ForumConfig::Discuz(found) => assert_eq!(found.name, "second"),
        _ => panic!("wrong forum"),
    }
    match d.find_forum("bbs.example.org") {
        Err(Error::InvalidForum(m)) => assert_eq!(
            m,
            "'bbs.example.org' not in supported forums: ['www.chiphell.com', 'nga.178.com']"
        ),
        _ => panic!("unknown domain found"),
    }
}

#[test]
fn thread_domains() {
    assert_eq!(thread_domain("https://bbs.nga.cn/read.php?tid=1").unwrap(), "bbs.nga.cn");
    assert_eq!(thread_domain("http://127.0.0.1/x").unwrap(), "");
    assert!(matches!(thread_domain("not a url"), Err(Error::ParseUrl(_))));
}

#[test]
fn resume_and_page_counts() {
    assert_eq!(start_page(DownloadStrategy::FromStart, &vec![4, 9]), 1);
    assert_eq!(start_page(DownloadStrategy::ResumeLatest, &vec![4, 9, 2]), 9);
    assert_eq!(start_page(DownloadStrategy::ResumeLatest, &vec![]), 1);
    assert_eq!(download_page_count_exec(10, 1), 10);
    assert_eq!(download_page_count_exec(10, 7), 5);
    assert_eq!(download_page_count_exec(3, 5), 2);
    assert_eq!(later_pages_exec(10, 7), vec![7, 8, 9, 10]);
    assert_eq!(later_pages_exec(3, 1), vec![2, 3]);
    assert_eq!(later_pages_exec(1, 1), Vec::<usize>::new());
    // the progress total is one more than the later pages
    for (total, start) in [(10usize, 1usize), (10, 7), (10, 10), (1, 1), (5, 2)] {
        assert_eq!(download_page_count_exec(total, start), 1 + later_pages_exec(total, start).len());
    }
}

#[test]
fn page_plans() {
    assert_eq!(
        plan_pages(3, 1, 500),
        vec![
            PageStep::Save(1),
            PageStep::ReportSaved(2),
            PageStep::Pause(500),
            PageStep::ReportRequesting(2),
            PageStep::Save(2),
            PageStep::ReportSaved(3),
            PageStep::Pause(500),
            PageStep::ReportRequesting(3),
            PageStep::Save(3),
            PageStep::ReportAllFetched,
        ]
    );
    assert_eq!(
        plan_pages(9, 4, 0),
        vec![PageStep::Save(1), PageStep::ReportAllAtOnce, PageStep::SaveAll(4, 9), PageStep::ReportAllFetched]
    );
    assert_eq!(plan_pages(1, 1, 10), vec![PageStep::Save(1), PageStep::ReportAllFetched]);
}

#[test]
fn messages() {
    let m = page_saved_message(5, 12, 1500);
    assert_eq!(m.key, "page-saved");
    assert_eq!(pairs(&m), vec![("current", "4"), ("total", "12"), ("ms", "1500")]);
    let m = requesting_page_message(5, 12);
    assert_eq!(pairs(&m), vec![("current", "5"), ("total", "12")]);
    let m = started_downloading_message("标题", 30);
    assert_eq!((m.key.as_str(), pairs(&m)), ("started-downloading", vec![("title", "标题"), ("pages", "30")]));
    assert_eq!(pairs(&resume_message(7)), vec![("page", "7")]);
    let m = error_fetching_page_message("unknown", "boom");
    assert_eq!(pairs(&m), vec![("page", "unknown"), ("error", "boom")]);
    assert_eq!(all_pages_fetched_message().key, "all-pages-fetched");
    assert!(all_pages_fetched_message().args.is_empty());
}

#[test]
fn download_infos() {
    match DownloadInfo::new_info("hi".to_string()) {
        DownloadInfo::Text { message, level } => assert_eq!((message.as_str(), level.as_str()), ("hi", "info")),
        _ => panic!(),
    }
    match DownloadInfo::new_error("bad".to_string()) {
        DownloadInfo::Text { level, .. } => assert_eq!(level, "error"),
        _ => panic!(),
    }
    match DownloadInfo::new_text("done".to_string(), "success".to_string()) {
        DownloadInfo::Text { level, .. } => assert_eq!(level, "success"),
        _ => panic!(),
    }
    match DownloadInfo::new_progress(3, 9) {
        DownloadInfo::Progress { current, total } => assert_eq!((current, total), (3, 9)),
        _ => panic!(),
    }
}

#[test]
fn urls_through_the_url_crate() {
    let u = WebUrl::parse("HTTPS://Example.COM/a/b/../c.png?x=1").unwrap();
    assert_eq!(u.as_string(), "https://example.com/a/c.png?x=1");
    assert_eq!(u.scheme(), "https");
    assert_eq!(u.host_str(), Some("example.com".to_string()));
    assert_eq!(u.domain(), Some("example.com".to_string()));
    assert_eq!(u.path(), "/a/c.png");
    let j = u.join("../d/e.css").unwrap();
    assert_eq!(j.as_string(), "https://example.com/d/e.css");
    assert!(WebUrl::parse("no scheme").is_err());
    assert_eq!(url_extension_exec(&j), vec!['c', 's', 's']);
    assert_eq!(asset_kind(&j), AssetKind::Css);
    assert_eq!(asset_kind(&WebUrl::parse("https://a.b/x.html").unwrap()), AssetKind::Html);
    assert_eq!(asset_kind(&WebUrl::parse("https://a.b/x.mjs").unwrap()), AssetKind::Script);
    assert_eq!(asset_kind(&WebUrl::parse("https://a.b/x.png").unwrap()), AssetKind::Other);
    let exts = vec!["css".to_string(), "png".to_string()];
    assert!(is_downloadable(&j, &exts));
    assert!(!is_downloadable(&WebUrl::parse("https://a.b/x.gif").unwrap(), &exts));
}

#[test]
fn document_bases() {
    let b = document_base("https://a.com/forum/thread-1-1-1.html", None).unwrap();
    assert_eq!(b.as_string(), "https://a.com/forum/");
    let b = document_base("https://a.com/forum/x.html", Some("https://cdn.a.com/static/y".to_string())).unwrap();
    assert_eq!(b.as_string(), "https://cdn.a.com/static/");
    assert!(matches!(document_base("nope", None), Err(Error::ParseUrl(_))));
}

#[test]
fn attribute_plans() {
    let base = WebUrl::parse("https://a.com/t/").unwrap();
    let exts = vec!["png".to_string()];
    assert!(matches!(plan_attribute("", &base, &exts), AttrPlan::Keep));
    match plan_attribute("img/x.png", &base, &exts) {
        AttrPlan::Link { abs_url, downloadable } => {
            assert_eq!(abs_url.as_string(), "https://a.com/t/img/x.png");
            assert!(downloadable);
        }
        _ => panic!(),
    }
    match plan_attribute("/page.php?x=1", &base, &exts) {
        AttrPlan::Link { abs_url, downloadable } => {
            assert_eq!(abs_url.as_string(), "https://a.com/page.php?x=1");
            assert!(!downloadable);
        }
        _ => panic!(),
    }
    assert!(matches!(plan_attribute("javascript:void(0)", &base, &exts), AttrPlan::Keep));
    match plan_attribute("background:url('bg.png')", &base, &exts) {
        AttrPlan::Styles(refs) => {
            assert_eq!(refs.len(), 1);
            assert_eq!(refs[0].raw, "bg.png");
            assert_eq!(refs[0].abs_url.as_string(), "https://a.com/t/bg.png");
        }
        _ => panic!(),
    }
}

#[test]
fn asset_ledger() {
    let mut l = AssetLedger::new();
    assert!(!l.contains("https://a.com/x.css"));
    assert_eq!(l.begin("https://a.com/x.css", "/tmp/x.css", false).unwrap(), AssetStep::Fetch(AssetKind::Css));
    assert!(l.contains("https://a.com/x.css"));
    assert_eq!(l.saved_file("https://a.com/x.css"), None);
    assert_eq!(l.begin("https://a.com/x.css", "/tmp/x.css", false).unwrap(), AssetStep::Known);
    l.record("https://a.com/x.css", Some("/tmp/x.css".to_string()));
    assert_eq!(l.saved_file("https://a.com/x.css"), Some("/tmp/x.css".to_string()));
    assert_eq!(l.begin("https://a.com/y.png", "/tmp/y.png", true).unwrap(), AssetStep::OnDisk);
    assert_eq!(l.saved_file("https://a.com/y.png"), Some("/tmp/y.png".to_string()));
    assert!(matches!(l.begin("::bad::", "/tmp/z", false), Err(Error::ParseUrl(_))));
    assert!(!l.contains("::bad::"));
}

#[test]
fn where_assets_are_saved() {
    let names = |u: &str| asset_path(&WebUrl::parse(u).unwrap());
    assert_eq!(names("https://a.com/img/x.png"), vec!["a.com", "img", "x.png"]);
    assert_eq!(names("https://a.com/dir/"), vec!["a.com", "dir", "index"]);
    assert_eq!(names("https://a.com"), vec!["a.com", "index"]);
    assert_eq!(names("https://a.com/a//b.css?v=1:2"), vec!["a.com", "a", "v=1_2_b.css"]);
    assert_eq!(names("https://a.com/p?q"), vec!["a.com", "q_p"]);
    assert_eq!(names("file:///tmp/x.js"), vec!["local", "tmp", "x.js"]);
}

#[test]
fn only_saved_assets_are_linked_locally() {
    let mut l = AssetLedger::new();
    let a = "https://a.com/a.png";
    let b = "https://a.com/b.png";
    let c = "https://a.com/c.png";
    // `a` is fetched and saved; `b` is begun but its fetch never finishes;
    // `c` was already on disk; `d` is unknown.
    assert_eq!(l.begin(a, "/tmp/a.png", false).unwrap(), AssetStep::Fetch(AssetKind::Other));
    l.record(a, Some("/tmp/a.png".to_string()));
    assert_eq!(l.begin(b, "/tmp/b.png", false).unwrap(), AssetStep::Fetch(AssetKind::Other));
    assert_eq!(l.begin(b, "/tmp/b.png", false).unwrap(), AssetStep::Known);
    assert_eq!(l.begin(c, "/tmp/c.png", true).unwrap(), AssetStep::OnDisk);
    let urls = vec![
        b.to_string(),
        a.to_string(),
        "https://a.com/d.png".to_string(),
        c.to_string(),
    ];
    assert_eq!(saved_addresses(&l, &urls), vec![a.to_string(), c.to_string()]);
    assert_eq!(saved_addresses(&l, &Vec::new()), Vec::<String>::new());
}

#[test]
fn style_sheets() {
    let text = "a{background:url('img/x.png')} b{src:url(y.woff)} c{d:url(data:image/png;base64,AA)} e{f:url(\"img/x.png\")}";
    assert_eq!(
        css_raw_refs_exec(text),
        vec!["img/x.png", "y.woff", "data:image/png;base64,AA", "img/x.png"]
    );
    let base = WebUrl::parse("https://a.com/css/main.css").unwrap().join(".").unwrap();
    let refs = resolve_css_refs(text, &base, true).unwrap();
    let got: Vec<(String, String)> = refs.iter().map(|r| (r.raw.clone(), r.abs_url.as_string())).collect();
    assert_eq!(
        got,
        vec![
            ("img/x.png".to_string(), "https://a.com/css/img/x.png".to_string()),
            ("y.woff".to_string(), "https://a.com/css/y.woff".to_string()),
        ]
    );
    let rel = vec!["../assets/x.png".to_string(), "../assets/y.woff".to_string()];
    let saved = vec!["https://a.com/css/img/x.png".to_string()];
    let table = build_css_table(&refs, &rel, &saved, false);
    assert_eq!(
        table,
        vec![
            ("img/x.png".to_string(), "../assets/x.png".to_string()),
            ("y.woff".to_string(), "https://a.com/css/y.woff".to_string()),
        ]
    );
    assert_eq!(
        rewrite_css_urls(text, &table),
        "a{background:url('../assets/x.png')} b{src:url(https://a.com/css/y.woff)} c{d:url(data:image/png;base64,AA)} e{f:url(\"../assets/x.png\")}"
    );
    assert_eq!(rewrite_css_urls(text, &vec![]), text);
}

#[test]
fn loaded_settings() {
    let mut c = DownloaderConfig::default();
    match c.clone().check_loaded() {
        Err(Error::Other(m)) => assert_eq!(m, "No forums found in the config file"),
        _ => panic!("settings without forums accepted"),
    }
    c.forums = vec![ForumConfig::NGA(NGAForumConfig::default())];
    c.downloadable_attrs = vec!["src".to_string(), "href".to_string(), "src".to_string()];
    c.max_depth = 5;
    let loaded = c.check_loaded().unwrap();
    assert_eq!(loaded.downloadable_attrs, vec!["src".to_string(), "href".to_string()]);
    assert_eq!(loaded.max_depth, 5);
    assert_eq!(loaded.forums.len(), 1);
}

#[test]
fn forums_are_built_by_domain() {
    let mut c = DownloaderConfig::default();
    c.forums = vec![ForumConfig::NGA(NGAForumConfig::default())];
    let d = Downloader::from_config(c);
    match d.get_forum("nga.178.com") {
        Err(Error::Login(m)) => assert_eq!(m, "NGA限制游客访问，请使用Cookie登录后下载"),
        _ => panic!("guest accepted"),
    }
    match d.get_forum("v2ex.com") {
        Err(Error::InvalidForum(m)) => assert_eq!(m, "'v2ex.com' not in supported forums: ['nga.178.com']"),
        _ => panic!("unknown forum built"),
    }
    let mut c = DownloaderConfig::default();
    let mut s1 = DiscuzForumConfig::default();
    s1.base_url = "https://bbs.saraba1st.com/2b".to_string();
    c.forums = vec![ForumConfig::Discuz(s1)];
    let d = Downloader::from_config(c);
    let f = d.get_forum("bbs.saraba1st.com").unwrap();
    assert_eq!(f.name(), "Discuz");
}
