use forum_saver::auth::{
    browser_cookie_line, cookie_origin, cookie_string_lines_exec, AuthMethod, SupportedBrowser,
};
use forum_saver::cli::thread_urls;
use forum_saver::error::Error;
use forum_saver::forums::common::{
    arrow_pages_exec, keyboard_nav_script_text, page_jump_handler_text, thread_entry_content_exec,
    thread_entry_name_exec, title_without_separators_exec,
};
use forum_saver::forums::nga::{NGAForum, NGAForumConfig};
use forum_saver::forums::nga_media::{attachment_url, page_images, smiley_images};
use forum_saver::forums::nga_script::{adapt_settings_script, drop_all, Dropped};
use forum_saver::i18n::{select_language, Language};
use forum_saver::text::{parse_usize, usize_to_string, IntParseError};

fn chars(s: &str) -> Vec<char> {
    s.chars().collect()
}

fn text(v: &[char]) -> String {
    v.iter().collect()
}

fn texts(v: &[Vec<char>]) -> Vec<String> {
    v.iter().map(|c| text(c)).collect()
}

const SCRIPT: &str = "var __IMG_BASE = 'https://img4.nga.178.com/ngabbs',__IMG_STYLE=\"https://img4.nga.178.com/common_res\",__ATTACH_BASE_VIEW='img.nga.178.com',__CURRENT_UID = 123,\n__CURRENT_UNAME = 'bob',__X=1;\nloader.script(__IMG_STYLE+'/js_commonui.js?v=1'+Math.floor(__NOW/300));\nloader.css(__RES_STYLE+'/css.css')\nvar ads={a:1,\"dsid_bbs_ads12\":__DSBASE+'/ad.js',\n\"b\":2}";

#[test]
fn nga_script_for_offline_use() {
    let (script, settings, urls) = adapt_settings_script(&chars(SCRIPT), true, true);
    assert_eq!(
        text(&script),
        "var __IMG_BASE='../assets/img4.nga.178.com/ngabbs',__IMG_STYLE='../assets/img4.nga.178.com/common_res',__ATTACH_BASE_VIEW='img.nga.178.com',__X=1;\nloader.script(__IMG_STYLE+\"/js_commonui.js\");\nloader.css(__RES_STYLE+\"/css.css\")\nvar ads={a:1\"b\":2}"
    );
    let names: Vec<(String, String)> = settings.iter().map(|(n, v)| (text(n), text(v))).collect();
    assert_eq!(
        names,
        vec![
            ("__IMG_BASE".to_string(), "https://img4.nga.178.com/ngabbs".to_string()),
            ("__IMG_STYLE".to_string(), "https://img4.nga.178.com/common_res".to_string()),
            ("__ATTACH_BASE_VIEW".to_string(), "img.nga.178.com".to_string()),
            ("__CURRENT_UNAME".to_string(), "bob".to_string()),
            ("__RES_STYLE".to_string(), "https://img4.nga.178.com/common_res".to_string()),
        ]
    );
    assert_eq!(
        texts(&urls),
        vec![
            "https://img4.nga.178.com/common_res/js_commonui.js?v=1",
            "https://img4.nga.178.com/common_res/css.css",
        ]
    );
}

#[test]
fn nga_script_keeping_ads_and_user() {
    let (script, _, _) = adapt_settings_script(&chars(SCRIPT), false, false);
    assert_eq!(
        text(&script),
        "var __IMG_BASE='../assets/img4.nga.178.com/ngabbs',__IMG_STYLE='../assets/img4.nga.178.com/common_res',__ATTACH_BASE_VIEW='img.nga.178.com',__CURRENT_UID = 123,\n__CURRENT_UNAME = 'bob',__X=1;\nloader.script(__IMG_STYLE+\"/js_commonui.js\");\nloader.css(__RES_STYLE+\"/css.css\")\nvar ads={a:1,\"dsid_bbs_ads12\":__DSBASE+\"/ad.js\",\n\"b\":2}"
    );
    let forum = NGAForumConfig::default()
        .with_auth_method(AuthMethod::from_cookie_str("c=1"))
        .build_forum()
        .unwrap();
    let (same, _, _) = forum.adapt_script(&chars(SCRIPT));
    let (expected, _, _) = adapt_settings_script(&chars(SCRIPT), true, true);
    assert_eq!(same, expected);
}

#[test]
fn dropped_parts() {
    let s = chars("x,\"dsid_bbs_ads3\":__DSBASE\ny,\"dsid_bbs_ads4\":__DSBASEE\nz");
    assert_eq!(text(&drop_all(Dropped::AdSlot, &s)), "x,\"dsid_bbs_ads3\":__DSBASE\nyz");
    let s = chars("__CURRENT_UID=,\n__CURRENT_UID  =  7,\nrest");
    assert_eq!(text(&drop_all(Dropped::UserId, &s)), "__CURRENT_UID=,\nrest");
    let s = chars("__CURRENT_UNAME='a',__CURRENT_UNAME = '',x");
    assert_eq!(text(&drop_all(Dropped::UserName, &s)), "__CURRENT_UNAME = '',x");
}

#[test]
fn nga_images() {
    let settings = vec![(chars("__ATTACH_BASE_VIEW"), chars("img.nga.178.com"))];
    let page = chars("a [img]./mon_202301/01/abc.jpg[/img] b [img]https://x.com/y.png[/img] [img][/img]");
    assert_eq!(
        texts(&page_images(&page, &settings)),
        vec!["https://img.nga.178.com/attachments/mon_202301/01/abc.jpg", "https://x.com/y.png"]
    );
    assert!(page_images(&page, &vec![]).is_empty());
    assert_eq!(text(&attachment_url(&chars("h"), &chars("./p.png"))), "https://h/attachments/p.png");
    assert_eq!(text(&attachment_url(&chars("h"), &chars("p.png"))), "p.png");
}

#[test]
fn nga_smileys() {
    let table = vec![(chars("ac"), chars("blink"), chars("ac0.png"))];
    let page = chars("[s:ac:blink] [s:a2:unknown] [s:ac:blink][s::x]");
    assert_eq!(
        texts(&smiley_images(&page, &table, &vec![])),
        vec![
            "https://img4.nga.178.com/ngabbs/post/smile/ac0.png",
            "https://img4.nga.178.com/ngabbs/post/smile/ac0.png"
        ]
    );
    let settings = vec![(chars("__IMG_PATH"), chars("../assets/img"))];
    assert_eq!(texts(&smiley_images(&chars("[s:ac:blink]"), &table, &settings)), vec!["../assets/img/post/smile/ac0.png"]);
}

#[test]
fn logins_and_cookies() {
    assert!(matches!(AuthMethod::default(), AuthMethod::Guest));
    match AuthMethod::from_cookie_str("a=1") {
        AuthMethod::CookieString(c) => assert_eq!(c, "a=1"),
        _ => panic!(),
    }
    assert!(matches!(
        AuthMethod::from_browser(SupportedBrowser::Firefox),
        AuthMethod::CookieFromBrowser(SupportedBrowser::Firefox)
    ));
    match AuthMethod::from_username_password("u", "p") {
        AuthMethod::UsernamePassword { username, password } => assert_eq!((username.as_str(), password.as_str()), ("u", "p")),
        _ => panic!(),
    }
    assert_eq!(
        cookie_string_lines_exec("a=1; b=2 ", "x.com"),
        vec!["a=1;Domain=.x.com; Path=/", "b=2;Domain=.x.com; Path=/"]
    );
    assert_eq!(browser_cookie_line("sid", "9", "x.com"), "sid=9;Domain=.x.com; Path=/");
    assert_eq!(cookie_origin("x.com").unwrap().as_string(), "https://x.com/");
    match SupportedBrowser::Edge.cookie_error("x.com", "locked") {
        Error::BrowserCookie(m) => assert_eq!(m, "Browser: Edge, Domain: 'x.com', Error: locked"),
        _ => panic!(),
    }
}

#[test]
fn languages() {
    assert_eq!(select_language(Some("zh"), None), Language::ZhCN);
    assert_eq!(select_language(Some("ZH_tw"), Some("en")), Language::ZhCN);
    assert_eq!(select_language(Some("EN"), Some("zh-CN")), Language::EnUS);
    assert_eq!(select_language(None, Some("zh-Hans-CN")), Language::ZhCN);
    assert_eq!(select_language(None, None), Language::EnUS);
    assert_eq!(Language::ZhCN.tag(), "zh-CN");
}

#[test]
fn saved_thread_entry() {
    assert_eq!(title_without_separators_exec("a/b\\c"), "a_b_c");
    assert_eq!(thread_entry_name_exec("12", "t"), "12-t.html");
    assert_eq!(
        thread_entry_content_exec("tid=1&page=1.html"),
        "<meta http-equiv=\"refresh\" content=\"0;url=posts/tid=1&page=1.html\">"
    );
    assert_eq!(arrow_pages_exec(1, 3), (None, Some(2)));
    assert_eq!(arrow_pages_exec(3, 3), (Some(2), None));
    assert_eq!(
        page_jump_handler_text("t-1-${this.value}.html"),
        "if(event.keyCode==13){window.location=`t-1-${this.value}.html`;doane(event);}"
    );
}

#[test]
fn numbers_and_errors() {
    assert_eq!(parse_usize("+12"), Ok(12));
    assert_eq!(parse_usize(""), Err(IntParseError::Empty));
    assert_eq!(parse_usize("+"), Err(IntParseError::InvalidDigit));
    assert_eq!(parse_usize("1a"), Err(IntParseError::InvalidDigit));
    assert_eq!(parse_usize("99999999999999999999999"), Err(IntParseError::PosOverflow));
    assert_eq!(parse_usize(&usize_to_string(usize::MAX)), Ok(usize::MAX));
    assert_eq!(usize_to_string(1040), "1040");
    assert_eq!(Error::Login("x".to_string()).message(), "Login error: x");
    assert_eq!(
        Error::ParseInt(IntParseError::InvalidDigit).message(),
        "Parse int error: invalid digit found in string"
    );
    assert_eq!(Error::ThreadInfo("y".to_string()).message(), "Node error: y");
}

#[test]
fn nga_page_file_names_round_trip() {
    let forum = NGAForumConfig::default()
        .with_auth_method(AuthMethod::from_cookie_str("c=1"))
        .build_forum()
        .unwrap();
    for pn in [1usize, 9, 10, 123456] {
        let p = usize_to_string(pn);
        assert_eq!(forum.extract_pn_from_filename(&forum.generate_filename("77", &p), "77"), Some(pn));
        let url = forum.generate_thread_url("77", &p);
        assert_eq!(forum.extract_tid_pn(&url).unwrap(), ("77".to_string(), pn));
    }
    let _ = NGAForum::check_auth_method(&NGAForumConfig::default());
}

#[test]
fn thread_lists() {
    assert_eq!(
        thread_urls("https://a/t/1\n  # later\n\n  https://b/t/2 \r\n#https://c/t/3\nhttps://d/t/4"),
        vec!["https://a/t/1", "https://b/t/2", "https://d/t/4"]
    );
    assert!(thread_urls("").is_empty());
    assert!(thread_urls("\n\n# only comments\n").is_empty());
}

#[test]
fn error_messages() {
    let cases = vec![
        (Error::Io("a".to_string()), "IO error: a"),
        (Error::Http("a".to_string()), "HTTP error: a"),
        (Error::HttpStatus("a".to_string()), "HTTP status error: a"),
        (Error::Acquire("a".to_string()), "Acquire error: a"),
        (Error::ParseUrl("a".to_string()), "URL parse error: a"),
        (Error::ParseInt(IntParseError::Empty), "Parse int error: cannot parse integer from empty string"),
        (Error::InvalidForum("a".to_string()), "InvalidForum a"),
        (Error::BrowserCookie("a".to_string()), "Browser cookie error: a"),
        (Error::Login("a".to_string()), "Login error: a"),
        (Error::ThreadInfo("a".to_string()), "Node error: a"),
        (Error::HtmlParse("a".to_string()), "HTML parse error: a"),
        (Error::Path("a".to_string()), "Path error: a"),
        (Error::Browser("a".to_string()), "Browser error: a"),
        (Error::Anyhow("a".to_string()), "Anyhow error: a"),
        (Error::TomlDeserialize("a".to_string()), "Toml deserialize error: a"),
        (Error::TomlSerialize("a".to_string()), "Toml serialize error: a"),
        (Error::Other("a".to_string()), "Other error: a"),
    ];
    for (e, m) in cases {
        assert_eq!(e.message(), m);
    }
}

#[test]
fn pagination_numbers_out_of_range() {
    let scripts = vec![
        "var __PAGE = {0:'/read.php?tid=1',1:99999999999999999999999,2:1,3:20};".to_string(),
    ];
    match forum_saver::forums::nga::extract_pagination_info(&scripts) {
        Err(Error::ParseInt(IntParseError::PosOverflow)) => {}
        other => panic!("{other:?}"),
    }
}

#[test]
fn keyboard_navigation() {
    assert_eq!(
        keyboard_nav_script_text(Some("p1.html"), None),
        "document.onkeyup=function(e){if(e.keyCode==37){window.location='p1.html';}};"
    );
    assert_eq!(
        keyboard_nav_script_text(Some("a"), Some("b")),
        "document.onkeyup=function(e){if(e.keyCode==37){window.location='a';}if(e.keyCode==39){window.location='b';}};"
    );
    assert_eq!(keyboard_nav_script_text(None, None), "document.onkeyup=function(e){};");
}
