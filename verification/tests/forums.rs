use forum_saver::auth::AuthMethod;
use forum_saver::error::Error;
use forum_saver::forums::discuz::{
    default_interval, default_thread_url_template, default_true, DiscuzForum, DiscuzForumConfig,
};
use forum_saver::forums::nga::{extract_pagination_info, NGAForum, NGAForumConfig};
use forum_saver::forums::v2ex::{V2exForum, V2exForumConfig};
use forum_saver::forums::{Forum, ForumConfig};

fn nga() -> NGAForum {
    let config = NGAForumConfig::default().with_auth_method(AuthMethod::from_cookie_str("a=1"));
    config.build_forum().unwrap()
}

fn s1() -> DiscuzForum {
    DiscuzForum::try_new("Stage1st", "https://bbs.saraba1st.com/2b", AuthMethod::Guest)
}

fn v2ex() -> V2exForum {
    V2exForumConfig::default().build_forum().unwrap()
}

#[test]
fn defaults_of_configs() {
    assert!(default_true());
    assert_eq!(default_interval(), 1500);
    assert_eq!(default_thread_url_template(), "thread-{tid}-{pn}-1.html");
    let nga = NGAForumConfig::default();
    assert_eq!(nga.name, "NGA");
    assert_eq!(nga.base_url, "https://nga.178.com");
    assert!(matches!(nga.auth_method, AuthMethod::Guest));
    assert!(nga.remove_ads && nga.remove_user_info && nga.remove_reply_box);
    assert_eq!(nga.interval_ms, 1500);
}

#[test]
fn config_domains() {
    assert_eq!(NGAForumConfig::default().domain(), "nga.178.com");
    let mut d = DiscuzForumConfig::default();
    assert_eq!(d.domain(), "");
    d.base_url = "https://www.chiphell.com".to_string();
    assert_eq!(d.domain(), "www.chiphell.com");
    assert_eq!(ForumConfig::from(d).domain(), "www.chiphell.com");
    assert_eq!(ForumConfig::NGA(NGAForumConfig::default()).domain(), "nga.178.com");
}

#[test]
fn nga_refuses_guest_and_password() {
    match NGAForumConfig::default().build_forum() {
        Err(Error::Login(m)) => assert_eq!(m, "NGA限制游客访问，请使用Cookie登录后下载"),
        _ => panic!("guest accepted"),
    }
    let cfg = NGAForumConfig::default().with_auth_method(AuthMethod::from_username_password("u", "p"));
    match ForumConfig::NGA(cfg).build_forum() {
        Err(Error::Login(m)) => assert_eq!(m, "NGA用户名密码登录需要验证码，请使用Cookie登录"),
        _ => panic!("password accepted"),
    }
}

#[test]
fn v2ex_refuses_password() {
    let mut cfg = V2exForumConfig::default();
    cfg.auth_method = AuthMethod::from_username_password("u", "p");
    let name = cfg.name.clone();
    match cfg.build_forum() {
        Err(Error::Login(m)) => assert_eq!(m, format!("{name}不支持用户名密码登录，请使用其他登录方式")),
        _ => panic!("password accepted"),
    }
}

#[test]
fn nga_addresses() {
    let f = nga();
    assert_eq!(f.domain(), "nga.178.com");
    let url = f.generate_thread_url("42424242", "3");
    assert_eq!(url, "https://nga.178.com/read.php?tid=42424242&page=3");
    assert_eq!(f.extract_tid_pn(&url).unwrap(), ("42424242".to_string(), 3));
    assert_eq!(
        f.extract_tid_pn("https://bbs.nga.cn/read.php?tid=777").unwrap(),
        ("777".to_string(), 1)
    );
    assert_eq!(
        f.extract_tid_pn("https://bbs.nga.cn/read.php?tid=777&rand=1&page=9").unwrap(),
        ("777".to_string(), 9)
    );
    match f.extract_tid_pn("https://bbs.nga.cn/thread.php?fid=7") {
        Err(Error::ThreadInfo(m)) => {
            assert_eq!(m, "'https://bbs.nga.cn/thread.php?fid=7'不是标准的NGA帖子网址")
        }
        _ => panic!("not an error"),
    }
    match f.extract_tid_pn("https://bbs.nga.cn/read.php?tid=7&page=99999999999999999999999") {
        Err(Error::ThreadInfo(m)) => assert_eq!(
            m,
            "'https://bbs.nga.cn/read.php?tid=7&page=99999999999999999999999'不是标准的NGA帖子网址: number too large to fit in target type"
        ),
        _ => panic!("not an error"),
    }
}

#[test]
fn nga_file_names_read_back() {
    let f = nga();
    let name = f.generate_filename("123", "17");
    assert_eq!(name, "tid=123&page=17.html");
    assert_eq!(f.extract_pn_from_filename(&name, "123"), Some(17));
    assert_eq!(f.extract_pn_from_filename(&name, "12"), None);
    assert_eq!(f.extract_pn_from_filename("tid=123&page=x.html", "123"), None);
    assert_eq!(f.extract_pn_from_filename("tid=123&page=4.htm", "123"), None);
    let forum = Forum::NGA(f);
    assert_eq!(forum.extract_pn_from_filename("tid=5&page=2.html", "5"), Some(2));
    assert_eq!(Forum::V2ex(v2ex()).extract_pn_from_filename("t-5-2.html", "5"), None);
}

#[test]
fn nga_pagination_and_info() {
    let scripts = vec![
        "var x = 1;".to_string(),
        "//__PAGE\nvar __PAGE = {0:'/read.php?tid=4242',1:12,2:3,3:20};".to_string(),
    ];
    let (tid, total, pn, ps) = extract_pagination_info(&scripts).unwrap();
    assert_eq!((tid.as_str(), total, pn, ps), ("4242", 12, 3, 20));
    match extract_pagination_info(&vec!["nothing".to_string()]) {
        Err(Error::ThreadInfo(m)) => assert_eq!(m, "提取页码失败"),
        _ => panic!("found pagination"),
    }
    let f = nga();
    let info = f
        .extract_thread_info(
            "https://nga.178.com/read.php?tid=4242&page=3",
            &scripts,
            Some("标题".to_string()),
        )
        .unwrap();
    assert_eq!(info.title, "标题");
    assert_eq!(info.thread_id, "4242");
    assert_eq!((info.total_pages, info.current_pn, info.page_size), (12, 3, 20));
    let info = f
        .extract_thread_info("https://nga.178.com/read.php?tid=1", &vec![], Some("t".to_string()))
        .unwrap();
    assert_eq!((info.total_pages, info.current_pn, info.page_size), (1, 1, 20));
    match f.extract_thread_info("https://nga.178.com/read.php?tid=1", &vec![], None) {
        Err(Error::ThreadInfo(m)) => assert_eq!(m, "获取标题失败"),
        _ => panic!("no title accepted"),
    }
}

#[test]
fn nga_user_name() {
    let text = "var __CURRENT_UID = 5,\n__CURRENT_UNAME = '小明',__X=1";
    assert_eq!(NGAForum::extract_username(text), Some("小明".to_string()));
    assert_eq!(NGAForum::check_username(text).unwrap(), "小明");
    assert_eq!(NGAForum::extract_username("__CURRENT_UNAME=''"), None);
    match NGAForum::check_username("no user") {
        Err(Error::Login(m)) => assert_eq!(m, "未登录"),
        _ => panic!("user found"),
    }
}

#[test]
fn discuz_addresses() {
    let f = s1();
    assert_eq!(f.domain(), "bbs.saraba1st.com");
    assert_eq!(f.name(), "Stage1st");
    let url = f.generate_thread_url("2233", "4");
    assert_eq!(url, "https://bbs.saraba1st.com/2b/thread-2233-4-1.html");
    assert_eq!(f.extract_tid_pn(&url).unwrap(), ("2233".to_string(), 4));
    assert_eq!(
        f.extract_tid_pn("https://bbs.saraba1st.com/2b/forum.php?mod=viewthread&tid=9&page=2").unwrap(),
        ("9".to_string(), 2)
    );
    assert_eq!(
        f.extract_tid_pn("https://bbs.saraba1st.com/2b/forum.php?mod=viewthread&tid=9").unwrap(),
        ("9".to_string(), 1)
    );
    match f.extract_tid_pn("https://bbs.saraba1st.com/2b/forum-75-1.html") {
        Err(Error::ThreadInfo(m)) => {
            assert_eq!(m, "'https://bbs.saraba1st.com/2b/forum-75-1.html'不是标准的Stage1st帖子网址")
        }
        _ => panic!("not an error"),
    }
    assert_eq!(f.generate_filename("2233", "4"), "thread-2233-4-1.html");
}

#[test]
fn discuz_login_and_pages() {
    let f = s1();
    assert_eq!(
        f.login_url(),
        "https://bbs.saraba1st.com/2b/member.php?mod=logging&action=login&loginsubmit=yes&infloat=yes&lssubmit=yes&inajax=1"
    );
    assert_eq!(f.home_url(), "https://bbs.saraba1st.com/2b/home.php?mod=space&do=thread&view=me");
    assert!(DiscuzForum::check_login_reply("<root>ok</root>").is_ok());
    match DiscuzForum::check_login_reply("登录失败，您还可以尝试 4 次") {
        Err(Error::Login(m)) => assert_eq!(m, "登录失败，请检查用户名和密码"),
        _ => panic!("failed login accepted"),
    }
    assert_eq!(DiscuzForum::extract_username(Some("  bob \n".to_string())), Some("bob".to_string()));
    assert_eq!(DiscuzForum::extract_username(None), None);
    match DiscuzForum::check_username(None) {
        Err(Error::Login(m)) => assert_eq!(m, "未登录"),
        _ => panic!("user found"),
    }
    let links = vec![
        "forum-1-1.html".to_string(),
        "thread-2233-2-1.html".to_string(),
        "thread-2233-7-1.html".to_string(),
        "thread-2233-5-1.html".to_string(),
    ];
    assert_eq!(DiscuzForum::extract_total_pages(&links), 7);
    assert_eq!(DiscuzForum::extract_total_pages(&vec![]), 1);
    match DiscuzForum::extract_title(None) {
        Err(Error::ThreadInfo(m)) => assert_eq!(m, "获取标题失败"),
        _ => panic!("title found"),
    }
    assert_eq!(DiscuzForum::extract_title(Some("\n  标题 \n".to_string())).unwrap(), "标题");
    let info = f
        .extract_thread_info(
            "https://bbs.saraba1st.com/2b/thread-2233-2-1.html",
            Some(" 标题\n".to_string()),
            Some(&links),
        )
        .unwrap();
    assert_eq!(
        (info.title.as_str(), info.thread_id.as_str(), info.total_pages, info.current_pn, info.page_size),
        ("标题", "2233", 7, 2, 40)
    );
}

#[test]
fn discuz_page_links() {
    let f = s1();
    assert_eq!(
        f.localize_page_link("https://bbs.saraba1st.com/2b/thread-2233-3-1.html", "2233", 7),
        Some("thread-2233-3-1.html".to_string())
    );
    assert_eq!(f.localize_page_link("thread-2233-9-1.html", "2233", 7), None);
    assert_eq!(f.localize_page_link("thread-1111-3-1.html", "2233", 7), None);
    assert!(DiscuzForum::is_arrow_key_script("document.onkeyup = function(e){keyPageScroll(e, 1, 1);}"));
    assert!(!DiscuzForum::is_arrow_key_script("var a = 1;"));
}

#[test]
fn v2ex_addresses_and_info() {
    let f = v2ex();
    assert_eq!(f.generate_thread_url("100", "1"), format!("{}/t/100", f.base_url()));
    assert_eq!(f.generate_thread_url("100", "2"), format!("{}/t/100?p=2", f.base_url()));
    assert_eq!(f.extract_tid_pn("https://www.v2ex.com/t/100?p=3").unwrap(), ("100".to_string(), 3));
    assert_eq!(f.extract_tid_pn("https://www.v2ex.com/t/100#reply5").unwrap(), ("100".to_string(), 1));
    assert!(f.extract_tid_pn("https://www.v2ex.com/go/apple").is_err());
    assert_eq!(f.generate_filename("100", "2"), "t-100-2.html");
    assert_eq!(V2exForum::extract_username(Some(" alice ".to_string())), Some("alice".to_string()));
    assert_eq!(V2exForum::extract_username(Some("   ".to_string())), None);
    let info = f
        .extract_thread_info(
            "https://www.v2ex.com/t/100?p=2",
            Some("Title".to_string()),
            Some("3".to_string()),
            Some("2".to_string()),
        )
        .unwrap();
    assert_eq!(
        (info.title.as_str(), info.thread_id.as_str(), info.total_pages, info.current_pn, info.page_size),
        ("Title", "100", 3, 2, 100)
    );
    let info = f
        .extract_thread_info("https://www.v2ex.com/t/100", Some("T".to_string()), None, Some("x".to_string()))
        .unwrap();
    assert_eq!((info.total_pages, info.current_pn), (1, 1));
    assert_eq!(f.localize_page_link("?p=2", "100", 3), Some("t-100-2.html".to_string()));
    assert_eq!(f.localize_page_link("?p=4", "100", 3), None);
    assert_eq!(f.localize_page_link("?p=x", "100", 3), Some("t-100-1.html".to_string()));
    assert!(V2exForum::is_traffic_guard_script("protectTraffic();"));
}

#[test]
fn forum_dispatch() {
    let forum = ForumConfig::Discuz(DiscuzForumConfig::default()).build_forum().unwrap();
    assert_eq!(forum.name(), "Discuz");
    assert_eq!(forum.interval_ms(), 1500);
    assert_eq!(forum.generate_filename("1", "2"), "thread-1-2-1.html");
    let forum = Forum::NGA(nga());
    assert_eq!(forum.generate_thread_url("5", "2"), "https://nga.178.com/read.php?tid=5&page=2");
    assert_eq!(forum.extract_tid_pn("https://nga.178.com/read.php?tid=5&page=2").unwrap(), ("5".to_string(), 2));
}

#[test]
fn constructors_refuse_logins() {
    match NGAForum::from_config(NGAForumConfig::default()) {
        Err(Error::Login(m)) => assert_eq!(m, "NGA限制游客访问，请使用Cookie登录后下载"),
        _ => panic!("guest accepted"),
    }
    let cookie = NGAForumConfig::default().with_auth_method(AuthMethod::from_cookie_str("a=1"));
    assert_eq!(NGAForum::from_config(cookie).unwrap().domain(), "nga.178.com");
    let mut cfg = V2exForumConfig::default();
    cfg.auth_method = AuthMethod::from_username_password("u", "p");
    match V2exForum::from_config(cfg) {
        Err(Error::Login(m)) => assert_eq!(m, "V2ex不支持用户名密码登录，请使用其他登录方式"),
        _ => panic!("password accepted"),
    }
    match V2exForum::try_new("V", "https://v2ex.com/", AuthMethod::from_username_password("u", "p")) {
        Err(Error::Login(m)) => assert_eq!(m, "V不支持用户名密码登录，请使用其他登录方式"),
        _ => panic!("password accepted"),
    }
    let v = V2exForum::try_new("V", "https://v2ex.com/", AuthMethod::Guest).unwrap();
    assert_eq!(v.base_url(), "https://v2ex.com");
}
