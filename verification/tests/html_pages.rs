use forum_saver::address::WebUrl;
use forum_saver::auth::AuthMethod;
use forum_saver::document::{document_downloads, finish_document, page_base};
use forum_saver::error::Error;
use forum_saver::forums::common::Removal;
use forum_saver::forums::discuz::DiscuzForum;
use forum_saver::forums::nga::NGAForumConfig;
use forum_saver::forums::pages::apply_removals;
use forum_saver::forums::v2ex::V2exForumConfig;
use forum_saver::forums::Forum;
use forum_saver::html::{all_texts, first_attr, first_text, page_text, remove_every, remove_first};

fn discuz() -> Forum {
    Forum::Discuz(DiscuzForum::try_new("S1", "https://bbs.saraba1st.com/2b", AuthMethod::Guest))
}

fn v2ex() -> Forum {
    Forum::V2ex(V2exForumConfig::default().build_forum().unwrap())
}

fn nga() -> Forum {
    Forum::NGA(NGAForumConfig::default().with_auth_method(AuthMethod::from_cookie_str("a=1")).build_forum().unwrap())
}

#[test]
fn page_queries() {
    let html = "<html><head><title>T</title></head><body><p class='x'>one</p><p class='x' id='b'>two</p><a href='/u'>me</a></body></html>";
    assert_eq!(first_text(html, "p.x"), Some("one".to_string()));
    assert_eq!(first_text(html, "h2"), None);
    assert_eq!(all_texts(html, "p"), vec!["one", "two"]);
    assert_eq!(first_attr(html, "a", "href"), Some("/u".to_string()));
    assert_eq!(first_attr(html, "p", "href"), None);
    assert_eq!(page_text(html), "Tonetwome");
    let h = remove_first(html, ":root", "p.x");
    assert_eq!(all_texts(&h, "p"), vec!["two"]);
    let h = remove_every(html, "p");
    assert_eq!(all_texts(&h, "p"), Vec::<String>::new());
    assert_eq!(first_text(&h, "a"), Some("me".to_string()));
}

#[test]
fn removals_in_order() {
    let html = "<html><body><div id='Rightbar'><div class='box'>a</div><div class='box'>b</div></div><span class='ad'>1</span><span class='ad'>2</span><i>x</i></body></html>";
    let removals = vec![
        Removal::FirstWithin("#Rightbar".to_string(), ".box".to_string()),
        Removal::Every(".ad".to_string()),
        Removal::FirstOr("#missing".to_string(), "i".to_string()),
        Removal::FirstIfPresent("#missing".to_string(), ".box".to_string()),
    ];
    let h = apply_removals(html, &removals);
    assert_eq!(all_texts(&h, ".box"), vec!["b"]);
    assert!(all_texts(&h, ".ad").is_empty());
    assert!(all_texts(&h, "i").is_empty());
}

fn discuz_page() -> String {
    [
        "<html><head><meta charset='gbk'></head><body>",
        "<strong class='vwmy'> alice </strong><div id='um'>user</div>",
        "<h1>\n Title </h1>",
        "<div class='pg'><a href='thread-7-1-1.html'>1</a><a href='thread-7-3-1.html'>3</a>",
        "<a href='forum-2-1.html'>f</a><input class='px' name='custompage'></div>",
        "<div class='pgbtn'><a href='thread-7-2-1.html'>next</a></div>",
        "<script type='text/javascript'>  document.onkeyup=function(){}</script>",
        "<script type='text/javascript'>var x=1;</script>",
        "</body></html>"
    ].concat()
}

#[test]
fn discuz_page_handling() {
    let f = discuz();
    let url = "https://bbs.saraba1st.com/2b/thread-7-2-1.html";
    let page = discuz_page();
    let info = f.thread_info_of_page(url, &page).unwrap();
    assert_eq!(info.title, "Title");
    assert_eq!(info.thread_id, "7");
    assert_eq!(info.total_pages, 3);
    assert_eq!(info.current_pn, 2);
    assert_eq!(f.username_of_page(&page), Some("alice".to_string()));
    let pre = f.preprocess_page(&page, &Vec::new()).unwrap();
    assert!(all_texts(&pre, "#um").is_empty());
    assert!(all_texts(&pre, "meta").is_empty());
    let post = f.postprocess_page(url, &page).unwrap();
    assert_eq!(first_attr(&post, "div.pg a", "href"), Some("thread-7-1-1.html".to_string()));
    assert_eq!(first_attr(&post, "div.pg a:nth-child(3)", "href"), Some("forum-2-1.html".to_string()));
    assert_eq!(
        first_attr(&post, "input.px", "onkeydown"),
        Some("if(event.keyCode==13){window.location=`thread-7-${this.value}-1.html`;doane(event);}".to_string())
    );
    let scripts = all_texts(&post, "script");
    // the page's own arrow-key script is gone; the one left is the one added
    assert!(!scripts.iter().any(|s| s.contains("function(){}")));
    assert_eq!(scripts.len(), 2);
    let nav = scripts.last().unwrap();
    assert!(nav.contains("thread-7-1-1.html") && nav.contains("thread-7-3-1.html"), "{nav}");
}

#[test]
fn discuz_page_without_title_is_refused() {
    let f = discuz();
    let r = f.thread_info_of_page("https://bbs.saraba1st.com/2b/thread-7-2-1.html", "<html><body></body></html>");
    assert!(matches!(r, Err(Error::ThreadInfo(m)) if m == "获取标题失败"));
}

#[test]
fn v2ex_page_handling() {
    let f = v2ex();
    let url = "https://v2ex.com/t/100?p=2";
    let page = [
        "<html><head><script>protectTraffic()</script><script>var a=1;</script></head><body>",
        "<a href='/member/bob'> bob </a><h1>Hello</h1>",
        "<div class='ps_container'><a href='/t/100?p=1'>1</a><a href='/t/100?p=9'>9</a>",
        "<input class='page_input' max='3' value='2'></div></body></html>"
    ].concat();
    let info = f.thread_info_of_page(url, &page).unwrap();
    assert_eq!((info.title.as_str(), info.thread_id.as_str(), info.total_pages, info.current_pn), ("Hello", "100", 3, 2));
    assert_eq!(f.username_of_page(&page), Some("bob".to_string()));
    let pre = f.preprocess_page(&page, &Vec::new()).unwrap();
    assert_eq!(all_texts(&pre, "head script"), vec!["var a=1;"]);
    let post = f.postprocess_page(url, &page).unwrap();
    assert_eq!(first_attr(&post, ".ps_container a", "href"), Some("t-100-1.html".to_string()));
    assert_eq!(first_attr(&post, ".ps_container a:nth-child(2)", "href"), Some("/t/100?p=9".to_string()));
    assert!(first_attr(&post, "input.page_input", "onkeydown").is_some());
}

#[test]
fn nga_page_handling() {
    let f = nga();
    let page = "<html><head><meta http-equiv='Content-Type' content='text/html'><script>var __IMG_PATH='https://img.nga.cn/p';</script></head><body><h3 id='postsubject0'>Subj</h3><img class='ngaPatch' src='x'></body></html>";
    let pre = f.preprocess_page(page, &Vec::new()).unwrap();
    assert!(all_texts(&pre, "meta").is_empty());
    assert_eq!(all_texts(&pre, "script").len(), 1);
    let post = f.postprocess_page("https://nga.178.com/read.php?tid=5", &pre).unwrap();
    assert!(first_attr(&post, ".ngaPatch", "src").is_none());
    assert!(all_texts(&post, "script").iter().any(|s| s == "makeKeyboardNav(__PAGE);"));
    assert!(post.contains("../assets/nga_patch.js"));
    let info = f.thread_info_of_page("https://nga.178.com/read.php?tid=5&page=2", &pre).unwrap();
    assert_eq!((info.title.as_str(), info.thread_id.as_str(), info.current_pn), ("Subj", "5", 2));
}

#[test]
fn localising_a_page() {
    let page = [
        "<html><head><base href='https://a.com/dir/'></head><body>",
        "<img src='i/x.png'><img src='mailto:me@a.com'><a href='page.html'>p</a>",
        "<div style=\"background:url('bg.png')\"></div></body></html>"
    ].concat();
    let (h, base) = page_base(&page, "https://other.com/x.html").unwrap();
    assert_eq!(base.as_string(), "https://a.com/dir/");
    assert!(first_attr(&h, "base", "href").is_none());
    let attrs = vec!["src".to_string(), "style".to_string(), "href".to_string()];
    let exts = vec!["png".to_string()];
    let urls = document_downloads(&h, &base, &attrs, &exts);
    assert_eq!(urls, vec!["https://a.com/dir/i/x.png", "https://a.com/dir/bg.png"]);
    let links = vec![
        ("https://a.com/dir/i/x.png".to_string(), "../assets/a.com/dir/i/x.png".to_string()),
        ("https://a.com/dir/bg.png".to_string(), "../assets/a.com/dir/bg.png".to_string()),
    ];
    let saved = vec!["https://a.com/dir/i/x.png".to_string()];
    let out = finish_document(&h, &base, &attrs, &exts, &links, &saved);
    assert_eq!(first_attr(&out, "img", "src"), Some("../assets/a.com/dir/i/x.png".to_string()));
    assert_eq!(first_attr(&out, "img:nth-child(2)", "src"), Some("mailto:me@a.com".to_string()));
    assert_eq!(first_attr(&out, "a", "href"), Some("https://a.com/dir/page.html".to_string()));
    // the background was not saved: it keeps its absolute address
    let style = first_attr(&out, "div", "style").unwrap();
    assert!(style.contains("https://a.com/dir/bg.png") && !style.contains("../assets"), "{style}");
    assert!(page_base("<html></html>", "not a url").is_err());
    let _ = WebUrl::parse("https://a.com").unwrap();
}
