use pappap_chain::learn::{
    candidate_links_from, content_of, is_substantial, knowledge_key_of, page_content_from,
    result_link_of, search_query_for, search_url_for, KnowledgeBase, LearnSession, LearnStep,
};

#[test]
fn queries_follow_the_topic() {
    assert_eq!(
        search_query_for("Luật đi xe máy"),
        "Luật giao thông đường bộ Việt Nam 2025 site:thuvienphapluat.vn OR site:luatvietnam.vn"
    );
    assert_eq!(
        search_query_for("hỏi về luật giao thông"),
        "Luật giao thông đường bộ Việt Nam 2025 site:thuvienphapluat.vn OR site:luatvietnam.vn"
    );
    assert_eq!(
        search_query_for("giải phương trình"),
        "giải phương trình giải chi tiết site:loigiaihay.com OR site:violet.vn OR site:mathvn.com"
    );
    assert_eq!(
        search_query_for("bài tập toán"),
        "bài tập toán giải chi tiết site:loigiaihay.com OR site:violet.vn OR site:mathvn.com"
    );
    assert_eq!(
        search_query_for("Hà Nội"),
        "Hà Nội site:vi.wikipedia.org OR site:vnexpress.net OR site:tuoitre.vn OR site:thuvienphapluat.vn"
    );
}

#[test]
fn search_url_is_percent_encoded() {
    let q = "Hà Nội";
    let url = search_url_for(q);
    assert_eq!(
        url,
        format!("https://www.google.com/search?q={}", urlencoding::encode(&search_query_for(q)))
    );
    assert!(url.starts_with("https://www.google.com/search?q=H%C3%A0%20N%E1%BB%99i%20site%3Avi.wikipedia.org%20OR%20"));
}

#[test]
fn key_is_lower_case() {
    assert_eq!(knowledge_key_of("Hà NỘI Ở ĐÂU"), "hà nội ở đâu");
}

#[test]
fn result_links_are_filtered() {
    assert_eq!(
        result_link_of("/url?q=https://vnexpress.net/a-b&sa=U&ved=2"),
        Some("https://vnexpress.net/a-b".to_string())
    );
    assert_eq!(result_link_of("/url?q=https://example.com/a&sa=U"), None);
    assert_eq!(result_link_of("https://x/?/url?q=https://vnexpress.net/"), None);
    assert_eq!(result_link_of("/search?q=vnexpress.net"), None);
    assert_eq!(
        result_link_of("/url?q=https://tuoitre.vn/x"),
        Some("https://tuoitre.vn/x".to_string())
    );
}

#[test]
fn only_first_ten_anchors_count() {
    let mut hrefs: Vec<Option<String>> = vec![None; 9];
    hrefs.push(Some("/url?q=https://violet.vn/one&x".to_string()));
    hrefs.push(Some("/url?q=https://violet.vn/two&x".to_string()));
    assert_eq!(candidate_links_from(&hrefs), vec!["https://violet.vn/one".to_string()]);
}

#[test]
fn page_text_is_joined_and_cut() {
    let texts = vec![Some("a".to_string()), None, Some("b c".to_string()), Some("d".to_string())];
    assert_eq!(page_content_from(&texts), "a b c d");
    let long = vec![Some("x".repeat(1500)), Some("y".repeat(1500))];
    let c = page_content_from(&long);
    assert_eq!(c.chars().count(), 2000);
    assert_eq!(c, format!("{} {}", "x".repeat(1500), "y".repeat(499)));
    assert_eq!(page_content_from(&vec![]), "");
}

#[test]
fn substance_is_counted_in_bytes() {
    assert!(!is_substantial(&"ê".repeat(150)));
    assert!(is_substantial(&"ê".repeat(151)));
    assert!(!is_substantial(&"a".repeat(300)));
    assert!(is_substantial(&"a".repeat(301)));
}

#[test]
fn page_content_reads_text_elements() {
    let html = "<html><body><p>first</p><div>second<span>inner</span></div><a>skip</a></body></html>";
    assert_eq!(content_of(html), "first second inner");
}

fn results_page(targets: &[&str]) -> String {
    let mut s = String::from("<html><body>");
    for t in targets {
        s.push_str(&format!("<a href=\"/url?q={}&amp;sa=U\">r</a>", t));
    }
    s.push_str("</body></html>");
    s
}

#[test]
fn learns_then_remembers() {
    let mut kb = KnowledgeBase::new();
    let question = "Thủ đô Việt Nam";
    let (mut session, step) = LearnSession::start(question, &kb);
    let url = match step {
        LearnStep::Fetch(u) => u,
        _ => panic!("expected a search"),
    };
    assert_eq!(url, search_url_for(question));
    let body = results_page(&["https://vnexpress.net/one", "https://example.com/two"]);
    let first = match session.on_search_result(Some(body)) {
        LearnStep::Fetch(u) => u,
        _ => panic!("expected a page fetch"),
    };
    assert_eq!(first, "https://vnexpress.net/one");
    let text = "Hà Nội ".repeat(60);
    let page = format!("<html><body><p>{}</p></body></html>", text);
    let (key, learned, reply) = match session.on_page(Some(page)) {
        LearnStep::Learned { key, text, reply } => (key, text, reply),
        _ => panic!("expected to learn"),
    };
    assert_eq!(key, "thủ đô việt nam");
    assert_eq!(learned, text);
    assert_eq!(
        reply,
        format!("Pappap vừa tự học mới!\n\n{}\n\n→ Đã ghi nhớ vĩnh viễn kiến thức này!", text)
    );
    kb.remember(key, learned);
    let (_, again) = LearnSession::start("THỦ ĐÔ VIỆT NAM", &kb);
    match again {
        LearnStep::Reply(r) => assert_eq!(r, format!("[ĐÃ HỌC TRƯỚC] {}", text)),
        _ => panic!("expected the remembered answer"),
    }
}

#[test]
fn network_failure_and_nothing_found() {
    let kb = KnowledgeBase::new();
    let (mut s, _) = LearnSession::start("câu hỏi", &kb);
    match s.on_search_result(None) {
        LearnStep::Reply(r) => assert_eq!(r, "Pappap đang học… nhưng mạng hơi chậm ạ!"),
        _ => panic!("expected a reply"),
    }
    let (mut s, _) = LearnSession::start("câu hỏi", &kb);
    match s.on_search_result(Some(results_page(&["https://example.com/x"]))) {
        LearnStep::Reply(r) => assert_eq!(
            r,
            "Pappap chưa tìm được tài liệu đáng tin cậy, để em học thêm rồi trả lời sau nha!"
        ),
        _ => panic!("expected a reply"),
    }
}

#[test]
fn at_most_three_pages_are_tried() {
    let kb = KnowledgeBase::new();
    let (mut s, _) = LearnSession::start("câu hỏi", &kb);
    let body = results_page(&[
        "https://violet.vn/1",
        "https://violet.vn/2",
        "https://violet.vn/3",
        "https://violet.vn/4",
    ]);
    let mut fetched = vec![];
    let mut step = s.on_search_result(Some(body));
    loop {
        match step {
            LearnStep::Fetch(u) => {
                fetched.push(u);
                step = s.on_page(if fetched.len() == 2 { Some("<p>short</p>".to_string()) } else { None });
            }
            LearnStep::Reply(r) => {
                assert_eq!(
                    r,
                    "Pappap chưa tìm được tài liệu đáng tin cậy, để em học thêm rồi trả lời sau nha!"
                );
                break;
            }
            LearnStep::Learned { .. } => panic!("nothing substantial was served"),
        }
    }
    assert_eq!(fetched, vec!["https://violet.vn/1", "https://violet.vn/2", "https://violet.vn/3"]);
}

#[test]
fn knowledge_base_recalls_latest_answer() {
    let mut kb = KnowledgeBase::new();
    assert_eq!(kb.recall("hà nội"), None);
    kb.remember("hà nội".to_string(), "thủ đô".to_string());
    assert_eq!(kb.recall("hà nội"), Some("thủ đô".to_string()));
    assert_eq!(kb.recall("Hà Nội"), None);
    kb.remember("hà nội".to_string(), "thủ đô Việt Nam".to_string());
    assert_eq!(kb.recall("hà nội"), Some("thủ đô Việt Nam".to_string()));
    kb.remember("huế".to_string(), "cố đô".to_string());
    assert_eq!(kb.recall("hà nội"), Some("thủ đô Việt Nam".to_string()));
    assert_eq!(kb.recall("huế"), Some("cố đô".to_string()));
}
