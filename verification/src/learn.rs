//! Self-learning answers: how a question becomes a web search, which search
//! results are trusted, what text a page teaches, and what is remembered.
//!
//! The network round trips stay with the caller: a [`LearnSession`] says which
//! URL to fetch next and is told what came back.

use vstd::prelude::*;
use vstd::utf8::encode_utf8;

use crate::store::KeyedStore;
use crate::text::{
    before_ampersand, before_ampersand_chars, lemma_before_ampersand, chars_from, chars_of, contains_chars, first_n,
    has_substring, matches_at, occurs_at, push_char, push_str, str_contains, string_from_chars,
    utf8_len_exceeds,
};

verus! {

// ---------------------------------------------------------------------------
// Outside computations
// ---------------------------------------------------------------------------

/// What std's `str::to_lowercase` returns for a string (Unicode lowercase
/// mapping, character by character, with the special cases std documents).
pub uninterp spec fn lowercase(s: Seq<char>) -> Seq<char>;

/// Trusted: std's `str::to_lowercase`; its result is named `lowercase`.
#[verifier::external_body]
fn to_lowercase(s: &str) -> (r: String)
    ensures
        r@ == lowercase(s@),
{
    s.to_lowercase()
}

/// A byte that percent-encoding leaves as it is: an ASCII letter or digit,
/// `-`, `.`, `_` or `~`.
pub open spec fn url_safe_byte(b: u8) -> bool {
    ||| 48 <= b <= 57
    ||| 65 <= b <= 90
    ||| 97 <= b <= 122
    ||| b == 45
    ||| b == 46
    ||| b == 95
    ||| b == 126
}

/// Upper-case hexadecimal digit for `d` (0 to 15).
pub open spec fn hex_upper_digit(d: int) -> char {
    seq!['0', '1', '2', '3', '4', '5', '6', '7', '8', '9', 'A', 'B', 'C', 'D', 'E', 'F'][d]
}

/// Percent-encoding of a byte string: every byte but the safe ones becomes
/// `%` and two upper-case hexadecimal digits.
pub open spec fn percent_encoded(bytes: Seq<u8>) -> Seq<char>
    decreases bytes.len(),
{
    if bytes.len() == 0 {
        Seq::empty()
    } else {
        let b: u8 = bytes[0];
        let head = if url_safe_byte(b) {
            seq![b as char]
        } else {
            seq!['%', hex_upper_digit((b / 16) as int), hex_upper_digit((b % 16) as int)]
        };
        head + percent_encoded(bytes.drop_first())
    }
}

/// Trusted: `urlencoding::encode`, which percent-encodes the UTF-8 bytes of
/// its argument, keeping ASCII alphanumerics and `-`, `.`, `_`, `~`, and
/// writing every other byte as `%` followed by two upper-case hex digits.
#[verifier::external_body]
fn url_encode(s: &str) -> (r: String)
    ensures
        r@ == percent_encoded(encode_utf8(s@)),
{
    urlencoding::encode(s).into_owned()
}

/// What the HTML parser of `scraper` finds for `selector` in `document`: for
/// each matching element, in the order scraper's selection yields them, the value of its attribute
/// `attribute` if it has one; nothing when `selector` is not a valid CSS
/// selector.
pub uninterp spec fn html_attribute_values(
    document: Seq<char>,
    selector: Seq<char>,
    attribute: Seq<char>,
) -> Option<Seq<Option<Seq<char>>>>;

/// Trusted: `scraper::Selector::parse`, `scraper::Html::parse_document`,
/// `Html::select` and `Element::attr`; the result is named
/// `html_attribute_values`.
#[verifier::external_body]
fn select_attribute(document: &str, selector: &str, attribute: &str) -> (r: Option<
    Vec<Option<String>>,
>)
    ensures
        r.deep_view() == html_attribute_values(document@, selector@, attribute@),
{
    let sel = scraper::Selector::parse(selector).ok()?;
    let doc = scraper::Html::parse_document(document);
    let mut values = Vec::new();
    for e in doc.select(&sel) {
        values.push(e.value().attr(attribute).map(|v| v.to_string()));
    }
    Some(values)
}

/// What the HTML parser of `scraper` finds for `selector` in `document`: for
/// each matching element, in the order scraper's selection yields them, its first text node if it has
/// one; nothing when `selector` is not a valid CSS selector.
pub uninterp spec fn html_first_texts(document: Seq<char>, selector: Seq<char>) -> Option<
    Seq<Option<Seq<char>>>,
>;

/// Trusted: `scraper::Selector::parse`, `scraper::Html::parse_document`,
/// `Html::select` and `ElementRef::text`; the result is named
/// `html_first_texts`.
#[verifier::external_body]
fn select_first_texts(document: &str, selector: &str) -> (r: Option<Vec<Option<String>>>)
    ensures
        r.deep_view() == html_first_texts(document@, selector@),
{
    let sel = scraper::Selector::parse(selector).ok()?;
    let doc = scraper::Html::parse_document(document);
    let mut texts = Vec::new();
    for e in doc.select(&sel) {
        texts.push(e.text().next().map(|t| t.to_string()));
    }
    Some(texts)
}

// ---------------------------------------------------------------------------
// Search results
// ---------------------------------------------------------------------------

/// The URL comes from one of the sources this node trusts.
pub open spec fn trusted_source(url: Seq<char>) -> bool {
    ||| has_substring(url, "thuvienphapluat.vn"@)
    ||| has_substring(url, "luatvietnam.vn"@)
    ||| has_substring(url, "loigiaihay.com"@)
    ||| has_substring(url, "vnexpress.net"@)
    ||| has_substring(url, "tuoitre.vn"@)
    ||| has_substring(url, "violet.vn"@)
}

/// The target of a search-result link: the `href` must hold `/url?q=`, its part
/// before the first `&` must start with it, and what follows must be a
/// trusted source.
pub open spec fn result_link(href: Seq<char>) -> Option<Seq<char>> {
    let marker = "/url?q="@;
    let head = before_ampersand(href);
    if has_substring(href, marker) && occurs_at(head, marker, 0) {
        let url = head.skip(marker.len() as int);
        if trusted_source(url) {
            Some(url)
        } else {
            None
        }
    } else {
        None
    }
}

/// The result links found among these `href` values, in order.
pub open spec fn links_among(hrefs: Seq<Option<Seq<char>>>) -> Seq<Seq<char>>
    decreases hrefs.len(),
{
    if hrefs.len() == 0 {
        Seq::empty()
    } else {
        let rest = links_among(hrefs.drop_last());
        match hrefs.last() {
            Some(h) => match result_link(h) {
                Some(u) => rest.push(u),
                None => rest,
            },
            None => rest,
        }
    }
}

/// How many anchors of a result page are looked at.
pub open spec fn anchors_examined() -> nat {
    10
}

/// The candidate pages named by the `href` values of a result page's
/// anchors: the result links among the first ten anchors.
pub open spec fn candidate_links(hrefs: Seq<Option<Seq<char>>>) -> Seq<Seq<char>> {
    links_among(first_n(hrefs, anchors_examined()))
}

/// The candidate pages of a search result page.
pub open spec fn links_in_results(body: Seq<char>) -> Seq<Seq<char>> {
    match html_attribute_values(body, "a"@, "href"@) {
        Some(hrefs) => candidate_links(hrefs),
        None => Seq::empty(),
    }
}

/// The result link in one `href` value, if it is one.
pub fn result_link_of(href: &str) -> (r: Option<String>)
    ensures
        r.deep_view() == result_link(href@),
{
    let hc = chars_of(href);
    let marker = chars_of("/url?q=");
    if !contains_chars(&hc, &marker) {
        return None;
    }
    let head = before_ampersand_chars(&hc);
    if !matches_at(&head, &marker, 0) {
        return None;
    }
    let url_chars = chars_from(&head, marker.len());
    let url = string_from_chars(&url_chars);
    let u = url.as_str();
    if str_contains(u, "thuvienphapluat.vn") || str_contains(u, "luatvietnam.vn")
        || str_contains(u, "loigiaihay.com") || str_contains(u, "vnexpress.net")
        || str_contains(u, "tuoitre.vn") || str_contains(u, "violet.vn") {
        Some(url)
    } else {
        None
    }
}

/// The candidate pages named by the anchors' `href` values (one entry per
/// anchor, in the order scraper's selection yields them; `None` for an anchor without `href`).
pub fn candidate_links_from(hrefs: &Vec<Option<String>>) -> (links: Vec<String>)
    ensures
        links.deep_view() == candidate_links(hrefs.deep_view()),
{
    let n: usize = if hrefs.len() <= 10 { hrefs.len() } else { 10 };
    let ghost examined = first_n(hrefs.deep_view(), anchors_examined());
    assert(examined.len() == n);
    let mut links: Vec<String> = Vec::new();
    for i in 0..n
        invariant
            n <= hrefs@.len(),
            examined == first_n(hrefs.deep_view(), anchors_examined()),
            examined.len() == n,
            links.deep_view() == links_among(examined.take(i as int)),
    {
        assert(examined[i as int] == hrefs.deep_view()[i as int]);
        assert(examined.take(i + 1).drop_last() =~= examined.take(i as int));
        assert(examined.take(i + 1).last() == examined[i as int]);
        match &hrefs[i] {
            Some(h) => {
                match result_link_of(h.as_str()) {
                    Some(u) => {
                        let ghost before = links.deep_view();
                        links.push(u);
                        assert(links.deep_view() =~= before.push(u@));
                    },
                    None => {},
                }
            },
            None => {},
        }
    }
    assert(examined.take(n as int) =~= examined);
    links
}

// ---------------------------------------------------------------------------
// Page content
// ---------------------------------------------------------------------------

/// The texts that are present, in order.
pub open spec fn present_texts(texts: Seq<Option<Seq<char>>>) -> Seq<Seq<char>>
    decreases texts.len(),
{
    if texts.len() == 0 {
        Seq::empty()
    } else {
        let rest = present_texts(texts.drop_last());
        match texts.last() {
            Some(t) => rest.push(t),
            None => rest,
        }
    }
}

/// The parts joined with one space between neighbours.
pub open spec fn joined_with_spaces(parts: Seq<Seq<char>>) -> Seq<char>
    decreases parts.len(),
{
    if parts.len() == 0 {
        Seq::empty()
    } else if parts.len() == 1 {
        parts[0]
    } else {
        joined_with_spaces(parts.drop_last()).push(' ') + parts.last()
    }
}

/// How many characters of a page are kept.
pub open spec fn content_limit() -> nat {
    2000
}

/// What a page teaches, from the first text of each of its text-bearing
/// elements: the present texts joined by spaces, cut to 2000 characters.
pub open spec fn page_content(texts: Seq<Option<Seq<char>>>) -> Seq<char> {
    first_n(joined_with_spaces(present_texts(texts)), content_limit())
}

/// The CSS selector of the elements whose text a page is read from.
pub open spec fn text_selector() -> Seq<char> {
    "p, div, article, li, span"@
}

/// What a fetched page teaches.
pub open spec fn content_of_page(page: Seq<char>) -> Seq<char> {
    match html_first_texts(page, text_selector()) {
        Some(texts) => page_content(texts),
        None => Seq::empty(),
    }
}

/// Content is worth remembering when its UTF-8 encoding is longer than 300
/// bytes.
pub open spec fn substantial(content: Seq<char>) -> bool {
    encode_utf8(content).len() > 300
}

/// What a page teaches, from the first text of each text-bearing element
/// (`None` for an element without text), in the order scraper's selection
/// yields them.
pub fn page_content_from(texts: &Vec<Option<String>>) -> (content: String)
    ensures
        content@ == page_content(texts.deep_view()),
{
    let ghost tv = texts.deep_view();
    let mut joined = String::new();
    let mut any = false;
    for i in 0..texts.len()
        invariant
            tv == texts.deep_view(),
            tv.len() == texts@.len(),
            joined@ == joined_with_spaces(present_texts(tv.take(i as int))),
            any == (present_texts(tv.take(i as int)).len() > 0),
    {
        assert(tv.take(i + 1).drop_last() =~= tv.take(i as int));
        assert(tv.take(i + 1).last() == tv[i as int]);
        match &texts[i] {
            Some(t) => {
                let ghost parts = present_texts(tv.take(i as int));
                if any {
                    push_char(&mut joined, ' ');
                }
                push_str(&mut joined, t.as_str());
                any = true;
                proof {
                    let now = parts.push(t@);
                    assert(now.drop_last() =~= parts);
                    if parts.len() == 0 {
                        assert(joined@ =~= now[0]);
                    }
                }
            },
            None => {},
        }
    }
    assert(tv.take(texts@.len() as int) =~= tv);
    let all = chars_of(joined.as_str());
    if all.len() <= 2000 {
        joined
    } else {
        let mut content = String::new();
        for i in 0..2000usize
            invariant
                all@ == joined@,
                all@.len() > 2000,
                content@ == all@.take(i as int),
        {
            push_char(&mut content, all[i]);
            assert(all@.take(i + 1) =~= all@.take(i as int).push(all@[i as int]));
        }
        content
    }
}

/// What a fetched page teaches.
pub fn content_of(page: &str) -> (content: String)
    ensures
        content@ == content_of_page(page@),
{
    match select_first_texts(page, "p, div, article, li, span") {
        Some(texts) => page_content_from(&texts),
        None => String::new(),
    }
}

/// Whether content is worth remembering.
pub fn is_substantial(content: &str) -> (b: bool)
    ensures
        b == substantial(content@),
{
    utf8_len_exceeds(content, 300)
}

// ---------------------------------------------------------------------------
// Questions and answers
// ---------------------------------------------------------------------------

/// The key a question is remembered under: the question in lower case.
pub open spec fn knowledge_key(question: Seq<char>) -> Seq<char> {
    lowercase(question)
}

/// The web search made for a question. Questions about the law (they name
/// "luật giao thông" or "Luật") get a fixed query on the traffic law; exercise
/// questions ("bài tập", "giải") are searched on solution sites; everything
/// else on general news and reference sites.
pub open spec fn search_query(question: Seq<char>) -> Seq<char> {
    if has_substring(question, "luật giao thông"@) || has_substring(question, "Luật"@) {
        "Luật giao thông đường bộ Việt Nam 2025 site:thuvienphapluat.vn OR site:luatvietnam.vn"@
    } else if has_substring(question, "bài tập"@) || has_substring(question, "giải"@) {
        question + " giải chi tiết site:loigiaihay.com OR site:violet.vn OR site:mathvn.com"@
    } else {
        question
            + " site:vi.wikipedia.org OR site:vnexpress.net OR site:tuoitre.vn OR site:thuvienphapluat.vn"@
    }
}

/// The URL fetched to search the web for a question.
pub open spec fn search_url(question: Seq<char>) -> Seq<char> {
    "https://www.google.com/search?q="@ + percent_encoded(encode_utf8(search_query(question)))
}

/// The reply to a question that was learned before.
pub open spec fn recalled_reply(answer: Seq<char>) -> Seq<char> {
    "[ĐÃ HỌC TRƯỚC] "@ + answer
}

/// The reply when a page has just taught the answer.
pub open spec fn learned_reply(text: Seq<char>) -> Seq<char> {
    "Pappap vừa tự học mới!\n\n"@ + text + "\n\n→ Đã ghi nhớ vĩnh viễn kiến thức này!"@
}

/// The reply when the search itself could not be fetched.
pub open spec fn network_trouble_reply() -> Seq<char> {
    "Pappap đang học… nhưng mạng hơi chậm ạ!"@
}

/// The reply when no trusted page taught anything.
pub open spec fn nothing_found_reply() -> Seq<char> {
    "Pappap chưa tìm được tài liệu đáng tin cậy, để em học thêm rồi trả lời sau nha!"@
}

/// The key a question is remembered under.
pub fn knowledge_key_of(question: &str) -> (key: String)
    ensures
        key@ == knowledge_key(question@),
        key@ == lowercase(question@),
{
    to_lowercase(question)
}

/// The web search made for a question.
pub fn search_query_for(question: &str) -> (query: String)
    ensures
        query@ == search_query(question@),
{
    if str_contains(question, "luật giao thông") || str_contains(question, "Luật") {
        let mut q = String::new();
        push_str(&mut q, "Luật giao thông đường bộ Việt Nam 2025 site:thuvienphapluat.vn OR site:luatvietnam.vn");
        q
    } else if str_contains(question, "bài tập") || str_contains(question, "giải") {
        let mut q = String::new();
        push_str(&mut q, question);
        push_str(&mut q, " giải chi tiết site:loigiaihay.com OR site:violet.vn OR site:mathvn.com");
        q
    } else {
        let mut q = String::new();
        push_str(&mut q, question);
        push_str(
            &mut q,
            " site:vi.wikipedia.org OR site:vnexpress.net OR site:tuoitre.vn OR site:thuvienphapluat.vn",
        );
        q
    }
}

/// The URL fetched to search the web for a question.
pub fn search_url_for(question: &str) -> (url: String)
    ensures
        url@ == search_url(question@),
{
    let query = search_query_for(question);
    let encoded = url_encode(query.as_str());
    let mut url = String::new();
    push_str(&mut url, "https://www.google.com/search?q=");
    push_str(&mut url, encoded.as_str());
    url
}

fn reply_with(text: &str) -> (r: String)
    ensures
        r@ == text@,
{
    let mut r = String::new();
    push_str(&mut r, text);
    r
}

// ---------------------------------------------------------------------------
// Long-term memory
// ---------------------------------------------------------------------------

/// What the node has learned: answers by question key.
pub struct KnowledgeBase {
    facts: KeyedStore<String>,
}

impl View for KnowledgeBase {
    type V = Map<Seq<char>, Seq<char>>;

    closed spec fn view(&self) -> Map<Seq<char>, Seq<char>> {
        self.facts@.map_values(|t: String| t@)
    }
}

impl KnowledgeBase {
    /// The knowledge base's internal invariant.
    pub closed spec fn wf(&self) -> bool {
        self.facts.wf()
    }

    /// A knowledge base that knows nothing yet.
    pub fn new() -> (kb: Self)
        ensures
            kb.wf(),
            kb@ == Map::<Seq<char>, Seq<char>>::empty(),
    {
        let kb = KnowledgeBase { facts: KeyedStore::new() };
        assert(kb@ =~= Map::<Seq<char>, Seq<char>>::empty());
        kb
    }

    /// The answer remembered under `key`, if any.
    pub fn recall(&self, key: &str) -> (r: Option<String>)
        requires
            self.wf(),
        ensures
            r is None <==> !self@.contains_key(key@),
            r matches Some(t) ==> t@ == self@[key@],
    {
        match self.facts.get(key) {
            Some(t) => Some(t.clone()),
            None => None,
        }
    }

    /// Remembers `text` as the answer under `key`, replacing an earlier one.
    pub fn remember(&mut self, key: String, text: String)
        requires
            old(self).wf(),
        ensures
            final(self).wf(),
            final(self)@ == old(self)@.insert(key@, text@),
    {
        let ghost k = key@;
        let ghost t = text@;
        self.facts.insert(key, text);
        assert(self@ =~= old(self)@.insert(k, t));
    }
}

// ---------------------------------------------------------------------------
// One question, from search to answer
// ---------------------------------------------------------------------------

/// What the caller does next for a question.
pub enum LearnStep {
    /// The answer is final.
    Reply(String),
    /// Fetch this URL and report the page (or the failure) back.
    Fetch(String),
    /// A page taught `text`: remember it under `key`, then answer `reply`.
    Learned { key: String, text: String, reply: String },
}

/// A [`LearnStep`] as plain values.
pub enum StepView {
    Reply(Seq<char>),
    Fetch(Seq<char>),
    Learned { key: Seq<char>, text: Seq<char>, reply: Seq<char> },
}

impl View for LearnStep {
    type V = StepView;

    open spec fn view(&self) -> StepView {
        match self {
            LearnStep::Reply(r) => StepView::Reply(r@),
            LearnStep::Fetch(u) => StepView::Fetch(u@),
            LearnStep::Learned { key, text, reply } => StepView::Learned {
                key: key@,
                text: text@,
                reply: reply@,
            },
        }
    }
}

/// Where a question stands.
#[derive(PartialEq, Eq, Structural, Clone, Copy)]
pub enum LearnStage {
    /// Waiting for the search result page.
    Searching,
    /// Waiting for a candidate page.
    Reading,
    /// Answered.
    Finished,
}

/// The state of one question as plain values.
pub struct SessionView {
    pub key: Seq<char>,
    pub links: Seq<Seq<char>>,
    pub tried: nat,
    pub stage: LearnStage,
}

/// How many candidate pages are fetched at most.
pub open spec fn page_attempts() -> nat {
    3
}

/// How many of `links` are tried.
pub open spec fn attempts_for(links: Seq<Seq<char>>) -> nat {
    if links.len() < page_attempts() {
        links.len()
    } else {
        page_attempts()
    }
}

/// One question on its way to an answer.
pub struct LearnSession {
    key: String,
    links: Vec<String>,
    tried: usize,
    stage: LearnStage,
}

impl View for LearnSession {
    type V = SessionView;

    closed spec fn view(&self) -> SessionView {
        SessionView {
            key: self.key@,
            links: self.links.deep_view(),
            tried: self.tried as nat,
            stage: self.stage,
        }
    }
}

/// The first step for a question, given what is already known: the
/// remembered answer, or the web search.
pub open spec fn first_step(known: Map<Seq<char>, Seq<char>>, question: Seq<char>) -> StepView {
    let key = knowledge_key(question);
    if known.contains_key(key) {
        StepView::Reply(recalled_reply(known[key]))
    } else {
        StepView::Fetch(search_url(question))
    }
}

/// The step after the search result page `body` came back (`None`: it could
/// not be fetched).
pub open spec fn step_after_search(body: Option<Seq<char>>) -> StepView {
    match body {
        None => StepView::Reply(network_trouble_reply()),
        Some(b) => {
            let links = links_in_results(b);
            if links.len() == 0 {
                StepView::Reply(nothing_found_reply())
            } else {
                StepView::Fetch(links[0])
            }
        },
    }
}

/// The step after a candidate page came back (`None`: it could not be
/// fetched), `tried` pages of `links` having been asked for.
pub open spec fn step_after_page(
    key: Seq<char>,
    links: Seq<Seq<char>>,
    tried: nat,
    page: Option<Seq<char>>,
) -> StepView {
    if page is Some && substantial(content_of_page(page->0)) {
        let text = content_of_page(page->0);
        StepView::Learned { key, text, reply: learned_reply(text) }
    } else if tried < attempts_for(links) {
        StepView::Fetch(links[tried as int])
    } else {
        StepView::Reply(nothing_found_reply())
    }
}

impl LearnSession {
    /// The session's internal invariant: while pages are read, between one
    /// and three of the candidate links have been asked for.
    pub open spec fn wf(&self) -> bool {
        self@.stage == LearnStage::Reading ==> 1 <= self@.tried <= attempts_for(self@.links)
    }

    /// Starts answering `question`: with the remembered answer when there is
    /// one, else with the web search.
    pub fn start(question: &str, knowledge: &KnowledgeBase) -> (r: (LearnSession, LearnStep))
        requires
            knowledge.wf(),
        ensures
            r.0.wf(),
            r.1@ == first_step(knowledge@, question@),
            r.0@.key == knowledge_key(question@),
            r.0@.tried == 0,
            r.0@.links.len() == 0,
            r.0@.stage == (if r.1@ is Reply { LearnStage::Finished } else { LearnStage::Searching }),
    {
        let key = knowledge_key_of(question);
        match knowledge.recall(key.as_str()) {
            Some(answer) => {
                let mut reply = String::new();
                push_str(&mut reply, "[ĐÃ HỌC TRƯỚC] ");
                push_str(&mut reply, answer.as_str());
                let s = LearnSession { key, links: Vec::new(), tried: 0, stage: LearnStage::Finished };
                assert(s@.links =~= Seq::<Seq<char>>::empty());
                (s, LearnStep::Reply(reply))
            },
            None => {
                let url = search_url_for(question);
                let s = LearnSession { key, links: Vec::new(), tried: 0, stage: LearnStage::Searching };
                assert(s@.links =~= Seq::<Seq<char>>::empty());
                (s, LearnStep::Fetch(url))
            },
        }
    }

    /// Takes the search result page (`None`: it could not be fetched) and
    /// says what to do next.
    pub fn on_search_result(&mut self, body: Option<String>) -> (step: LearnStep)
        requires
            old(self).wf(),
            old(self)@.stage == LearnStage::Searching,
        ensures
            final(self).wf(),
            step@ == step_after_search(body.deep_view()),
            final(self)@.key == old(self)@.key,
            body is Some ==> final(self)@.links == links_in_results(body->0@),
            final(self)@.stage == (if step@ is Reply { LearnStage::Finished } else { LearnStage::Reading }),
            step@ is Fetch ==> final(self)@.tried == 1,
    {
        match body {
            None => {
                self.stage = LearnStage::Finished;
                LearnStep::Reply(reply_with("Pappap đang học… nhưng mạng hơi chậm ạ!"))
            },
            Some(b) => {
                let links = match select_attribute(b.as_str(), "a", "href") {
                    Some(hrefs) => candidate_links_from(&hrefs),
                    None => Vec::new(),
                };
                proof {
                    if html_attribute_values(b@, "a"@, "href"@) is None {
                        assert(links.deep_view() =~= Seq::<Seq<char>>::empty());
                    }
                }
                if links.len() == 0 {
                    self.links = links;
                    self.stage = LearnStage::Finished;
                    LearnStep::Reply(reply_with("Pappap chưa tìm được tài liệu đáng tin cậy, để em học thêm rồi trả lời sau nha!"))
                } else {
                    let first = links[0].clone();
                    assert(first@ == links.deep_view()[0]);
                    self.links = links;
                    self.tried = 1;
                    self.stage = LearnStage::Reading;
                    LearnStep::Fetch(first)
                }
            },
        }
    }

    /// Takes a candidate page (`None`: it could not be fetched) and says what
    /// to do next: remember what it teaches, try the next candidate, or give
    /// up.
    pub fn on_page(&mut self, page: Option<String>) -> (step: LearnStep)
        requires
            old(self).wf(),
            old(self)@.stage == LearnStage::Reading,
        ensures
            final(self).wf(),
            step@ == step_after_page(old(self)@.key, old(self)@.links, old(self)@.tried, page.deep_view()),
            final(self)@.key == old(self)@.key,
            final(self)@.links == old(self)@.links,
            final(self)@.stage == (if step@ is Fetch { LearnStage::Reading } else { LearnStage::Finished }),
            step@ is Fetch ==> final(self)@.tried == old(self)@.tried + 1,
    {
        if let Some(p) = &page {
            let content = content_of(p.as_str());
            if is_substantial(content.as_str()) {
                let mut reply = String::new();
                push_str(&mut reply, "Pappap vừa tự học mới!\n\n");
                push_str(&mut reply, content.as_str());
                push_str(&mut reply, "\n\n→ Đã ghi nhớ vĩnh viễn kiến thức này!");
                self.stage = LearnStage::Finished;
                return LearnStep::Learned { key: self.key.clone(), text: content, reply };
            }
        }
        let limit: usize = if self.links.len() < 3 { self.links.len() } else { 3 };
        if self.tried < limit {
            let next = self.links[self.tried].clone();
            assert(next@ == self.links.deep_view()[self.tried as int]);
            self.tried = self.tried + 1;
            LearnStep::Fetch(next)
        } else {
            self.stage = LearnStage::Finished;
            LearnStep::Reply(reply_with("Pappap chưa tìm được tài liệu đáng tin cậy, để em học thêm rồi trả lời sau nha!"))
        }
    }
}

// ---------------------------------------------------------------------------
// Laws
// ---------------------------------------------------------------------------

/// Once an answer is remembered under a question's key, asking the question
/// again gives that answer back, marked as learned before, without any fetch.
pub proof fn learned_answer_is_recalled(
    known: Map<Seq<char>, Seq<char>>,
    question: Seq<char>,
    text: Seq<char>,
)
    ensures
        first_step(known.insert(knowledge_key(question), text), question) == StepView::Reply(
            recalled_reply(text),
        ),
{
}

/// Remembering the answer to one question does not change how any question
/// with another key is answered.
pub proof fn remembering_keeps_other_answers(
    known: Map<Seq<char>, Seq<char>>,
    question: Seq<char>,
    text: Seq<char>,
    other: Seq<char>,
)
    requires
        knowledge_key(other) != knowledge_key(question),
    ensures
        first_step(known.insert(knowledge_key(question), text), other) == first_step(known, other),
{
}

/// What the knowledge base holds after a question's final step: a
/// `Learned` step adds its text under its key; any other step leaves it as it
/// was.
pub open spec fn knowledge_after(known: Map<Seq<char>, Seq<char>>, step: StepView) -> Map<
    Seq<char>,
    Seq<char>,
> {
    match step {
        StepView::Learned { key, text, reply: _ } => known.insert(key, text),
        _ => known,
    }
}

/// Answering a question never removes what is known and adds at most the
/// question's own key: every other key keeps its answer.
pub proof fn answering_only_adds_the_question(
    known: Map<Seq<char>, Seq<char>>,
    question: Seq<char>,
    step: StepView,
)
    requires
        step matches StepView::Learned { key, .. } ==> key == knowledge_key(question),
    ensures
        known.dom().subset_of(knowledge_after(known, step).dom()),
        knowledge_after(known, step).dom().subset_of(known.dom().insert(knowledge_key(question))),
        forall|k: Seq<char>|
            k != knowledge_key(question) && known.contains_key(k) ==> #[trigger] knowledge_after(
                known,
                step,
            )[k] == known[k],
{
}

/// A question whose answer is known is answered without going to the web.
pub proof fn known_question_needs_no_fetch(known: Map<Seq<char>, Seq<char>>, question: Seq<char>)
    requires
        known.contains_key(knowledge_key(question)),
    ensures
        first_step(known, question) is Reply,
{
}

proof fn lemma_links_among_trusted(hrefs: Seq<Option<Seq<char>>>)
    ensures
        links_among(hrefs).len() <= hrefs.len(),
        forall|i: int| 0 <= i < links_among(hrefs).len() ==> #[trigger] trusted_source(links_among(hrefs)[i]),
    decreases hrefs.len(),
{
    if hrefs.len() > 0 {
        lemma_links_among_trusted(hrefs.drop_last());
    }
}

/// Only pages from trusted sources are ever read, and at most ten anchors of a
/// result page are looked at.
pub proof fn candidates_are_trusted(hrefs: Seq<Option<Seq<char>>>)
    ensures
        candidate_links(hrefs).len() <= anchors_examined(),
        forall|i: int| 0 <= i < candidate_links(hrefs).len() ==> #[trigger] trusted_source(candidate_links(hrefs)[i]),
{
    lemma_links_among_trusted(first_n(hrefs, anchors_examined()));
}

/// A page is fetched only while fewer than three candidates have been asked
/// for, and always the next candidate in order.
pub proof fn at_most_three_pages(key: Seq<char>, links: Seq<Seq<char>>, tried: nat, page: Option<Seq<char>>)
    ensures
        step_after_page(key, links, tried, page) is Fetch ==> tried < page_attempts() && tried < links.len()
            && step_after_page(key, links, tried, page) == StepView::Fetch(links[tried as int]),
{
}

/// What is learned from a page is never longer than 2000 characters, and it
/// is remembered only when its UTF-8 form is longer than 300 bytes.
pub proof fn learned_text_is_bounded(key: Seq<char>, links: Seq<Seq<char>>, tried: nat, page: Seq<char>)
    ensures
        content_of_page(page).len() <= content_limit(),
        step_after_page(key, links, tried, Some(page)) is Learned <==> substantial(content_of_page(page)),
        step_after_page(key, links, tried, Some(page)) matches StepView::Learned { key: k, text, reply }
            ==> k == key && text == content_of_page(page) && reply == learned_reply(text),
{
}

// ---------------------------------------------------------------------------
// What each operation is for
// ---------------------------------------------------------------------------

/// A page that could not be fetched, or that taught nothing substantial,
/// moves on to the next candidate while fewer than three candidates, and
/// fewer than all of them, have been asked for; only then does the question
/// give up with the "nothing found" reply.
pub proof fn unread_page_moves_to_next_candidate(
    key: Seq<char>,
    links: Seq<Seq<char>>,
    tried: nat,
    page: Option<Seq<char>>,
)
    requires
        page is None || !substantial(content_of_page(page->0)),
    ensures
        tried < 3 && tried < links.len() ==> step_after_page(key, links, tried, page)
            == StepView::Fetch(links[tried as int]),
        tried >= 3 || tried >= links.len() ==> step_after_page(key, links, tried, page)
            == StepView::Reply(
            "Pappap chưa tìm được tài liệu đáng tin cậy, để em học thêm rồi trả lời sau nha!"@,
        ),
{
}

/// A page teaches the first texts of all its `p`, `div`, `article`, `li` and
/// `span` elements, and nothing when they cannot be selected.
pub proof fn page_text_comes_from_text_elements(page: Seq<char>)
    ensures
        html_first_texts(page, "p, div, article, li, span"@) matches Some(texts) ==> content_of_page(
            page,
        ) == page_content(texts),
        html_first_texts(page, "p, div, article, li, span"@) is None ==> content_of_page(page)
            == Seq::<char>::empty(),
{
}

/// How the texts of a page's elements make its content: an element without
/// text adds nothing; the first text alone is the content (up to 2000
/// characters); each further text is added after one space while the content
/// stays within 2000 characters; the content never exceeds 2000 characters.
pub proof fn page_content_joins_texts(texts: Seq<Option<Seq<char>>>, t: Seq<char>)
    ensures
        page_content(texts.push(None)) == page_content(texts),
        page_content(texts).len() <= 2000,
        present_texts(texts).len() == 0 && t.len() <= 2000 ==> page_content(texts.push(Some(t))) == t,
        present_texts(texts).len() > 0 && joined_with_spaces(present_texts(texts)).len() + 1 + t.len()
            <= 2000 ==> page_content(texts.push(Some(t))) == page_content(texts).push(' ') + t,
{
    assert(texts.push(None).drop_last() =~= texts);
    assert(texts.push(Some(t)).drop_last() =~= texts);
    let parts = present_texts(texts);
    assert(present_texts(texts.push(Some(t))) == parts.push(t));
    assert(parts.push(t).drop_last() =~= parts);
    if parts.len() == 0 {
        assert(joined_with_spaces(parts.push(t)) == t);
    }
}

/// A search result `/url?q=<target>`, optionally followed by `&` and more, is
/// kept exactly when its target names one of the six trusted sites, and then
/// the target is the link.
pub proof fn result_links_keep_trusted_targets(target: Seq<char>, tail: Seq<char>)
    requires
        forall|i: int| 0 <= i < target.len() ==> target[i] != '&',
        tail.len() == 0 || tail[0] == '&',
    ensures
        result_link("/url?q="@ + target + tail) == (if has_substring(target, "thuvienphapluat.vn"@)
            || has_substring(target, "luatvietnam.vn"@) || has_substring(target, "loigiaihay.com"@)
            || has_substring(target, "vnexpress.net"@) || has_substring(target, "tuoitre.vn"@)
            || has_substring(target, "violet.vn"@) {
            Some(target)
        } else {
            None
        }),
{
    reveal_strlit("/url?q=");
    let m = "/url?q="@;
    let href = m + target + tail;
    let n: int = (m.len() + target.len()) as int;
    assert forall|k: int| 0 <= k < n implies href[k] != '&' by {
        if k < m.len() {
            assert(href[k] == m[k]);
        } else {
            assert(href[k] == target[k - m.len()]);
        }
    }
    lemma_before_ampersand(href, n);
    let rest = href.skip(n);
    assert(rest =~= tail);
    if tail.len() > 0 {
        assert(rest[0] == '&');
    } else {
        assert(rest =~= Seq::<char>::empty());
    }
    assert(before_ampersand(rest) =~= Seq::<char>::empty());
    let head = before_ampersand(href);
    assert(head =~= m + target);
    assert(head.subrange(0, m.len() as int) =~= m);
    assert(occurs_at(head, m, 0));
    assert(href.subrange(0, m.len() as int) =~= m);
    assert(occurs_at(href, m, 0));
    assert(has_substring(href, m));
    assert(head.skip(m.len() as int) =~= target);
}

/// A question naming the traffic law ("luật giao thông" or "Luật") anywhere
/// gets the fixed traffic-law query.
pub proof fn law_questions_get_the_law_query(question: Seq<char>, marker: Seq<char>, at: int)
    requires
        marker == "luật giao thông"@ || marker == "Luật"@,
        0 <= at && at + marker.len() <= question.len(),
        question.subrange(at, at + marker.len()) == marker,
    ensures
        search_query(question)
            == "Luật giao thông đường bộ Việt Nam 2025 site:thuvienphapluat.vn OR site:luatvietnam.vn"@,
{
    assert(occurs_at(question, marker, at));
}

/// A question that does not name the traffic law but holds "bài tập" or
/// "giải" anywhere is searched on the solution sites.
pub proof fn exercise_questions_get_solution_sites(question: Seq<char>, marker: Seq<char>, at: int)
    requires
        marker == "bài tập"@ || marker == "giải"@,
        0 <= at && at + marker.len() <= question.len(),
        question.subrange(at, at + marker.len()) == marker,
        forall|i: int|
            0 <= i && i + "luật giao thông"@.len() <= question.len() ==> #[trigger] question.subrange(
                i,
                i + "luật giao thông"@.len(),
            ) != "luật giao thông"@,
        forall|i: int|
            0 <= i && i + "Luật"@.len() <= question.len() ==> #[trigger] question.subrange(i, i + "Luật"@.len())
                != "Luật"@,
    ensures
        search_query(question) == question
            + " giải chi tiết site:loigiaihay.com OR site:violet.vn OR site:mathvn.com"@,
{
    assert(occurs_at(question, marker, at));
    assert(!has_substring(question, "luật giao thông"@));
    assert(!has_substring(question, "Luật"@));
}

/// A question holding none of the four markers is searched on the general
/// news and reference sites, and the search URL is Google's search with the
/// query percent-encoded.
pub proof fn other_questions_get_general_sites(question: Seq<char>)
    requires
        forall|marker: Seq<char>, i: int|
            (marker == "luật giao thông"@ || marker == "Luật"@ || marker == "bài tập"@ || marker
                == "giải"@) && 0 <= i && i + marker.len() <= question.len() ==> #[trigger] question.subrange(
                i,
                i + marker.len(),
            ) != marker,
    ensures
        search_query(question) == question
            + " site:vi.wikipedia.org OR site:vnexpress.net OR site:tuoitre.vn OR site:thuvienphapluat.vn"@,
        search_url(question) == "https://www.google.com/search?q="@ + percent_encoded(
            encode_utf8(search_query(question)),
        ),
{
    assert(!has_substring(question, "luật giao thông"@));
    assert(!has_substring(question, "Luật"@));
    assert(!has_substring(question, "bài tập"@));
    assert(!has_substring(question, "giải"@));
}

/// Answers are remembered under the whole question in lower case: asking the
/// same question again, in any letter case, recalls the answer, and a question
/// whose lower-case form differs is answered as if nothing had been
/// remembered for the first.
pub proof fn answers_are_keyed_by_whole_lower_case(
    known: Map<Seq<char>, Seq<char>>,
    question: Seq<char>,
    other: Seq<char>,
    text: Seq<char>,
)
    ensures
        knowledge_key(question) == lowercase(question),
        first_step(known.insert(lowercase(question), text), question) == StepView::Reply(
            "[ĐÃ HỌC TRƯỚC] "@ + text,
        ),
        lowercase(other) == lowercase(question) ==> first_step(
            known.insert(lowercase(question), text),
            other,
        ) == StepView::Reply("[ĐÃ HỌC TRƯỚC] "@ + text),
        lowercase(other) != lowercase(question) ==> first_step(
            known.insert(lowercase(question), text),
            other,
        ) == first_step(known, other),
        !known.contains_key(lowercase(other)) ==> first_step(known, other) == StepView::Fetch(
            search_url(other),
        ),
{
}

} // verus!
