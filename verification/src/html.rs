//! Document-model extraction over parsed HTML pages.
//!
//! A [`Document`] wraps a parsed page together with a ghost copy of the
//! page text it was parsed from. What the HTML library extracts from a
//! page — attribute values, first text nodes, inner markup — is a
//! function of that text and the selector alone, so each extraction
//! result carries a name (`tags_of`, `first_text_of`, `first_inner_of`,
//! `scoped_lines_of`), and the trusted extractors state their results
//! through those names. Every decision taken on the extracted values —
//! which script element carries the state blob, which paragraph is a
//! break marker — is made by verified functions over plain values, and
//! the two entry points state their results over the names in full:
//! [`Document::get_index`] finds the embedded state script and recovers
//! the work's title and chapter list; [`Document::get_chapter_content`]
//! locates the chapter body container and classifies its paragraph
//! elements into text lines and break markers.

use vstd::prelude::*;
use vstd::string::StringExecFns;

use crate::json::{decode, decode_spec, DecodeError};
use crate::text::str_eq;

verus! {

#[verifier::external_type_specification]
#[verifier::external_body]
pub struct ExHtml(scraper::Html);

/// For every element of the page matching the selector, in document
/// order: the values of two named attributes and the first descendant
/// text node. A selector the CSS parser rejects matches nothing.
pub uninterp spec fn tags_of(
    html: Seq<char>,
    css: Seq<char>,
    attr_a: Seq<char>,
    attr_b: Seq<char>,
) -> Seq<(Option<Seq<char>>, Option<Seq<char>>, Option<Seq<char>>)>;

/// The first descendant text node of the first element matching the
/// selector; `None` when no element matches or the first match holds no
/// text. A selector the CSS parser rejects matches nothing.
pub uninterp spec fn first_text_of(html: Seq<char>, css: Seq<char>) -> Option<Seq<char>>;

/// The verbatim inner markup of the first element matching the selector;
/// `None` when no element matches. A selector the CSS parser rejects
/// matches nothing.
pub uninterp spec fn first_inner_of(html: Seq<char>, css: Seq<char>) -> Option<Seq<char>>;

/// `None` when no element matches the scope selector, or when the CSS
/// parser rejects either selector. Otherwise, for every descendant of the
/// first scope element matching the item selector, in document order: the
/// value of the named attribute and the verbatim inner markup.
pub uninterp spec fn scoped_lines_of(
    html: Seq<char>,
    scope_css: Seq<char>,
    item_css: Seq<char>,
    attr: Seq<char>,
) -> Option<Seq<(Option<Seq<char>>, Seq<char>)>>;

/// A parsed page, carrying a ghost copy of the text it was parsed from.
pub struct Document {
    inner: scraper::Html,
    text: Ghost<Seq<char>>,
}

/// The attributes and first text node of one script element, as plain
/// values.
pub struct ScriptTag {
    pub kind: Option<String>,
    pub id: Option<String>,
    pub text: Option<String>,
}

/// Relies on scraper::Html::parse_document: parses HTML text into a
/// document tree, deterministically in the text.
#[verifier::external_body]
fn parse_document(html: &str) -> scraper::Html {
    scraper::Html::parse_document(html)
}

/// Relies on scraper::Selector::parse, Html::select, ElementRef::attr and
/// ElementRef::text: the two attribute values and first text of every
/// matching element, in document order, as [`tags_of`] names it.
#[verifier::external_body]
fn extract_tags(doc: &Document, css: &str, attr_a: &str, attr_b: &str) -> (r: Vec<ScriptTag>)
    ensures
        r@.len() == tags_of(doc.text_view(), css@, attr_a@, attr_b@).len(),
        forall|i: int|
            #![trigger r@[i]]
            0 <= i < r@.len() ==> {
                let t = tags_of(doc.text_view(), css@, attr_a@, attr_b@)[i];
                r@[i].kind.deep_view() == t.0 && r@[i].id.deep_view() == t.1
                    && r@[i].text.deep_view() == t.2
            },
{
    let sel = match scraper::Selector::parse(css) {
        Ok(sel) => sel,
        Err(_) => return Vec::new(),
    };
    doc.inner
        .select(&sel)
        .map(|e| ScriptTag {
            kind: e.attr(attr_a).map(str::to_owned),
            id: e.attr(attr_b).map(str::to_owned),
            text: e.text().next().map(str::to_owned),
        })
        .collect()
}

/// Relies on scraper::Html::select and ElementRef::text: the first text
/// node of the first matching element, as [`first_text_of`] names it.
#[verifier::external_body]
fn extract_first_text(doc: &Document, css: &str) -> (r: Option<String>)
    ensures
        r.deep_view() == first_text_of(doc.text_view(), css@),
{
    let sel = scraper::Selector::parse(css).ok()?;
    doc.inner.select(&sel).next()?.text().next().map(str::to_owned)
}

/// Relies on scraper::Html::select and ElementRef::inner_html: the inner
/// markup of the first matching element, as [`first_inner_of`] names it.
#[verifier::external_body]
fn extract_first_inner(doc: &Document, css: &str) -> (r: Option<String>)
    ensures
        r.deep_view() == first_inner_of(doc.text_view(), css@),
{
    let sel = scraper::Selector::parse(css).ok()?;
    Some(doc.inner.select(&sel).next()?.inner_html())
}

/// Relies on scraper::Html::select, ElementRef::select, ElementRef::attr
/// and ElementRef::inner_html: the attribute value and inner markup of
/// each item under the first scope element, as [`scoped_lines_of`] names
/// it.
#[verifier::external_body]
fn extract_scoped_lines(doc: &Document, scope_css: &str, item_css: &str, attr: &str) -> (r: Option<
    Vec<RawLine>,
>)
    ensures
        ({
            let m = scoped_lines_of(doc.text_view(), scope_css@, item_css@, attr@);
            match r {
                None => m is None,
                Some(v) => m matches Some(l) && v@.len() == l.len() && forall|i: int|
                    #![trigger v@[i]]
                    0 <= i < l.len() ==> v@[i].class.deep_view() == l[i].0 && v@[i].markup@
                        == l[i].1,
            }
        }),
{
    let scope = scraper::Selector::parse(scope_css).ok()?;
    let items = scraper::Selector::parse(item_css).ok()?;
    let body = doc.inner.select(&scope).next()?;
    Some(
        body.select(&items)
            .map(|e| RawLine { class: e.attr(attr).map(str::to_owned), markup: e.inner_html() })
            .collect(),
    )
}

/// Whether attribute values and a text presence mark the embedded state
/// script: a JSON script with the expected id, holding some text.
pub open spec fn tag_matches(
    kind: Option<Seq<char>>,
    id: Option<Seq<char>>,
    text: Option<Seq<char>>,
) -> bool {
    &&& kind matches Some(k) && k == "application/json"@
    &&& id matches Some(d) && d == "__NEXT_DATA__"@
    &&& text is Some
}

/// Whether a script element carries the embedded state blob.
pub open spec fn script_matches(t: ScriptTag) -> bool {
    tag_matches(t.kind.deep_view(), t.id.deep_view(), t.text.deep_view())
}

/// `i` is the position of the first tag carrying the embedded state blob.
pub open spec fn first_match_at(
    tags: Seq<(Option<Seq<char>>, Option<Seq<char>>, Option<Seq<char>>)>,
    i: int,
) -> bool {
    &&& 0 <= i < tags.len()
    &&& tag_matches(tags[i].0, tags[i].1, tags[i].2)
    &&& forall|j: int|
        #![trigger tags[j]]
        0 <= j < i ==> !tag_matches(tags[j].0, tags[j].1, tags[j].2)
}

/// Position of the first script element that carries the embedded state
/// blob, if any.
pub fn find_embedded_state(tags: &Vec<ScriptTag>) -> (r: Option<usize>)
    ensures
        match r {
            Some(i) => i < tags@.len() && script_matches(tags@[i as int]) && forall|j: int|
                0 <= j < i ==> !script_matches(tags@[j]),
            None => forall|j: int| 0 <= j < tags@.len() ==> !script_matches(tags@[j]),
        },
{
    let mut i: usize = 0;
    while i < tags.len()
        invariant
            i <= tags@.len(),
            forall|j: int| 0 <= j < i ==> !script_matches(tags@[j]),
        decreases tags@.len() - i,
    {
        let t = &tags[i];
        let kind_ok = match &t.kind {
            Some(k) => str_eq(k.as_str(), "application/json"),
            None => false,
        };
        let id_ok = match &t.id {
            Some(d) => str_eq(d.as_str(), "__NEXT_DATA__"),
            None => false,
        };
        let text_ok = t.text.is_some();
        if kind_ok && id_ok && text_ok {
            return Some(i);
        }
        i = i + 1;
    }
    None
}

/// A content line of a chapter body: a text paragraph carrying its
/// verbatim inner markup, or an explicit break marker.
pub enum Line {
    Paragraph(String),
    Break,
}

/// Whether a class attribute marks an explicit break line.
pub open spec fn is_break_attr(class: Option<Seq<char>>) -> bool {
    class matches Some(c) && c == "blank"@
}

impl Line {
    /// Classify one paragraph element from its class attribute and inner
    /// markup: a break marker exactly when the class equals the break
    /// literal, otherwise a paragraph carrying the markup verbatim.
    pub fn new(class: Option<&str>, markup: String) -> (r: Line)
        ensures
            line_matches_parts(class.deep_view(), markup@, r),
    {
        let brk = match class {
            Some(c) => str_eq(c, "blank"),
            None => false,
        };
        if brk {
            Line::Break
        } else {
            Line::Paragraph(markup)
        }
    }
}

/// The class attribute and inner markup of one paragraph element, as
/// plain values.
pub struct RawLine {
    pub class: Option<String>,
    pub markup: String,
}

/// How one classified line relates to the class attribute and markup of
/// the element it came from.
pub open spec fn line_matches_parts(class: Option<Seq<char>>, markup: Seq<char>, l: Line) -> bool {
    match l {
        Line::Break => is_break_attr(class),
        Line::Paragraph(m) => !is_break_attr(class) && m@ == markup,
    }
}

/// How one classified line relates to the element it came from.
pub open spec fn line_matches(rl: RawLine, l: Line) -> bool {
    line_matches_parts(rl.class.deep_view(), rl.markup@, l)
}

/// Classify every extracted paragraph element, in document order.
pub fn segment_lines(raw: &Vec<RawLine>) -> (r: Vec<Line>)
    ensures
        r@.len() == raw@.len(),
        forall|i: int| 0 <= i < raw@.len() ==> line_matches(raw@[i], #[trigger] r@[i]),
{
    let mut out: Vec<Line> = Vec::new();
    let mut i: usize = 0;
    while i < raw.len()
        invariant
            i <= raw@.len(),
            out@.len() == i,
            forall|j: int| 0 <= j < i ==> line_matches(raw@[j], #[trigger] out@[j]),
        decreases raw@.len() - i,
    {
        let rl = &raw[i];
        let class_ref: Option<&str> = match &rl.class {
            Some(s) => Some(s.as_str()),
            None => None,
        };
        let l = Line::new(class_ref, rl.markup.clone());
        out.push(l);
        i = i + 1;
    }
    out
}

/// A work's index page content: the raw display title and the ordered
/// chapter identifiers.
pub struct Index {
    pub title: Option<String>,
    pub chapters: Vec<String>,
}

/// The fixed structural selectors that locate a chapter's title, body
/// container and paragraph elements.
pub struct ChapterSelector {
    body: String,
    line: String,
    title: String,
}

impl ChapterSelector {
    /// The selector that locates the chapter body container.
    pub closed spec fn body_view(&self) -> Seq<char> {
        self.body@
    }

    /// The selector that locates the paragraph elements.
    pub closed spec fn line_view(&self) -> Seq<char> {
        self.line@
    }

    /// The selector that locates the chapter title element.
    pub closed spec fn title_view(&self) -> Seq<char> {
        self.title@
    }

    /// The fixed structural selectors of a chapter page.
    pub fn new() -> (r: ChapterSelector)
        ensures
            r.body_view() == ".widget-episodeBody.js-episode-body"@,
            r.line_view() == "p"@,
            r.title_view() == ".widget-episodeTitle"@,
    {
        ChapterSelector {
            body: String::from_str(".widget-episodeBody.js-episode-body"),
            line: String::from_str("p"),
            title: String::from_str(".widget-episodeTitle"),
        }
    }
}

impl Document {
    /// The page text this document was parsed from.
    pub closed spec fn text_view(&self) -> Seq<char> {
        self.text@
    }

    /// Parse raw HTML text into a document.
    pub fn new(html: &str) -> (r: Document)
        ensures
            r.text_view() == html@,
    {
        Document { inner: parse_document(html), text: Ghost(html@) }
    }

    /// The work's index: the first title element's first text, and the
    /// chapter list decoded from the embedded state script.
    ///
    /// `None` exactly when no script element carries the state blob — a
    /// JSON-typed script with the expected id and a text child. Otherwise
    /// the first such script decides alone: its text decodes per
    /// [`decode_spec`] into the chapter list, or fails into a
    /// [`DecodeError`].
    pub fn get_index(&self) -> (r: Option<Result<Index, DecodeError>>)
        ensures
            ({
                let tags = tags_of(self.text_view(), "script"@, "type"@, "id"@);
                match r {
                    None => forall|j: int|
                        #![trigger tags[j]]
                        0 <= j < tags.len() ==> !tag_matches(tags[j].0, tags[j].1, tags[j].2),
                    Some(res) => exists|i: int|
                        #![trigger first_match_at(tags, i)]
                        first_match_at(tags, i) && (match (tags[i].2, res) {
                            (Some(text), Ok(ix)) => decode_spec(text) == Some(
                                ix.chapters.deep_view(),
                            ) && ix.title.deep_view() == first_text_of(self.text_view(), "title"@),
                            (Some(text), Err(e)) => decode_spec(text) is None,
                            _ => false,
                        }),
                }
            }),
    {
        let tags = extract_tags(self, "script", "type", "id");
        let title = extract_first_text(self, "title");
        let ghost tgs = tags_of(self.text_view(), "script"@, "type"@, "id"@);
        match find_embedded_state(&tags) {
            None => {
                proof {
                    assert forall|j: int| 0 <= j < tgs.len() implies !tag_matches(
                        #[trigger] tgs[j].0,
                        tgs[j].1,
                        tgs[j].2,
                    ) by {
                        assert(!script_matches(tags@[j]));
                        assert(tags@[j].kind.deep_view() == tgs[j].0);
                    }
                }
                None
            },
            Some(at) => {
                proof {
                    assert forall|j: int| 0 <= j < at implies !tag_matches(
                        #[trigger] tgs[j].0,
                        tgs[j].1,
                        tgs[j].2,
                    ) by {
                        assert(!script_matches(tags@[j]));
                        assert(tags@[j].kind.deep_view() == tgs[j].0);
                    }
                    assert(tags@[at as int].kind.deep_view() == tgs[at as int].0);
                    assert(first_match_at(tgs, at as int));
                }
                match &tags[at].text {
                    Some(json) => match decode(json.as_str()) {
                        Ok(chapters) => Some(Ok(Index { title, chapters })),
                        Err(e) => Some(Err(e)),
                    },
                    None => {
                        proof {
                            assert(false);
                        }
                        None
                    },
                }
            },
        }
    }

    /// The chapter page's content: the title element's inner markup, and
    /// the body container's paragraph elements classified in document
    /// order.
    ///
    /// `None` exactly when no element matches the body selector; a body
    /// container without paragraph elements yields an empty line
    /// sequence. The title may be absent even when the body is present.
    pub fn get_chapter_content(&self, selectors: &ChapterSelector) -> (r: Option<
        (Option<String>, Vec<Line>),
    >)
        ensures
            ({
                let m = scoped_lines_of(
                    self.text_view(),
                    selectors.body_view(),
                    selectors.line_view(),
                    "class"@,
                );
                match r {
                    None => m is None,
                    Some(p) => m matches Some(raw) && {
                        &&& p.0.deep_view() == first_inner_of(
                            self.text_view(),
                            selectors.title_view(),
                        )
                        &&& p.1@.len() == raw.len()
                        &&& forall|i: int|
                            #![trigger raw[i]]
                            0 <= i < raw.len() ==> line_matches_parts(raw[i].0, raw[i].1, p.1@[i])
                    },
                }
            }),
    {
        let title = extract_first_inner(self, selectors.title.as_str());
        match extract_scoped_lines(
            self,
            selectors.body.as_str(),
            selectors.line.as_str(),
            "class",
        ) {
            None => None,
            Some(raw) => {
                let lines = segment_lines(&raw);
                proof {
                    let m = scoped_lines_of(
                        self.text_view(),
                        selectors.body_view(),
                        selectors.line_view(),
                        "class"@,
                    );
                    let l = m->Some_0;
                    assert forall|i: int| 0 <= i < l.len() implies line_matches_parts(
                        #[trigger] l[i].0,
                        l[i].1,
                        lines@[i],
                    ) by {
                        assert(raw@[i].class.deep_view() == l[i].0);
                        assert(line_matches(raw@[i], lines@[i]));
                    }
                }
                Some((title, lines))
            },
        }
    }
}

} // verus!
