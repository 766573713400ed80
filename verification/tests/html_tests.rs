use kakuyomu_dump::html::{
    find_embedded_state, segment_lines, ChapterSelector, Document, Line, RawLine, ScriptTag,
};

fn chapter_page(body: &str, title: Option<&str>) -> String {
    let mut s = String::new();
    s.push_str("<html><head></head><body>");
    if let Some(t) = title {
        s.push_str("<h1 class=\"widget-episodeTitle\">");
        s.push_str(t);
        s.push_str("</h1>");
    }
    s.push_str(body);
    s.push_str("</body></html>");
    s
}

#[test]
fn paragraphs_and_breaks_in_source_order() {
    let page = chapter_page(
        "<div class=\"widget-episodeBody js-episode-body\">\
         <p>first <em>line</em></p><p class=\"blank\"><br/></p><p>second</p></div>",
        Some("第1話"),
    );
    let doc = Document::new(&page);
    let selectors = ChapterSelector::new();
    let (title, lines) = doc.get_chapter_content(&selectors).unwrap();
    assert_eq!(title.as_deref(), Some("第1話"));
    assert_eq!(lines.len(), 3);
    match &lines[0] {
        Line::Paragraph(m) => assert_eq!(m, "first <em>line</em>"),
        Line::Break => panic!("expected a paragraph"),
    }
    assert!(matches!(lines[1], Line::Break));
    match &lines[2] {
        Line::Paragraph(m) => assert_eq!(m, "second"),
        Line::Break => panic!("expected a paragraph"),
    }
}

#[test]
fn no_body_container_yields_none() {
    let page = chapter_page("<div class=\"something-else\"><p>text</p></div>", Some("t"));
    let doc = Document::new(&page);
    let selectors = ChapterSelector::new();
    assert!(doc.get_chapter_content(&selectors).is_none());
}

#[test]
fn empty_body_container_yields_empty_lines() {
    let page = chapter_page("<div class=\"widget-episodeBody js-episode-body\"></div>", None);
    let doc = Document::new(&page);
    let selectors = ChapterSelector::new();
    let (title, lines) = doc.get_chapter_content(&selectors).unwrap();
    assert!(title.is_none());
    assert!(lines.is_empty());
}

#[test]
fn index_with_embedded_state() {
    let page = "<html><head><title>作品名（作者） - カクヨム</title></head><body>\
        <script>var x = 1;</script>\
        <script type=\"application/json\" id=\"__NEXT_DATA__\">\
        {\"props\":{\"pageProps\":{\"__APOLLO_STATE__\":{\"Episode:11\":{},\"Work:w\":{},\"Episode:22\":{}}}}}\
        </script></body></html>";
    let doc = Document::new(page);
    let index = doc.get_index().unwrap().unwrap();
    assert_eq!(index.title.as_deref(), Some("作品名（作者） - カクヨム"));
    assert_eq!(index.chapters, vec!["11".to_owned(), "22".to_owned()]);
}

#[test]
fn index_without_state_script_is_none() {
    let page = "<html><head><title>t</title></head><body><script>var x;</script></body></html>";
    let doc = Document::new(page);
    assert!(doc.get_index().is_none());
}

#[test]
fn index_with_malformed_state_is_a_decode_error() {
    let page = "<html><head></head><body>\
        <script type=\"application/json\" id=\"__NEXT_DATA__\">{\"props\":</script>\
        </body></html>";
    let doc = Document::new(page);
    assert!(doc.get_index().unwrap().is_err());
}

#[test]
fn find_embedded_state_takes_first_match() {
    let tags = vec![
        ScriptTag { kind: None, id: None, text: Some("a".to_owned()) },
        ScriptTag {
            kind: Some("application/json".to_owned()),
            id: Some("other".to_owned()),
            text: Some("b".to_owned()),
        },
        ScriptTag {
            kind: Some("application/json".to_owned()),
            id: Some("__NEXT_DATA__".to_owned()),
            text: None,
        },
        ScriptTag {
            kind: Some("application/json".to_owned()),
            id: Some("__NEXT_DATA__".to_owned()),
            text: Some("c".to_owned()),
        },
    ];
    assert_eq!(find_embedded_state(&tags), Some(3));
    assert_eq!(find_embedded_state(&Vec::new()), None);
}

#[test]
fn classify_by_class_attribute() {
    assert!(matches!(Line::new(Some("blank"), "x".to_owned()), Line::Break));
    match Line::new(Some("other"), "x".to_owned()) {
        Line::Paragraph(m) => assert_eq!(m, "x"),
        Line::Break => panic!("expected a paragraph"),
    }
    match Line::new(None, "y".to_owned()) {
        Line::Paragraph(m) => assert_eq!(m, "y"),
        Line::Break => panic!("expected a paragraph"),
    }
}

#[test]
fn segment_lines_classifies_each_element() {
    let raw = vec![
        RawLine { class: Some("blank".to_owned()), markup: "ignored".to_owned() },
        RawLine { class: None, markup: "kept <b>markup</b>".to_owned() },
    ];
    let lines = segment_lines(&raw);
    assert_eq!(lines.len(), 2);
    assert!(matches!(lines[0], Line::Break));
    match &lines[1] {
        Line::Paragraph(m) => assert_eq!(m, "kept <b>markup</b>"),
        Line::Break => panic!("expected a paragraph"),
    }
}
