use kakuyomu_dump::html::Line;
use kakuyomu_dump::render::{
    construct_file_path, effective_max, episode_url, render_chapter_header, render_line,
    render_novel_header, usize_to_string, work_url,
};

#[test]
fn urls_are_composed() {
    let w = work_url("1177354054883819762");
    assert_eq!(w, "https://kakuyomu.jp/works/1177354054883819762");
    let e = episode_url(&w, "abc");
    assert_eq!(e, "https://kakuyomu.jp/works/1177354054883819762/episodes/abc");
}

#[test]
fn effective_max_respects_bounds() {
    assert_eq!(effective_max(None, 10), Some(10));
    assert_eq!(effective_max(Some(7), 10), Some(7));
    assert_eq!(effective_max(Some(10), 10), Some(10));
    assert_eq!(effective_max(Some(11), 10), None);
}

#[test]
fn lines_render_as_markup() {
    assert_eq!(render_line(&Line::Break), "<br/>\n");
    assert_eq!(render_line(&Line::Paragraph("text <em>x</em>".to_owned())), "text <em>x</em>\n\n");
}

#[test]
fn novel_header_layout() {
    let h = render_novel_header("題名", "https://kakuyomu.jp/works/1");
    assert_eq!(h, "題名\n===================\nOriginal: https://kakuyomu.jp/works/1\n");
}

#[test]
fn chapter_header_prefers_title() {
    assert_eq!(render_chapter_header(Some("第1話"), 1), "\n第1話\n-------------------\n");
    assert_eq!(render_chapter_header(None, 12), "\nChapter 12\n-------------------\n");
}

#[test]
fn decimal_rendering() {
    assert_eq!(usize_to_string(0), "0");
    assert_eq!(usize_to_string(9), "9");
    assert_eq!(usize_to_string(10), "10");
    assert_eq!(usize_to_string(987654321), "987654321");
    assert_eq!(usize_to_string(usize::MAX), "18446744073709551615");
}

#[test]
fn file_path_replaces_extension() {
    assert_eq!(construct_file_path(".", "title"), "./title.md");
    assert_eq!(construct_file_path(".", "a.b"), "./a.md");
    assert_eq!(construct_file_path(".", "a.b.c"), "./a.b.md");
    assert_eq!(construct_file_path(".", ".hidden"), "./.hidden.md");
    assert_eq!(construct_file_path("out", "name."), "out/name.md");
}

#[test]
fn file_path_extension_rule_applies_to_last_component_only() {
    assert_eq!(construct_file_path("out", "a/b.c"), "out/a/b.md");
    assert_eq!(construct_file_path(".", "a.b/c"), "./a.b/c.md");
    assert_eq!(construct_file_path(".", "a/.hidden"), "./a/.hidden.md");
}
