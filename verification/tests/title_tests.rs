use kakuyomu_dump::title::Title;

#[test]
fn plain_title_with_author() {
    let t = Title::new("魔法使いの嫁（ヤマザキコレ） - カクヨム");
    assert_eq!(t.name, "魔法使いの嫁");
    assert_eq!(t.author, Some("ヤマザキコレ"));
}

#[test]
fn nested_brackets_in_author() {
    let t = Title::new("作品名（著者（雅号）） - カクヨム");
    assert_eq!(t.name, "作品名");
    assert_eq!(t.author, Some("著者（雅号）"));
}

#[test]
fn no_closing_bracket_means_no_author() {
    let t = Title::new("ただのタイトル - カクヨム");
    assert_eq!(t.name, "ただのタイトル");
    assert_eq!(t.author, None);
}

#[test]
fn closing_without_opening_means_no_author() {
    let t = Title::new("タイトル） - カクヨム");
    assert_eq!(t.name, "タイトル）");
    assert_eq!(t.author, None);
}

#[test]
fn empty_input() {
    let t = Title::new("");
    assert_eq!(t.name, "");
    assert_eq!(t.author, None);
}

#[test]
fn only_suffix_is_first_trimmed() {
    // Trimming comes first, so the leading space of the bare suffix is
    // gone before the suffix is looked for, and nothing is stripped.
    let t = Title::new(" - カクヨム");
    assert_eq!(t.name, "- カクヨム");
    assert_eq!(t.author, None);
    let t = Title::new("x - カクヨム");
    assert_eq!(t.name, "x");
    assert_eq!(t.author, None);
}

#[test]
fn empty_author_brackets() {
    let t = Title::new("題（） - カクヨム");
    assert_eq!(t.name, "題");
    assert_eq!(t.author, Some(""));
}

#[test]
fn surrounding_whitespace_is_trimmed() {
    let t = Title::new("  題名（作者） - カクヨム  ");
    assert_eq!(t.name, "題名");
    assert_eq!(t.author, Some("作者"));
}

#[test]
fn without_site_suffix() {
    let t = Title::new("題名（作者）");
    assert_eq!(t.name, "題名");
    assert_eq!(t.author, Some("作者"));
}

#[test]
fn split_of_clean_name_is_fixed_point() {
    let t = Title::new("魔法使いの嫁（ヤマザキコレ） - カクヨム");
    let name = t.name.to_owned();
    let again = Title::new(&name);
    assert_eq!(again.name, name);
    assert_eq!(again.author, None);
}

#[test]
fn independent_pairs_keep_earlier_in_name() {
    let t = Title::new("あ（い）う（え） - カクヨム");
    assert_eq!(t.name, "あ（い）う");
    assert_eq!(t.author, Some("え"));
}

#[test]
fn deeply_nested_author() {
    let t = Title::new("a（b（c（d）））");
    assert_eq!(t.name, "a");
    assert_eq!(t.author, Some("b（c（d））"));
}
