use automotion::amproj::{analyze_header, analyze_header_bytes, AmprojType};
use automotion::text::{chars_of, lines_exec, parse_i32, parse_u64, trim_exec, IntParseError};
use automotion::ui_parser::{
    element_center_fits_exec, find_element_by_content_desc, find_element_by_id,
    find_element_by_text, parse_bounds_center, parse_bounds_center_checked,
};
use automotion::xml::{escape_xml_attr, sanitize_dirname, sanitize_filename};

fn s(v: &[char]) -> String {
    v.iter().collect()
}

const DUMP: &str = r#"<hierarchy><node index="0" text="" resource-id="com.taffy.alemon:id/share" class="a" bounds="[900,100][1000,200]" /><node index="1" text="导入项目" resource-id="android:id/button1" class="b" bounds="[100,1000][300,1100]" /><node index="2" text="完成" resource-id="x" content-desc="完成" bounds="[10,20][30,40]" /></hierarchy>"#;

#[test]
fn escape_replaces_markup_characters() {
    assert_eq!(escape_xml_attr("a&b\"c<d>e"), "a&amp;b&quot;c&lt;d&gt;e");
    assert_eq!(escape_xml_attr("plain"), "plain");
}

#[test]
fn escape_then_unescape_gives_back_the_text() {
    let original = "x<&>\"y&amp;";
    let escaped = escape_xml_attr(original);
    assert!(!escaped.contains('<') && !escaped.contains('>') && !escaped.contains('"'));
    let back = escaped
        .replace("&quot;", "\"")
        .replace("&lt;", "<")
        .replace("&gt;", ">")
        .replace("&amp;", "&");
    assert_eq!(back, original);
}

#[test]
fn sanitize_filename_keeps_word_characters() {
    assert_eq!(sanitize_filename("  My Title/2.0  "), "My_Title_2_0");
    assert_eq!(sanitize_filename("编组 1"), "编组_1");
    assert_eq!(sanitize_filename("a-b_c"), "a-b_c");
}

#[test]
fn sanitize_dirname_keeps_dots() {
    assert_eq!(sanitize_dirname(" v1.2 final? "), "v1.2_final_");
}

#[test]
fn sanitize_is_idempotent_on_examples() {
    for t in ["  a b/c ", "标题：一", "x..y", ""] {
        let once = sanitize_filename(t);
        assert_eq!(sanitize_filename(&once), once);
        let d = sanitize_dirname(t);
        assert_eq!(sanitize_dirname(&d), d);
    }
}

#[test]
fn header_with_element_type_is_an_element() {
    let (kind, title) =
        analyze_header(r#"<?xml version='1.0'?><scene title="星空" type="element" fps="30">"#);
    assert_eq!(kind, AmprojType::Element);
    assert_eq!(title, "星空");
}

#[test]
fn header_with_media_type_only_is_a_project() {
    let (kind, title) = analyze_header(
        r#"<scene title="Demo" fps="30"><media type="image/png" uri="amproj:a.png" />"#,
    );
    assert_eq!(kind, AmprojType::Project);
    assert_eq!(title, "Demo");
}

#[test]
fn header_title_allows_any_white_space_before_it() {
    let (_, title) = analyze_header("<scene\n\t title=\"多 行\" fps=\"30\">");
    assert_eq!(title, "多 行");
    let (_, title) = analyze_header("<scenetitle=\"x\">");
    assert_eq!(title, "未知");
}

#[test]
fn header_without_title_is_unknown() {
    let (kind, title) = analyze_header("<scene fps=\"30\">");
    assert_eq!(kind, AmprojType::Project);
    assert_eq!(title, "未知");
    assert_eq!(AmprojType::Element.display_name(), "元素");
    assert_eq!(AmprojType::Project.display_name(), "项目");
}

#[test]
fn bounds_center_is_the_midpoint() {
    assert_eq!(parse_bounds_center("[0,0][100,200]"), Some((50, 100)));
    assert_eq!(parse_bounds_center("[1,1][2,2]"), Some((1, 1)));
    assert_eq!(parse_bounds_center("no bounds"), None);
}

#[test]
fn bounds_that_overflow_are_refused_by_the_checked_form() {
    assert_eq!(parse_bounds_center_checked("[2000000000,0][2000000000,0]"), None);
    assert_eq!(parse_bounds_center_checked("[10,10][20,30]"), Some(Some((15, 20))));
    assert_eq!(parse_bounds_center_checked("[99999999999,0][1,1]"), Some(None));
}

#[test]
fn find_by_text_matches_a_substring_of_the_text() {
    assert!(element_center_fits_exec(DUMP, "text", "导入"));
    assert_eq!(find_element_by_text(DUMP, "导入"), Some((200, 1050)));
    assert_eq!(find_element_by_text(DUMP, "missing"), None);
}

#[test]
fn find_by_id_matches_a_substring_of_the_id() {
    assert_eq!(find_element_by_id(DUMP, "share"), Some((950, 150)));
    assert_eq!(find_element_by_id(DUMP, "button1"), Some((200, 1050)));
}

#[test]
fn find_by_text_treats_the_target_literally() {
    let dump = r#"<node text="a.b" bounds="[0,0][2,2]" /><node text="a+b" bounds="[10,10][20,20]" />"#;
    assert_eq!(find_element_by_text(dump, "a+b"), Some((15, 15)));
}

#[test]
fn find_by_content_desc_is_exact() {
    assert_eq!(find_element_by_content_desc(DUMP, "完成"), Some((20, 30)));
    assert_eq!(find_element_by_content_desc(DUMP, "完"), None);
}

#[test]
fn integers_parse_as_std_does() {
    assert_eq!(parse_u64(&chars_of("1800")), Ok(1800));
    assert_eq!(parse_u64(&chars_of("+7")), Ok(7));
    assert_eq!(parse_u64(&chars_of("")), Err(IntParseError::Empty));
    assert_eq!(parse_u64(&chars_of("12a")), Err(IntParseError::InvalidDigit));
    assert_eq!(parse_u64(&chars_of("18446744073709551616")), Err(IntParseError::PosOverflow));
    assert_eq!(parse_i32(&chars_of("-2147483648")), Ok(i32::MIN));
    assert_eq!(parse_i32(&chars_of("-2147483649")), Err(IntParseError::NegOverflow));
}

#[test]
fn lines_and_trim_follow_str() {
    let ls = lines_exec(&chars_of("a\r\nb\n\nc"));
    let got: Vec<String> = ls.iter().map(|l| s(l)).collect();
    assert_eq!(got, vec!["a", "b", "", "c"]);
    assert_eq!(s(&trim_exec(&chars_of("\u{3000} x y \n"))), "x y");
}

#[test]
fn header_title_comes_from_the_leftmost_full_match() {
    let (_, title) = analyze_header("<scenery title=\"no\"><scene title=\"yes\">");
    assert_eq!(title, "yes");
    let (_, title) = analyze_header("<scene id=\"1\"><scene  title=\"second\">");
    assert_eq!(title, "second");
    let (_, title) = analyze_header("<scene title=\"unterminated");
    assert_eq!(title, "未知");
    let (_, title) = analyze_header("<scene title=\"\">");
    assert_eq!(title, "");
}

#[test]
fn header_bytes_are_decoded_lossily() {
    let bytes = "<scene title=\"星空\" type=\"element\">".as_bytes().to_vec();
    assert_eq!(analyze_header_bytes(&bytes), (AmprojType::Element, "星空".to_string()));
    let mut cut = "<scene title=\"a\">".as_bytes().to_vec();
    cut.extend_from_slice(&[0xe6, 0x98]);
    assert_eq!(analyze_header_bytes(&cut), (AmprojType::Project, "a".to_string()));
    let mut bad = b"<scene title=\"x".to_vec();
    bad.push(0xff);
    bad.extend_from_slice(b"y\">");
    assert_eq!(analyze_header_bytes(&bad).1, "x\u{fffd}y");
}

#[test]
fn find_escapes_every_regex_metacharacter() {
    let target = "\\.+*?()|[]{}^$#&-~";
    let dump = format!(r#"<node text="{target}" bounds="[0,0][4,4]" />"#);
    assert_eq!(find_element_by_text(&dump, target), Some((2, 2)));
    let dump = r#"<node text="axb" bounds="[0,0][4,4]" />"#;
    assert_eq!(find_element_by_text(dump, "a.b"), None);
}

#[test]
fn escape_keeps_text_without_markup_characters() {
    for t in ["", "plain", "标题 1.2", "amp; quot; lt;"] {
        assert_eq!(escape_xml_attr(t), t);
    }
}

#[test]
fn bounds_come_from_the_leftmost_full_match() {
    assert_eq!(parse_bounds_center("[a,1][2,3][10,20]"), Some((6, 11)));
    assert_eq!(parse_bounds_center("[1,2][3,]"), None);
    assert_eq!(parse_bounds_center_checked("[１,２][３,４]"), Some(None));
}
