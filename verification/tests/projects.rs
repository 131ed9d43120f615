use automotion::fix::{
    extract_project_name, fix_amproj, manifest_lookup, parse_manifest, prepare_fix,
    rewrite_to_am_direct, uri_replacement,
};
use automotion::group_split::{
    archive_with_xml_exec, canvas_size, chunk_plan_fits_exec, group_amproj, group_and_split,
    group_and_split_checked, group_for_time_split, group_scene, split_grouped,
};
use automotion::split::split_amproj;
use automotion::text::chars_of;
use automotion::xml::{first_xml_entry_exec, load_scene, read_archive_xml, ArchiveEntry};

const SCENE: &str = "<?xml version='1.0' encoding='UTF-8' ?>\n<scene title=\"Demo Scene\" width=\"1280\" height=\"720\" totalTime=\"2000\" fps=\"30\" amver=\"1\">\n<media uri=\"amproj:img.png\" sig=\"aaa\" type=\"image/png\" />\n<media uri=\"amproj:snd.mp3\" sig=\"bbb\" />\n<bookmark time=\"0\" />\n<shape id=\"s1\" label=\"Circle\" endTime=\"1500\" fillImage=\"amproj:img.png\" />\n<embedScene id=\"g1\"><scene><audio src=\"amproj:snd.mp3\" /></scene></embedScene>\n</scene>\n";

fn entry(name: &str, data: &[u8]) -> ArchiveEntry {
    ArchiveEntry { name: name.to_string(), data: data.to_vec() }
}

fn archive(xml: &str) -> Vec<ArchiveEntry> {
    vec![
        entry("u.xml", xml.as_bytes()),
        entry("img.png", &[1, 2, 3]),
        entry("snd.mp3", &[4, 5]),
        entry("manifest.txt", b"aaa:img.png\nccc:ddd:snd.mp3\n"),
    ]
}

fn names(entries: &[ArchiveEntry]) -> Vec<String> {
    entries.iter().map(|e| e.name.clone()).collect()
}

fn text_of(e: &ArchiveEntry) -> String {
    String::from_utf8(e.data.clone()).unwrap()
}

#[test]
fn archive_xml_is_the_last_xml_entry() {
    let mut entries = archive(SCENE);
    entries.push(entry("other.xml", b"<scene/>"));
    assert_eq!(read_archive_xml(&entries).unwrap(), "<scene/>");
    let only_assets = vec![entry("a.png", &[0])];
    assert_eq!(read_archive_xml(&only_assets).err().unwrap(), "amproj 中未找到 XML 文件");
    let empty_xml = vec![entry("a.xml", b"")];
    assert_eq!(read_archive_xml(&empty_xml).err().unwrap(), "amproj 中未找到 XML 文件");
}

#[test]
fn first_xml_entry_is_found_by_name() {
    let ns = vec!["a.png".to_string(), "b.xml".to_string(), "c.xml".to_string()];
    assert_eq!(first_xml_entry_exec(&ns), Some(1));
    assert_eq!(first_xml_entry_exec(&vec!["x".to_string()]), None);
}

#[test]
fn load_scene_reports_each_error() {
    let bad = vec![entry("a.xml", b"<scene><unclosed></scene>")];
    assert!(load_scene(&bad).err().unwrap().starts_with("XML 解析失败: "));
    let project = vec![entry("a.xml", b"<project/>")];
    assert_eq!(load_scene(&project).err().unwrap(), "根节点不是 <scene>，而是 <project>");
    let ok = load_scene(&archive(SCENE)).unwrap();
    assert_eq!(ok.root.tag, "scene");
    assert_eq!(ok.children.len(), 5);
    assert_eq!(ok.children[4].tag, "embedScene");
    let sub: Vec<&str> = ok.children[4].subtree_attrs.iter().map(|a| a.name.as_str()).collect();
    assert_eq!(sub, vec!["id", "src"]);
}

#[test]
fn split_makes_one_project_per_content_element() {
    let pieces = split_amproj(&archive(SCENE)).unwrap();
    assert_eq!(pieces.len(), 2);

    assert_eq!(pieces[0].file_name, "000_Circle.amproj");
    assert_eq!(names(&pieces[0].entries), vec!["000_Circle.xml", "img.png", "manifest.txt"]);
    assert_eq!(
        text_of(&pieces[0].entries[0]),
        "<?xml version='1.0' encoding='UTF-8' ?>\n<scene title=\"Circle\" width=\"1280\" height=\"720\" totalTime=\"1500\" fps=\"30\" amver=\"1\">\n  <media uri=\"amproj:img.png\" sig=\"aaa\" type=\"image/png\" />\n  <shape id=\"s1\" label=\"Circle\" endTime=\"1500\" fillImage=\"amproj:img.png\" />\n</scene>\n"
    );
    assert_eq!(pieces[0].entries[1].data, vec![1, 2, 3]);
    assert_eq!(text_of(&pieces[0].entries[2]), "img.png");

    assert_eq!(pieces[1].file_name, "001_g1.amproj");
    assert_eq!(names(&pieces[1].entries), vec!["001_g1.xml", "snd.mp3", "manifest.txt"]);
    assert_eq!(
        text_of(&pieces[1].entries[0]),
        "<?xml version='1.0' encoding='UTF-8' ?>\n<scene title=\"g1\" width=\"1280\" height=\"720\" totalTime=\"2000\" fps=\"30\" amver=\"1\">\n  <media uri=\"amproj:snd.mp3\" sig=\"bbb\" />\n  <embedScene id=\"g1\"><scene><audio src=\"amproj:snd.mp3\" /></scene></embedScene>\n</scene>\n"
    );
}

#[test]
fn split_of_a_scene_without_content_is_empty() {
    let xml = "<scene title=\"t\"><media uri=\"amproj:a.png\" sig=\"a\" /><bookmark /></scene>";
    assert_eq!(split_amproj(&vec![entry("a.xml", xml.as_bytes())]).unwrap().len(), 0);
}

fn grouped_expected(total_time: &str) -> String {
    let mut x = String::new();
    x.push_str("<?xml version='1.0' encoding='UTF-8' ?>\n");
    x.push_str("<scene title=\"Demo Scene\" width=\"1280\" height=\"720\" totalTime=\"2000\" fps=\"30\" amver=\"1\">\n");
    x.push_str("  <media uri=\"amproj:img.png\" sig=\"aaa\" type=\"image/png\" />\n");
    x.push_str("  <media uri=\"amproj:snd.mp3\" sig=\"bbb\" />\n");
    x.push_str("  <bookmark time=\"0\" />\n");
    x.push_str(&format!("  <embedScene id=\"99830094\" label=\"编组\" startTime=\"0\" endTime=\"{total_time}\" fillType=\"intrinsic\">\n"));
    x.push_str("    <transform>\n");
    x.push_str("      <location value=\"640.000000,360.000000,0.000000\" />\n");
    x.push_str("    </transform>\n");
    x.push_str("    <fillColor value=\"#ff000000\" />\n");
    x.push_str(&format!("    <scene title=\"\" width=\"1280\" height=\"720\" exportWidth=\"1280\" exportHeight=\"720\" precompose=\"dynamicResolution\" bgcolor=\"#00000000\" totalTime=\"{total_time}\" fps=\"30\" modifiedTime=\"0\" amver=\"1\" ffver=\"105\" am=\"com.taffy.alemon/4.3.4.3019\" amplatform=\"android\" retime=\"off\" retimeAdaptFPS=\"false\">\n"));
    x.push_str("      <shape id=\"s1\" label=\"Circle\" endTime=\"1500\" fillImage=\"amproj:img.png\" />\n");
    x.push_str("      <embedScene id=\"g1\"><scene><audio src=\"amproj:snd.mp3\" /></scene></embedScene>\n");
    x.push_str("    </scene>\n");
    x.push_str("  </embedScene>\n");
    x.push_str("</scene>\n");
    x
}

#[test]
fn group_wraps_content_in_one_embed_scene() {
    let doc = load_scene(&archive(SCENE)).unwrap();
    assert_eq!(canvas_size(&doc), ("1280".to_string(), "720".to_string()));
    let g = group_scene(&doc, "640.000000,360.000000").unwrap();
    assert_eq!(g.file_name, "Demo_Scene_grouped.amproj");
    assert_eq!(g.xml, grouped_expected("2000"));
}

#[test]
fn group_errors_name_the_problem() {
    let no_time = load_scene(&vec![entry("a.xml", b"<scene fps=\"30\"><shape/></scene>")]).unwrap();
    assert_eq!(group_scene(&no_time, "0,0").err().unwrap(), "scene 缺少 totalTime 属性");
    let bad_time =
        load_scene(&vec![entry("a.xml", b"<scene totalTime=\"12x\"><shape/></scene>")]).unwrap();
    assert_eq!(
        group_scene(&bad_time, "0,0").err().unwrap(),
        "totalTime 解析失败: invalid digit found in string"
    );
    let no_fps = load_scene(&vec![entry("a.xml", b"<scene totalTime=\"5\"><shape/></scene>")]).unwrap();
    assert_eq!(group_for_time_split(&no_fps, "0,0").err().unwrap(), "scene 缺少 fps 属性");
    let empty =
        load_scene(&vec![entry("a.xml", b"<scene totalTime=\"5\" fps=\"30\"><media/></scene>")])
            .unwrap();
    assert_eq!(group_scene(&empty, "0,0").err().unwrap(), "scene 中没有内容元素可编组");
}

#[test]
fn time_split_cuts_the_grouped_scene_into_frame_windows() {
    let doc = load_scene(&archive(SCENE)).unwrap();
    let g = group_for_time_split(&doc, "640.000000,360.000000").unwrap();
    assert_eq!((g.total_time, g.fps), (2000, 30));
    assert!(chunk_plan_fits_exec(g.total_time, g.fps, 30, 60));
    let chunks = split_grouped(&g.xml, g.total_time, g.fps, 30, 60);
    assert_eq!(chunks.len(), 2);
    assert_eq!(chunks[0].file_name, "0-30.amproj");
    assert_eq!(chunks[1].file_name, "30-60.amproj");

    let first = grouped_expected("2000")
        .replacen("totalTime=\"2000\"", "totalTime=\"1032\"", 1)
        .replace(
            "endTime=\"2000\" fillType=\"intrinsic\">",
            "endTime=\"1032\" fillType=\"intrinsic\" outTime=\"2147482679\">",
        );
    assert_eq!(chunks[0].xml, first);

    let second = grouped_expected("2000")
        .replacen("totalTime=\"2000\"", "totalTime=\"1000\"", 1)
        .replace(
            "endTime=\"2000\" fillType=\"intrinsic\">",
            "endTime=\"1000\" fillType=\"intrinsic\" inTime=\"1000\" outTime=\"2147483647\">",
        );
    assert_eq!(chunks[1].xml, second);
}

#[test]
fn chunk_windows_tile_the_frames() {
    let doc = load_scene(&archive(SCENE)).unwrap();
    let g = group_for_time_split(&doc, "1,1").unwrap();
    assert!(chunk_plan_fits_exec(g.total_time, g.fps, 7, 60));
    let chunks = split_grouped(&g.xml, g.total_time, g.fps, 7, 60);
    assert_eq!(chunks.len(), 9);
    let mut expected_start = 0u64;
    for c in &chunks {
        let stem = c.file_name.trim_end_matches(".amproj");
        let (a, b) = stem.split_once('-').unwrap();
        assert_eq!(a.parse::<u64>().unwrap(), expected_start);
        expected_start = b.parse::<u64>().unwrap();
    }
    assert_eq!(expected_start, 60);
}

#[test]
fn chunk_plans_that_cannot_be_computed_are_refused() {
    assert!(!chunk_plan_fits_exec(1000, 0, 30, 10));
    assert!(!chunk_plan_fits_exec(1000, 30, 0, 10));
    assert!(chunk_plan_fits_exec(1000, 30, 30, 30));
}

#[test]
fn grouped_archive_replaces_only_xml_entries() {
    let out = archive_with_xml_exec(&archive(SCENE), &"<new/>".to_string());
    assert_eq!(names(&out), vec!["u.xml", "img.png", "snd.mp3", "manifest.txt"]);
    assert_eq!(text_of(&out[0]), "<new/>");
    assert_eq!(out[1].data, vec![1, 2, 3]);
}

#[test]
fn manifest_maps_files_to_hashes() {
    let m = parse_manifest("aaa:img.png\n ccc:ddd:snd.mp3 \n\nbad line\nzzz:img.png\n");
    assert_eq!(manifest_lookup(&m, &chars_of("img.png")).map(|v| v.into_iter().collect::<String>()), Some("zzz".to_string()));
    assert_eq!(manifest_lookup(&m, &chars_of("snd.mp3")).map(|v| v.into_iter().collect::<String>()), Some("ccc".to_string()));
    assert_eq!(manifest_lookup(&m, &chars_of("bad line")), None);
}

#[test]
fn uris_are_rewritten_to_hashes() {
    let m = parse_manifest("aaa:img.png\nccc:ddd:snd.mp3\neee:noext\n");
    let xml = "<a fillImage=\"amproj:img.png\" /><b src=\"amproj:snd.mp3\" /><c uri=\"amproj:zzz.gif\" /><d uri=\"amproj:noext\" />";
    assert_eq!(
        rewrite_to_am_direct(xml, &m),
        "<a fillImage=\"am:aaa.png\" /><b src=\"am:ccc.mp3\" /><c uri=\"amproj:zzz.gif\" /><d uri=\"am:eee\" />"
    );
    assert_eq!(rewrite_to_am_direct("no uris", &m), "no uris");
}

#[test]
fn one_uri_is_replaced_by_its_hash() {
    let m = parse_manifest("aaa:img.png\neee:noext\n");
    assert_eq!(uri_replacement(&m, "img.png"), "am:aaa.png");
    assert_eq!(uri_replacement(&m, "noext"), "am:eee");
    assert_eq!(uri_replacement(&m, "other.gif"), "amproj:other.gif");
}

#[test]
fn project_name_comes_from_title_then_file() {
    assert_eq!(extract_project_name(SCENE, "/in/My File.amproj"), "Demo_Scene");
    assert_eq!(extract_project_name("<scene title=\"\">", "/in/My File.amproj"), "My_File");
    assert_eq!(extract_project_name("<scene>", "/in/v1.2.amproj"), "v1.2");
}

#[test]
fn fix_rewrites_the_xml_entry_only() {
    let entries = archive(SCENE);
    let src = prepare_fix(&entries, "/in/demo.amproj").unwrap();
    assert_eq!(src.xml_name, "u.xml");
    assert_eq!(src.project_name, "Demo_Scene");
    let plan = fix_amproj(&src, &entries, "out").unwrap();
    assert_eq!(plan.result.output_amproj, "out/Demo_Scene_fixed.amproj");
    assert_eq!(names(&plan.entries), names(&entries));
    let xml = text_of(&plan.entries[0]);
    assert!(xml.contains("uri=\"am:aaa.png\"") && xml.contains("src=\"am:ccc.mp3\""));
    assert!(!xml.contains("amproj:"));
    assert_eq!(plan.entries[3].data, entries[3].data);
}

#[test]
fn fix_without_manifest_fails() {
    let entries = vec![entry("u.xml", SCENE.as_bytes())];
    let src = prepare_fix(&entries, "x.amproj").unwrap();
    assert_eq!(fix_amproj(&src, &entries, "out").err().unwrap(), "amproj 中未找到 manifest.txt");
    assert_eq!(prepare_fix(&vec![entry("m.txt", b"")], "x").err().unwrap(), "amproj 中未找到 XML 文件");
}

#[test]
fn manifest_file_names_may_hold_colons() {
    let m = parse_manifest("s1:p1:a:b.png\ns2:c.png\n");
    assert_eq!(manifest_lookup(&m, &chars_of("a:b.png")).map(|v| v.into_iter().collect::<String>()), Some("s1".to_string()));
    assert_eq!(manifest_lookup(&m, &chars_of("c.png")).map(|v| v.into_iter().collect::<String>()), Some("s2".to_string()));
    assert_eq!(manifest_lookup(&m, &chars_of("p1:a:b.png")), None);
}

#[test]
fn uri_matches_stop_at_the_quote_and_need_a_file() {
    let m = parse_manifest("h:x.png\n");
    assert_eq!(
        rewrite_to_am_direct("a=\"amproj:\" b=\"amproj:x.png\"amproj:x.png", &m),
        "a=\"amproj:\" b=\"am:h.png\"am:h.png"
    );
    assert_eq!(rewrite_to_am_direct("amproj:amproj:x.png\"", &m), "amproj:amproj:x.png\"");
}

#[test]
fn checked_time_split_refuses_plans_that_do_not_fit() {
    let entries = archive(SCENE);
    assert!(group_and_split_checked(&entries, "1,1", 0, 60).is_none());
    let chunks = group_and_split_checked(&entries, "1,1", 30, 60).unwrap().unwrap();
    let direct = group_and_split(&entries, "1,1", 30, 60).unwrap();
    assert_eq!(chunks.len(), 2);
    for (a, b) in chunks.iter().zip(direct.iter()) {
        assert_eq!(a.file_name, b.file_name);
        assert_eq!(names(&a.entries), names(&b.entries));
    }
    let bad = vec![entry("a.xml", b"<scene totalTime=\"5\"><shape/></scene>")];
    assert_eq!(group_and_split_checked(&bad, "0,0", 0, 0).unwrap().err().unwrap(), "scene 缺少 fps 属性");
    assert_eq!(group_and_split(&vec![entry("a.png", b"x")], "0,0", 30, 60).err().unwrap(), "amproj 中未找到 XML 文件");
}

#[test]
fn time_split_writes_one_archive_per_chunk() {
    let entries = archive(SCENE);
    let out = group_and_split(&entries, "640.000000,360.000000", 30, 60).unwrap();
    assert_eq!(out.len(), 2);
    assert_eq!(out[0].file_name, "0-30.amproj");
    assert_eq!(out[1].file_name, "30-60.amproj");
    let doc = load_scene(&entries).unwrap();
    let g = group_for_time_split(&doc, "640.000000,360.000000").unwrap();
    let chunks = split_grouped(&g.xml, g.total_time, g.fps, 30, 60);
    for (a, c) in out.iter().zip(chunks.iter()) {
        assert_eq!(names(&a.entries), names(&entries));
        assert_eq!(text_of(&a.entries[0]), c.xml);
        for k in 1..entries.len() {
            assert_eq!(a.entries[k].data, entries[k].data);
        }
    }
}

#[test]
fn grouping_writes_the_archive_with_the_grouped_xml() {
    let entries = archive(SCENE);
    let g = group_amproj(&entries, "640.000000,360.000000").unwrap();
    assert_eq!(g.file_name, "Demo_Scene_grouped.amproj");
    assert_eq!(names(&g.entries), names(&entries));
    assert_eq!(text_of(&g.entries[0]), grouped_expected("2000"));
    for k in 1..entries.len() {
        assert_eq!(g.entries[k].data, entries[k].data);
    }
    let empty = vec![entry("a.xml", b"<scene totalTime=\"5\" fps=\"30\"><media/></scene>")];
    assert_eq!(group_amproj(&empty, "0,0").err().unwrap(), "scene 中没有内容元素可编组");
}

#[test]
fn chunks_keep_kept_lines_and_the_inner_scene() {
    let doc = load_scene(&archive(SCENE)).unwrap();
    let g = group_for_time_split(&doc, "640.000000,360.000000").unwrap();
    let kept = "  <media uri=\"amproj:img.png\" sig=\"aaa\" type=\"image/png\" />\n  <media uri=\"amproj:snd.mp3\" sig=\"bbb\" />\n  <bookmark time=\"0\" />\n  <embedScene ";
    let tag_end = g.xml.find("fillType=\"intrinsic\"").unwrap() + "fillType=\"intrinsic\"".len();
    let after = &g.xml[tag_end..];
    for c in split_grouped(&g.xml, g.total_time, g.fps, 7, 60) {
        assert!(c.xml.starts_with("<?xml version='1.0' encoding='UTF-8' ?>\n<scene"));
        assert!(c.xml.contains(kept));
        assert!(c.xml.ends_with(after));
        let k = c.xml.find(kept).unwrap() + kept.len() - "<embedScene ".len();
        let tag = &c.xml[k..c.xml.len() - after.len()];
        assert!(tag.starts_with("<embedScene") && !tag.contains('>'));
    }
}
