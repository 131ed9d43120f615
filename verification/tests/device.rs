use automotion::adb::{
    cleanup_phone, dump_ui_xml, force_stop, get_serialno, keep_screen_on, launch_app,
    make_video_dir, open_project_via_content, parse_media_id, press_back, pull_file, push_file,
    query_media_id, shell_cmd, tap, AdbCommand,
};
use automotion::batch::{output_renames_exec, project_files, BatchTally};
use automotion::config::{popup_dismiss_texts, UI_POLL_INTERVAL_MS};
use automotion::ffi::{
    find_ui_element_by_id, find_ui_element_by_id_checked, find_ui_element_by_text,
    find_ui_element_by_text_checked, get_package_name, get_phone_video_dir,
    get_popup_dismiss_texts, AutomotionError, FfiAmprojInfo, FfiAmprojType,
};
use automotion::amproj::AmprojType;
use automotion::render_monitor::{
    find_named_exec, read_size_exec, render_action, render_on_output, render_on_sleep,
    render_start, temps_gone_exec, RenderAction, RenderState,
};
use automotion::ui::{
    guarded_goal_exec, mention_goal_exec, popup_to_dismiss, save_as_goal_exec, saf_action,
    saf_on_clock, saf_on_done, saf_on_dump, tap_goal_exec, visible_goal_exec, wait_action,
    wait_on_clock, wait_on_done, wait_on_dump, wait_start, Attr, SafAction, SafState, WaitAction,
    WaitGoal, WaitState,
};
use automotion::workflow::{
    project_action, project_on_done, project_on_ran, project_on_waited, project_start,
    ProjectAction, ProjectJob, Stage,
};

fn args(c: &AdbCommand) -> Vec<&str> {
    c.args.iter().map(|a| a.as_str()).collect()
}

#[test]
fn adb_commands_have_the_expected_arguments() {
    assert_eq!(args(&shell_cmd("ls")), vec!["shell", "ls"]);
    assert_eq!(args(&get_serialno()), vec!["get-serialno"]);
    assert_eq!(args(&push_file("a.amproj", "/sdcard/Download/a.amproj")), vec!["push", "a.amproj", "/sdcard/Download/a.amproj"]);
    assert_eq!(args(&pull_file("/r", "l")), vec!["pull", "/r", "l"]);
    assert_eq!(args(&force_stop()), vec!["shell", "am force-stop com.taffy.alemon"]);
    assert_eq!(args(&launch_app()), vec!["shell", "monkey -p com.taffy.alemon -c android.intent.category.LAUNCHER 1"]);
    assert_eq!(args(&dump_ui_xml()), vec!["shell", "uiautomator dump /sdcard/window_dump.xml && cat /sdcard/window_dump.xml"]);
    assert_eq!(args(&tap(-5, 120)), vec!["shell", "input tap -5 120"]);
    assert_eq!(args(&press_back()), vec!["shell", "input keyevent 4"]);
    assert_eq!(args(&keep_screen_on(true)), vec!["shell", "svc power stayon true"]);
    assert_eq!(args(&keep_screen_on(false)), vec!["shell", "svc power stayon false"]);
    assert_eq!(args(&make_video_dir()), vec!["shell", "mkdir -p '/sdcard/Movies/Alemon'"]);
}

#[test]
fn media_query_and_open_commands() {
    assert_eq!(
        args(&query_media_id("a b.amproj")),
        vec!["shell", "content query --uri content://media/external/file --projection _id --where \"_display_name='a b.amproj'\""]
    );
    assert_eq!(
        args(&open_project_via_content("230142")),
        vec!["shell", "am start -a android.intent.action.VIEW -d 'content://media/external/file/230142' -t application/zip -p com.taffy.alemon --grant-read-uri-permission"]
    );
}

#[test]
fn cleanup_removes_project_then_video() {
    let cmds = cleanup_phone("p.amproj", Some("/sdcard/Movies/Alemon/v.mp4"));
    assert_eq!(cmds.len(), 2);
    assert_eq!(args(&cmds[0]), vec!["shell", "rm -f '/sdcard/Download/p.amproj'"]);
    assert_eq!(args(&cmds[1]), vec!["shell", "rm -f '/sdcard/Movies/Alemon/v.mp4'"]);
    assert_eq!(cleanup_phone("p.amproj", None).len(), 1);
}

#[test]
fn media_id_is_the_word_after_id() {
    assert_eq!(parse_media_id("Row: 0 _id=230142").unwrap(), "230142");
    assert_eq!(parse_media_id("Row: 0 _id=  77 more").unwrap(), "77");
    assert_eq!(parse_media_id("No result found.").err().unwrap(), "无法从 MediaStore 获取文件 ID: No result found.");
    assert_eq!(parse_media_id("_id=").err().unwrap(), "无法从 MediaStore 获取文件 ID: _id=");
}

#[test]
fn interface_values_carry_over() {
    assert_eq!(get_package_name(), "com.taffy.alemon");
    assert_eq!(get_phone_video_dir(), "/sdcard/Movies/Alemon");
    let texts = get_popup_dismiss_texts();
    assert_eq!(texts, vec!["仍要导出", "跳过", "稍后", "不了", "跳过广告", "确定", "确认", "好"]);
    assert_eq!(popup_dismiss_texts().len(), 8);
    let e: AutomotionError = AutomotionError::from("boom".to_string());
    assert_eq!(e.message(), "boom");
    let info = FfiAmprojInfo::from_analysis(AmprojType::Element, "t".to_string());
    assert!(matches!(info.proj_type, FfiAmprojType::Element));
    assert_eq!(info.title, "t");
    let dump = r#"<node text="OK" resource-id="a:id/ok" bounds="[0,0][10,20]" />"#;
    let c = find_ui_element_by_text(dump.to_string(), "OK".to_string()).unwrap();
    assert_eq!((c.x, c.y), (5, 10));
    let c = find_ui_element_by_id(dump.to_string(), "ok".to_string()).unwrap();
    assert_eq!((c.x, c.y), (5, 10));
    assert!(find_ui_element_by_id(dump.to_string(), "nope".to_string()).is_none());
}

#[test]
fn checked_interface_searches_refuse_overflowing_centres() {
    let dump = r#"<node text="OK" resource-id="a:id/ok" bounds="[0,0][10,20]" /><node text="big" resource-id="a:id/big" bounds="[2000000000,0][2000000000,0]" />"#;
    let c = find_ui_element_by_text_checked(dump.to_string(), "OK".to_string()).unwrap().unwrap();
    assert_eq!((c.x, c.y), (5, 10));
    assert!(find_ui_element_by_text_checked(dump.to_string(), "big".to_string()).is_none());
    let c = find_ui_element_by_id_checked(dump.to_string(), "ok".to_string()).unwrap().unwrap();
    assert_eq!((c.x, c.y), (5, 10));
    assert!(find_ui_element_by_id_checked(dump.to_string(), "a:id/big".to_string()).is_none());
    assert!(find_ui_element_by_id_checked(dump.to_string(), "nope".to_string()).unwrap().is_none());
}

// ---------------------------------------------------------------------------
// UI waits
// ---------------------------------------------------------------------------

/// Runs a wait against a script of dumps; the clock runs out after `ticks`
/// clock readings. Returns the outcome and the taps made.
fn run_wait(goal: &WaitGoal, dumps: &[Option<&str>], ticks: usize) -> (bool, Vec<(i32, i32)>, usize) {
    let mut s = wait_start(goal);
    let mut taps = Vec::new();
    let mut readings = 0;
    let mut looks = 0;
    let mut popups = 0;
    for _ in 0..1000 {
        match wait_action(s) {
            WaitAction::CheckClock => {
                readings += 1;
                s = wait_on_clock(goal, s, readings > ticks);
            }
            WaitAction::DismissPopups => {
                popups += 1;
                s = wait_on_done(goal, s);
            }
            WaitAction::Dump => {
                let d = dumps.get(looks).copied().flatten();
                looks += 1;
                s = wait_on_dump(goal, s, d);
            }
            WaitAction::Tap(x, y) => {
                taps.push((x, y));
                s = wait_on_done(goal, s);
            }
            WaitAction::Sleep(ms) => {
                assert_eq!(ms, UI_POLL_INTERVAL_MS);
                s = wait_on_done(goal, s);
            }
            WaitAction::Finish(ok) => return (ok, taps, popups),
        }
    }
    panic!("wait did not finish");
}

const SCREEN: &str = r#"<node text="另存为" resource-id="x:id/share" bounds="[100,1000][300,1200]" />"#;

#[test]
fn tap_wait_taps_the_element_once_it_shows() {
    let g = tap_goal_exec(Attr::Text, "另存为", 10);
    let (ok, taps, _) = run_wait(&g, &[None, Some("<empty/>"), Some(SCREEN)], 100);
    assert!(ok);
    assert_eq!(taps, vec![(200, 1100)]);
}

#[test]
fn tap_wait_gives_up_when_the_clock_runs_out() {
    let g = tap_goal_exec(Attr::ResourceId, "share", 10);
    let (ok, taps, _) = run_wait(&g, &[Some("<empty/>"), Some("<empty/>"), Some(SCREEN)], 1);
    assert!(!ok);
    assert!(taps.is_empty());
}

#[test]
fn visible_wait_does_not_tap() {
    let g = visible_goal_exec("另存为", 10);
    let (ok, taps, _) = run_wait(&g, &[Some(SCREEN)], 0);
    assert!(ok);
    assert!(taps.is_empty());
}

#[test]
fn save_as_tap_lands_above_the_caption() {
    let g = save_as_goal_exec(10);
    let (ok, taps, _) = run_wait(&g, &[Some(SCREEN)], 5);
    assert!(ok);
    assert_eq!(taps, vec![(200, 1000)]);
}

#[test]
fn guarded_wait_checks_the_clock_and_closes_popups_first() {
    let g = guarded_goal_exec("share", 30, true);
    assert_eq!(wait_start(&g), WaitState::Clock);
    let (ok, taps, popups) = run_wait(&g, &[None, Some(SCREEN)], 10);
    assert!(ok);
    assert_eq!(taps, vec![(200, 1100)]);
    assert_eq!(popups, 2);
    let (ok, _, popups) = run_wait(&g, &[], 0);
    assert!(!ok);
    assert_eq!(popups, 0);
}

#[test]
fn mention_wait_finds_text_anywhere() {
    let g = mention_goal_exec("com.huawei.android.internal.app", "另存为", 10);
    let (ok, taps, _) = run_wait(&g, &[Some("<x package=\"com.huawei.android.internal.app\"/>")], 0);
    assert!(ok);
    assert!(taps.is_empty());
}

#[test]
fn the_first_listed_popup_is_closed() {
    let dump = r#"<node text="确定" bounds="[0,0][10,10]" /><node text="跳过" bounds="[20,20][40,40]" />"#;
    assert_eq!(popup_to_dismiss(dump), Some((1, 30, 30)));
    assert_eq!(popup_to_dismiss("<none/>"), None);
}

// ---------------------------------------------------------------------------
// File picker
// ---------------------------------------------------------------------------

fn run_saf(dumps: &[Option<&str>], ticks: usize) -> (bool, Vec<(i32, i32)>, usize) {
    let mut s = SafState::AwaitPicker;
    let mut taps = Vec::new();
    let mut scrolls = 0;
    let mut readings = 0;
    let mut looks = 0;
    for _ in 0..1000 {
        match saf_action(s) {
            SafAction::CheckClock => {
                readings += 1;
                s = saf_on_clock(s, readings > ticks);
            }
            SafAction::Dump => {
                let d = dumps.get(looks).copied().flatten();
                looks += 1;
                s = saf_on_dump(s, d);
            }
            SafAction::Sleep(_) => s = saf_on_done(s),
            SafAction::Tap(x, y) => {
                taps.push((x, y));
                s = saf_on_done(s);
            }
            SafAction::Run(c) => {
                assert_eq!(args(&c), vec!["shell", "input swipe 630 2000 630 1000 500"]);
                scrolls += 1;
                s = saf_on_done(s);
            }
            SafAction::Finish(saved) => return (saved, taps, scrolls),
        }
    }
    panic!("picker walk did not finish");
}

const PICKER: &str = r#"<node package="com.huawei.filemanager" /><node content-desc="完成" bounds="[500,100][600,200]" />"#;

#[test]
fn picker_with_download_selected_confirms_at_once() {
    let selected = r#"<node text="Download" content-desc="已选中" /><node content-desc="完成" bounds="[500,100][600,200]" />"#;
    let (saved, taps, scrolls) = run_saf(&[Some(PICKER), Some(selected), Some(PICKER)], 10);
    assert!(saved);
    assert_eq!(taps, vec![(550, 150)]);
    assert_eq!(scrolls, 0);
}

#[test]
fn picker_scrolls_until_download_shows() {
    let folder = r#"<node text="Download" bounds="[0,300][100,400]" />"#;
    let (saved, taps, scrolls) =
        run_saf(&[Some(PICKER), Some(PICKER), None, Some("<x/>"), Some(folder), Some(PICKER)], 10);
    assert!(saved);
    assert_eq!(taps, vec![(50, 350), (550, 150)]);
    assert_eq!(scrolls, 2);
}

#[test]
fn picker_scrolls_at_most_ten_times() {
    let mut dumps = vec![Some(PICKER), Some(PICKER)];
    for _ in 0..10 {
        dumps.push(Some("<x/>"));
    }
    dumps.push(Some(PICKER));
    let (saved, _, scrolls) = run_saf(&dumps, 10);
    assert!(saved);
    assert_eq!(scrolls, 10);
}

#[test]
fn picker_that_never_shows_fails() {
    let (saved, taps, _) = run_saf(&[Some("<x/>"), Some("<x/>")], 2);
    assert!(!saved);
    assert!(taps.is_empty());
}

#[test]
fn picker_without_confirm_button_fails() {
    let only_package = r#"<node package="com.huawei.filemanager" text="Download" content-desc="已选中" />"#;
    let (saved, _, _) = run_saf(&[Some(only_package), Some(only_package), Some(only_package)], 10);
    assert!(!saved);
}

// ---------------------------------------------------------------------------
// Render monitor
// ---------------------------------------------------------------------------

/// Runs the monitor: `listings` answer the video listings in turn, `sizes`
/// the size readings, `temps` the temporary-file listings.
fn run_monitor(title: &str, listings: &[Option<&str>], sizes: &[Option<&str>], temps: &[Option<&str>]) -> (Result<String, String>, u64) {
    let mut s = render_start();
    let (mut l, mut z, mut t) = (0, 0, 0);
    let mut slept = 0u64;
    for _ in 0..10000 {
        match render_action(&s) {
            RenderAction::Run(c) => {
                let cmd = c.args[1].clone();
                let out = if cmd.starts_with("ls -t") {
                    assert_eq!(cmd, "ls -t '/sdcard/Movies/Alemon'/*.mp4 2>/dev/null");
                    l += 1;
                    listings.get(l - 1).copied().flatten()
                } else if cmd.starts_with("stat") {
                    z += 1;
                    sizes.get(z - 1).copied().flatten()
                } else {
                    assert_eq!(cmd, "ls '/sdcard/Movies/Alemon'/*.tmp '/sdcard/Movies/Alemon'/*.part 2>/dev/null");
                    t += 1;
                    temps.get(t - 1).copied().flatten()
                };
                s = render_on_output(s, out, title);
            }
            RenderAction::Sleep(secs) => {
                slept += secs;
                s = render_on_sleep(s);
            }
            RenderAction::Finish(r) => return (r, slept),
        }
    }
    panic!("monitor did not finish");
}

#[test]
fn monitor_returns_the_video_once_its_size_settles() {
    let listing = "/sdcard/Movies/Alemon/Other [1].mp4\n/sdcard/Movies/Alemon/My Title [ab12].mp4\n";
    let sizes = [Some("100"), Some("200"), Some("200\n"), Some("200"), Some("200"), Some("200"), Some("200")];
    let (r, slept) = run_monitor("My Title", &[None, Some(listing)], &sizes, &[None]);
    assert_eq!(r.unwrap(), "/sdcard/Movies/Alemon/My Title [ab12].mp4");
    assert_eq!(slept, 3 + 6 * 3);
}

#[test]
fn monitor_waits_while_temporary_files_remain() {
    let listing = "/sdcard/Movies/Alemon/T.mp4";
    let sizes = vec![Some("5"); 20];
    let (r, _) = run_monitor("T", &[Some(listing)], &sizes, &[Some("/sdcard/Movies/Alemon/x.tmp"), Some("ls: No such file or directory")]);
    assert_eq!(r.unwrap(), "/sdcard/Movies/Alemon/T.mp4");
}

#[test]
fn monitor_gives_up_without_a_video() {
    let (r, slept) = run_monitor("T", &[], &[], &[]);
    assert_eq!(r.err().unwrap(), "超过最大等待时间 1800s，未检测到视频文件");
    assert_eq!(slept, 1800);
}

#[test]
fn monitor_gives_up_when_the_size_never_settles() {
    let sizes: Vec<String> = (1..700).map(|i| i.to_string()).collect();
    let size_refs: Vec<Option<&str>> = sizes.iter().map(|s| Some(s.as_str())).collect();
    let (r, slept) = run_monitor("T", &[Some("T.mp4")], &size_refs, &[]);
    assert_eq!(r.err().unwrap(), "渲染监控超时（1800s），可能出现异常");
    assert_eq!(slept, 1800);
}

#[test]
fn listing_helpers_read_outputs() {
    assert_eq!(find_named_exec("  a.mp4 \nNo such file T\n b T.mp4", "T"), Some("b T.mp4".to_string()));
    assert_eq!(find_named_exec("", ""), None);
    assert_eq!(read_size_exec(Some(" 1234\n")), 1234);
    assert_eq!(read_size_exec(Some("stat: error")), 0);
    assert_eq!(read_size_exec(None), 0);
    assert!(temps_gone_exec(None));
    assert!(temps_gone_exec(Some("  \n")));
    assert!(!temps_gone_exec(Some("a.part")));
}

#[test]
fn monitor_state_starts_by_listing() {
    assert!(matches!(render_start(), RenderState::FindVideo { elapsed: 0 }));
}

// ---------------------------------------------------------------------------
// Rendering one project
// ---------------------------------------------------------------------------

fn job(export_package: bool) -> ProjectJob {
    ProjectJob {
        local_path: "in/p.amproj".to_string(),
        file_name: "p.amproj".to_string(),
        stem: "p".to_string(),
        kind: AmprojType::Project,
        title: "Title".to_string(),
        output_dir: "out".to_string(),
        export_package,
    }
}

/// Runs a project against a phone on which every step works; `fail_wait`
/// names a wait target that never shows. Returns the outcome and the adb
/// commands run.
fn run_project(j: &ProjectJob, fail_wait: Option<&str>) -> (Result<(), String>, Vec<Vec<String>>) {
    run_project_failing(j, fail_wait, None)
}

/// As `run_project`, where in addition the first adb command whose arguments
/// start with `fail_cmd` fails.
fn run_project_failing(
    j: &ProjectJob,
    fail_wait: Option<&str>,
    fail_cmd: Option<&[&str]>,
) -> (Result<(), String>, Vec<Vec<String>>) {
    let mut run = project_start();
    let mut failed = false;
    let mut ran = Vec::new();
    for _ in 0..500 {
        match project_action(j, &run) {
            ProjectAction::Run(c) => {
                let out = if c.args.len() > 1 && c.args[1].starts_with("content query") {
                    "Row: 0 _id=42".to_string()
                } else if c.args.len() > 1 && c.args[1].starts_with("ls -t '/sdcard/Download'") {
                    "/sdcard/Download/Title.amproj".to_string()
                } else {
                    String::new()
                };
                ran.push(c.args.clone());
                let fails = match fail_cmd {
                    Some(prefix) => {
                        !failed
                            && c.args.len() >= prefix.len()
                            && prefix.iter().zip(c.args.iter()).all(|(p, a)| a.starts_with(p))
                    }
                    None => false,
                };
                if fails {
                    failed = true;
                    run = project_on_ran(j, run, Err("adb failed".to_string()));
                } else {
                    run = project_on_ran(j, run, Ok(out));
                }
            }
            ProjectAction::Sleep(_) | ProjectAction::DismissPopups => run = project_on_done(run),
            ProjectAction::Wait(g) => {
                let target = match &g.probe {
                    automotion::ui::Probe::Element(_, t) => t.clone(),
                    automotion::ui::Probe::Mentions(a, _) => a.clone(),
                };
                let ok = fail_wait != Some(target.as_str());
                run = project_on_waited(j, run, ok);
            }
            ProjectAction::SaveToDownload(t) => {
                assert_eq!(t, 15);
                run = project_on_waited(j, run, true);
            }
            ProjectAction::WatchRender(title) => {
                assert_eq!(title, "Title");
                run = project_on_ran(j, run, Ok("/sdcard/Movies/Alemon/Title [x].mp4".to_string()));
            }
            ProjectAction::Finish(r) => return (r, ran),
        }
    }
    panic!("project run did not finish");
}

#[test]
fn project_run_pushes_renders_pulls_and_cleans_up() {
    let (r, ran) = run_project(&job(false), None);
    assert!(r.is_ok());
    assert_eq!(ran[0], vec!["push", "in/p.amproj", "/sdcard/Download/p.amproj"]);
    assert_eq!(ran[2][1], "am start -a android.intent.action.VIEW -d 'content://media/external/file/42' -t application/zip -p com.taffy.alemon --grant-read-uri-permission");
    let n = ran.len();
    assert_eq!(ran[n - 4], vec!["pull", "/sdcard/Movies/Alemon/Title [x].mp4", "out/p.mp4"]);
    assert_eq!(ran[n - 3][1], "am force-stop com.taffy.alemon");
    assert_eq!(ran[n - 2][1], "rm -f '/sdcard/Download/p.amproj'");
    assert_eq!(ran[n - 1][1], "rm -f '/sdcard/Movies/Alemon/Title [x].mp4'");
}

#[test]
fn project_run_with_package_pulls_and_removes_it() {
    let (r, ran) = run_project(&job(true), None);
    assert!(r.is_ok());
    let n = ran.len();
    assert_eq!(ran[n - 5], vec!["pull", "/sdcard/Download/Title.amproj", "out/p.amproj"]);
    assert_eq!(ran[n - 1][1], "rm -f '/sdcard/Download/Title.amproj'");
}

#[test]
fn project_run_that_cannot_open_the_project_cleans_up_and_fails() {
    let (r, ran) = run_project(&job(false), Some("Title"));
    assert_eq!(r.err().unwrap(), "在列表中未找到工程: Title");
    let n = ran.len();
    assert_eq!(ran[n - 2][1], "am force-stop com.taffy.alemon");
    assert_eq!(ran[n - 1][1], "rm -f '/sdcard/Download/p.amproj'");
}

#[test]
fn project_run_retries_the_import_dialog_once() {
    let (r, ran) = run_project(&job(false), Some("导入"));
    assert_eq!(r.err().unwrap(), "无法找到导入确认按钮");
    let opens = ran.iter().filter(|c| c.len() > 1 && c[1].starts_with("am start")).count();
    assert_eq!(opens, 2);
}

#[test]
fn project_run_reports_a_failed_push() {
    let j = job(false);
    let run = project_start();
    let run = project_on_ran(&j, run, Err("adb push failed".to_string()));
    assert_eq!(run.stage, Stage::Failed);
    match project_action(&j, &run) {
        ProjectAction::Finish(r) => assert_eq!(r.err().unwrap(), "adb push failed"),
        _ => panic!("a failed run finishes"),
    }
}

#[test]
fn project_run_with_a_failing_media_query_stops_and_removes_the_project() {
    let (r, ran) = run_project_failing(&job(false), None, Some(&["shell", "content query"]));
    assert_eq!(r.err().unwrap(), "adb failed");
    let n = ran.len();
    assert_eq!(n, 4);
    assert_eq!(ran[n - 2][1], "am force-stop com.taffy.alemon");
    assert_eq!(ran[n - 1][1], "rm -f '/sdcard/Download/p.amproj'");
}

#[test]
fn project_run_with_a_failing_video_pull_also_removes_the_video() {
    let (r, ran) = run_project_failing(&job(false), None, Some(&["pull"]));
    assert_eq!(r.err().unwrap(), "adb failed");
    let n = ran.len();
    assert_eq!(ran[n - 4][0], "pull");
    assert_eq!(ran[n - 3][1], "am force-stop com.taffy.alemon");
    assert_eq!(ran[n - 2][1], "rm -f '/sdcard/Download/p.amproj'");
    assert_eq!(ran[n - 1][1], "rm -f '/sdcard/Movies/Alemon/Title [x].mp4'");
}

#[test]
fn project_run_with_a_failing_package_pull_removes_every_phone_file() {
    let (r, ran) = run_project_failing(&job(true), None, Some(&["pull", "/sdcard/Download/"]));
    assert_eq!(r.err().unwrap(), "adb failed");
    let n = ran.len();
    assert_eq!(ran[n - 5], vec!["pull", "/sdcard/Download/Title.amproj", "out/p.amproj"]);
    assert_eq!(ran[n - 4][1], "am force-stop com.taffy.alemon");
    assert_eq!(ran[n - 3][1], "rm -f '/sdcard/Download/p.amproj'");
    assert_eq!(ran[n - 2][1], "rm -f '/sdcard/Movies/Alemon/Title [x].mp4'");
    assert_eq!(ran[n - 1][1], "rm -f '/sdcard/Download/Title.amproj'");
}

#[test]
fn project_run_with_a_failing_launch_stops_and_removes_the_project() {
    let (r, ran) = run_project_failing(&job(false), None, Some(&["shell", "monkey"]));
    assert_eq!(r.err().unwrap(), "adb failed");
    let n = ran.len();
    assert_eq!(ran[n - 2][1], "am force-stop com.taffy.alemon");
    assert_eq!(ran[n - 1][1], "rm -f '/sdcard/Download/p.amproj'");
}

#[test]
fn element_projects_use_the_elements_tab() {
    let mut j = job(false);
    j.kind = AmprojType::Element;
    let (r, _) = run_project(&j, Some("tab_button_elements"));
    assert!(r.is_ok());
    let (r, _) = run_project(&j, Some("元素"));
    assert!(r.is_ok());
}

// ---------------------------------------------------------------------------
// Batches
// ---------------------------------------------------------------------------

#[test]
fn tally_counts_each_project_once() {
    let mut t = BatchTally::new();
    t.record(true);
    t.record(false);
    t.record(true);
    assert_eq!((t.success, t.failed, t.total()), (2, 1, 3));
}

#[test]
fn outputs_are_renamed_to_the_title() {
    let r = output_renames_exec("out", "p", "My Title", true);
    assert_eq!(r, vec![
        ("out/p.mp4".to_string(), "out/My Title.mp4".to_string()),
        ("out/p.amproj".to_string(), "out/My Title.amproj".to_string()),
    ]);
    assert!(output_renames_exec("out", "same", "same", true).is_empty());
    assert_eq!(output_renames_exec("out", "p", "q", false).len(), 1);
}

#[test]
fn project_files_are_the_amproj_files_in_order() {
    let paths: Vec<String> = ["d/b.amproj", "d/a.txt", "d/A.amproj", "d/.amproj", "d/c.amproj.bak", "d/a.amproj"]
        .iter()
        .map(|s| s.to_string())
        .collect();
    assert_eq!(project_files(&paths), vec!["d/A.amproj", "d/a.amproj", "d/b.amproj"]);
}
