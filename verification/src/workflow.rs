//! Rendering one project on the phone, from pushing the file to pulling the
//! video (and, on request, the project package) and cleaning up, as a state
//! machine. The caller carries out each action (runs an adb command, sleeps,
//! runs a UI wait, the file-picker walk or the render monitor) and reports
//! its outcome; the machine decides what comes next.

use vstd::prelude::*;
use crate::adb::{
    cleanup_commands, force_stop, launch_app, media_id_of, open_content_command,
    open_project_via_content, parse_media_id, press_back, pull_file, push_file, query_media_id,
    shell_args, shell_chars, AdbCommand, media_query,
};
use crate::amproj::AmprojType;
use crate::config::{
    MAX_RENDER_WAIT_SECS, PACKAGE_NAME, PHONE_DOWNLOAD_DIR, UI_STEP_DELAY_MS, UI_WAIT_TIMEOUT_SECS,
};
use crate::render_monitor::{find_named, find_named_exec};
use crate::text::{chars_of, decimal, fmt_u64, push_all, push_str, string_of};
use crate::ui::{
    guarded_goal, guarded_goal_exec, mention_goal, mention_goal_exec, save_as_goal,
    save_as_goal_exec, tap_goal, tap_goal_exec, visible_goal, visible_goal_exec, Attr, GoalView,
    WaitGoal,
};

verus! {

/// One project to render.
pub struct ProjectJob {
    /// The project file's path on this machine.
    pub local_path: String,
    /// Its file name.
    pub file_name: String,
    /// Its file name without the extension (names the outputs).
    pub stem: String,
    /// Its kind.
    pub kind: AmprojType,
    /// Its title inside the project.
    pub title: String,
    /// The local output directory.
    pub output_dir: String,
    /// Whether to export the project package as well.
    pub export_package: bool,
}

/// A job as mathematical values.
pub struct JobView {
    pub local_path: Seq<char>,
    pub file_name: Seq<char>,
    pub stem: Seq<char>,
    pub kind: AmprojType,
    pub title: Seq<char>,
    pub output_dir: Seq<char>,
    pub export_package: bool,
}

impl View for ProjectJob {
    type V = JobView;

    open spec fn view(&self) -> JobView {
        JobView {
            local_path: self.local_path@,
            file_name: self.file_name@,
            stem: self.stem@,
            kind: self.kind,
            title: self.title@,
            output_dir: self.output_dir@,
            export_package: self.export_package,
        }
    }
}

/// The stages of a run; each names the action it waits on (see
/// `project_action`).
#[derive(Debug, Clone, Copy, PartialEq, Eq, Structural)]
pub enum Stage {
    Push,
    IndexPause,
    QueryId,
    OpenImport,
    ImportDelay,
    ConfirmImport,
    RetryStop,
    RetryPause,
    ReopenImport,
    ReopenPause,
    ConfirmImportAgain,
    ImportedDelay,
    ConfirmDone,
    CloseDonePopups,
    DoneDelay,
    Launch,
    LaunchDelay,
    TabById,
    TabByText,
    TabDelay,
    OpenProject,
    OpenDelay,
    Share,
    ShareDelay,
    VideoMenu,
    ExportVideo,
    AwaitRender,
    SaveVideo,
    WatchRender,
    PkgClosePreview,
    PkgBack,
    PkgBackDelay,
    PkgCloseDelay,
    PkgShare,
    PkgShareDelay,
    PkgMenu,
    PkgTab,
    PkgTabDelay,
    PkgExport,
    PkgPacking,
    PkgPackDelay,
    PkgSaveAs,
    PkgSaveAsBack,
    PkgSaveAsDelay,
    PkgSaf,
    PkgSafBack,
    PkgFilePause,
    PkgLocate,
    PkgLeave,
    PkgLeaveDelay,
    PullVideo,
    PullPackage,
    Stop,
    RemoveProject,
    RemoveVideo,
    RemovePackage,
    AbortStop,
    AbortClean,
    AbortRemoveVideo,
    AbortRemovePackage,
    Succeeded,
    Failed,
}

/// A run in progress: its stage and what it has learnt so far.
pub struct ProjectRun {
    pub stage: Stage,
    /// The project's MediaStore id.
    pub media_id: Option<String>,
    /// The rendered video's path on the phone.
    pub video: Option<String>,
    /// The exported package's path on the phone.
    pub package: Option<String>,
    /// Why the run failed (set when it starts to give up).
    pub failure: Option<String>,
}

/// A run as mathematical values.
pub struct RunView {
    pub stage: Stage,
    pub media_id: Option<Seq<char>>,
    pub video: Option<Seq<char>>,
    pub package: Option<Seq<char>>,
    pub failure: Option<Seq<char>>,
}

/// The view of an optional string.
pub open spec fn opt_chars(o: Option<String>) -> Option<Seq<char>> {
    match o {
        Some(s) => Some(s@),
        None => None,
    }
}

impl View for ProjectRun {
    type V = RunView;

    open spec fn view(&self) -> RunView {
        RunView {
            stage: self.stage,
            media_id: opt_chars(self.media_id),
            video: opt_chars(self.video),
            package: opt_chars(self.package),
            failure: opt_chars(self.failure),
        }
    }
}

/// What the caller does next for a run.
pub enum ProjectAction {
    /// Run this adb command and report its outcome (`project_on_ran`).
    Run(AdbCommand),
    /// Sleep this many milliseconds (`project_on_done`).
    Sleep(u64),
    /// Run this UI wait and report whether it succeeded (`project_on_waited`).
    Wait(WaitGoal),
    /// Close a popup if one shows (`project_on_done`).
    DismissPopups,
    /// Walk the file picker to save into the download folder, within this
    /// timeout in seconds, and report whether it saved (`project_on_waited`).
    SaveToDownload(u64),
    /// Run the render monitor for this project title and report its outcome
    /// (`project_on_ran`).
    WatchRender(String),
    /// Stop: the run is over with this outcome.
    Finish(Result<(), String>),
}

/// An action as mathematical values.
pub enum ActionView {
    Run(Seq<Seq<char>>),
    Sleep(int),
    Wait(GoalView),
    DismissPopups,
    SaveToDownload(int),
    WatchRender(Seq<char>),
    Finish(Result<(), Seq<char>>),
}

impl View for ProjectAction {
    type V = ActionView;

    open spec fn view(&self) -> ActionView {
        match self {
            ProjectAction::Run(c) => ActionView::Run(c@),
            ProjectAction::Sleep(ms) => ActionView::Sleep(*ms as int),
            ProjectAction::Wait(g) => ActionView::Wait(g@),
            ProjectAction::DismissPopups => ActionView::DismissPopups,
            ProjectAction::SaveToDownload(t) => ActionView::SaveToDownload(*t as int),
            ProjectAction::WatchRender(t) => ActionView::WatchRender(t@),
            ProjectAction::Finish(r) => ActionView::Finish(
                match r {
                    Ok(_) => Ok(()),
                    Err(e) => Err(e@),
                },
            ),
        }
    }
}

// ---------------------------------------------------------------------------
// Texts and timings
// ---------------------------------------------------------------------------

/// Pause that lets the MediaStore index the pushed file (milliseconds).
pub const INDEX_PAUSE_MS: u64 = 2000;

/// Pause after force-stopping before reopening the project (milliseconds).
pub const RETRY_PAUSE_MS: u64 = 2000;

/// Pause after reopening the project (milliseconds).
pub const REOPEN_PAUSE_MS: u64 = 1000;

/// Timeout of the second wait for the import dialog (seconds).
pub const REIMPORT_TIMEOUT_SECS: u64 = 15;

/// Timeout of the wait for the editor's share button (seconds).
pub const SHARE_TIMEOUT_SECS: u64 = 30;

/// Timeout of the wait for the preview's close button (seconds).
pub const CLOSE_PREVIEW_TIMEOUT_SECS: u64 = 5;

/// Timeout of the wait for the share button after leaving the preview.
pub const RESHARE_TIMEOUT_SECS: u64 = 15;

/// Timeout of the file picker walk (seconds).
pub const PICKER_TIMEOUT_SECS: u64 = 15;

/// Pause that lets the saved package appear (milliseconds).
pub const PACKAGE_PAUSE_MS: u64 = 2000;

/// The resource id of the tab that lists projects of this kind.
pub open spec fn tab_id(kind: AmprojType) -> Seq<char> {
    match kind {
        AmprojType::Project => "tab_button_projects"@,
        AmprojType::Element => "tab_button_elements"@,
    }
}

/// The caption of the tab that lists projects of this kind.
pub open spec fn tab_text(kind: AmprojType) -> Seq<char> {
    match kind {
        AmprojType::Project => "项目"@,
        AmprojType::Element => "元素"@,
    }
}

fn tab_id_exec(kind: AmprojType) -> (r: &'static str)
    ensures
        r@ == tab_id(kind),
{
    match kind {
        AmprojType::Project => "tab_button_projects",
        AmprojType::Element => "tab_button_elements",
    }
}

fn tab_text_exec(kind: AmprojType) -> (r: &'static str)
    ensures
        r@ == tab_text(kind),
{
    match kind {
        AmprojType::Project => "项目",
        AmprojType::Element => "元素",
    }
}

/// Where the pushed project lands on the phone.
pub open spec fn phone_project_path(job: JobView) -> Seq<char> {
    PHONE_DOWNLOAD_DIR@ + "/"@ + job.file_name
}

/// Where a pulled output lands: the output directory, the project's stem and
/// the extension.
pub open spec fn output_path(job: JobView, ext: Seq<char>) -> Seq<char> {
    job.output_dir + "/"@ + job.stem + ext
}

/// Lists the project packages in the download folder, newest first.
pub open spec fn package_list_command() -> Seq<char> {
    "ls -t '"@ + PHONE_DOWNLOAD_DIR@ + "'/*.amproj 2>/dev/null"@
}

/// The failure when the package listing holds none of the project's.
pub open spec fn package_missing_message(title: Seq<char>) -> Seq<char> {
    "下载目录中未找到项目包: "@ + title
}

/// The failure when the render does not finish in time.
pub open spec fn render_timeout_failure() -> Seq<char> {
    "渲染超时（"@ + decimal(MAX_RENDER_WAIT_SECS as nat) + "s）"@
}

// ---------------------------------------------------------------------------
// The machine
// ---------------------------------------------------------------------------

/// The first state of a run.
pub open spec fn project_initial() -> RunView {
    RunView { stage: Stage::Push, media_id: None, video: None, package: None, failure: None }
}

/// The run moved on to `st`.
pub open spec fn goto(run: RunView, st: Stage) -> RunView {
    RunView { stage: st, ..run }
}

/// The run failed, at once, with `msg`.
pub open spec fn fail(run: RunView, msg: Seq<char>) -> RunView {
    RunView { stage: Stage::Failed, failure: Some(msg), ..run }
}

/// The run gives up with `msg` after stopping Alemon and removing from the
/// phone the pushed project, the rendered video and the exported package
/// (those that exist).
pub open spec fn abort(run: RunView, msg: Seq<char>) -> RunView {
    RunView { stage: Stage::AbortStop, failure: Some(msg), ..run }
}

/// The state after the adb command, the render monitor or the listing that
/// the run waited on reported `res`.
pub open spec fn project_after_ran(job: JobView, run: RunView, res: Result<Seq<char>, Seq<char>>) -> RunView {
    match run.stage {
        Stage::Push => match res {
            Ok(_) => goto(run, Stage::IndexPause),
            Err(e) => fail(run, e),
        },
        Stage::QueryId => match res {
            Ok(out) => match media_id_of(out) {
                Some(id) => RunView { stage: Stage::OpenImport, media_id: Some(id), ..run },
                None => abort(run, "无法从 MediaStore 获取文件 ID: "@ + out),
            },
            Err(e) => abort(run, e),
        },
        Stage::OpenImport => match res {
            Ok(_) => goto(run, Stage::ImportDelay),
            Err(e) => abort(run, e),
        },
        Stage::RetryStop => goto(run, Stage::RetryPause),
        Stage::ReopenImport => match res {
            Ok(_) => goto(run, Stage::ReopenPause),
            Err(e) => abort(run, e),
        },
        Stage::Launch => match res {
            Ok(_) => goto(run, Stage::LaunchDelay),
            Err(e) => abort(run, e),
        },
        Stage::WatchRender => match res {
            Ok(v) => RunView {
                stage: if job.export_package {
                    Stage::PkgClosePreview
                } else {
                    Stage::PullVideo
                },
                video: Some(v),
                ..run
            },
            Err(e) => abort(run, e),
        },
        Stage::PkgBack => match res {
            Ok(_) => goto(run, Stage::PkgBackDelay),
            Err(e) => abort(run, e),
        },
        Stage::PkgSaveAsBack => match res {
            Ok(_) => abort(run, "分享面板中未找到「另存为」按钮"@),
            Err(e) => abort(run, e),
        },
        Stage::PkgSafBack => match res {
            Ok(_) => abort(run, "SAF 文件选择器中未能保存到 Download"@),
            Err(e) => abort(run, e),
        },
        Stage::PkgLocate => match res {
            Ok(listing) => match find_named(listing, job.title) {
                Some(p) => RunView { stage: Stage::PkgLeave, package: Some(p), ..run },
                None => abort(run, package_missing_message(job.title)),
            },
            Err(e) => abort(run, e),
        },
        Stage::PkgLeave => goto(run, Stage::PkgLeaveDelay),
        Stage::PullVideo => match res {
            Ok(_) => goto(
                run,
                if run.package is Some {
                    Stage::PullPackage
                } else {
                    Stage::Stop
                },
            ),
            Err(e) => abort(run, e),
        },
        Stage::PullPackage => match res {
            Ok(_) => goto(run, Stage::Stop),
            Err(e) => abort(run, e),
        },
        Stage::Stop => goto(run, Stage::RemoveProject),
        Stage::RemoveProject => goto(run, Stage::RemoveVideo),
        Stage::RemoveVideo => goto(
            run,
            if run.package is Some {
                Stage::RemovePackage
            } else {
                Stage::Succeeded
            },
        ),
        Stage::RemovePackage => goto(run, Stage::Succeeded),
        Stage::AbortStop => goto(run, Stage::AbortClean),
        Stage::AbortClean => goto(
            run,
            if run.video is Some {
                Stage::AbortRemoveVideo
            } else if run.package is Some {
                Stage::AbortRemovePackage
            } else {
                Stage::Failed
            },
        ),
        Stage::AbortRemoveVideo => goto(
            run,
            if run.package is Some {
                Stage::AbortRemovePackage
            } else {
                Stage::Failed
            },
        ),
        Stage::AbortRemovePackage => goto(run, Stage::Failed),
        _ => run,
    }
}

/// The state after the UI wait or the file picker walk that the run waited
/// on reported whether it succeeded.
pub open spec fn project_after_waited(job: JobView, run: RunView, ok: bool) -> RunView {
    match run.stage {
        Stage::ConfirmImport => if ok {
            goto(run, Stage::ImportedDelay)
        } else {
            goto(run, Stage::RetryStop)
        },
        Stage::ConfirmImportAgain => if ok {
            goto(run, Stage::ImportedDelay)
        } else {
            abort(run, "无法找到导入确认按钮"@)
        },
        Stage::ConfirmDone => if ok {
            goto(run, Stage::DoneDelay)
        } else {
            goto(run, Stage::CloseDonePopups)
        },
        Stage::TabById => if ok {
            goto(run, Stage::TabDelay)
        } else {
            goto(run, Stage::TabByText)
        },
        Stage::TabByText => if ok {
            goto(run, Stage::TabDelay)
        } else {
            abort(run, "无法导航到"@ + tab_text(job.kind) + "标签页"@)
        },
        Stage::OpenProject => if ok {
            goto(run, Stage::OpenDelay)
        } else {
            abort(run, "在列表中未找到工程: "@ + job.title)
        },
        Stage::Share => if ok {
            goto(run, Stage::ShareDelay)
        } else {
            abort(run, "无法找到分享/导出按钮"@)
        },
        Stage::VideoMenu => if ok {
            goto(run, Stage::ExportVideo)
        } else {
            abort(run, "导出菜单未正确加载"@)
        },
        Stage::ExportVideo => if ok {
            goto(run, Stage::AwaitRender)
        } else {
            abort(run, "无法找到导出按钮"@)
        },
        Stage::AwaitRender => if ok {
            goto(run, Stage::SaveVideo)
        } else {
            abort(run, render_timeout_failure())
        },
        Stage::SaveVideo => if ok {
            goto(run, Stage::WatchRender)
        } else {
            abort(run, "无法点击保存按钮"@)
        },
        Stage::PkgClosePreview => if ok {
            goto(run, Stage::PkgCloseDelay)
        } else {
            goto(run, Stage::PkgBack)
        },
        Stage::PkgShare => if ok {
            goto(run, Stage::PkgShareDelay)
        } else {
            abort(run, "返回编辑器后未找到 share 按钮"@)
        },
        Stage::PkgMenu => if ok {
            goto(run, Stage::PkgTab)
        } else {
            abort(run, "导出菜单中未找到「项目包」选项"@)
        },
        Stage::PkgTab => if ok {
            goto(run, Stage::PkgTabDelay)
        } else {
            abort(run, "无法点击「项目包」标签"@)
        },
        Stage::PkgExport => if ok {
            goto(run, Stage::PkgPacking)
        } else {
            abort(run, "无法点击导出按钮"@)
        },
        Stage::PkgPacking => goto(run, Stage::PkgPackDelay),
        Stage::PkgSaveAs => if ok {
            goto(run, Stage::PkgSaveAsDelay)
        } else {
            goto(run, Stage::PkgSaveAsBack)
        },
        Stage::PkgSaf => if ok {
            goto(run, Stage::PkgFilePause)
        } else {
            goto(run, Stage::PkgSafBack)
        },
        _ => run,
    }
}

/// The state after the sleep or the popup check that the run waited on.
pub open spec fn project_after_done(run: RunView) -> RunView {
    match run.stage {
        Stage::IndexPause => goto(run, Stage::QueryId),
        Stage::ImportDelay => goto(run, Stage::ConfirmImport),
        Stage::RetryPause => goto(run, Stage::ReopenImport),
        Stage::ReopenPause => goto(run, Stage::ConfirmImportAgain),
        Stage::ImportedDelay => goto(run, Stage::ConfirmDone),
        Stage::CloseDonePopups => goto(run, Stage::DoneDelay),
        Stage::DoneDelay => goto(run, Stage::Launch),
        Stage::LaunchDelay => goto(run, Stage::TabById),
        Stage::TabDelay => goto(run, Stage::OpenProject),
        Stage::OpenDelay => goto(run, Stage::Share),
        Stage::ShareDelay => goto(run, Stage::VideoMenu),
        Stage::PkgBackDelay => goto(run, Stage::PkgCloseDelay),
        Stage::PkgCloseDelay => goto(run, Stage::PkgShare),
        Stage::PkgShareDelay => goto(run, Stage::PkgMenu),
        Stage::PkgTabDelay => goto(run, Stage::PkgExport),
        Stage::PkgPackDelay => goto(run, Stage::PkgSaveAs),
        Stage::PkgSaveAsDelay => goto(run, Stage::PkgSaf),
        Stage::PkgFilePause => goto(run, Stage::PkgLocate),
        Stage::PkgLeaveDelay => goto(run, Stage::PullVideo),
        _ => run,
    }
}

/// The action that a run in stage `run.stage` waits on.
pub open spec fn project_action_spec(job: JobView, run: RunView) -> ActionView {
    let delay = ActionView::Sleep(UI_STEP_DELAY_MS as int);
    let timeout = UI_WAIT_TIMEOUT_SECS as int;
    let id = match run.media_id {
        Some(i) => i,
        None => seq![],
    };
    let video = match run.video {
        Some(v) => v,
        None => seq![],
    };
    let package = match run.package {
        Some(p) => p,
        None => seq![],
    };
    match run.stage {
        Stage::Push => ActionView::Run(seq!["push"@, job.local_path, phone_project_path(job)]),
        Stage::IndexPause => ActionView::Sleep(INDEX_PAUSE_MS as int),
        Stage::QueryId => ActionView::Run(shell_args(media_query(job.file_name))),
        Stage::OpenImport => ActionView::Run(shell_args(open_content_command(id))),
        Stage::ImportDelay => delay,
        Stage::ConfirmImport => ActionView::Wait(tap_goal(Attr::Text, "导入"@, timeout)),
        Stage::RetryStop => ActionView::Run(shell_args("am force-stop "@ + PACKAGE_NAME@)),
        Stage::RetryPause => ActionView::Sleep(RETRY_PAUSE_MS as int),
        Stage::ReopenImport => ActionView::Run(shell_args(open_content_command(id))),
        Stage::ReopenPause => ActionView::Sleep(REOPEN_PAUSE_MS as int),
        Stage::ConfirmImportAgain => ActionView::Wait(
            tap_goal(Attr::Text, "导入"@, REIMPORT_TIMEOUT_SECS as int),
        ),
        Stage::ImportedDelay => delay,
        Stage::ConfirmDone => ActionView::Wait(tap_goal(Attr::Text, "完成"@, timeout)),
        Stage::CloseDonePopups => ActionView::DismissPopups,
        Stage::DoneDelay => delay,
        Stage::Launch => ActionView::Run(
            shell_args("monkey -p "@ + PACKAGE_NAME@ + " -c android.intent.category.LAUNCHER 1"@),
        ),
        Stage::LaunchDelay => delay,
        Stage::TabById => ActionView::Wait(tap_goal(Attr::ResourceId, tab_id(job.kind), timeout)),
        Stage::TabByText => ActionView::Wait(tap_goal(Attr::Text, tab_text(job.kind), timeout)),
        Stage::TabDelay => delay,
        Stage::OpenProject => ActionView::Wait(tap_goal(Attr::Text, job.title, timeout)),
        Stage::OpenDelay => delay,
        Stage::Share => ActionView::Wait(guarded_goal("share"@, SHARE_TIMEOUT_SECS as int, true)),
        Stage::ShareDelay => delay,
        Stage::VideoMenu => ActionView::Wait(visible_goal("视频"@, timeout)),
        Stage::ExportVideo => ActionView::Wait(tap_goal(Attr::ResourceId, "exportButton"@, timeout)),
        Stage::AwaitRender => ActionView::Wait(
            guarded_goal("saveButton"@, MAX_RENDER_WAIT_SECS as int, false),
        ),
        Stage::SaveVideo => ActionView::Wait(tap_goal(Attr::ResourceId, "saveButton"@, timeout)),
        Stage::WatchRender => ActionView::WatchRender(job.title),
        Stage::PkgClosePreview => ActionView::Wait(
            tap_goal(Attr::ResourceId, "doneButton"@, CLOSE_PREVIEW_TIMEOUT_SECS as int),
        ),
        Stage::PkgBack => ActionView::Run(shell_args("input keyevent 4"@)),
        Stage::PkgBackDelay => delay,
        Stage::PkgCloseDelay => delay,
        Stage::PkgShare => ActionView::Wait(
            guarded_goal("share"@, RESHARE_TIMEOUT_SECS as int, true),
        ),
        Stage::PkgShareDelay => delay,
        Stage::PkgMenu => ActionView::Wait(visible_goal("项目包"@, timeout)),
        Stage::PkgTab => ActionView::Wait(tap_goal(Attr::Text, "项目包"@, timeout)),
        Stage::PkgTabDelay => delay,
        Stage::PkgExport => ActionView::Wait(tap_goal(Attr::ResourceId, "exportButton"@, timeout)),
        Stage::PkgPacking => ActionView::Wait(
            mention_goal("com.huawei.android.internal.app"@, "另存为"@, timeout),
        ),
        Stage::PkgPackDelay => delay,
        Stage::PkgSaveAs => ActionView::Wait(save_as_goal(timeout)),
        Stage::PkgSaveAsBack => ActionView::Run(shell_args("input keyevent 4"@)),
        Stage::PkgSaveAsDelay => delay,
        Stage::PkgSaf => ActionView::SaveToDownload(PICKER_TIMEOUT_SECS as int),
        Stage::PkgSafBack => ActionView::Run(shell_args("input keyevent 4"@)),
        Stage::PkgFilePause => ActionView::Sleep(PACKAGE_PAUSE_MS as int),
        Stage::PkgLocate => ActionView::Run(shell_args(package_list_command())),
        Stage::PkgLeave => ActionView::Run(shell_args("input keyevent 4"@)),
        Stage::PkgLeaveDelay => delay,
        Stage::PullVideo => ActionView::Run(seq!["pull"@, video, output_path(job, ".mp4"@)]),
        Stage::PullPackage => ActionView::Run(seq!["pull"@, package, output_path(job, ".amproj"@)]),
        Stage::Stop => ActionView::Run(shell_args("am force-stop "@ + PACKAGE_NAME@)),
        Stage::RemoveProject => ActionView::Run(cleanup_commands(job.file_name, None)[0]),
        Stage::RemoveVideo => ActionView::Run(remove_file_command(video)),
        Stage::RemovePackage => ActionView::Run(remove_file_command(package)),
        Stage::AbortStop => ActionView::Run(shell_args("am force-stop "@ + PACKAGE_NAME@)),
        Stage::AbortClean => ActionView::Run(cleanup_commands(job.file_name, None)[0]),
        Stage::AbortRemoveVideo => ActionView::Run(remove_file_command(video)),
        Stage::AbortRemovePackage => ActionView::Run(remove_file_command(package)),
        Stage::Succeeded => ActionView::Finish(Ok(())),
        Stage::Failed => ActionView::Finish(
            Err(
                match run.failure {
                    Some(f) => f,
                    None => seq![],
                },
            ),
        ),
    }
}

// ---------------------------------------------------------------------------
// Running the machine
// ---------------------------------------------------------------------------

/// The view of an outcome reported to `project_on_ran`.
pub open spec fn result_view(res: Result<String, String>) -> Result<Seq<char>, Seq<char>> {
    match res {
        Ok(o) => Ok(o@),
        Err(e) => Err(e@),
    }
}

/// The first state of a run.
pub fn project_start() -> (r: ProjectRun)
    ensures
        r@ == project_initial(),
{
    ProjectRun { stage: Stage::Push, media_id: None, video: None, package: None, failure: None }
}

fn goto_run(run: ProjectRun, st: Stage) -> (r: ProjectRun)
    ensures
        r@ == goto(run@, st),
{
    ProjectRun { stage: st, ..run }
}

fn fail_run(run: ProjectRun, msg: String) -> (r: ProjectRun)
    ensures
        r@ == fail(run@, msg@),
{
    ProjectRun { stage: Stage::Failed, failure: Some(msg), ..run }
}

fn abort_run(run: ProjectRun, msg: String) -> (r: ProjectRun)
    ensures
        r@ == abort(run@, msg@),
{
    ProjectRun { stage: Stage::AbortStop, failure: Some(msg), ..run }
}

fn text(a: &str) -> (r: String)
    ensures
        r@ == a@,
{
    String::from_str(a)
}

fn concat2(a: &str, b: &str) -> (r: String)
    ensures
        r@ == a@ + b@,
{
    let mut c = chars_of(a);
    push_str(&mut c, b);
    string_of(&c)
}

fn concat3(a: &str, b: &str, d: &str) -> (r: String)
    ensures
        r@ == a@ + b@ + d@,
{
    let mut c = chars_of(a);
    push_str(&mut c, b);
    push_str(&mut c, d);
    string_of(&c)
}

/// The next state once the adb command, the render monitor or the listing
/// that the run waited on has reported `res`.
pub fn project_on_ran(job: &ProjectJob, run: ProjectRun, res: Result<String, String>) -> (r:
    ProjectRun)
    ensures
        r@ == project_after_ran(job@, run@, result_view(res)),
{
    match run.stage {
        Stage::Push => match res {
            Ok(_) => goto_run(run, Stage::IndexPause),
            Err(e) => fail_run(run, e),
        },
        Stage::QueryId => match res {
            Ok(out) => match parse_media_id(out.as_str()) {
                Ok(id) => ProjectRun { stage: Stage::OpenImport, media_id: Some(id), ..run },
                Err(m) => abort_run(run, m),
            },
            Err(e) => abort_run(run, e),
        },
        Stage::OpenImport => match res {
            Ok(_) => goto_run(run, Stage::ImportDelay),
            Err(e) => abort_run(run, e),
        },
        Stage::RetryStop => goto_run(run, Stage::RetryPause),
        Stage::ReopenImport => match res {
            Ok(_) => goto_run(run, Stage::ReopenPause),
            Err(e) => abort_run(run, e),
        },
        Stage::Launch => match res {
            Ok(_) => goto_run(run, Stage::LaunchDelay),
            Err(e) => abort_run(run, e),
        },
        Stage::WatchRender => match res {
            Ok(v) => {
                let st = if job.export_package {
                    Stage::PkgClosePreview
                } else {
                    Stage::PullVideo
                };
                ProjectRun { stage: st, video: Some(v), ..run }
            },
            Err(e) => abort_run(run, e),
        },
        Stage::PkgBack => match res {
            Ok(_) => goto_run(run, Stage::PkgBackDelay),
            Err(e) => abort_run(run, e),
        },
        Stage::PkgSaveAsBack => match res {
            Ok(_) => abort_run(run, text("分享面板中未找到「另存为」按钮")),
            Err(e) => abort_run(run, e),
        },
        Stage::PkgSafBack => match res {
            Ok(_) => abort_run(run, text("SAF 文件选择器中未能保存到 Download")),
            Err(e) => abort_run(run, e),
        },
        Stage::PkgLocate => match res {
            Ok(listing) => match find_named_exec(listing.as_str(), job.title.as_str()) {
                Some(p) => ProjectRun { stage: Stage::PkgLeave, package: Some(p), ..run },
                None => abort_run(run, concat2("下载目录中未找到项目包: ", job.title.as_str())),
            },
            Err(e) => abort_run(run, e),
        },
        Stage::PkgLeave => goto_run(run, Stage::PkgLeaveDelay),
        Stage::PullVideo => match res {
            Ok(_) => {
                let st = match &run.package {
                    Some(_) => Stage::PullPackage,
                    None => Stage::Stop,
                };
                goto_run(run, st)
            },
            Err(e) => abort_run(run, e),
        },
        Stage::PullPackage => match res {
            Ok(_) => goto_run(run, Stage::Stop),
            Err(e) => abort_run(run, e),
        },
        Stage::Stop => goto_run(run, Stage::RemoveProject),
        Stage::RemoveProject => goto_run(run, Stage::RemoveVideo),
        Stage::RemoveVideo => {
            let st = match &run.package {
                Some(_) => Stage::RemovePackage,
                None => Stage::Succeeded,
            };
            goto_run(run, st)
        },
        Stage::RemovePackage => goto_run(run, Stage::Succeeded),
        Stage::AbortStop => goto_run(run, Stage::AbortClean),
        Stage::AbortClean => {
            let st = match (&run.video, &run.package) {
                (Some(_), _) => Stage::AbortRemoveVideo,
                (None, Some(_)) => Stage::AbortRemovePackage,
                (None, None) => Stage::Failed,
            };
            goto_run(run, st)
        },
        Stage::AbortRemoveVideo => {
            let st = match &run.package {
                Some(_) => Stage::AbortRemovePackage,
                None => Stage::Failed,
            };
            goto_run(run, st)
        },
        Stage::AbortRemovePackage => goto_run(run, Stage::Failed),
        _ => run,
    }
}

fn render_timeout_text() -> (r: String)
    ensures
        r@ == render_timeout_failure(),
{
    let mut c = chars_of("渲染超时（");
    let n = fmt_u64(MAX_RENDER_WAIT_SECS);
    push_all(&mut c, &n);
    push_str(&mut c, "s）");
    string_of(&c)
}

/// The next state once the UI wait or the file picker walk that the run
/// waited on has reported whether it succeeded.
pub fn project_on_waited(job: &ProjectJob, run: ProjectRun, ok: bool) -> (r: ProjectRun)
    ensures
        r@ == project_after_waited(job@, run@, ok),
{
    match run.stage {
        Stage::ConfirmImport => if ok {
            goto_run(run, Stage::ImportedDelay)
        } else {
            goto_run(run, Stage::RetryStop)
        },
        Stage::ConfirmImportAgain => if ok {
            goto_run(run, Stage::ImportedDelay)
        } else {
            abort_run(run, text("无法找到导入确认按钮"))
        },
        Stage::ConfirmDone => if ok {
            goto_run(run, Stage::DoneDelay)
        } else {
            goto_run(run, Stage::CloseDonePopups)
        },
        Stage::TabById => if ok {
            goto_run(run, Stage::TabDelay)
        } else {
            goto_run(run, Stage::TabByText)
        },
        Stage::TabByText => if ok {
            goto_run(run, Stage::TabDelay)
        } else {
            abort_run(run, concat3("无法导航到", tab_text_exec(job.kind), "标签页"))
        },
        Stage::OpenProject => if ok {
            goto_run(run, Stage::OpenDelay)
        } else {
            abort_run(run, concat2("在列表中未找到工程: ", job.title.as_str()))
        },
        Stage::Share => if ok {
            goto_run(run, Stage::ShareDelay)
        } else {
            abort_run(run, text("无法找到分享/导出按钮"))
        },
        Stage::VideoMenu => if ok {
            goto_run(run, Stage::ExportVideo)
        } else {
            abort_run(run, text("导出菜单未正确加载"))
        },
        Stage::ExportVideo => if ok {
            goto_run(run, Stage::AwaitRender)
        } else {
            abort_run(run, text("无法找到导出按钮"))
        },
        Stage::AwaitRender => if ok {
            goto_run(run, Stage::SaveVideo)
        } else {
            abort_run(run, render_timeout_text())
        },
        Stage::SaveVideo => if ok {
            goto_run(run, Stage::WatchRender)
        } else {
            abort_run(run, text("无法点击保存按钮"))
        },
        Stage::PkgClosePreview => if ok {
            goto_run(run, Stage::PkgCloseDelay)
        } else {
            goto_run(run, Stage::PkgBack)
        },
        Stage::PkgShare => if ok {
            goto_run(run, Stage::PkgShareDelay)
        } else {
            abort_run(run, text("返回编辑器后未找到 share 按钮"))
        },
        Stage::PkgMenu => if ok {
            goto_run(run, Stage::PkgTab)
        } else {
            abort_run(run, text("导出菜单中未找到「项目包」选项"))
        },
        Stage::PkgTab => if ok {
            goto_run(run, Stage::PkgTabDelay)
        } else {
            abort_run(run, text("无法点击「项目包」标签"))
        },
        Stage::PkgExport => if ok {
            goto_run(run, Stage::PkgPacking)
        } else {
            abort_run(run, text("无法点击导出按钮"))
        },
        Stage::PkgPacking => goto_run(run, Stage::PkgPackDelay),
        Stage::PkgSaveAs => if ok {
            goto_run(run, Stage::PkgSaveAsDelay)
        } else {
            goto_run(run, Stage::PkgSaveAsBack)
        },
        Stage::PkgSaf => if ok {
            goto_run(run, Stage::PkgFilePause)
        } else {
            goto_run(run, Stage::PkgSafBack)
        },
        _ => run,
    }
}

/// The next state once the sleep or the popup check that the run waited on
/// is over.
pub fn project_on_done(run: ProjectRun) -> (r: ProjectRun)
    ensures
        r@ == project_after_done(run@),
{
    let st = match run.stage {
        Stage::IndexPause => Stage::QueryId,
        Stage::ImportDelay => Stage::ConfirmImport,
        Stage::RetryPause => Stage::ReopenImport,
        Stage::ReopenPause => Stage::ConfirmImportAgain,
        Stage::ImportedDelay => Stage::ConfirmDone,
        Stage::CloseDonePopups => Stage::DoneDelay,
        Stage::DoneDelay => Stage::Launch,
        Stage::LaunchDelay => Stage::TabById,
        Stage::TabDelay => Stage::OpenProject,
        Stage::OpenDelay => Stage::Share,
        Stage::ShareDelay => Stage::VideoMenu,
        Stage::PkgBackDelay => Stage::PkgCloseDelay,
        Stage::PkgCloseDelay => Stage::PkgShare,
        Stage::PkgShareDelay => Stage::PkgMenu,
        Stage::PkgTabDelay => Stage::PkgExport,
        Stage::PkgPackDelay => Stage::PkgSaveAs,
        Stage::PkgSaveAsDelay => Stage::PkgSaf,
        Stage::PkgFilePause => Stage::PkgLocate,
        Stage::PkgLeaveDelay => Stage::PullVideo,
        other => other,
    };
    goto_run(run, st)
}

fn shell_concat3(a: &str, b: &str, d: &str) -> (r: AdbCommand)
    ensures
        r@ == shell_args(a@ + b@ + d@),
{
    let mut c = chars_of(a);
    push_str(&mut c, b);
    push_str(&mut c, d);
    shell_chars(&c)
}

fn opt_str(o: &Option<String>) -> (r: &str)
    ensures
        r@ == match opt_chars(*o) {
            Some(v) => v,
            None => seq![],
        },
{
    proof {
        reveal_strlit("");
    }
    match o {
        Some(v) => v.as_str(),
        None => "",
    }
}

fn output_path_exec(job: &ProjectJob, ext: &str) -> (r: String)
    ensures
        r@ == output_path(job@, ext@),
{
    let mut c = chars_of(job.output_dir.as_str());
    push_str(&mut c, "/");
    push_str(&mut c, job.stem.as_str());
    push_str(&mut c, ext);
    string_of(&c)
}

fn remove_project_exec(job: &ProjectJob) -> (r: AdbCommand)
    ensures
        r@ == cleanup_commands(job@.file_name, None)[0],
{
    let mut c = chars_of("rm -f '");
    push_str(&mut c, PHONE_DOWNLOAD_DIR);
    push_str(&mut c, "/");
    push_str(&mut c, job.file_name.as_str());
    push_str(&mut c, "'");
    shell_chars(&c)
}

fn push_project_exec(job: &ProjectJob) -> (r: AdbCommand)
    ensures
        r@ == seq!["push"@, job@.local_path, phone_project_path(job@)],
{
    let remote = concat3(PHONE_DOWNLOAD_DIR, "/", job.file_name.as_str());
    push_file(job.local_path.as_str(), remote.as_str())
}

fn package_list_exec() -> (r: AdbCommand)
    ensures
        r@ == shell_args(package_list_command()),
{
    shell_concat3("ls -t '", PHONE_DOWNLOAD_DIR, "'/*.amproj 2>/dev/null")
}

/// The action that a run in stage `run.stage` waits on.
#[verifier::rlimit(40)]
pub fn project_action(job: &ProjectJob, run: &ProjectRun) -> (r: ProjectAction)
    ensures
        r@ == project_action_spec(job@, run@),
{
    let timeout = UI_WAIT_TIMEOUT_SECS;
    match run.stage {
        Stage::Push => ProjectAction::Run(push_project_exec(job)),
        Stage::IndexPause => ProjectAction::Sleep(INDEX_PAUSE_MS),
        Stage::QueryId => ProjectAction::Run(query_media_id(job.file_name.as_str())),
        Stage::OpenImport => ProjectAction::Run(open_project_via_content(opt_str(&run.media_id))),
        Stage::ImportDelay => ProjectAction::Sleep(UI_STEP_DELAY_MS),
        Stage::ConfirmImport => ProjectAction::Wait(tap_goal_exec(Attr::Text, "导入", timeout)),
        Stage::RetryStop => ProjectAction::Run(force_stop()),
        Stage::RetryPause => ProjectAction::Sleep(RETRY_PAUSE_MS),
        Stage::ReopenImport => ProjectAction::Run(open_project_via_content(opt_str(&run.media_id))),
        Stage::ReopenPause => ProjectAction::Sleep(REOPEN_PAUSE_MS),
        Stage::ConfirmImportAgain => ProjectAction::Wait(
            tap_goal_exec(Attr::Text, "导入", REIMPORT_TIMEOUT_SECS),
        ),
        Stage::ImportedDelay => ProjectAction::Sleep(UI_STEP_DELAY_MS),
        Stage::ConfirmDone => ProjectAction::Wait(tap_goal_exec(Attr::Text, "完成", timeout)),
        Stage::CloseDonePopups => ProjectAction::DismissPopups,
        Stage::DoneDelay => ProjectAction::Sleep(UI_STEP_DELAY_MS),
        Stage::Launch => ProjectAction::Run(launch_app()),
        Stage::LaunchDelay => ProjectAction::Sleep(UI_STEP_DELAY_MS),
        Stage::TabById => ProjectAction::Wait(
            tap_goal_exec(Attr::ResourceId, tab_id_exec(job.kind), timeout),
        ),
        Stage::TabByText => ProjectAction::Wait(
            tap_goal_exec(Attr::Text, tab_text_exec(job.kind), timeout),
        ),
        Stage::TabDelay => ProjectAction::Sleep(UI_STEP_DELAY_MS),
        Stage::OpenProject => ProjectAction::Wait(
            tap_goal_exec(Attr::Text, job.title.as_str(), timeout),
        ),
        Stage::OpenDelay => ProjectAction::Sleep(UI_STEP_DELAY_MS),
        Stage::Share => ProjectAction::Wait(guarded_goal_exec("share", SHARE_TIMEOUT_SECS, true)),
        Stage::ShareDelay => ProjectAction::Sleep(UI_STEP_DELAY_MS),
        Stage::VideoMenu => ProjectAction::Wait(visible_goal_exec("视频", timeout)),
        Stage::ExportVideo => ProjectAction::Wait(
            tap_goal_exec(Attr::ResourceId, "exportButton", timeout),
        ),
        Stage::AwaitRender => ProjectAction::Wait(
            guarded_goal_exec("saveButton", MAX_RENDER_WAIT_SECS, false),
        ),
        Stage::SaveVideo => ProjectAction::Wait(
            tap_goal_exec(Attr::ResourceId, "saveButton", timeout),
        ),
        Stage::WatchRender => ProjectAction::WatchRender(job.title.clone()),
        Stage::PkgClosePreview => ProjectAction::Wait(
            tap_goal_exec(Attr::ResourceId, "doneButton", CLOSE_PREVIEW_TIMEOUT_SECS),
        ),
        Stage::PkgBack => ProjectAction::Run(press_back()),
        Stage::PkgBackDelay => ProjectAction::Sleep(UI_STEP_DELAY_MS),
        Stage::PkgCloseDelay => ProjectAction::Sleep(UI_STEP_DELAY_MS),
        Stage::PkgShare => ProjectAction::Wait(
            guarded_goal_exec("share", RESHARE_TIMEOUT_SECS, true),
        ),
        Stage::PkgShareDelay => ProjectAction::Sleep(UI_STEP_DELAY_MS),
        Stage::PkgMenu => ProjectAction::Wait(visible_goal_exec("项目包", timeout)),
        Stage::PkgTab => ProjectAction::Wait(tap_goal_exec(Attr::Text, "项目包", timeout)),
        Stage::PkgTabDelay => ProjectAction::Sleep(UI_STEP_DELAY_MS),
        Stage::PkgExport => ProjectAction::Wait(
            tap_goal_exec(Attr::ResourceId, "exportButton", timeout),
        ),
        Stage::PkgPacking => ProjectAction::Wait(
            mention_goal_exec("com.huawei.android.internal.app", "另存为", timeout),
        ),
        Stage::PkgPackDelay => ProjectAction::Sleep(UI_STEP_DELAY_MS),
        Stage::PkgSaveAs => ProjectAction::Wait(save_as_goal_exec(timeout)),
        Stage::PkgSaveAsBack => ProjectAction::Run(press_back()),
        Stage::PkgSaveAsDelay => ProjectAction::Sleep(UI_STEP_DELAY_MS),
        Stage::PkgSaf => ProjectAction::SaveToDownload(PICKER_TIMEOUT_SECS),
        Stage::PkgSafBack => ProjectAction::Run(press_back()),
        Stage::PkgFilePause => ProjectAction::Sleep(PACKAGE_PAUSE_MS),
        Stage::PkgLocate => ProjectAction::Run(package_list_exec()),
        Stage::PkgLeave => ProjectAction::Run(press_back()),
        Stage::PkgLeaveDelay => ProjectAction::Sleep(UI_STEP_DELAY_MS),
        Stage::PullVideo => {
            let local = output_path_exec(job, ".mp4");
            ProjectAction::Run(pull_file(opt_str(&run.video), local.as_str()))
        },
        Stage::PullPackage => {
            let local = output_path_exec(job, ".amproj");
            ProjectAction::Run(pull_file(opt_str(&run.package), local.as_str()))
        },
        Stage::Stop => ProjectAction::Run(force_stop()),
        Stage::RemoveProject => ProjectAction::Run(remove_project_exec(job)),
        Stage::RemoveVideo => ProjectAction::Run(
            shell_concat3("rm -f '", opt_str(&run.video), "'"),
        ),
        Stage::RemovePackage => ProjectAction::Run(
            shell_concat3("rm -f '", opt_str(&run.package), "'"),
        ),
        Stage::AbortStop => ProjectAction::Run(force_stop()),
        Stage::AbortClean => ProjectAction::Run(remove_project_exec(job)),
        Stage::AbortRemoveVideo => ProjectAction::Run(
            shell_concat3("rm -f '", opt_str(&run.video), "'"),
        ),
        Stage::AbortRemovePackage => ProjectAction::Run(
            shell_concat3("rm -f '", opt_str(&run.package), "'"),
        ),
        Stage::Succeeded => ProjectAction::Finish(Ok(())),
        Stage::Failed => ProjectAction::Finish(Err(String::from_str(opt_str(&run.failure)))),
    }
}

// ---------------------------------------------------------------------------
// What every run keeps
// ---------------------------------------------------------------------------

/// The stages that export the project package.
pub open spec fn package_stage(st: Stage) -> bool {
    ||| st == Stage::PkgClosePreview
    ||| st == Stage::PkgBack
    ||| st == Stage::PkgBackDelay
    ||| st == Stage::PkgCloseDelay
    ||| st == Stage::PkgShare
    ||| st == Stage::PkgShareDelay
    ||| st == Stage::PkgMenu
    ||| st == Stage::PkgTab
    ||| st == Stage::PkgTabDelay
    ||| st == Stage::PkgExport
    ||| st == Stage::PkgPacking
    ||| st == Stage::PkgPackDelay
    ||| st == Stage::PkgSaveAs
    ||| st == Stage::PkgSaveAsBack
    ||| st == Stage::PkgSaveAsDelay
    ||| st == Stage::PkgSaf
    ||| st == Stage::PkgSafBack
    ||| st == Stage::PkgFilePause
    ||| st == Stage::PkgLocate
    ||| st == Stage::PkgLeave
    ||| st == Stage::PkgLeaveDelay
}

/// The stages that pull the outputs, clean up and end in success.
pub open spec fn closing_stage(st: Stage) -> bool {
    ||| st == Stage::PullVideo
    ||| st == Stage::PullPackage
    ||| st == Stage::Stop
    ||| st == Stage::RemoveProject
    ||| st == Stage::RemoveVideo
    ||| st == Stage::RemovePackage
    ||| st == Stage::Succeeded
}

/// The stages in which the package has been located.
pub open spec fn located_stage(st: Stage) -> bool {
    st == Stage::PkgLeave || st == Stage::PkgLeaveDelay
}

/// The stages before the MediaStore id is known.
pub open spec fn before_id_stage(st: Stage) -> bool {
    st == Stage::Push || st == Stage::IndexPause || st == Stage::QueryId
}

/// The stages that give up.
pub open spec fn giving_up_stage(st: Stage) -> bool {
    ||| st == Stage::AbortStop
    ||| st == Stage::AbortClean
    ||| st == Stage::AbortRemoveVideo
    ||| st == Stage::AbortRemovePackage
    ||| st == Stage::Failed
}

/// A run's invariant: the MediaStore id is known once queried, the video's
/// path once the render is watched, the package's path exactly once it is
/// located (and only when asked for), the path of each file that a clean-up
/// stage removes, and the reason once the run gives up.
pub open spec fn project_wf(job: JobView, run: RunView) -> bool {
    &&& (!before_id_stage(run.stage) && !giving_up_stage(run.stage) ==> run.media_id is Some)
    &&& (package_stage(run.stage) || closing_stage(run.stage) ==> run.video is Some)
    &&& (package_stage(run.stage) ==> job.export_package)
    &&& (located_stage(run.stage) ==> run.package is Some)
    &&& (closing_stage(run.stage) ==> (run.package is Some <==> job.export_package))
    &&& (!located_stage(run.stage) && !closing_stage(run.stage) && !giving_up_stage(run.stage)
        ==> run.package is None)
    &&& (run.stage == Stage::AbortRemoveVideo ==> run.video is Some)
    &&& (run.stage == Stage::AbortRemovePackage ==> run.package is Some)
    &&& (giving_up_stage(run.stage) ==> run.failure is Some)
}

/// The first state meets the invariant, and every step keeps it.
pub proof fn law_project_invariant(
    job: JobView,
    run: RunView,
    res: Result<Seq<char>, Seq<char>>,
    ok: bool,
)
    requires
        project_wf(job, run),
    ensures
        project_wf(job, project_initial()),
        project_wf(job, project_after_ran(job, run, res)),
        project_wf(job, project_after_waited(job, run, ok)),
        project_wf(job, project_after_done(run)),
{
}

/// A successful run has the video's path on the phone, and the package's
/// exactly when a package was asked for; it succeeds only right after the
/// last clean-up command.
pub proof fn law_project_success(
    job: JobView,
    run: RunView,
    res: Result<Seq<char>, Seq<char>>,
    ok: bool,
)
    requires
        project_wf(job, run),
    ensures
        run.stage == Stage::Succeeded ==> run.video is Some && (run.package is Some
            <==> job.export_package),
        run.stage != Stage::Succeeded && project_after_ran(job, run, res).stage == Stage::Succeeded
            ==> run.stage == Stage::RemoveVideo || run.stage == Stage::RemovePackage,
        run.stage != Stage::Succeeded ==> project_after_waited(job, run, ok).stage
            != Stage::Succeeded,
        run.stage != Stage::Succeeded ==> project_after_done(run).stage != Stage::Succeeded,
{
}

/// The command that removes a file from the phone.
pub open spec fn remove_file_command(path: Seq<char>) -> Seq<Seq<char>> {
    shell_args("rm -f '"@ + path + "'"@)
}

/// Once the push has succeeded, every failure makes the run stop Alemon and
/// remove from the phone the pushed project, the rendered video if there is
/// one and the exported package if there is one, in that order, before it
/// ends with the failure's reason; only a failed push ends the run at once.
pub proof fn law_project_abort_cleans_phone(
    job: JobView,
    run: RunView,
    res: Result<Seq<char>, Seq<char>>,
    ok: bool,
)
    ensures
        run.stage != Stage::Push && !giving_up_stage(run.stage) && giving_up_stage(
            project_after_ran(job, run, res).stage,
        ) ==> project_after_ran(job, run, res).stage == Stage::AbortStop,
        !giving_up_stage(run.stage) && giving_up_stage(project_after_waited(job, run, ok).stage)
            ==> project_after_waited(job, run, ok).stage == Stage::AbortStop,
        !giving_up_stage(project_after_done(run).stage) || giving_up_stage(run.stage),
        run.stage == Stage::Push && res is Err ==> project_after_ran(job, run, res).stage
            == Stage::Failed,
        run.stage != Stage::Failed && project_after_ran(job, run, res).stage == Stage::Failed
            ==> run.stage == Stage::Push || run.stage == Stage::AbortClean || run.stage
            == Stage::AbortRemoveVideo || run.stage == Stage::AbortRemovePackage,
        giving_up_stage(run.stage) && run.stage != Stage::Failed ==> project_after_ran(
            job,
            run,
            res,
        ).failure == run.failure,
        run.stage == Stage::AbortStop ==> project_action_spec(job, run) == ActionView::Run(
            shell_args("am force-stop "@ + PACKAGE_NAME@),
        ) && project_after_ran(job, run, res) == goto(run, Stage::AbortClean),
        run.stage == Stage::AbortClean ==> project_action_spec(job, run) == ActionView::Run(
            cleanup_commands(job.file_name, None)[0],
        ) && project_after_ran(job, run, res) == goto(
            run,
            if run.video is Some {
                Stage::AbortRemoveVideo
            } else if run.package is Some {
                Stage::AbortRemovePackage
            } else {
                Stage::Failed
            },
        ),
        run.stage == Stage::AbortRemoveVideo && run.video is Some ==> project_action_spec(job, run)
            == ActionView::Run(remove_file_command(run.video.unwrap())) && project_after_ran(
            job,
            run,
            res,
        ) == goto(
            run,
            if run.package is Some {
                Stage::AbortRemovePackage
            } else {
                Stage::Failed
            },
        ),
        run.stage == Stage::AbortRemovePackage && run.package is Some ==> project_action_spec(
            job,
            run,
        ) == ActionView::Run(remove_file_command(run.package.unwrap())) && project_after_ran(
            job,
            run,
            res,
        ) == goto(run, Stage::Failed),
{
}

/// A finished run stays finished, whatever is reported, and reports its
/// outcome.
pub proof fn law_project_finished_is_final(
    job: JobView,
    run: RunView,
    res: Result<Seq<char>, Seq<char>>,
    ok: bool,
)
    requires
        run.stage == Stage::Succeeded || run.stage == Stage::Failed,
    ensures
        project_after_ran(job, run, res) == run,
        project_after_waited(job, run, ok) == run,
        project_after_done(run) == run,
        project_action_spec(job, run) == ActionView::Finish(
            if run.stage == Stage::Succeeded {
                Ok(())
            } else {
                Err(run.failure.unwrap_or(seq![]))
            },
        ),
{
}

} // verus!
