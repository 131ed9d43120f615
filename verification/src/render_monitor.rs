//! Watching a render on the phone: first wait for the project's video to show
//! in the video folder, then poll its size until it has stayed the same for
//! `STABLE_THRESHOLD_SECS` and no temporary files are left, all within
//! `MAX_RENDER_WAIT_SECS`. Running the commands and sleeping are left to the
//! caller, which reports each outcome back.

use vstd::prelude::*;
use crate::adb::{shell_args, shell_chars, AdbCommand};
use crate::config::{MAX_RENDER_WAIT_SECS, PHONE_VIDEO_DIR, POLL_INTERVAL_SECS, STABLE_THRESHOLD_SECS};
use crate::text::{
    chars_of, contains, contains_exec, decimal, fmt_u64, lines, lines_exec, parse_i64,
    parse_signed, push_all, push_str, string_of, trim, trim_exec,
};

verus! {

/// How many unchanged size readings in a row mean the render is done.
pub const STABLE_POLLS: u64 = STABLE_THRESHOLD_SECS / POLL_INTERVAL_SECS;

/// What a missing file looks like in a listing.
pub const MISSING_FILE_TEXT: &'static str = "No such file";

/// Lists the videos in the video folder, newest first.
pub open spec fn video_list_command() -> Seq<char> {
    "ls -t '"@ + PHONE_VIDEO_DIR@ + "'/*.mp4 2>/dev/null"@
}

/// Prints the size of `file` in bytes.
pub open spec fn size_command(file: Seq<char>) -> Seq<char> {
    "stat -c %s '"@ + file + "' 2>/dev/null"@
}

/// Lists the temporary files left in the video folder.
pub open spec fn temp_list_command() -> Seq<char> {
    "ls '"@ + PHONE_VIDEO_DIR@ + "'/*.tmp '"@ + PHONE_VIDEO_DIR@ + "'/*.part 2>/dev/null"@
}

/// The error when no video shows within the time limit.
pub open spec fn no_video_message() -> Seq<char> {
    "超过最大等待时间 "@ + decimal(MAX_RENDER_WAIT_SECS as nat) + "s，未检测到视频文件"@
}

/// The error when the video does not settle within the time limit.
pub open spec fn render_timeout_message() -> Seq<char> {
    "渲染监控超时（"@ + decimal(MAX_RENDER_WAIT_SECS as nat) + "s），可能出现异常"@
}

/// A trimmed listing line that names a file of the project titled `title`:
/// not empty, not a missing-file message, and containing the title.
pub open spec fn names_title(f: Seq<char>, title: Seq<char>) -> bool {
    f.len() > 0 && !contains(f, MISSING_FILE_TEXT@) && contains(f, title)
}

/// The first line, from index `i` on, that names a file of the project,
/// trimmed.
pub open spec fn first_named_line(ls: Seq<Seq<char>>, title: Seq<char>, i: int) -> Option<
    Seq<char>,
>
    decreases ls.len() - i,
{
    if i < 0 || i >= ls.len() {
        None
    } else if names_title(trim(ls[i]), title) {
        Some(trim(ls[i]))
    } else {
        first_named_line(ls, title, i + 1)
    }
}

/// The project's file in a listing (the first line that names it).
pub open spec fn find_named(listing: Seq<char>, title: Seq<char>) -> Option<Seq<char>> {
    first_named_line(lines(listing), title, 0)
}

/// A command's output, empty where the command failed.
pub open spec fn output_or_empty(out: Option<Seq<char>>) -> Seq<char> {
    match out {
        Some(o) => o,
        None => seq![],
    }
}

/// The size reported by the size command: its trimmed output as an `i64`,
/// or 0 when it is not one.
pub open spec fn read_size(out: Option<Seq<char>>) -> int {
    match parse_signed(trim(output_or_empty(out)), i64::MIN as int, i64::MAX as int) {
        Ok(v) => v,
        Err(_) => 0,
    }
}

/// The temporary-file listing shows none.
pub open spec fn temps_gone(out: Option<Seq<char>>) -> bool {
    trim(output_or_empty(out)).len() == 0 || contains(output_or_empty(out), MISSING_FILE_TEXT@)
}

/// The project's file named in `listing`, if there is one.
pub fn find_named_exec(listing: &str, title: &str) -> (r: Option<String>)
    ensures
        match r {
            Some(f) => find_named(listing@, title@) == Some(f@),
            None => find_named(listing@, title@) is None,
        },
{
    let s = chars_of(listing);
    let ls = lines_exec(&s);
    let t = chars_of(title);
    let missing = chars_of(MISSING_FILE_TEXT);
    let mut i: usize = 0;
    while i < ls.len()
        invariant
            0 <= i <= ls@.len(),
            ls@.len() == lines(s@).len(),
            forall|k: int| 0 <= k < ls@.len() ==> #[trigger] ls@[k]@ == lines(s@)[k],
            s@ == listing@,
            t@ == title@,
            missing@ == MISSING_FILE_TEXT@,
            find_named(listing@, title@) == first_named_line(lines(s@), title@, i as int),
        decreases ls@.len() - i,
    {
        let f = trim_exec(&ls[i]);
        if f.len() > 0 && !contains_exec(&f, &missing) && contains_exec(&f, &t) {
            return Some(string_of(&f));
        }
        i += 1;
    }
    None
}

/// The size reported by the size command (`None` where it failed).
pub fn read_size_exec(out: Option<&str>) -> (r: i64)
    ensures
        r as int == read_size(
            match out {
                Some(o) => Some(o@),
                None => None,
            },
        ),
{
    let text = match out {
        Some(o) => chars_of(o),
        None => Vec::new(),
    };
    proof {
        assert(text@ == output_or_empty(
            match out {
                Some(o) => Some(o@),
                None => None,
            },
        ));
    }
    let t = trim_exec(&text);
    match parse_i64(&t) {
        Ok(v) => v,
        Err(_) => 0,
    }
}

/// Whether the temporary-file listing (`None` where it failed) shows none.
pub fn temps_gone_exec(out: Option<&str>) -> (r: bool)
    ensures
        r == temps_gone(
            match out {
                Some(o) => Some(o@),
                None => None,
            },
        ),
{
    let text = match out {
        Some(o) => chars_of(o),
        None => Vec::new(),
    };
    proof {
        assert(text@ == output_or_empty(
            match out {
                Some(o) => Some(o@),
                None => None,
            },
        ));
    }
    let t = trim_exec(&text);
    t.len() == 0 || contains_exec(&text, &chars_of(MISSING_FILE_TEXT))
}

// ---------------------------------------------------------------------------
// The monitor's states
// ---------------------------------------------------------------------------

/// Where the monitor stands; each state names the action it waits on (see
/// `render_action`). `elapsed` counts the seconds slept so far.
pub enum RenderState {
    /// Listing the video folder for the project's video.
    FindVideo { elapsed: u64 },
    /// Sleeping before listing again.
    WaitVideo { elapsed: u64 },
    /// Reading the video's size; `stable` readings in a row equalled the last.
    MeasureSize { file: String, elapsed: u64, last_size: i64, stable: u64 },
    /// The size has settled; listing the temporary files.
    CheckTemp { file: String, elapsed: u64, size: i64, stable: u64 },
    /// Sleeping before reading the size again.
    WaitSize { file: String, elapsed: u64, last_size: i64, stable: u64 },
    /// Done: the video's path on the phone, or why there is none.
    Finished(Result<String, String>),
}

/// A state of the monitor as mathematical values.
pub enum RenderView {
    FindVideo { elapsed: int },
    WaitVideo { elapsed: int },
    MeasureSize { file: Seq<char>, elapsed: int, last_size: int, stable: int },
    CheckTemp { file: Seq<char>, elapsed: int, size: int, stable: int },
    WaitSize { file: Seq<char>, elapsed: int, last_size: int, stable: int },
    Finished(Result<Seq<char>, Seq<char>>),
}

impl View for RenderState {
    type V = RenderView;

    open spec fn view(&self) -> RenderView {
        match self {
            RenderState::FindVideo { elapsed } => RenderView::FindVideo { elapsed: *elapsed as int },
            RenderState::WaitVideo { elapsed } => RenderView::WaitVideo { elapsed: *elapsed as int },
            RenderState::MeasureSize { file, elapsed, last_size, stable } => RenderView::MeasureSize {
                file: file@,
                elapsed: *elapsed as int,
                last_size: *last_size as int,
                stable: *stable as int,
            },
            RenderState::CheckTemp { file, elapsed, size, stable } => RenderView::CheckTemp {
                file: file@,
                elapsed: *elapsed as int,
                size: *size as int,
                stable: *stable as int,
            },
            RenderState::WaitSize { file, elapsed, last_size, stable } => RenderView::WaitSize {
                file: file@,
                elapsed: *elapsed as int,
                last_size: *last_size as int,
                stable: *stable as int,
            },
            RenderState::Finished(r) => RenderView::Finished(
                match r {
                    Ok(f) => Ok(f@),
                    Err(e) => Err(e@),
                },
            ),
        }
    }
}

/// What the caller does next for the monitor.
pub enum RenderAction {
    /// Run this adb command and report its output (or its failure).
    Run(AdbCommand),
    /// Sleep this many seconds.
    Sleep(u64),
    /// Stop with this outcome.
    Finish(Result<String, String>),
}

/// The counters stay in range: time left in every waiting state, and fewer
/// than `STABLE_POLLS` unchanged readings unless the size has settled.
pub open spec fn render_bounded(s: RenderView) -> bool {
    match s {
        RenderView::FindVideo { elapsed } => 0 <= elapsed < MAX_RENDER_WAIT_SECS,
        RenderView::WaitVideo { elapsed } => 0 <= elapsed < MAX_RENDER_WAIT_SECS,
        RenderView::MeasureSize { elapsed, stable, .. } => 0 <= elapsed < MAX_RENDER_WAIT_SECS && 0
            <= stable < STABLE_POLLS,
        RenderView::WaitSize { elapsed, stable, .. } => 0 <= elapsed < MAX_RENDER_WAIT_SECS && 0
            <= stable < STABLE_POLLS,
        RenderView::CheckTemp { elapsed, stable, .. } => 0 <= elapsed < MAX_RENDER_WAIT_SECS
            && STABLE_POLLS <= stable <= STABLE_POLLS,
        RenderView::Finished(_) => true,
    }
}

/// The monitor's invariant for the project titled `title`: the counters are
/// in range, the file watched names the project's video, a run of unchanged
/// readings is a run of positive sizes, and a settled size is positive.
pub open spec fn render_wf(s: RenderView, title: Seq<char>) -> bool {
    &&& render_bounded(s)
    &&& match s {
        RenderView::MeasureSize { file, last_size, stable, .. } => names_title(file, title) && (
        stable > 0 ==> last_size > 0),
        RenderView::WaitSize { file, last_size, stable, .. } => names_title(file, title) && (stable
            > 0 ==> last_size > 0),
        RenderView::CheckTemp { file, size, .. } => names_title(file, title) && size > 0,
        _ => true,
    }
}

/// The monitor's first state.
pub open spec fn render_initial() -> RenderView {
    RenderView::FindVideo { elapsed: 0 }
}

/// The state after a command's output was reported (`None` where the command
/// failed).
pub open spec fn render_after_output(s: RenderView, out: Option<Seq<char>>, title: Seq<char>) -> RenderView {
    match s {
        RenderView::FindVideo { elapsed } => match out {
            Some(o) => match find_named(o, title) {
                Some(f) => RenderView::MeasureSize { file: f, elapsed, last_size: -1, stable: 0 },
                None => RenderView::WaitVideo { elapsed },
            },
            None => RenderView::WaitVideo { elapsed },
        },
        RenderView::MeasureSize { file, elapsed, last_size, stable } => {
            let size = read_size(out);
            let st = if size == last_size && size > 0 {
                stable + 1
            } else {
                0
            };
            if st >= STABLE_POLLS {
                RenderView::CheckTemp { file, elapsed, size, stable: st }
            } else {
                RenderView::WaitSize { file, elapsed, last_size: size, stable: st }
            }
        },
        RenderView::CheckTemp { file, elapsed, size, stable } => if temps_gone(out) {
            RenderView::Finished(Ok(file))
        } else {
            RenderView::WaitSize { file, elapsed, last_size: size, stable: 0 }
        },
        _ => s,
    }
}

/// The state after a sleep of `POLL_INTERVAL_SECS`.
pub open spec fn render_after_sleep(s: RenderView) -> RenderView {
    match s {
        RenderView::WaitVideo { elapsed } => if elapsed + POLL_INTERVAL_SECS
            >= MAX_RENDER_WAIT_SECS {
            RenderView::Finished(Err(no_video_message()))
        } else {
            RenderView::FindVideo { elapsed: elapsed + POLL_INTERVAL_SECS }
        },
        RenderView::WaitSize { file, elapsed, last_size, stable } => if elapsed
            + POLL_INTERVAL_SECS >= MAX_RENDER_WAIT_SECS {
            RenderView::Finished(Err(render_timeout_message()))
        } else {
            RenderView::MeasureSize {
                file,
                elapsed: elapsed + POLL_INTERVAL_SECS,
                last_size,
                stable,
            }
        },
        _ => s,
    }
}

/// Whether the counters of `s` are in range (`render_bounded`).
pub fn render_bounded_exec(s: &RenderState) -> (r: bool)
    ensures
        r == render_bounded(s@),
{
    match s {
        RenderState::FindVideo { elapsed } => *elapsed < MAX_RENDER_WAIT_SECS,
        RenderState::WaitVideo { elapsed } => *elapsed < MAX_RENDER_WAIT_SECS,
        RenderState::MeasureSize { elapsed, stable, .. } => *elapsed < MAX_RENDER_WAIT_SECS
            && *stable < STABLE_POLLS,
        RenderState::WaitSize { elapsed, stable, .. } => *elapsed < MAX_RENDER_WAIT_SECS && *stable
            < STABLE_POLLS,
        RenderState::CheckTemp { elapsed, stable, .. } => *elapsed < MAX_RENDER_WAIT_SECS && *stable
            == STABLE_POLLS,
        RenderState::Finished(_) => true,
    }
}

/// The monitor's first state.
pub fn render_start() -> (r: RenderState)
    ensures
        r@ == render_initial(),
{
    RenderState::FindVideo { elapsed: 0 }
}

fn video_list_command_exec() -> (r: AdbCommand)
    ensures
        r@ == shell_args(video_list_command()),
{
    let mut c = chars_of("ls -t '");
    push_str(&mut c, PHONE_VIDEO_DIR);
    push_str(&mut c, "'/*.mp4 2>/dev/null");
    shell_chars(&c)
}

fn size_command_exec(file: &str) -> (r: AdbCommand)
    ensures
        r@ == shell_args(size_command(file@)),
{
    let mut c = chars_of("stat -c %s '");
    push_str(&mut c, file);
    push_str(&mut c, "' 2>/dev/null");
    shell_chars(&c)
}

fn temp_list_command_exec() -> (r: AdbCommand)
    ensures
        r@ == shell_args(temp_list_command()),
{
    let mut c = chars_of("ls '");
    push_str(&mut c, PHONE_VIDEO_DIR);
    push_str(&mut c, "'/*.tmp '");
    push_str(&mut c, PHONE_VIDEO_DIR);
    push_str(&mut c, "'/*.part 2>/dev/null");
    shell_chars(&c)
}

fn message_with_limit(before: &str, after: &str) -> (r: String)
    ensures
        r@ == before@ + decimal(MAX_RENDER_WAIT_SECS as nat) + after@,
{
    let mut c = chars_of(before);
    let n = fmt_u64(MAX_RENDER_WAIT_SECS);
    push_all(&mut c, &n);
    push_str(&mut c, after);
    string_of(&c)
}

/// The action that state `s` waits on.
pub fn render_action(s: &RenderState) -> (r: RenderAction)
    ensures
        match s@ {
            RenderView::FindVideo { .. } => r matches RenderAction::Run(c) && c@ == shell_args(
                video_list_command(),
            ),
            RenderView::MeasureSize { file, .. } => r matches RenderAction::Run(c) && c@
                == shell_args(size_command(file)),
            RenderView::CheckTemp { .. } => r matches RenderAction::Run(c) && c@ == shell_args(
                temp_list_command(),
            ),
            RenderView::WaitVideo { .. } => r == RenderAction::Sleep(POLL_INTERVAL_SECS),
            RenderView::WaitSize { .. } => r == RenderAction::Sleep(POLL_INTERVAL_SECS),
            RenderView::Finished(res) => r matches RenderAction::Finish(x) && match x {
                Ok(f) => res == Ok::<Seq<char>, Seq<char>>(f@),
                Err(e) => res == Err::<Seq<char>, Seq<char>>(e@),
            },
        },
{
    match s {
        RenderState::FindVideo { .. } => RenderAction::Run(video_list_command_exec()),
        RenderState::MeasureSize { file, .. } => RenderAction::Run(size_command_exec(file.as_str())),
        RenderState::CheckTemp { .. } => RenderAction::Run(temp_list_command_exec()),
        RenderState::WaitVideo { .. } => RenderAction::Sleep(POLL_INTERVAL_SECS),
        RenderState::WaitSize { .. } => RenderAction::Sleep(POLL_INTERVAL_SECS),
        RenderState::Finished(res) => RenderAction::Finish(
            match res {
                Ok(f) => Ok(f.clone()),
                Err(e) => Err(e.clone()),
            },
        ),
    }
}

/// The next state once the output of the command that `s` waited on is in
/// (`None` where the command failed).
pub fn render_on_output(s: RenderState, out: Option<&str>, title: &str) -> (r: RenderState)
    requires
        render_bounded(s@),
    ensures
        r@ == render_after_output(
            s@,
            match out {
                Some(o) => Some(o@),
                None => None,
            },
            title@,
        ),
{
    match s {
        RenderState::FindVideo { elapsed } => {
            let found = match out {
                Some(o) => find_named_exec(o, title),
                None => None,
            };
            match found {
                Some(f) => RenderState::MeasureSize { file: f, elapsed, last_size: -1, stable: 0 },
                None => RenderState::WaitVideo { elapsed },
            }
        },
        RenderState::MeasureSize { file, elapsed, last_size, stable } => {
            let size = read_size_exec(out);
            let st = if size == last_size && size > 0 {
                stable + 1
            } else {
                0
            };
            if st >= STABLE_POLLS {
                RenderState::CheckTemp { file, elapsed, size, stable: st }
            } else {
                RenderState::WaitSize { file, elapsed, last_size: size, stable: st }
            }
        },
        RenderState::CheckTemp { file, elapsed, size, stable } => if temps_gone_exec(out) {
            RenderState::Finished(Ok(file))
        } else {
            RenderState::WaitSize { file, elapsed, last_size: size, stable: 0 }
        },
        other => other,
    }
}

/// The next state once the sleep that `s` waited on is over.
pub fn render_on_sleep(s: RenderState) -> (r: RenderState)
    requires
        render_bounded(s@),
    ensures
        r@ == render_after_sleep(s@),
{
    match s {
        RenderState::WaitVideo { elapsed } => if elapsed + POLL_INTERVAL_SECS
            >= MAX_RENDER_WAIT_SECS {
            RenderState::Finished(Err(message_with_limit("超过最大等待时间 ", "s，未检测到视频文件")))
        } else {
            RenderState::FindVideo { elapsed: elapsed + POLL_INTERVAL_SECS }
        },
        RenderState::WaitSize { file, elapsed, last_size, stable } => if elapsed
            + POLL_INTERVAL_SECS >= MAX_RENDER_WAIT_SECS {
            RenderState::Finished(Err(message_with_limit("渲染监控超时（", "s），可能出现异常")))
        } else {
            RenderState::MeasureSize {
                file,
                elapsed: elapsed + POLL_INTERVAL_SECS,
                last_size,
                stable,
            }
        },
        other => other,
    }
}

// ---------------------------------------------------------------------------
// What every run of the monitor keeps
// ---------------------------------------------------------------------------

proof fn lemma_first_named_line(ls: Seq<Seq<char>>, title: Seq<char>, i: int)
    ensures
        first_named_line(ls, title, i) matches Some(f) ==> names_title(f, title),
    decreases ls.len() - i,
{
    if 0 <= i < ls.len() {
        lemma_first_named_line(ls, title, i + 1);
    }
}

/// The first state meets the invariant, and every step keeps it.
pub proof fn law_render_invariant(s: RenderView, out: Option<Seq<char>>, title: Seq<char>)
    requires
        render_wf(s, title),
    ensures
        render_wf(render_initial(), title),
        render_wf(render_after_output(s, out, title), title),
        render_wf(render_after_sleep(s), title),
{
    if let Some(o) = out {
        lemma_first_named_line(lines(o), title, 0);
    }
}

/// The monitor succeeds only with the watched file of a settled size: after
/// `STABLE_POLLS` unchanged positive readings, a listing without temporary
/// files; and the file it reports names the project's video.
pub proof fn law_render_success_when_settled(
    s: RenderView,
    out: Option<Seq<char>>,
    title: Seq<char>,
    f: Seq<char>,
)
    requires
        render_wf(s, title),
        !(s is Finished),
        render_after_output(s, out, title) == RenderView::Finished(Ok::<Seq<char>, Seq<char>>(f))
            || render_after_sleep(s) == RenderView::Finished(Ok::<Seq<char>, Seq<char>>(f)),
    ensures
        s matches RenderView::CheckTemp { file, size, stable, .. } && file == f && size > 0
            && stable >= STABLE_POLLS,
        temps_gone(out),
        names_title(f, title),
{
}

/// Each sleep adds `POLL_INTERVAL_SECS` to the time waited, and the monitor
/// gives up with its error once that reaches `MAX_RENDER_WAIT_SECS`.
pub proof fn law_render_time_limit(s: RenderView)
    requires
        render_bounded(s),
    ensures
        s matches RenderView::WaitVideo { elapsed } ==> if elapsed + POLL_INTERVAL_SECS
            >= MAX_RENDER_WAIT_SECS {
            render_after_sleep(s) == RenderView::Finished(
                Err::<Seq<char>, Seq<char>>(no_video_message()),
            )
        } else {
            render_after_sleep(s) == RenderView::FindVideo {
                elapsed: elapsed + POLL_INTERVAL_SECS,
            }
        },
        s matches RenderView::WaitSize { elapsed, .. } ==> if elapsed + POLL_INTERVAL_SECS
            >= MAX_RENDER_WAIT_SECS {
            render_after_sleep(s) == RenderView::Finished(
                Err::<Seq<char>, Seq<char>>(render_timeout_message()),
            )
        } else {
            render_after_sleep(s) matches RenderView::MeasureSize { elapsed: e, .. } && e
                == elapsed + POLL_INTERVAL_SECS
        },
{
}

/// A finished monitor stays finished, whatever is reported.
pub proof fn law_render_finished_is_final(
    res: Result<Seq<char>, Seq<char>>,
    out: Option<Seq<char>>,
    title: Seq<char>,
)
    ensures
        render_after_output(RenderView::Finished(res), out, title) == RenderView::Finished(res),
        render_after_sleep(RenderView::Finished(res)) == RenderView::Finished(res),
{
}

} // verus!
