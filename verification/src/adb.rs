//! The adb invocations the tool makes, as argument lists for `adb`, and the
//! reading of their answers. Running `adb` itself is left to the caller.

use vstd::prelude::*;
use crate::config::{PACKAGE_NAME, PHONE_DOWNLOAD_DIR, PHONE_UI_DUMP, PHONE_VIDEO_DIR};
use crate::text::{
    chars_of, find, find_from, find_from_exec, fmt_i64, is_white_space, is_white_space_exec,
    push_all, push_str, signed_decimal, slice_chars, string_of, ws_run_end,
};

verus! {

/// The arguments of one `adb` invocation.
pub struct AdbCommand {
    pub args: Vec<String>,
}

impl View for AdbCommand {
    type V = Seq<Seq<char>>;

    open spec fn view(&self) -> Seq<Seq<char>> {
        self.args@.map_values(|a: String| a@)
    }
}

/// `adb shell {cmd}`.
pub open spec fn shell_args(cmd: Seq<char>) -> Seq<Seq<char>> {
    seq!["shell"@, cmd]
}

fn command1(a: &str) -> (r: AdbCommand)
    ensures
        r@ == seq![a@],
{
    let mut args: Vec<String> = Vec::new();
    args.push(String::from_str(a));
    proof {
        assert(r_view(args@) =~= seq![a@]);
    }
    AdbCommand { args }
}

/// The views of argument strings.
pub open spec fn r_view(args: Seq<String>) -> Seq<Seq<char>> {
    args.map_values(|a: String| a@)
}

fn command2(a: &str, b: &str) -> (r: AdbCommand)
    ensures
        r@ == seq![a@, b@],
{
    let mut args: Vec<String> = Vec::new();
    args.push(String::from_str(a));
    args.push(String::from_str(b));
    proof {
        assert(r_view(args@) =~= seq![a@, b@]);
    }
    AdbCommand { args }
}

fn command3(a: &str, b: &str, c: &str) -> (r: AdbCommand)
    ensures
        r@ == seq![a@, b@, c@],
{
    let mut args: Vec<String> = Vec::new();
    args.push(String::from_str(a));
    args.push(String::from_str(b));
    args.push(String::from_str(c));
    proof {
        assert(r_view(args@) =~= seq![a@, b@, c@]);
    }
    AdbCommand { args }
}

/// `adb shell {cmd}`: runs `cmd` in the device shell.
pub fn shell_cmd(cmd: &str) -> (r: AdbCommand)
    ensures
        r@ == shell_args(cmd@),
{
    command2("shell", cmd)
}

pub(crate) fn shell_chars(cmd: &Vec<char>) -> (r: AdbCommand)
    ensures
        r@ == shell_args(cmd@),
{
    let s = string_of(cmd);
    shell_cmd(s.as_str())
}

/// `adb get-serialno`: the connected device's serial number.
pub fn get_serialno() -> (r: AdbCommand)
    ensures
        r@ == seq!["get-serialno"@],
{
    command1("get-serialno")
}

/// `adb push {local} {remote}`: copies a file to the phone.
pub fn push_file(local: &str, remote: &str) -> (r: AdbCommand)
    ensures
        r@ == seq!["push"@, local@, remote@],
{
    command3("push", local, remote)
}

/// `adb pull {remote} {local}`: copies a file from the phone.
pub fn pull_file(remote: &str, local: &str) -> (r: AdbCommand)
    ensures
        r@ == seq!["pull"@, remote@, local@],
{
    command3("pull", remote, local)
}

/// The MediaStore query for the file `filename`'s id.
pub open spec fn media_query(filename: Seq<char>) -> Seq<char> {
    "content query --uri content://media/external/file --projection _id --where \"_display_name='"@
        + filename + "'\""@
}

/// Queries the MediaStore id of the phone file `filename` (answer read by
/// `parse_media_id`).
pub fn query_media_id(filename: &str) -> (r: AdbCommand)
    ensures
        r@ == shell_args(media_query(filename@)),
{
    let mut c = chars_of(
        "content query --uri content://media/external/file --projection _id --where \"_display_name='",
    );
    push_str(&mut c, filename);
    push_str(&mut c, "'\"");
    shell_chars(&c)
}

/// End of the run of non-white-space characters in `s` starting at `from`.
pub open spec fn token_end(s: Seq<char>, from: int) -> int
    decreases s.len() - from,
{
    if 0 <= from < s.len() && !is_white_space(s[from]) {
        token_end(s, from + 1)
    } else {
        from
    }
}

/// The first white-space separated word of `s` (`split_whitespace().next()`).
pub open spec fn first_word(s: Seq<char>) -> Option<Seq<char>> {
    let a = ws_run_end(s, 0);
    if a >= s.len() {
        None
    } else {
        Some(s.subrange(a, token_end(s, a)))
    }
}

/// The id in a MediaStore answer such as `Row: 0 _id=230142`: the first word
/// after the first `_id=` (and before any second one).
pub open spec fn media_id_of(output: Seq<char>) -> Option<Seq<char>> {
    match find(output, "_id="@) {
        None => None,
        Some(p) => {
            let segment = match find_from(output, "_id="@, p + 4) {
                Some(q) => output.subrange(p + 4, q),
                None => output.skip(p + 4),
            };
            first_word(segment)
        },
    }
}

proof fn lemma_token_end(s: Seq<char>, from: int)
    requires
        0 <= from <= s.len(),
    ensures
        from <= token_end(s, from) <= s.len(),
    decreases s.len() - from,
{
    if from < s.len() && !is_white_space(s[from]) {
        lemma_token_end(s, from + 1);
    }
}

fn first_word_exec(s: &Vec<char>) -> (r: Option<Vec<char>>)
    ensures
        match r {
            Some(w) => first_word(s@) == Some(w@),
            None => first_word(s@) is None,
        },
{
    let mut a: usize = 0;
    while a < s.len() && is_white_space_exec(s[a])
        invariant
            0 <= a <= s.len(),
            ws_run_end(s@, 0) == ws_run_end(s@, a as int),
        decreases s.len() - a,
    {
        a += 1;
    }
    if a >= s.len() {
        return None;
    }
    let mut e = a;
    while e < s.len() && !is_white_space_exec(s[e])
        invariant
            a <= e <= s.len(),
            token_end(s@, a as int) == token_end(s@, e as int),
        decreases s.len() - e,
    {
        e += 1;
    }
    Some(slice_chars(s, a, e))
}

/// Reads the MediaStore id from the query's answer, or the error naming the
/// answer.
pub fn parse_media_id(output: &str) -> (r: Result<String, String>)
    ensures
        match r {
            Ok(id) => media_id_of(output@) == Some(id@),
            Err(e) => media_id_of(output@) is None && e@ == "无法从 MediaStore 获取文件 ID: "@
                + output@,
        },
{
    proof {
        reveal_strlit("_id=");
    }
    let s = chars_of(output);
    let n = s.len();
    let pat = chars_of("_id=");
    let found = match find_from_exec(&s, &pat, 0) {
        None => None,
        Some(p) => {
            proof {
                crate::text::lemma_find_from_some(s@, pat@, 0);
            }
            let segment = match find_from_exec(&s, &pat, p + 4) {
                Some(q) => {
                    proof {
                        crate::text::lemma_find_from_some(s@, pat@, p + 4);
                    }
                    slice_chars(&s, p + 4, q)
                },
                None => {
                    let t = slice_chars(&s, p + 4, s.len());
                    proof {
                        assert(t@ == s@.skip(p + 4));
                    }
                    t
                },
            };
            first_word_exec(&segment)
        },
    };
    match found {
        Some(w) => Ok(string_of(&w)),
        None => {
            let mut m = chars_of("无法从 MediaStore 获取文件 ID: ");
            push_str(&mut m, output);
            Err(string_of(&m))
        },
    }
}

/// The shell command that opens a MediaStore file in Alemon.
pub open spec fn open_content_command(media_id: Seq<char>) -> Seq<char> {
    "am start -a android.intent.action.VIEW -d 'content://media/external/file/"@ + media_id
        + "' -t application/zip -p "@ + PACKAGE_NAME@ + " --grant-read-uri-permission"@
}

/// Opens the project with MediaStore id `media_id` in Alemon through its
/// `content://` URI (a `file://` URI is refused since Android 7).
pub fn open_project_via_content(media_id: &str) -> (r: AdbCommand)
    ensures
        r@ == shell_args(open_content_command(media_id@)),
{
    let mut c = chars_of("am start -a android.intent.action.VIEW -d 'content://media/external/file/");
    push_str(&mut c, media_id);
    push_str(&mut c, "' -t application/zip -p ");
    push_str(&mut c, PACKAGE_NAME);
    push_str(&mut c, " --grant-read-uri-permission");
    shell_chars(&c)
}

/// Force-stops Alemon.
pub fn force_stop() -> (r: AdbCommand)
    ensures
        r@ == shell_args("am force-stop "@ + PACKAGE_NAME@),
{
    let mut c = chars_of("am force-stop ");
    push_str(&mut c, PACKAGE_NAME);
    shell_chars(&c)
}

/// Opens Alemon's main screen.
pub fn launch_app() -> (r: AdbCommand)
    ensures
        r@ == shell_args(
            "monkey -p "@ + PACKAGE_NAME@ + " -c android.intent.category.LAUNCHER 1"@,
        ),
{
    let mut c = chars_of("monkey -p ");
    push_str(&mut c, PACKAGE_NAME);
    push_str(&mut c, " -c android.intent.category.LAUNCHER 1");
    shell_chars(&c)
}

/// The commands that remove a project's files from the phone: the pushed
/// project, then the rendered video when there is one.
pub open spec fn cleanup_commands(proj_filename: Seq<char>, video_path: Option<Seq<char>>) -> Seq<
    Seq<Seq<char>>,
> {
    let first = shell_args("rm -f '"@ + PHONE_DOWNLOAD_DIR@ + "/"@ + proj_filename + "'"@);
    match video_path {
        Some(v) => seq![first, shell_args("rm -f '"@ + v + "'"@)],
        None => seq![first],
    }
}

/// The views of a list of commands.
pub open spec fn commands_view(cmds: Seq<AdbCommand>) -> Seq<Seq<Seq<char>>> {
    cmds.map_values(|c: AdbCommand| c@)
}

/// Removes a project's files from the phone (see `cleanup_commands`).
pub fn cleanup_phone(proj_filename: &str, video_path: Option<&str>) -> (r: Vec<AdbCommand>)
    ensures
        commands_view(r@) == cleanup_commands(
            proj_filename@,
            match video_path {
                Some(v) => Some(v@),
                None => None,
            },
        ),
{
    let mut c = chars_of("rm -f '");
    push_str(&mut c, PHONE_DOWNLOAD_DIR);
    push_str(&mut c, "/");
    push_str(&mut c, proj_filename);
    push_str(&mut c, "'");
    let mut out: Vec<AdbCommand> = Vec::new();
    out.push(shell_chars(&c));
    match video_path {
        Some(v) => {
            let mut d = chars_of("rm -f '");
            push_str(&mut d, v);
            push_str(&mut d, "'");
            out.push(shell_chars(&d));
        },
        None => {},
    }
    proof {
        assert(commands_view(out@) =~= cleanup_commands(
            proj_filename@,
            match video_path {
                Some(v) => Some(v@),
                None => None,
            },
        ));
    }
    out
}

/// Dumps the current screen's UI tree and prints it.
pub fn dump_ui_xml() -> (r: AdbCommand)
    ensures
        r@ == shell_args(
            "uiautomator dump "@ + PHONE_UI_DUMP@ + " && cat "@ + PHONE_UI_DUMP@,
        ),
{
    let mut c = chars_of("uiautomator dump ");
    push_str(&mut c, PHONE_UI_DUMP);
    push_str(&mut c, " && cat ");
    push_str(&mut c, PHONE_UI_DUMP);
    shell_chars(&c)
}

/// Taps the screen at `(x, y)`.
pub fn tap(x: i32, y: i32) -> (r: AdbCommand)
    ensures
        r@ == shell_args(
            "input tap "@ + signed_decimal(x as int) + " "@ + signed_decimal(y as int),
        ),
{
    let mut c = chars_of("input tap ");
    let xs = fmt_i64(x as i64);
    push_all(&mut c, &xs);
    push_str(&mut c, " ");
    let ys = fmt_i64(y as i64);
    push_all(&mut c, &ys);
    shell_chars(&c)
}

/// Presses the device's back key (`KEYCODE_BACK`).
pub fn press_back() -> (r: AdbCommand)
    ensures
        r@ == shell_args("input keyevent 4"@),
{
    shell_cmd("input keyevent 4")
}

/// Keeps the screen on while the device is plugged in (`on`), or restores
/// the default policy.
pub fn keep_screen_on(on: bool) -> (r: AdbCommand)
    ensures
        r@ == shell_args(
            if on {
                "svc power stayon true"@
            } else {
                "svc power stayon false"@
            },
        ),
{
    if on {
        shell_cmd("svc power stayon true")
    } else {
        shell_cmd("svc power stayon false")
    }
}

/// Creates Alemon's video folder on the phone if it is missing.
pub fn make_video_dir() -> (r: AdbCommand)
    ensures
        r@ == shell_args("mkdir -p '"@ + PHONE_VIDEO_DIR@ + "'"@),
{
    let mut c = chars_of("mkdir -p '");
    push_str(&mut c, PHONE_VIDEO_DIR);
    push_str(&mut c, "'");
    shell_chars(&c)
}

} // verus!
