//! Global configuration: the Alemon package, device paths, UI texts and the
//! timing of the render monitor and UI polling.

use vstd::prelude::*;

verus! {

/// Alemon's package name.
pub const PACKAGE_NAME: &'static str = "com.taffy.alemon";

/// Download directory on the phone.
pub const PHONE_DOWNLOAD_DIR: &'static str = "/sdcard/Download";

/// Directory where Alemon writes rendered videos.
pub const PHONE_VIDEO_DIR: &'static str = "/sdcard/Movies/Alemon";

/// Where the UI dump is written on the phone.
pub const PHONE_UI_DUMP: &'static str = "/sdcard/window_dump.xml";

/// Local input directory.
pub const LOCAL_INPUT_DIR: &'static str = "./input_projects";

/// Local output directory.
pub const LOCAL_OUTPUT_DIR: &'static str = "./output_videos";

/// Text of the export button.
pub const UI_TEXT_EXPORT: &'static str = "导出";

/// Text of the export confirmation button.
pub const UI_TEXT_CONFIRM: &'static str = "确认";

/// Text of the save button.
pub const UI_TEXT_SAVE: &'static str = "保存";

/// Text of the skip button of popups and ads.
pub const UI_TEXT_DISMISS_AD: &'static str = "跳过";

/// Render monitor polling interval (seconds).
pub const POLL_INTERVAL_SECS: u64 = 3;

/// How long the video size must stay unchanged to count as finished (seconds).
pub const STABLE_THRESHOLD_SECS: u64 = 15;

/// Longest wait for one project's render (seconds).
pub const MAX_RENDER_WAIT_SECS: u64 = 1800;

/// UI polling interval (milliseconds).
pub const UI_POLL_INTERVAL_MS: u64 = 500;

/// Timeout when waiting for a UI element (seconds).
pub const UI_WAIT_TIMEOUT_SECS: u64 = 10;

/// Pause between UI steps (milliseconds).
pub const UI_STEP_DELAY_MS: u64 = 500;

/// Number of attempts a retrying UI search may make. The waits of `ui` are
/// bounded by their timeouts instead, so nothing in this crate reads it.
pub const UI_RETRY_COUNT: u32 = 10;

/// The texts of popup buttons that are tapped to close the popup, in the
/// order they are tried.
pub open spec fn popup_dismiss_texts_spec() -> Seq<Seq<char>> {
    seq!["仍要导出"@, "跳过"@, "稍后"@, "不了"@, "跳过广告"@, "确定"@, "确认"@, "好"@]
}

/// The popup texts, in order.
pub fn popup_dismiss_texts() -> (r: Vec<&'static str>)
    ensures
        r@.len() == popup_dismiss_texts_spec().len(),
        forall|i: int| 0 <= i < r@.len() ==> #[trigger] r@[i]@ == popup_dismiss_texts_spec()[i],
{
    let v = vec!["仍要导出", "跳过", "稍后", "不了", "跳过广告", "确定", "确认", "好"];
    proof {
        assert(v@.len() == 8);
    }
    v
}

} // verus!
