//! What the tool does on the phone's screen, decided from UI dumps: the steps
//! of the polling waits, the popup to close, and the walk through the system
//! file picker. Dumping, tapping, sleeping and reading the clock are left to
//! the caller, which hands each outcome back.

use vstd::prelude::*;
use crate::adb::{shell_args, shell_cmd, AdbCommand};
use crate::config::{popup_dismiss_texts, popup_dismiss_texts_spec, UI_POLL_INTERVAL_MS};
use crate::text::{chars_of, contains, contains_exec};
use crate::ui_parser::{
    content_desc_center, content_desc_fits, element_center, element_center_fits,
    element_center_fits_exec, find_element_by_content_desc,
};
pub use crate::ui_parser::{find_element_by_id, find_element_by_text};

verus! {

/// The text of a dump, where the dump succeeded.
pub open spec fn dump_view(dump: Option<&str>) -> Option<Seq<char>> {
    match dump {
        Some(x) => Some(x@),
        None => None,
    }
}

/// Centre of the element matched in a dump (`None` when the dump failed).
pub open spec fn dump_center(dump: Option<Seq<char>>, attr: Seq<char>, target: Seq<char>) -> Option<
    (int, int),
> {
    match dump {
        Some(x) => element_center(x, attr, target),
        None => None,
    }
}

/// The centre of the element matched in a dump is computed without overflow.
pub open spec fn dump_fits(dump: Option<Seq<char>>, attr: Seq<char>, target: Seq<char>) -> bool {
    match dump {
        Some(x) => element_center_fits(x, attr, target),
        None => true,
    }
}

// ---------------------------------------------------------------------------
// Polling waits
// ---------------------------------------------------------------------------

/// The attribute of a UI node that a wait matches against.
#[derive(Debug, Clone, Copy, PartialEq, Eq, Structural)]
pub enum Attr {
    /// The node's visible text.
    Text,
    /// The node's resource id.
    ResourceId,
}

/// The attribute's name in a dump.
pub open spec fn attr_name(a: Attr) -> Seq<char> {
    match a {
        Attr::Text => "text"@,
        Attr::ResourceId => "resource-id"@,
    }
}

fn attr_str(a: Attr) -> (r: &'static str)
    ensures
        r@ == attr_name(a),
{
    match a {
        Attr::Text => "text",
        Attr::ResourceId => "resource-id",
    }
}

/// What a wait looks for in each dump.
pub enum Probe {
    /// A node whose attribute value contains the text.
    Element(Attr, String),
    /// Either text anywhere in the dump.
    Mentions(String, String),
}

/// A probe as mathematical values.
pub enum ProbeView {
    Element(Attr, Seq<char>),
    Mentions(Seq<char>, Seq<char>),
}

impl View for Probe {
    type V = ProbeView;

    open spec fn view(&self) -> ProbeView {
        match self {
            Probe::Element(a, t) => ProbeView::Element(*a, t@),
            Probe::Mentions(a, b) => ProbeView::Mentions(a@, b@),
        }
    }
}

/// A polling wait: what it looks for, for how long, and what it does on the
/// way and once it is found.
pub struct WaitGoal {
    /// What to look for.
    pub probe: Probe,
    /// The timeout (seconds).
    pub timeout_secs: u64,
    /// Tap the element found.
    pub tap: bool,
    /// How many pixels above the element's centre the tap lands.
    pub lift: u16,
    /// Check the timeout before each look (else after a look finds nothing).
    pub clock_first: bool,
    /// Close popups before each look.
    pub dismiss_popups: bool,
}

/// A wait as mathematical values.
pub struct GoalView {
    pub probe: ProbeView,
    pub timeout_secs: int,
    pub tap: bool,
    pub lift: int,
    pub clock_first: bool,
    pub dismiss_popups: bool,
}

impl View for WaitGoal {
    type V = GoalView;

    open spec fn view(&self) -> GoalView {
        GoalView {
            probe: self.probe@,
            timeout_secs: self.timeout_secs as int,
            tap: self.tap,
            lift: self.lift as int,
            clock_first: self.clock_first,
            dismiss_popups: self.dismiss_popups,
        }
    }
}

/// The wait of `wait_and_tap_text` / `wait_and_tap_by_resource_id`: look,
/// tap the element once it shows, give up once the timeout has passed.
pub open spec fn tap_goal(attr: Attr, target: Seq<char>, timeout_secs: int) -> GoalView {
    GoalView {
        probe: ProbeView::Element(attr, target),
        timeout_secs,
        tap: true,
        lift: 0,
        clock_first: false,
        dismiss_popups: false,
    }
}

/// The wait of `wait_for_text_visible`: like `tap_goal` without the tap.
pub open spec fn visible_goal(target: Seq<char>, timeout_secs: int) -> GoalView {
    GoalView {
        probe: ProbeView::Element(Attr::Text, target),
        timeout_secs,
        tap: false,
        lift: 0,
        clock_first: false,
        dismiss_popups: false,
    }
}

/// The caption of the "save as" target in the share sheet.
pub const SAVE_AS_TEXT: &'static str = "另存为";

/// How far above the "save as" caption the tap lands: the caption sits below
/// its icon.
pub const SAVE_AS_LIFT: u16 = 100;

/// The wait of `tap_save_as_in_share_sheet`: the tap lands `SAVE_AS_LIFT`
/// pixels above the caption.
pub open spec fn save_as_goal(timeout_secs: int) -> GoalView {
    GoalView {
        probe: ProbeView::Element(Attr::Text, SAVE_AS_TEXT@),
        timeout_secs,
        tap: true,
        lift: SAVE_AS_LIFT as int,
        clock_first: false,
        dismiss_popups: false,
    }
}

/// A wait for an element by resource id that closes popups before each look
/// and checks the timeout first; it taps the element when `tap`.
pub open spec fn guarded_goal(target: Seq<char>, timeout_secs: int, tap: bool) -> GoalView {
    GoalView {
        probe: ProbeView::Element(Attr::ResourceId, target),
        timeout_secs,
        tap,
        lift: 0,
        clock_first: true,
        dismiss_popups: true,
    }
}

/// A wait until either text shows anywhere in the dump.
pub open spec fn mention_goal(a: Seq<char>, b: Seq<char>, timeout_secs: int) -> GoalView {
    GoalView {
        probe: ProbeView::Mentions(a, b),
        timeout_secs,
        tap: false,
        lift: 0,
        clock_first: false,
        dismiss_popups: false,
    }
}

/// Builds `tap_goal`.
pub fn tap_goal_exec(attr: Attr, target: &str, timeout_secs: u64) -> (r: WaitGoal)
    ensures
        r@ == tap_goal(attr, target@, timeout_secs as int),
{
    WaitGoal {
        probe: Probe::Element(attr, String::from_str(target)),
        timeout_secs,
        tap: true,
        lift: 0,
        clock_first: false,
        dismiss_popups: false,
    }
}

/// Builds `visible_goal`.
pub fn visible_goal_exec(target: &str, timeout_secs: u64) -> (r: WaitGoal)
    ensures
        r@ == visible_goal(target@, timeout_secs as int),
{
    WaitGoal {
        probe: Probe::Element(Attr::Text, String::from_str(target)),
        timeout_secs,
        tap: false,
        lift: 0,
        clock_first: false,
        dismiss_popups: false,
    }
}

/// Builds `save_as_goal`.
pub fn save_as_goal_exec(timeout_secs: u64) -> (r: WaitGoal)
    ensures
        r@ == save_as_goal(timeout_secs as int),
{
    WaitGoal {
        probe: Probe::Element(Attr::Text, String::from_str(SAVE_AS_TEXT)),
        timeout_secs,
        tap: true,
        lift: SAVE_AS_LIFT,
        clock_first: false,
        dismiss_popups: false,
    }
}

/// Builds `guarded_goal`.
pub fn guarded_goal_exec(target: &str, timeout_secs: u64, tap: bool) -> (r: WaitGoal)
    ensures
        r@ == guarded_goal(target@, timeout_secs as int, tap),
{
    WaitGoal {
        probe: Probe::Element(Attr::ResourceId, String::from_str(target)),
        timeout_secs,
        tap,
        lift: 0,
        clock_first: true,
        dismiss_popups: true,
    }
}

/// Builds `mention_goal`.
pub fn mention_goal_exec(a: &str, b: &str, timeout_secs: u64) -> (r: WaitGoal)
    ensures
        r@ == mention_goal(a@, b@, timeout_secs as int),
{
    WaitGoal {
        probe: Probe::Mentions(String::from_str(a), String::from_str(b)),
        timeout_secs,
        tap: false,
        lift: 0,
        clock_first: false,
        dismiss_popups: false,
    }
}

/// What a probe finds in a dump: `None` for nothing, `Some(Some(c))` for an
/// element centred at `c`, `Some(None)` for a mention.
pub open spec fn probe_hit(p: ProbeView, xml: Seq<char>) -> Option<Option<(int, int)>> {
    match p {
        ProbeView::Element(a, t) => match element_center(xml, attr_name(a), t) {
            Some(c) => Some(Some(c)),
            None => None,
        },
        ProbeView::Mentions(a, b) => if contains(xml, a) || contains(xml, b) {
            Some(None)
        } else {
            None
        },
    }
}

/// Looking for the probe in the dump computes no centre that overflows.
pub open spec fn probe_fits(p: ProbeView, dump: Option<Seq<char>>) -> bool {
    match p {
        ProbeView::Element(a, t) => dump_fits(dump, attr_name(a), t),
        ProbeView::Mentions(_, _) => true,
    }
}

/// Where a wait stands; each state names the action it waits on (see
/// `wait_action`).
#[derive(Debug, Clone, Copy, PartialEq, Eq, Structural)]
pub enum WaitState {
    /// Reading the clock before a look.
    Clock,
    /// Closing popups before a look.
    Popups,
    /// Waiting on a dump.
    Look,
    /// Reading the clock after a look that found nothing.
    LateClock,
    /// Tapping the element found.
    Tapping(i32, i32),
    /// Sleeping for the poll interval.
    Pause,
    /// The wait is over; whether it succeeded.
    Done(bool),
}

/// What the caller does next for a wait.
#[derive(Debug, Clone, Copy, PartialEq, Eq, Structural)]
pub enum WaitAction {
    /// Read the clock and report whether the timeout has run out.
    CheckClock,
    /// Close a popup if one shows (see `popup_to_dismiss`).
    DismissPopups,
    /// Dump the screen and report it.
    Dump,
    /// Tap at these coordinates.
    Tap(i32, i32),
    /// Sleep this many milliseconds.
    Sleep(u64),
    /// Stop: the wait is over with this outcome.
    Finish(bool),
}

/// The state in which a look starts.
pub open spec fn look_state(g: GoalView) -> WaitState {
    if g.dismiss_popups {
        WaitState::Popups
    } else {
        WaitState::Look
    }
}

/// The first state of a wait.
pub open spec fn wait_initial(g: GoalView) -> WaitState {
    if g.clock_first {
        WaitState::Clock
    } else {
        look_state(g)
    }
}

/// The state after the clock was read.
pub open spec fn wait_after_clock(g: GoalView, s: WaitState, past_deadline: bool) -> WaitState {
    match s {
        WaitState::Clock => if past_deadline {
            WaitState::Done(false)
        } else {
            look_state(g)
        },
        WaitState::LateClock => if past_deadline {
            WaitState::Done(false)
        } else {
            WaitState::Pause
        },
        _ => s,
    }
}

/// The state after a dump (`None` where the dump failed).
pub open spec fn wait_after_dump(g: GoalView, s: WaitState, dump: Option<Seq<char>>) -> WaitState {
    match s {
        WaitState::Look => {
            let hit = match dump {
                Some(x) => probe_hit(g.probe, x),
                None => None,
            };
            match hit {
                Some(Some(c)) => if g.tap {
                    WaitState::Tapping(c.0 as i32, (c.1 - g.lift) as i32)
                } else {
                    WaitState::Done(true)
                },
                Some(None) => WaitState::Done(true),
                None => if g.clock_first {
                    WaitState::Pause
                } else {
                    WaitState::LateClock
                },
            }
        },
        _ => s,
    }
}

/// The state after a popup check, tap or sleep.
pub open spec fn wait_after_done(g: GoalView, s: WaitState) -> WaitState {
    match s {
        WaitState::Popups => WaitState::Look,
        WaitState::Tapping(_, _) => WaitState::Done(true),
        WaitState::Pause => if g.clock_first {
            WaitState::Clock
        } else {
            look_state(g)
        },
        _ => s,
    }
}

/// The first state of the wait `g`.
pub fn wait_start(g: &WaitGoal) -> (r: WaitState)
    ensures
        r == wait_initial(g@),
{
    if g.clock_first {
        WaitState::Clock
    } else if g.dismiss_popups {
        WaitState::Popups
    } else {
        WaitState::Look
    }
}

/// The action that state `s` waits on.
pub fn wait_action(s: WaitState) -> (r: WaitAction)
    ensures
        r == match s {
            WaitState::Clock => WaitAction::CheckClock,
            WaitState::LateClock => WaitAction::CheckClock,
            WaitState::Popups => WaitAction::DismissPopups,
            WaitState::Look => WaitAction::Dump,
            WaitState::Tapping(x, y) => WaitAction::Tap(x, y),
            WaitState::Pause => WaitAction::Sleep(UI_POLL_INTERVAL_MS),
            WaitState::Done(ok) => WaitAction::Finish(ok),
        },
{
    match s {
        WaitState::Clock => WaitAction::CheckClock,
        WaitState::LateClock => WaitAction::CheckClock,
        WaitState::Popups => WaitAction::DismissPopups,
        WaitState::Look => WaitAction::Dump,
        WaitState::Tapping(x, y) => WaitAction::Tap(x, y),
        WaitState::Pause => WaitAction::Sleep(UI_POLL_INTERVAL_MS),
        WaitState::Done(ok) => WaitAction::Finish(ok),
    }
}

/// The next state once the clock has been read.
pub fn wait_on_clock(g: &WaitGoal, s: WaitState, past_deadline: bool) -> (r: WaitState)
    ensures
        r == wait_after_clock(g@, s, past_deadline),
{
    match s {
        WaitState::Clock => if past_deadline {
            WaitState::Done(false)
        } else if g.dismiss_popups {
            WaitState::Popups
        } else {
            WaitState::Look
        },
        WaitState::LateClock => if past_deadline {
            WaitState::Done(false)
        } else {
            WaitState::Pause
        },
        _ => s,
    }
}

/// Whether `dump` may be handed to `wait_on_dump` for the wait `g`.
pub fn probe_fits_exec(g: &WaitGoal, dump: Option<&str>) -> (r: bool)
    ensures
        r == probe_fits(g@.probe, dump_view(dump)),
{
    match &g.probe {
        Probe::Element(a, t) => match dump {
            Some(x) => element_center_fits_exec(x, attr_str(*a), t.as_str()),
            None => true,
        },
        Probe::Mentions(_, _) => true,
    }
}

/// The next state once the screen has been dumped (`None` where the dump
/// failed).
pub fn wait_on_dump(g: &WaitGoal, s: WaitState, dump: Option<&str>) -> (r: WaitState)
    requires
        probe_fits(g@.probe, dump_view(dump)),
    ensures
        r == wait_after_dump(g@, s, dump_view(dump)),
{
    match s {
        WaitState::Look => {
            let miss = if g.clock_first {
                WaitState::Pause
            } else {
                WaitState::LateClock
            };
            let x = match dump {
                Some(x) => x,
                None => {
                    return miss;
                },
            };
            match &g.probe {
                Probe::Element(a, t) => {
                    let found = if *a == Attr::Text {
                        find_element_by_text(x, t.as_str())
                    } else {
                        find_element_by_id(x, t.as_str())
                    };
                    match found {
                        Some((cx, cy)) => if g.tap {
                            WaitState::Tapping(cx, cy - g.lift as i32)
                        } else {
                            WaitState::Done(true)
                        },
                        None => miss,
                    }
                },
                Probe::Mentions(a, b) => {
                    let c = chars_of(x);
                    if contains_exec(&c, &chars_of(a.as_str())) || contains_exec(
                        &c,
                        &chars_of(b.as_str()),
                    ) {
                        WaitState::Done(true)
                    } else {
                        miss
                    }
                },
            }
        },
        _ => s,
    }
}

/// `wait_on_dump` where the centres it looks up fit in an `i32`; `None`
/// (and nothing decided) where computing one would overflow.
pub fn wait_on_dump_checked(g: &WaitGoal, s: WaitState, dump: Option<&str>) -> (r: Option<WaitState>)
    ensures
        match r {
            Some(next) => probe_fits(g@.probe, dump_view(dump)) && next == wait_after_dump(
                g@,
                s,
                dump_view(dump),
            ),
            None => !probe_fits(g@.probe, dump_view(dump)),
        },
{
    if probe_fits_exec(g, dump) {
        Some(wait_on_dump(g, s, dump))
    } else {
        None
    }
}

/// The next state once a popup check, tap or sleep is over.
pub fn wait_on_done(g: &WaitGoal, s: WaitState) -> (r: WaitState)
    ensures
        r == wait_after_done(g@, s),
{
    match s {
        WaitState::Popups => WaitState::Look,
        WaitState::Tapping(_, _) => WaitState::Done(true),
        WaitState::Pause => if g.clock_first {
            WaitState::Clock
        } else if g.dismiss_popups {
            WaitState::Popups
        } else {
            WaitState::Look
        },
        _ => s,
    }
}

/// A wait succeeds only through a look that found its probe: a tap follows
/// only a found element, and a tapping wait taps before it succeeds.
pub proof fn law_wait_success_needs_hit(g: GoalView, s: WaitState, past_deadline: bool, dump: Option<
    Seq<char>,
>)
    requires
        !(s is Done),
    ensures
        wait_after_clock(g, s, past_deadline) != WaitState::Done(true),
        wait_after_done(g, s) == WaitState::Done(true) ==> s is Tapping,
        wait_after_dump(g, s, dump) == WaitState::Done(true) ==> s == WaitState::Look && (match dump {
            Some(x) => probe_hit(g.probe, x) is Some,
            None => false,
        }) && (g.tap ==> !(probe_hit(g.probe, dump->0) matches Some(Some(_)))),
        s == WaitState::Look ==> (wait_after_dump(g, s, dump) matches WaitState::Tapping(x, y) ==> g.tap
            && (match dump {
            Some(d) => probe_hit(g.probe, d) matches Some(Some(c)) && x == (c.0 as i32) && y == ((
            c.1 - g.lift) as i32),
            None => false,
        })),
{
}

/// A wait fails only on reading the clock after its timeout has run out.
pub proof fn law_wait_failure_needs_timeout(g: GoalView, s: WaitState, past_deadline: bool, dump: Option<
    Seq<char>,
>)
    requires
        !(s is Done),
    ensures
        wait_after_clock(g, s, past_deadline) == WaitState::Done(false) ==> past_deadline,
        wait_after_dump(g, s, dump) != WaitState::Done(false),
        wait_after_done(g, s) != WaitState::Done(false),
{
}

/// A finished wait stays finished, whatever is reported.
pub proof fn law_wait_finished_is_final(g: GoalView, ok: bool, past_deadline: bool, dump: Option<
    Seq<char>,
>)
    ensures
        wait_after_clock(g, WaitState::Done(ok), past_deadline) == WaitState::Done(ok),
        wait_after_dump(g, WaitState::Done(ok), dump) == WaitState::Done(ok),
        wait_after_done(g, WaitState::Done(ok)) == WaitState::Done(ok),
{
}

// ---------------------------------------------------------------------------
// Popups
// ---------------------------------------------------------------------------

/// The first popup text, from index `i` on, that names an element in `xml`,
/// with that element's centre.
pub open spec fn first_popup(xml: Seq<char>, i: int) -> Option<(int, (int, int))>
    decreases popup_dismiss_texts_spec().len() - i,
{
    if i < 0 || i >= popup_dismiss_texts_spec().len() {
        None
    } else {
        match element_center(xml, "text"@, popup_dismiss_texts_spec()[i]) {
            Some(c) => Some((i, c)),
            None => first_popup(xml, i + 1),
        }
    }
}

/// Every popup text looked up in `xml`, from index `i` until one is found,
/// has its centre computed without overflow.
pub open spec fn popups_fit(xml: Seq<char>, i: int) -> bool
    decreases popup_dismiss_texts_spec().len() - i,
{
    if i < 0 || i >= popup_dismiss_texts_spec().len() {
        true
    } else {
        element_center_fits(xml, "text"@, popup_dismiss_texts_spec()[i]) && (element_center(
            xml,
            "text"@,
            popup_dismiss_texts_spec()[i],
        ) is None ==> popups_fit(xml, i + 1))
    }
}

/// The popup button to tap in `xml`: the index of the first popup text that
/// is on screen, and its centre.
pub fn popup_to_dismiss(xml: &str) -> (r: Option<(usize, i32, i32)>)
    requires
        popups_fit(xml@, 0),
    ensures
        match r {
            Some((i, x, y)) => first_popup(xml@, 0) == Some((i as int, (x as int, y as int))),
            None => first_popup(xml@, 0) is None,
        },
{
    let texts = popup_dismiss_texts();
    let mut i: usize = 0;
    while i < texts.len()
        invariant
            0 <= i <= texts@.len(),
            texts@.len() == popup_dismiss_texts_spec().len(),
            forall|k: int| 0 <= k < texts@.len() ==> #[trigger] texts@[k]@
                == popup_dismiss_texts_spec()[k],
            popups_fit(xml@, i as int),
            first_popup(xml@, 0) == first_popup(xml@, i as int),
        decreases texts@.len() - i,
    {
        let t = texts[i];
        match find_element_by_text(xml, t) {
            Some((x, y)) => {
                return Some((i, x, y));
            },
            None => {},
        }
        i += 1;
    }
    None
}

/// Whether `xml` may be handed to `popup_to_dismiss`.
pub fn popups_fit_exec(xml: &str) -> (r: bool)
    ensures
        r == popups_fit(xml@, 0),
{
    let texts = popup_dismiss_texts();
    let mut i: usize = texts.len();
    let mut ok = true;
    while i > 0
        invariant
            0 <= i <= texts@.len(),
            texts@.len() == popup_dismiss_texts_spec().len(),
            forall|k: int| 0 <= k < texts@.len() ==> #[trigger] texts@[k]@
                == popup_dismiss_texts_spec()[k],
            ok == popups_fit(xml@, i as int),
        decreases i,
    {
        i -= 1;
        let t = texts[i];
        let fits = element_center_fits_exec(xml, "text", t);
        let found = if fits {
            match find_element_by_text(xml, t) {
                Some(_) => true,
                None => false,
            }
        } else {
            false
        };
        ok = fits && (found || ok);
    }
    ok
}

/// `popup_to_dismiss` where the centres it looks up fit in an `i32`; `None`
/// where computing one would overflow.
pub fn popup_to_dismiss_checked(xml: &str) -> (r: Option<Option<(usize, i32, i32)>>)
    ensures
        match r {
            Some(Some((i, x, y))) => popups_fit(xml@, 0) && first_popup(xml@, 0) == Some(
                (i as int, (x as int, y as int)),
            ),
            Some(None) => popups_fit(xml@, 0) && first_popup(xml@, 0) is None,
            None => !popups_fit(xml@, 0),
        },
{
    if popups_fit_exec(xml) {
        Some(popup_to_dismiss(xml))
    } else {
        None
    }
}

proof fn lemma_first_popup_from(xml: Seq<char>, i: int)
    requires
        0 <= i,
    ensures
        first_popup(xml, i) matches Some((k, c)) ==> {
            &&& i <= k < popup_dismiss_texts_spec().len()
            &&& element_center(xml, "text"@, popup_dismiss_texts_spec()[k]) == Some(c)
            &&& forall|j: int|
                i <= j < k ==> (#[trigger] element_center(xml, "text"@, popup_dismiss_texts_spec()[j]))
                    is None
        },
    decreases popup_dismiss_texts_spec().len() - i,
{
    if i < popup_dismiss_texts_spec().len() {
        lemma_first_popup_from(xml, i + 1);
        let here = element_center(xml, "text"@, popup_dismiss_texts_spec()[i]);
        if here is None {
            assert(first_popup(xml, i) == first_popup(xml, i + 1));
        } else {
            assert(first_popup(xml, i) == Some((i, here->0)));
        }
    }
}

/// The popup button that is tapped is that of the first text of the
/// configured list that is on screen: no earlier text of the list is.
pub proof fn law_first_listed_popup_wins(xml: Seq<char>, k: int, c: (int, int))
    requires
        first_popup(xml, 0) == Some((k, c)),
    ensures
        0 <= k < popup_dismiss_texts_spec().len(),
        element_center(xml, "text"@, popup_dismiss_texts_spec()[k]) == Some(c),
        forall|j: int|
            0 <= j < k ==> (#[trigger] element_center(xml, "text"@, popup_dismiss_texts_spec()[j]))
                is None,
{
    lemma_first_popup_from(xml, 0);
}

// ---------------------------------------------------------------------------
// Saving through the system file picker
// ---------------------------------------------------------------------------

/// Package of the phone's file manager, whose picker is the one expected.
pub const FILE_MANAGER_PACKAGE: &'static str = "com.huawei.filemanager";

/// Resource name of the picker's path selector.
pub const PATH_SELECTOR_ID: &'static str = "pick_path_selector";

/// The `content-desc` of the picker's confirm button.
pub const PICKER_DONE_DESC: &'static str = "完成";

/// The folder the picker saves into.
pub const DOWNLOAD_FOLDER_TEXT: &'static str = "Download";

/// Marker the picker puts on the selected folder.
pub const SELECTED_MARK: &'static str = "已选中";

/// The shell command that scrolls the picker's folder list.
pub const SCROLL_COMMAND: &'static str = "input swipe 630 2000 630 1000 500";

/// How many times the folder list is searched (and scrolled) for the folder.
pub const SEEK_ATTEMPTS: u32 = 10;

/// Pause once the picker has appeared (milliseconds).
pub const PICKER_SETTLE_MS: u64 = 500;

/// Pause after tapping the folder (milliseconds).
pub const FOLDER_TAP_PAUSE_MS: u64 = 1000;

/// Pause after each scroll (milliseconds).
pub const SCROLL_PAUSE_MS: u64 = 500;

/// Pause after tapping the confirm button (milliseconds).
pub const DONE_TAP_PAUSE_MS: u64 = 2000;

/// The picker is on screen: the file manager's package, its confirm button or
/// its path selector shows in the dump.
pub open spec fn picker_seen(xml: Seq<char>) -> bool {
    ||| contains(xml, FILE_MANAGER_PACKAGE@)
    ||| content_desc_center(xml, PICKER_DONE_DESC@) is Some
    ||| contains(xml, PATH_SELECTOR_ID@)
}

/// Looking for the picker's confirm button (done only when the package name
/// is absent) computes its centre without overflow.
pub open spec fn picker_fits(xml: Seq<char>) -> bool {
    !contains(xml, FILE_MANAGER_PACKAGE@) ==> content_desc_fits(xml, PICKER_DONE_DESC@)
}

/// The download folder is already selected in the picker.
pub open spec fn download_selected(xml: Seq<char>) -> bool {
    contains(xml, DOWNLOAD_FOLDER_TEXT@) && contains(xml, SELECTED_MARK@)
}

/// Whether the picker shows in `xml`.
pub fn picker_seen_exec(xml: &str) -> (r: bool)
    requires
        picker_fits(xml@),
    ensures
        r == picker_seen(xml@),
{
    let s = chars_of(xml);
    if contains_exec(&s, &chars_of(FILE_MANAGER_PACKAGE)) {
        return true;
    }
    match find_element_by_content_desc(xml, PICKER_DONE_DESC) {
        Some(_) => {
            return true;
        },
        None => {},
    }
    contains_exec(&s, &chars_of(PATH_SELECTOR_ID))
}

/// Whether the download folder is already selected in `xml`.
pub fn download_selected_exec(xml: &str) -> (r: bool)
    ensures
        r == download_selected(xml@),
{
    let s = chars_of(xml);
    contains_exec(&s, &chars_of(DOWNLOAD_FOLDER_TEXT)) && contains_exec(
        &s,
        &chars_of(SELECTED_MARK),
    )
}

/// Where the walk through the file picker stands; each state names the
/// action it waits on (see `saf_action`).
#[derive(Debug, Clone, Copy, PartialEq, Eq, Structural)]
pub enum SafState {
    /// About to read the clock: give up if the timeout has run out.
    AwaitPicker,
    /// Waiting on a dump to see whether the picker is up.
    LookForPicker,
    /// Sleeping for the poll interval before looking again.
    PickerPause,
    /// Letting the picker settle.
    Settle,
    /// Waiting on a dump to see whether the folder is already selected.
    CheckSelection,
    /// Waiting on a dump to find the folder, in the given attempt.
    SeekDownload(u32),
    /// Tapping the folder.
    TapDownload(i32, i32),
    /// Pausing after the folder tap.
    AfterDownloadTap,
    /// Scrolling the folder list after the given attempt.
    Swipe(u32),
    /// Pausing after the scroll of the given attempt.
    SwipePause(u32),
    /// Waiting on a dump to find the confirm button.
    Confirm,
    /// Tapping the confirm button.
    TapDone(i32, i32),
    /// Pausing after the confirm tap.
    AfterDoneTap,
    /// The walk is over; whether the file was saved.
    Finished(bool),
}

/// What the caller does next for the file picker walk.
pub enum SafAction {
    /// Read the clock and report whether the timeout has run out.
    CheckClock,
    /// Dump the screen and report it.
    Dump,
    /// Sleep this many milliseconds.
    Sleep(u64),
    /// Tap at these coordinates.
    Tap(i32, i32),
    /// Run this adb command.
    Run(AdbCommand),
    /// Stop: the walk is over with this outcome.
    Finish(bool),
}

/// The attempt counters stay below `SEEK_ATTEMPTS`.
pub open spec fn saf_wf(s: SafState) -> bool {
    match s {
        SafState::SeekDownload(a) => a < SEEK_ATTEMPTS,
        SafState::Swipe(a) => a < SEEK_ATTEMPTS,
        SafState::SwipePause(a) => a < SEEK_ATTEMPTS,
        _ => true,
    }
}

/// The state after the clock was read.
pub open spec fn saf_after_clock(s: SafState, past_deadline: bool) -> SafState {
    match s {
        SafState::AwaitPicker => if past_deadline {
            SafState::Finished(false)
        } else {
            SafState::LookForPicker
        },
        _ => s,
    }
}

/// The state after a dump (`None` where the dump failed).
pub open spec fn saf_after_dump(s: SafState, dump: Option<Seq<char>>) -> SafState {
    match s {
        SafState::LookForPicker => match dump {
            Some(x) => if picker_seen(x) {
                SafState::Settle
            } else {
                SafState::PickerPause
            },
            None => SafState::PickerPause,
        },
        SafState::CheckSelection => match dump {
            Some(x) => if download_selected(x) {
                SafState::Confirm
            } else {
                SafState::SeekDownload(0)
            },
            None => SafState::Confirm,
        },
        SafState::SeekDownload(a) => match dump_center(dump, "text"@, DOWNLOAD_FOLDER_TEXT@) {
            Some(c) => SafState::TapDownload(c.0 as i32, c.1 as i32),
            None => SafState::Swipe(a),
        },
        SafState::Confirm => match dump {
            Some(x) => match content_desc_center(x, PICKER_DONE_DESC@) {
                Some(c) => SafState::TapDone(c.0 as i32, c.1 as i32),
                None => SafState::Finished(false),
            },
            None => SafState::Finished(false),
        },
        _ => s,
    }
}

/// The state after a sleep, tap or command has been carried out.
pub open spec fn saf_after_done(s: SafState) -> SafState {
    match s {
        SafState::PickerPause => SafState::AwaitPicker,
        SafState::Settle => SafState::CheckSelection,
        SafState::TapDownload(_, _) => SafState::AfterDownloadTap,
        SafState::AfterDownloadTap => SafState::Confirm,
        SafState::Swipe(a) => SafState::SwipePause(a),
        SafState::SwipePause(a) => if a + 1 < SEEK_ATTEMPTS {
            SafState::SeekDownload((a + 1) as u32)
        } else {
            SafState::Confirm
        },
        SafState::TapDone(_, _) => SafState::AfterDoneTap,
        SafState::AfterDoneTap => SafState::Finished(true),
        _ => s,
    }
}

/// The centres looked up in a dump handed to `saf_on_dump` are computed
/// without overflow.
pub open spec fn saf_dump_fits(s: SafState, dump: Option<Seq<char>>) -> bool {
    match s {
        SafState::LookForPicker => dump matches Some(x) ==> picker_fits(x),
        SafState::SeekDownload(_) => dump_fits(dump, "text"@, DOWNLOAD_FOLDER_TEXT@),
        SafState::Confirm => dump matches Some(x) ==> content_desc_fits(x, PICKER_DONE_DESC@),
        _ => true,
    }
}

/// The action that state `s` waits on.
pub fn saf_action(s: SafState) -> (r: SafAction)
    ensures
        match s {
            SafState::AwaitPicker => r is CheckClock,
            SafState::LookForPicker => r is Dump,
            SafState::CheckSelection => r is Dump,
            SafState::SeekDownload(_) => r is Dump,
            SafState::Confirm => r is Dump,
            SafState::PickerPause => r == SafAction::Sleep(UI_POLL_INTERVAL_MS),
            SafState::Settle => r == SafAction::Sleep(PICKER_SETTLE_MS),
            SafState::AfterDownloadTap => r == SafAction::Sleep(FOLDER_TAP_PAUSE_MS),
            SafState::SwipePause(_) => r == SafAction::Sleep(SCROLL_PAUSE_MS),
            SafState::AfterDoneTap => r == SafAction::Sleep(DONE_TAP_PAUSE_MS),
            SafState::TapDownload(x, y) => r == SafAction::Tap(x, y),
            SafState::TapDone(x, y) => r == SafAction::Tap(x, y),
            SafState::Swipe(_) => r matches SafAction::Run(c) && c@ == shell_args(SCROLL_COMMAND@),
            SafState::Finished(saved) => r == SafAction::Finish(saved),
        },
{
    match s {
        SafState::AwaitPicker => SafAction::CheckClock,
        SafState::LookForPicker => SafAction::Dump,
        SafState::CheckSelection => SafAction::Dump,
        SafState::SeekDownload(_) => SafAction::Dump,
        SafState::Confirm => SafAction::Dump,
        SafState::PickerPause => SafAction::Sleep(UI_POLL_INTERVAL_MS),
        SafState::Settle => SafAction::Sleep(PICKER_SETTLE_MS),
        SafState::AfterDownloadTap => SafAction::Sleep(FOLDER_TAP_PAUSE_MS),
        SafState::SwipePause(_) => SafAction::Sleep(SCROLL_PAUSE_MS),
        SafState::AfterDoneTap => SafAction::Sleep(DONE_TAP_PAUSE_MS),
        SafState::TapDownload(x, y) => SafAction::Tap(x, y),
        SafState::TapDone(x, y) => SafAction::Tap(x, y),
        SafState::Swipe(_) => SafAction::Run(shell_cmd(SCROLL_COMMAND)),
        SafState::Finished(saved) => SafAction::Finish(saved),
    }
}

/// The next state once the clock has been read.
pub fn saf_on_clock(s: SafState, past_deadline: bool) -> (r: SafState)
    ensures
        r == saf_after_clock(s, past_deadline),
{
    match s {
        SafState::AwaitPicker => if past_deadline {
            SafState::Finished(false)
        } else {
            SafState::LookForPicker
        },
        _ => s,
    }
}

/// Whether `dump` may be handed to `saf_on_dump` in state `s`.
pub fn saf_dump_fits_exec(s: SafState, dump: Option<&str>) -> (r: bool)
    ensures
        r == saf_dump_fits(s, dump_view(dump)),
{
    match s {
        SafState::LookForPicker => match dump {
            Some(x) => {
                let t = chars_of(x);
                contains_exec(&t, &chars_of(FILE_MANAGER_PACKAGE))
                    || crate::ui_parser::find_element_by_content_desc_checked(
                    x,
                    PICKER_DONE_DESC,
                ).is_some()
            },
            None => true,
        },
        SafState::SeekDownload(_) => match dump {
            Some(x) => crate::ui_parser::element_center_fits_exec(x, "text", DOWNLOAD_FOLDER_TEXT),
            None => true,
        },
        SafState::Confirm => match dump {
            Some(x) => crate::ui_parser::find_element_by_content_desc_checked(
                x,
                PICKER_DONE_DESC,
            ).is_some(),
            None => true,
        },
        _ => true,
    }
}

/// The next state once the screen has been dumped (`None` where the dump
/// failed).
pub fn saf_on_dump(s: SafState, dump: Option<&str>) -> (r: SafState)
    requires
        saf_dump_fits(s, dump_view(dump)),
    ensures
        r == saf_after_dump(s, dump_view(dump)),
{
    match s {
        SafState::LookForPicker => match dump {
            Some(x) => if picker_seen_exec(x) {
                SafState::Settle
            } else {
                SafState::PickerPause
            },
            None => SafState::PickerPause,
        },
        SafState::CheckSelection => match dump {
            Some(x) => if download_selected_exec(x) {
                SafState::Confirm
            } else {
                SafState::SeekDownload(0)
            },
            None => SafState::Confirm,
        },
        SafState::SeekDownload(a) => {
            let found = match dump {
                Some(x) => find_element_by_text(x, DOWNLOAD_FOLDER_TEXT),
                None => None,
            };
            match found {
                Some((x, y)) => SafState::TapDownload(x, y),
                None => SafState::Swipe(a),
            }
        },
        SafState::Confirm => {
            let found = match dump {
                Some(x) => find_element_by_content_desc(x, PICKER_DONE_DESC),
                None => None,
            };
            match found {
                Some((x, y)) => SafState::TapDone(x, y),
                None => SafState::Finished(false),
            }
        },
        _ => s,
    }
}

/// Whether `s` keeps its attempt counter in range (`saf_wf`).
pub fn saf_wf_exec(s: SafState) -> (r: bool)
    ensures
        r == saf_wf(s),
{
    match s {
        SafState::SeekDownload(a) => a < SEEK_ATTEMPTS,
        SafState::Swipe(a) => a < SEEK_ATTEMPTS,
        SafState::SwipePause(a) => a < SEEK_ATTEMPTS,
        _ => true,
    }
}

/// `saf_on_dump` where the centres it looks up fit in an `i32`; `None` (and
/// nothing decided) where computing one would overflow.
pub fn saf_on_dump_checked(s: SafState, dump: Option<&str>) -> (r: Option<SafState>)
    ensures
        match r {
            Some(next) => saf_dump_fits(s, dump_view(dump)) && next == saf_after_dump(
                s,
                dump_view(dump),
            ),
            None => !saf_dump_fits(s, dump_view(dump)),
        },
{
    if saf_dump_fits_exec(s, dump) {
        Some(saf_on_dump(s, dump))
    } else {
        None
    }
}

/// The next state once a sleep, tap or command has been carried out.
pub fn saf_on_done(s: SafState) -> (r: SafState)
    requires
        saf_wf(s),
    ensures
        r == saf_after_done(s),
{
    match s {
        SafState::PickerPause => SafState::AwaitPicker,
        SafState::Settle => SafState::CheckSelection,
        SafState::TapDownload(_, _) => SafState::AfterDownloadTap,
        SafState::AfterDownloadTap => SafState::Confirm,
        SafState::Swipe(a) => SafState::SwipePause(a),
        SafState::SwipePause(a) => if a + 1 < SEEK_ATTEMPTS {
            SafState::SeekDownload(a + 1)
        } else {
            SafState::Confirm
        },
        SafState::TapDone(_, _) => SafState::AfterDoneTap,
        SafState::AfterDoneTap => SafState::Finished(true),
        _ => s,
    }
}

/// Every step keeps the attempt counters below `SEEK_ATTEMPTS`, so the folder
/// list is searched at most `SEEK_ATTEMPTS` times.
pub proof fn law_saf_attempts_bounded(s: SafState, past_deadline: bool, dump: Option<Seq<char>>)
    requires
        saf_wf(s),
    ensures
        saf_wf(saf_after_clock(s, past_deadline)),
        saf_wf(saf_after_dump(s, dump)),
        saf_wf(saf_after_done(s)),
{
}

/// The walk reports the file saved only right after the pause that follows
/// the tap on the confirm button.
pub proof fn law_saf_saved_only_after_confirm(s: SafState, past_deadline: bool, dump: Option<
    Seq<char>,
>)
    requires
        s != SafState::Finished(true),
    ensures
        saf_after_clock(s, past_deadline) != SafState::Finished(true),
        saf_after_dump(s, dump) != SafState::Finished(true),
        saf_after_done(s) == SafState::Finished(true) ==> s == SafState::AfterDoneTap,
{
}

/// The walk fails only when the timeout runs out before the picker shows, or
/// when the confirm button cannot be found.
pub proof fn law_saf_failure_causes(s: SafState, past_deadline: bool, dump: Option<Seq<char>>)
    requires
        s != SafState::Finished(false),
    ensures
        saf_after_clock(s, past_deadline) == SafState::Finished(false) ==> s == SafState::AwaitPicker
            && past_deadline,
        saf_after_dump(s, dump) == SafState::Finished(false) ==> s == SafState::Confirm && match dump {
            Some(x) => content_desc_center(x, PICKER_DONE_DESC@) is None,
            None => true,
        },
        saf_after_done(s) != SafState::Finished(false),
{
}

/// A finished walk stays finished, whatever is reported.
pub proof fn law_saf_finished_is_final(saved: bool, past_deadline: bool, dump: Option<Seq<char>>)
    ensures
        saf_after_clock(SafState::Finished(saved), past_deadline) == SafState::Finished(saved),
        saf_after_dump(SafState::Finished(saved), dump) == SafState::Finished(saved),
        saf_after_done(SafState::Finished(saved)) == SafState::Finished(saved),
{
}

} // verus!
