//! What a global hotkey thread does: which bindings to register with Windows when the
//! settings change, and what to do with each message that arrives.

use crate::hotkeys;
use crate::hotkeys::{HotkeyError, HotkeySpec, Modifier};
use crate::text;
use vstd::prelude::*;

verus! {

/// Win32 `MOD_ALT`.
pub const MOD_ALT: u32 = 0x1;

/// Win32 `MOD_CONTROL`.
pub const MOD_CONTROL: u32 = 0x2;

/// Win32 `MOD_SHIFT`.
pub const MOD_SHIFT: u32 = 0x4;

/// Win32 `MOD_WIN`.
pub const MOD_WIN: u32 = 0x8;

/// Win32 `MOD_NOREPEAT`.
pub const MOD_NOREPEAT: u32 = 0x4000;

/// The identifier under which the screenshot hotkey is registered.
pub const ID_SCREENSHOT: i32 = 1;

/// The identifier under which the recording hotkey is registered.
pub const ID_RECORDING: i32 = 2;

/// Presses that follow one that was acted on by less than this are ignored.
pub const DEBOUNCE_NANOS: u64 = 300_000_000;

/// What a hotkey press asks for.
#[derive(Debug, Clone, Copy, PartialEq, Eq, Structural)]
pub enum HotkeyAction {
    Screenshot,
    ToggleRecording,
}

/// The Windows modifier flags of a list of modifiers, each counted once.
pub open spec fn modifier_flags(modifiers: Seq<Modifier>) -> int {
    (if modifiers.contains(Modifier::Ctrl) { MOD_CONTROL as int } else { 0 }) + (if modifiers.contains(
        Modifier::Alt,
    ) { MOD_ALT as int } else { 0 }) + (if modifiers.contains(Modifier::Shift) {
        MOD_SHIFT as int
    } else { 0 }) + (if modifiers.contains(Modifier::Win) { MOD_WIN as int } else { 0 })
}

/// The Windows virtual-key code of a key name.
pub open spec fn virtual_key(name: Seq<char>) -> Option<u32> {
    if name == "F1"@ {
        Some(0x70)
    } else if name == "F2"@ {
        Some(0x71)
    } else if name == "F3"@ {
        Some(0x72)
    } else if name == "F4"@ {
        Some(0x73)
    } else if name == "F5"@ {
        Some(0x74)
    } else if name == "F6"@ {
        Some(0x75)
    } else if name == "F7"@ {
        Some(0x76)
    } else if name == "F8"@ {
        Some(0x77)
    } else if name == "F9"@ {
        Some(0x78)
    } else if name == "F10"@ {
        Some(0x79)
    } else if name == "F11"@ {
        Some(0x7a)
    } else if name == "F12"@ {
        Some(0x7b)
    } else if name == "PRINTSCREEN"@ {
        Some(0x2c)
    } else if name == "PAUSE"@ {
        Some(0x13)
    } else if name == "SPACE"@ {
        Some(0x20)
    } else if name == "INSERT"@ {
        Some(0x2d)
    } else if name == "DELETE"@ {
        Some(0x2e)
    } else if name == "HOME"@ {
        Some(0x24)
    } else if name == "END"@ {
        Some(0x23)
    } else if name == "PRIOR"@ {
        Some(0x21)
    } else if name == "NEXT"@ {
        Some(0x22)
    } else if name == "LEFT"@ {
        Some(0x25)
    } else if name == "RIGHT"@ {
        Some(0x27)
    } else if name == "UP"@ {
        Some(0x26)
    } else if name == "DOWN"@ {
        Some(0x28)
    } else if name.len() == 1 && hotkeys::letter_or_digit(name[0]) {
        Some(text::upper_char(name[0]) as u32)
    } else {
        None
    }
}

fn key_code(name: &str) -> (res: Option<u32>)
    ensures
        res == virtual_key(name@),
{
    if text::same_text(name, "F1") {
        Some(0x70)
    } else if text::same_text(name, "F2") {
        Some(0x71)
    } else if text::same_text(name, "F3") {
        Some(0x72)
    } else if text::same_text(name, "F4") {
        Some(0x73)
    } else if text::same_text(name, "F5") {
        Some(0x74)
    } else if text::same_text(name, "F6") {
        Some(0x75)
    } else if text::same_text(name, "F7") {
        Some(0x76)
    } else if text::same_text(name, "F8") {
        Some(0x77)
    } else if text::same_text(name, "F9") {
        Some(0x78)
    } else if text::same_text(name, "F10") {
        Some(0x79)
    } else if text::same_text(name, "F11") {
        Some(0x7a)
    } else if text::same_text(name, "F12") {
        Some(0x7b)
    } else if text::same_text(name, "PRINTSCREEN") {
        Some(0x2c)
    } else if text::same_text(name, "PAUSE") {
        Some(0x13)
    } else if text::same_text(name, "SPACE") {
        Some(0x20)
    } else if text::same_text(name, "INSERT") {
        Some(0x2d)
    } else if text::same_text(name, "DELETE") {
        Some(0x2e)
    } else if text::same_text(name, "HOME") {
        Some(0x24)
    } else if text::same_text(name, "END") {
        Some(0x23)
    } else if text::same_text(name, "PRIOR") {
        Some(0x21)
    } else if text::same_text(name, "NEXT") {
        Some(0x22)
    } else if text::same_text(name, "LEFT") {
        Some(0x25)
    } else if text::same_text(name, "RIGHT") {
        Some(0x27)
    } else if text::same_text(name, "UP") {
        Some(0x26)
    } else if text::same_text(name, "DOWN") {
        Some(0x28)
    } else {
        let chars = text::chars_of(name);
        if chars.len() == 1 {
            let c = chars[0];
            if 'a' <= c && c <= 'z' {
                return Some(c as u32 - 32);
            }
            if ('A' <= c && c <= 'Z') || ('0' <= c && c <= '9') {
                return Some(c as u32);
            }
        }
        None
    }
}

/// The Windows modifier flags and virtual-key code of a hotkey, or none where Windows
/// has no code for its key.
pub fn to_win_hotkey(spec: &HotkeySpec) -> (res: Option<(u32, u32)>)
    ensures
        match virtual_key(spec.vk_name@) {
            Some(key) => res matches Some(pair) && pair.0 == modifier_flags(spec.modifiers@)
                && pair.1 == key,
            None => res is None,
        },
{
    let mut flags: u32 = 0;
    if hotkeys::has_modifier(spec.modifiers.as_slice(), Modifier::Ctrl) {
        flags += MOD_CONTROL;
    }
    if hotkeys::has_modifier(spec.modifiers.as_slice(), Modifier::Alt) {
        flags += MOD_ALT;
    }
    if hotkeys::has_modifier(spec.modifiers.as_slice(), Modifier::Shift) {
        flags += MOD_SHIFT;
    }
    if hotkeys::has_modifier(spec.modifiers.as_slice(), Modifier::Win) {
        flags += MOD_WIN;
    }
    match key_code(spec.vk_name.as_str()) {
        Some(key) => Some((flags, key)),
        None => None,
    }
}

/// What to do with one configured hotkey.
#[derive(Debug, Clone, PartialEq, Eq)]
pub enum Binding {
    /// Register these modifier flags and this virtual key; repeats while held are not wanted.
    Register { modifiers: u32, key: u32 },
    /// The named key has no virtual-key code: report it, register nothing.
    Unsupported(String),
    /// The string is no hotkey: report it, register nothing.
    Invalid(HotkeyError),
}

/// What to do with both configured hotkeys.
#[derive(Debug, Clone, PartialEq, Eq)]
pub enum BindingPlan {
    /// Hotkeys are switched off: register nothing.
    Disabled,
    /// Both strings name the same hotkey: warn, register neither.
    Identical,
    /// Each on its own.
    Each { screenshot: Binding, recording: Binding },
}

/// What is to be done with one hotkey string.
pub open spec fn binding_for(binding: Binding, s: Seq<char>) -> bool {
    match hotkeys::parsed_hotkey(s) {
        Err(fault) => binding matches Binding::Invalid(error) && error@ == fault,
        Ok((wanted, name)) => match virtual_key(name) {
            Some(code) => binding matches Binding::Register { modifiers, key } && modifiers
                == modifier_flags(wanted) + MOD_NOREPEAT && key == code,
            None => binding matches Binding::Unsupported(shown) && shown@ == name,
        },
    }
}

/// Whether two hotkey strings stand for one hotkey: both parse, to the same key with the same
/// modifiers held, in whatever order and however often they are written.
pub open spec fn one_hotkey(a: Seq<char>, b: Seq<char>) -> bool {
    match (hotkeys::parsed_hotkey(a), hotkeys::parsed_hotkey(b)) {
        (Ok((a_modifiers, a_name)), Ok((b_modifiers, b_name))) => a_name == b_name
            && modifier_flags(a_modifiers) == modifier_flags(b_modifiers),
        _ => false,
    }
}

/// What is to be done under given settings: nothing where hotkeys are off; neither binding
/// where both strings stand for one hotkey; otherwise each binding by itself, so that one
/// string that does not parse leaves the other binding in place.
pub open spec fn plan_for(
    plan: BindingPlan,
    enabled: bool,
    screenshot: Seq<char>,
    recording: Seq<char>,
) -> bool {
    if !enabled {
        plan is Disabled
    } else if one_hotkey(screenshot, recording) {
        plan is Identical
    } else {
        plan matches BindingPlan::Each { screenshot: s, recording: r } && binding_for(s, screenshot)
            && binding_for(r, recording)
    }
}

/// Modifier flags tell which modifiers are held.
pub proof fn flags_tell_modifiers(a: Seq<Modifier>, b: Seq<Modifier>)
    ensures
        modifier_flags(a) == modifier_flags(b) <==> hotkeys::same_modifiers(a, b),
{
    if modifier_flags(a) == modifier_flags(b) {
        assert forall|m: Modifier| a.contains(m) == b.contains(m) by {
            match m {
                Modifier::Ctrl => {},
                Modifier::Alt => {},
                Modifier::Shift => {},
                Modifier::Win => {},
            }
        }
    }
}

/// What to do with a parsed hotkey or the error that stands in its place.
fn bind(parsed: Result<HotkeySpec, HotkeyError>) -> (res: Binding)
    ensures
        match parsed {
            Err(error) => res == Binding::Invalid(error),
            Ok(spec) => match virtual_key(spec.vk_name@) {
                Some(code) => res matches Binding::Register { modifiers, key } && modifiers
                    == modifier_flags(spec.modifiers@) + MOD_NOREPEAT && key == code,
                None => res matches Binding::Unsupported(shown) && shown@ == spec.vk_name@,
            },
        },
{
    match parsed {
        Ok(spec) => match to_win_hotkey(&spec) {
            Some((flags, key)) => Binding::Register { modifiers: flags + MOD_NOREPEAT, key },
            None => Binding::Unsupported(spec.vk_name),
        },
        Err(error) => Binding::Invalid(error),
    }
}

/// Which bindings to register under the given settings.
pub fn plan_bindings(enabled: bool, screenshot: &str, recording: &str) -> (res: BindingPlan)
    ensures
        plan_for(res, enabled, screenshot@, recording@),
{
    if !enabled {
        return BindingPlan::Disabled;
    }
    let shot = hotkeys::parse_hotkey(screenshot);
    let rec = hotkeys::parse_hotkey(recording);
    let identical = match (&shot, &rec) {
        (Ok(s), Ok(r)) => s.same_as(r),
        _ => false,
    };
    proof {
        if shot is Ok && rec is Ok {
            flags_tell_modifiers(shot->Ok_0.modifiers@, rec->Ok_0.modifiers@);
        }
    }
    if identical {
        BindingPlan::Identical
    } else {
        BindingPlan::Each { screenshot: bind(shot), recording: bind(rec) }
    }
}

/// A message that reached the hotkey thread.
#[derive(Debug, Clone, Copy, PartialEq, Eq, Structural)]
pub enum HotkeyMessage {
    /// The thread was asked to end.
    Quit,
    /// A registered hotkey, by its identifier, was pressed.
    Hotkey(i32),
    /// Anything else.
    Other,
}

/// What to do with a message.
#[derive(Debug, Clone, Copy, PartialEq, Eq, Structural)]
pub enum HotkeyStep {
    /// Leave the loop.
    Stop,
    /// Hand the message on to the window.
    Dispatch,
    /// Do nothing.
    Ignore,
    /// Carry out the action.
    Fire(HotkeyAction),
}

/// The hotkey settings.
pub struct HotkeySettings {
    pub enabled: bool,
    pub screenshot: String,
    pub recording: String,
}

/// What a hotkey thread remembers between polls.
pub struct HotkeyMonitor {
    /// The settings that were acted on last, none before the first.
    pub last_settings: Option<HotkeySettings>,
    /// When a press was last acted on, in nanoseconds of the thread's clock.
    pub last_fire: Option<u64>,
}

/// Whether remembered settings are the given ones.
pub open spec fn settings_are(
    last: Option<HotkeySettings>,
    enabled: bool,
    screenshot: Seq<char>,
    recording: Seq<char>,
) -> bool {
    last matches Some(settings) && settings.enabled == enabled && settings.screenshot@ == screenshot
        && settings.recording@ == recording
}

/// Whether a press at `now` follows the last one that was acted on by less than the debounce.
pub open spec fn too_soon(last_fire: Option<u64>, now: u64) -> bool {
    last_fire matches Some(last) && now - last < DEBOUNCE_NANOS
}

/// The action behind a hotkey identifier.
pub open spec fn action_of(id: i32) -> Option<HotkeyAction> {
    if id == ID_SCREENSHOT {
        Some(HotkeyAction::Screenshot)
    } else if id == ID_RECORDING {
        Some(HotkeyAction::ToggleRecording)
    } else {
        None
    }
}

/// What a message calls for.
pub open spec fn step_for(last_fire: Option<u64>, message: HotkeyMessage, now: u64) -> HotkeyStep {
    match message {
        HotkeyMessage::Quit => HotkeyStep::Stop,
        HotkeyMessage::Other => HotkeyStep::Dispatch,
        HotkeyMessage::Hotkey(id) => if too_soon(last_fire, now) {
            HotkeyStep::Ignore
        } else {
            match action_of(id) {
                Some(action) => HotkeyStep::Fire(action),
                None => HotkeyStep::Ignore,
            }
        },
    }
}

/// When a press was last acted on, after a message.
pub open spec fn fire_after(last_fire: Option<u64>, message: HotkeyMessage, now: u64) -> Option<
    u64,
> {
    if message is Hotkey && !too_soon(last_fire, now) {
        Some(now)
    } else {
        last_fire
    }
}

impl HotkeyMonitor {
    /// Nothing registered, no press seen.
    pub fn new() -> (res: HotkeyMonitor)
        ensures
            res.last_settings is None,
            res.last_fire is None,
    {
        HotkeyMonitor { last_settings: None, last_fire: None }
    }

    /// Looks at the current settings. Where they differ from those acted on last, both hotkeys
    /// are to be unregistered and the plan carried out; otherwise nothing is to be done.
    pub fn on_settings(&mut self, enabled: bool, screenshot: &str, recording: &str) -> (res: Option<
        BindingPlan,
    >)
        ensures
            final(self).last_fire == old(self).last_fire,
            settings_are(final(self).last_settings, enabled, screenshot@, recording@),
            final(self).last_settings matches Some(last) && last.enabled == enabled
                && last.screenshot@ == screenshot@ && last.recording@ == recording@,
            res is None <==> (old(self).last_settings matches Some(last) && last.enabled == enabled
                && last.screenshot@ == screenshot@ && last.recording@ == recording@),
            res is None <==> settings_are(
                old(self).last_settings,
                enabled,
                screenshot@,
                recording@,
            ),
            res matches Some(plan) ==> plan_for(plan, enabled, screenshot@, recording@),
    {
        let unchanged = match &self.last_settings {
            Some(last) => last.enabled == enabled && text::same_text(
                last.screenshot.as_str(),
                screenshot,
            ) && text::same_text(last.recording.as_str(), recording),
            None => false,
        };
        if unchanged {
            return None;
        }
        self.last_settings = Some(
            HotkeySettings {
                enabled,
                screenshot: screenshot.to_owned(),
                recording: recording.to_owned(),
            },
        );
        Some(plan_bindings(enabled, screenshot, recording))
    }

    /// Looks at a message that arrived at `now`, in nanoseconds of the thread's clock.
    pub fn on_message(&mut self, message: HotkeyMessage, now: u64) -> (res: HotkeyStep)
        ensures
            res == step_for(old(self).last_fire, message, now),
            message is Quit <==> res is Stop,
            message is Other <==> res is Dispatch,
            message matches HotkeyMessage::Hotkey(id) ==> ((old(self).last_fire matches Some(last)
                ==> now >= last + DEBOUNCE_NANOS) ==> final(self).last_fire == Some(now) && res == (
            if id == ID_SCREENSHOT {
                HotkeyStep::Fire(HotkeyAction::Screenshot)
            } else if id == ID_RECORDING {
                HotkeyStep::Fire(HotkeyAction::ToggleRecording)
            } else {
                HotkeyStep::Ignore
            })),
            message is Hotkey && (old(self).last_fire matches Some(last) && now < last
                + DEBOUNCE_NANOS) ==> res is Ignore && final(self).last_fire == old(
                self,
            ).last_fire,
            !(message is Hotkey) ==> final(self).last_fire == old(self).last_fire,
            final(self).last_settings == old(self).last_settings,
            final(self).last_fire == fire_after(old(self).last_fire, message, now),
    {
        match message {
            HotkeyMessage::Quit => HotkeyStep::Stop,
            HotkeyMessage::Other => HotkeyStep::Dispatch,
            HotkeyMessage::Hotkey(id) => {
                if let Some(last) = self.last_fire {
                    if now < last || now - last < DEBOUNCE_NANOS {
                        return HotkeyStep::Ignore;
                    }
                }
                self.last_fire = Some(now);
                if id == ID_SCREENSHOT {
                    HotkeyStep::Fire(HotkeyAction::Screenshot)
                } else if id == ID_RECORDING {
                    HotkeyStep::Fire(HotkeyAction::ToggleRecording)
                } else {
                    HotkeyStep::Ignore
                }
            },
        }
    }
}

/// The first look at the settings always acts on them.
pub proof fn first_settings_are_new(enabled: bool, screenshot: Seq<char>, recording: Seq<char>)
    ensures
        !settings_are(None, enabled, screenshot, recording),
{
}

/// Every change of the settings is noticed: what is remembered is no other settings.
pub proof fn changed_settings_are_noticed(
    last: Option<HotkeySettings>,
    enabled: bool,
    screenshot: Seq<char>,
    recording: Seq<char>,
    enabled_then: bool,
    screenshot_then: Seq<char>,
    recording_then: Seq<char>,
)
    requires
        settings_are(last, enabled_then, screenshot_then, recording_then),
    ensures
        settings_are(last, enabled, screenshot, recording) <==> enabled == enabled_then
            && screenshot == screenshot_then && recording == recording_then,
{
}

/// When a press was last acted on, after a run of messages, each with the time of its arrival.
pub open spec fn fire_after_run(last_fire: Option<u64>, run: Seq<(HotkeyMessage, u64)>) -> Option<
    u64,
>
    decreases run.len(),
{
    if run.len() == 0 {
        last_fire
    } else {
        let (message, now) = run.last();
        fire_after(fire_after_run(last_fire, run.drop_last()), message, now)
    }
}

/// Whether message `i` of a run fires.
pub open spec fn fires(last_fire: Option<u64>, run: Seq<(HotkeyMessage, u64)>, i: int) -> bool {
    step_for(fire_after_run(last_fire, run.take(i)), run[i].0, run[i].1) is Fire
}

/// Once a message has fired, no later part of the run remembers an earlier press.
proof fn fired_presses_are_remembered(
    last_fire: Option<u64>,
    run: Seq<(HotkeyMessage, u64)>,
    i: int,
    k: int,
)
    requires
        0 <= i < k <= run.len(),
        fires(last_fire, run, i),
    ensures
        fire_after_run(last_fire, run.take(k)) matches Some(t) && t >= run[i].1,
    decreases k,
{
    let part = run.take(k);
    assert(part.drop_last() == run.take(k - 1));
    assert(part.last() == run[k - 1]);
    if i < k - 1 {
        fired_presses_are_remembered(last_fire, run, i, k - 1);
    }
}

/// Any two presses of a run that fire lie at least the debounce apart.
pub proof fn fired_presses_lie_apart(
    last_fire: Option<u64>,
    run: Seq<(HotkeyMessage, u64)>,
    i: int,
    j: int,
)
    requires
        0 <= i < j < run.len(),
        fires(last_fire, run, i),
        fires(last_fire, run, j),
    ensures
        run[j].1 >= run[i].1 + DEBOUNCE_NANOS,
{
    fired_presses_are_remembered(last_fire, run, i, j);
}

/// One hotkey for both actions is refused: where both strings name the same key with the same
/// modifiers, in whatever order, case or number these are written, nothing is registered.
pub proof fn one_hotkey_for_both_is_refused(
    plan: BindingPlan,
    screenshot: Seq<char>,
    recording: Seq<char>,
)
    requires
        plan_for(plan, true, screenshot, recording),
        hotkeys::parsed_hotkey(screenshot) is Ok,
        hotkeys::parsed_hotkey(recording) is Ok,
        hotkeys::parsed_hotkey(screenshot)->Ok_0.1 == hotkeys::parsed_hotkey(recording)->Ok_0.1,
        hotkeys::same_modifiers(
            hotkeys::parsed_hotkey(screenshot)->Ok_0.0,
            hotkeys::parsed_hotkey(recording)->Ok_0.0,
        ),
    ensures
        plan is Identical,
{
    flags_tell_modifiers(
        hotkeys::parsed_hotkey(screenshot)->Ok_0.0,
        hotkeys::parsed_hotkey(recording)->Ok_0.0,
    );
}

/// Two strings that differ only in ASCII case stand for one hotkey, where they stand for any.
pub proof fn case_makes_no_other_hotkey(a: Seq<char>, b: Seq<char>)
    requires
        text::upper(a) == text::upper(b),
        hotkeys::parsed_hotkey(a) is Ok,
    ensures
        one_hotkey(a, b),
{
    hotkeys::hotkeys_ignore_case(a, b);
}

/// A hotkey string that does not parse skips its own binding only.
pub proof fn a_bad_string_skips_its_own_binding(
    plan: BindingPlan,
    screenshot: Seq<char>,
    recording: Seq<char>,
)
    requires
        plan_for(plan, true, screenshot, recording),
        hotkeys::parsed_hotkey(screenshot) is Err || hotkeys::parsed_hotkey(recording) is Err,
    ensures
        plan matches BindingPlan::Each { screenshot: s, recording: r } && (s is Invalid
            <==> hotkeys::parsed_hotkey(screenshot) is Err) && (r is Invalid
            <==> hotkeys::parsed_hotkey(recording) is Err),
{
}

/// The name of each function key has a code of its own.
proof fn function_keys_have_codes(n: nat)
    requires
        1 <= n <= 12,
    ensures
        virtual_key(hotkeys::function_key_name(n)) == Some((0x6f + n) as u32),
        hotkeys::function_key_name(n).len() >= 2,
{
    reveal_with_fuel(text::decimal, 2);
    reveal_strlit("F1");
    reveal_strlit("F2");
    reveal_strlit("F3");
    reveal_strlit("F4");
    reveal_strlit("F5");
    reveal_strlit("F6");
    reveal_strlit("F7");
    reveal_strlit("F8");
    reveal_strlit("F9");
    reveal_strlit("F10");
    reveal_strlit("F11");
    reveal_strlit("F12");
    let name = hotkeys::function_key_name(n);
    if n < 10 {
        assert(name == seq!['F', text::digit_char(n)]);
        assert(name[1] == text::digit_char(n));
        assert(n == 1 ==> name == "F1"@);
        assert(n == 2 ==> name == "F2"@);
        assert(n == 3 ==> name == "F3"@);
        assert(n == 4 ==> name == "F4"@);
        assert(n == 5 ==> name == "F5"@);
        assert(n == 6 ==> name == "F6"@);
        assert(n == 7 ==> name == "F7"@);
        assert(n == 8 ==> name == "F8"@);
        assert(n == 9 ==> name == "F9"@);
    } else {
        assert(text::decimal(n) == seq!['1', text::digit_char((n - 10) as nat)]);
        assert(name == seq!['F', '1', text::digit_char((n - 10) as nat)]);
        assert(name[2] == text::digit_char((n - 10) as nat));
        assert(n == 10 ==> name == "F10"@);
        assert(n == 11 ==> name == "F11"@);
        assert(n == 12 ==> name == "F12"@);
    }
}

/// Every key that a hotkey string can name has a virtual-key code, but for `SCROLLLOCK`.
pub proof fn named_keys_have_codes(word: Seq<char>, name: Seq<char>)
    requires
        hotkeys::key_named(word) == Some(name),
    ensures
        virtual_key(name) is None <==> name == "SCROLLLOCK"@,
{
    reveal_strlit("F1");
    reveal_strlit("F2");
    reveal_strlit("F3");
    reveal_strlit("F4");
    reveal_strlit("F5");
    reveal_strlit("F6");
    reveal_strlit("F7");
    reveal_strlit("F8");
    reveal_strlit("F9");
    reveal_strlit("F10");
    reveal_strlit("F11");
    reveal_strlit("F12");
    reveal_strlit("PRINTSCREEN");
    reveal_strlit("PRTSC");
    reveal_strlit("PRTSCN");
    reveal_strlit("PAUSE");
    reveal_strlit("SCROLLLOCK");
    reveal_strlit("INSERT");
    reveal_strlit("DELETE");
    reveal_strlit("HOME");
    reveal_strlit("END");
    reveal_strlit("PRIOR");
    reveal_strlit("NEXT");
    reveal_strlit("LEFT");
    reveal_strlit("RIGHT");
    reveal_strlit("UP");
    reveal_strlit("DOWN");
    reveal_strlit("SPACE");
    let u = text::upper(word);
    if hotkeys::function_key(u) {
        function_keys_have_codes(text::number(u.skip(1))->0);
        assert(name[0] == 'F' && "SCROLLLOCK"@[0] == 'S');
    } else if u == "PRINTSCREEN"@ || u == "PRTSC"@ || u == "PRTSCN"@ {
        assert(name == "PRINTSCREEN"@);
        assert(name.len() == 11);
    } else if hotkeys::word_key(u) {
        assert(virtual_key(name) is None <==> name == "SCROLLLOCK"@);
    } else {
        assert(name.len() == 1 && hotkeys::letter_or_digit(name[0]));
        assert(virtual_key(name) is Some);
    }
}

/// Keys of different names have different virtual-key codes.
pub proof fn codes_tell_keys_apart(a: Seq<char>, b: Seq<char>)
    requires
        text::upper(a) == a,
        text::upper(b) == b,
        virtual_key(a) is Some,
        virtual_key(a) == virtual_key(b),
    ensures
        a == b,
{
    assert(a.len() == 1 ==> text::upper(a)[0] == text::upper_char(a[0]));
    assert(b.len() == 1 ==> text::upper(b)[0] == text::upper_char(b[0]));
    if a.len() == 1 && b.len() == 1 && a[0] == b[0] {
        assert(a == b);
    }
}

/// No key combination is registered for both actions.
pub proof fn registered_hotkeys_differ(
    plan: BindingPlan,
    enabled: bool,
    screenshot: Seq<char>,
    recording: Seq<char>,
)
    requires
        plan_for(plan, enabled, screenshot, recording),
    ensures
        plan matches BindingPlan::Each { screenshot: s, recording: r } ==> !(s is Register && s
            == r),
{
    if let BindingPlan::Each { screenshot: s, recording: r } = plan {
        if s is Register && s == r {
            let a = hotkeys::parsed_hotkey(screenshot)->Ok_0.1;
            let b = hotkeys::parsed_hotkey(recording)->Ok_0.1;
            hotkeys::key_names_are_capitals(hotkeys::pieces(screenshot).last());
            hotkeys::key_names_are_capitals(hotkeys::pieces(recording).last());
            codes_tell_keys_apart(a, b);
        }
    }
}

/// No press is lost past the debounce: where none was acted on yet, or the last one lies 300 ms
/// back or more, however long, the screenshot hotkey takes a screenshot and the recording hotkey
/// toggles the recording, and the press is the one that later ones are held against.
pub proof fn presses_past_the_debounce_fire(last_fire: Option<u64>, now: u64)
    requires
        last_fire matches Some(last) ==> now >= last + 300_000_000,
    ensures
        step_for(last_fire, HotkeyMessage::Hotkey(1), now) == HotkeyStep::Fire(
            HotkeyAction::Screenshot,
        ),
        step_for(last_fire, HotkeyMessage::Hotkey(2), now) == HotkeyStep::Fire(
            HotkeyAction::ToggleRecording,
        ),
        forall|id: i32| #[trigger]
            fire_after(last_fire, HotkeyMessage::Hotkey(id), now) == Some(now),
        forall|id: i32|
            id != 1 && id != 2 ==> #[trigger] step_for(last_fire, HotkeyMessage::Hotkey(id), now)
                == HotkeyStep::Ignore,
{
}

/// A press less than 300 ms after the one that was acted on last does nothing and is forgotten.
pub proof fn presses_within_the_debounce_are_ignored(last: u64, id: i32, now: u64)
    requires
        now < last + 300_000_000,
    ensures
        step_for(Some(last), HotkeyMessage::Hotkey(id), now) == HotkeyStep::Ignore,
        fire_after(Some(last), HotkeyMessage::Hotkey(id), now) == Some(last),
{
}

/// Other messages are no presses: one to quit stops the thread, any other goes on to the window,
/// at any time, and neither is held against later presses.
pub proof fn other_messages_are_no_presses(last_fire: Option<u64>, now: u64)
    ensures
        step_for(last_fire, HotkeyMessage::Quit, now) == HotkeyStep::Stop,
        step_for(last_fire, HotkeyMessage::Other, now) == HotkeyStep::Dispatch,
        fire_after(last_fire, HotkeyMessage::Quit, now) == last_fire,
        fire_after(last_fire, HotkeyMessage::Other, now) == last_fire,
{
}

/// In a run of messages, every press of either hotkey either fires or follows one that was acted
/// on by less than 300 ms.
pub proof fn presses_fire_or_follow_closely(
    last_fire: Option<u64>,
    run: Seq<(HotkeyMessage, u64)>,
    i: int,
)
    requires
        0 <= i < run.len(),
        run[i].0 == HotkeyMessage::Hotkey(1) || run[i].0 == HotkeyMessage::Hotkey(2),
    ensures
        fires(last_fire, run, i) <==> !(fire_after_run(last_fire, run.take(i)) matches Some(last)
            && run[i].1 < last + 300_000_000),
{
}

/// Remembered settings are the given ones exactly where all three values agree.
pub proof fn settings_are_compared_in_full(
    last: HotkeySettings,
    enabled: bool,
    screenshot: Seq<char>,
    recording: Seq<char>,
)
    ensures
        settings_are(Some(last), enabled, screenshot, recording) <==> last.enabled == enabled
            && last.screenshot@ == screenshot && last.recording@ == recording,
{
}

/// Each modifier has a bit of its own: Alt the first, Ctrl the second, Shift the third, Win the
/// fourth; there are no others.
pub proof fn modifiers_have_bits(modifiers: Seq<Modifier>)
    ensures
        ({
            let flags = modifier_flags(modifiers);
            &&& 0 <= flags < 16
            &&& flags % 2 == 1 <==> modifiers.contains(Modifier::Alt)
            &&& flags / 2 % 2 == 1 <==> modifiers.contains(Modifier::Ctrl)
            &&& flags / 4 % 2 == 1 <==> modifiers.contains(Modifier::Shift)
            &&& flags / 8 == 1 <==> modifiers.contains(Modifier::Win)
        }),
{
}

/// A letter or digit has the code of its capital's ASCII character.
pub proof fn letters_and_digits_have_ascii_codes(c: char)
    ensures
        65 <= c as int <= 90 || 48 <= c as int <= 57 ==> virtual_key(seq![c]) == Some(c as u32),
        97 <= c as int <= 122 ==> virtual_key(seq![c]) == Some((c as int - 32) as u32),
{
    reveal_strlit("F1");
    reveal_strlit("F2");
    reveal_strlit("F3");
    reveal_strlit("F4");
    reveal_strlit("F5");
    reveal_strlit("F6");
    reveal_strlit("F7");
    reveal_strlit("F8");
    reveal_strlit("F9");
    reveal_strlit("F10");
    reveal_strlit("F11");
    reveal_strlit("F12");
    reveal_strlit("PRINTSCREEN");
    reveal_strlit("PAUSE");
    reveal_strlit("INSERT");
    reveal_strlit("DELETE");
    reveal_strlit("HOME");
    reveal_strlit("END");
    reveal_strlit("PRIOR");
    reveal_strlit("NEXT");
    reveal_strlit("LEFT");
    reveal_strlit("RIGHT");
    reveal_strlit("UP");
    reveal_strlit("DOWN");
    reveal_strlit("SPACE");
    let name = seq![c];
    assert(name.len() == 1 && name[0] == c);
}

/// The code of function key `n` is 0x6f plus `n`.
pub proof fn function_keys_have_codes_in_a_row(n: nat)
    requires
        1 <= n <= 12,
    ensures
        virtual_key(seq!['F'] + text::decimal(n)) == Some((0x6f + n) as u32),
{
    function_keys_have_codes(n);
}

/// Hotkeys are planned by what their strings say: nothing while they are off; neither where both
/// strings name one key with one set of modifiers; otherwise each by itself, registered with the
/// modifiers' bits, bit 14 against repeats, and the key's code, or reported with the key's name
/// where it has no code, or with what is wrong with the string.
pub proof fn plans_follow_the_strings(
    plan: BindingPlan,
    enabled: bool,
    screenshot: Seq<char>,
    recording: Seq<char>,
)
    requires
        plan_for(plan, enabled, screenshot, recording),
    ensures
        plan is Disabled <==> !enabled,
        plan is Identical <==> enabled && (hotkeys::parsed_hotkey(screenshot) matches Ok(a) && (
        hotkeys::parsed_hotkey(recording) matches Ok(b) && a.1 == b.1 && (forall|m: Modifier| #[trigger]
            a.0.contains(m) == b.0.contains(m)))),
        plan matches BindingPlan::Each { screenshot: s, recording: r } ==> says(s, screenshot)
            && says(r, recording),
{
    if hotkeys::parsed_hotkey(screenshot) is Ok && hotkeys::parsed_hotkey(recording) is Ok {
        flags_tell_modifiers(
            hotkeys::parsed_hotkey(screenshot)->Ok_0.0,
            hotkeys::parsed_hotkey(recording)->Ok_0.0,
        );
    }
}

/// Whether a binding does what a string says.
pub open spec fn says(binding: Binding, s: Seq<char>) -> bool {
    match binding {
        Binding::Register { modifiers, key } => hotkeys::parsed_hotkey(s) matches Ok((held, name))
            && modifiers == 0x4000 + modifier_flags(held) && virtual_key(name) == Some(key),
        Binding::Unsupported(shown) => hotkeys::parsed_hotkey(s) matches Ok((held, name)) && shown@
            == name && virtual_key(name) is None,
        Binding::Invalid(error) => hotkeys::parsed_hotkey(s) matches Err(fault) && error@ == fault,
    }
}

/// Only keys have codes: what no hotkey string can name has none.
pub proof fn codes_are_of_keys(name: Seq<char>)
    requires
        virtual_key(name) is Some,
    ensures
        hotkeys::key_named(name) is Some,
{
    reveal_strlit("F1");
    reveal_strlit("F2");
    reveal_strlit("F3");
    reveal_strlit("F4");
    reveal_strlit("F5");
    reveal_strlit("F6");
    reveal_strlit("F7");
    reveal_strlit("F8");
    reveal_strlit("F9");
    reveal_strlit("F10");
    reveal_strlit("F11");
    reveal_strlit("F12");
    reveal_strlit("PRINTSCREEN");
    reveal_strlit("PAUSE");
    reveal_strlit("INSERT");
    reveal_strlit("DELETE");
    reveal_strlit("HOME");
    reveal_strlit("END");
    reveal_strlit("PRIOR");
    reveal_strlit("NEXT");
    reveal_strlit("LEFT");
    reveal_strlit("RIGHT");
    reveal_strlit("UP");
    reveal_strlit("DOWN");
    reveal_strlit("SPACE");
    reveal_with_fuel(text::number, 3);
    let u = text::upper(name);
    if name.len() == 1 {
        text::case_moves_ascii_letters_only(name, 0);
    } else {
        assert(u == name);
        if name[0] == 'F' {
            let digits = u.skip(1);
            assert(digits.last() == name.last());
            if digits.len() == 2 {
                assert(digits.drop_last().last() == name[1]);
            }
            assert(hotkeys::function_key(u));
        }
    }
}

} // verus!
