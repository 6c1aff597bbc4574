//! Display mode switching for aspect ratio matching.
//!
//! Listing the modes of a display and switching between them happens in a
//! separate child process, which is this program with other arguments:
//!
//!   osxrdp --display-mode-switch <display_id> <width> <height>
//!   osxrdp --display-mode-restore <display_id> <width> <height>
//!
//! The child process prints the switched resolution to standard output:
//!   OK <width> <height>
use crate::mode_choice::{
    choose_mode, chosen, large_enough, law_chosen_mode_suits, ratio_diff, DisplayMode,
};
use crate::text::{
    chars_of, decimal, decode_lossy, is_digit, is_space, law_number_reads_decimal, lemma_decimal,
    lemma_lines_apart, lemma_one_line, lemma_one_word, lemma_trimmed_same, lemma_words_apart, lines,
    lossy_text, number, parse_number, pieces, split_lines, split_words, text_is, texts, to_decimal,
    trim, trim_end, trim_start, trimmed, words,
};
use vstd::prelude::*;
use vstd::utf8::{encode_utf8, encode_utf8_decode_utf8, encode_utf8_valid_utf8};

verus! {

/// The argument that asks the helper to switch.
pub open spec fn switch_flag() -> Seq<char> {
    "--display-mode-switch"@
}

/// The argument that asks the helper to restore.
pub open spec fn restore_flag() -> Seq<char> {
    "--display-mode-restore"@
}

/// Manages switching the primary display to a resolution that matches the RDP
/// client's desired aspect ratio.
#[derive(Debug, Clone, Copy, PartialEq, Eq, Structural)]
pub struct DisplayModeSwitcher {
    pub display_id: u32,
    /// Original display width (logical) saved for restore.
    pub original_width: u64,
    /// Original display height (logical) saved for restore.
    pub original_height: u64,
    pub switched: bool,
}

/// What has to be done to bring the display to a resolution.
#[derive(Debug)]
pub enum SwitchStep {
    /// The display has the resolution.
    Already(u32, u32),
    /// Run the helper with these arguments.
    RunHelper(Vec<String>),
}

/// What came of bringing the display to a resolution.
#[derive(Debug, Clone, Copy, PartialEq, Eq, Structural)]
pub enum SwitchOutcome {
    /// The display has this resolution, and had it before.
    Already(u32, u32),
    /// The display was switched to this resolution.
    Switched(u32, u32),
    /// No mode suits, or the switch failed.
    Failed,
}

/// What has to be done to bring the display back to its original mode.
#[derive(Debug)]
pub enum RestoreStep {
    /// The mode was not switched.
    Nothing,
    /// The original mode is not known.
    NoOriginalMode,
    /// Run the helper with these arguments.
    RunHelper(Vec<String>),
}

/// The arguments of a request to the helper.
pub open spec fn request(flag: Seq<char>, display_id: nat, width: nat, height: nat) -> Seq<
    Seq<char>,
> {
    seq![flag, decimal(display_id), decimal(width), decimal(height)]
}

/// The resolution in the helper's reply.
pub open spec fn reply(s: Seq<char>) -> Option<(nat, nat)> {
    let parts = words(trimmed(s));
    if parts.len() == 3 && parts[0] == "OK"@ {
        match (number(parts[1], u32::MAX as nat), number(parts[2], u32::MAX as nat)) {
            (Some(w), Some(h)) => Some((w, h)),
            _ => None,
        }
    } else {
        None
    }
}

/// What came of a switch of a display that was at `before_w` by `before_h`,
/// where the helper replied with the given resolution, if it replied with one.
/// The display was switched if it has another resolution now.
pub open spec fn switch_outcome(
    before_w: u32,
    before_h: u32,
    replied: Option<(nat, nat)>,
) -> SwitchOutcome {
    match replied {
        None => SwitchOutcome::Failed,
        Some((w, h)) => if w == before_w && h == before_h {
            SwitchOutcome::Already(before_w, before_h)
        } else {
            SwitchOutcome::Switched(w as u32, h as u32)
        },
    }
}

/// The line that the helper replies with.
pub open spec fn reply_line_text(width: nat, height: nat) -> Seq<char> {
    "OK"@.push(' ') + (decimal(width).push(' ') + decimal(height).push('\n'))
}

/// The contents of the file that lets a later run restore the original mode.
pub open spec fn pending_text(display_id: nat, width: nat, height: nat) -> Seq<char> {
    decimal(display_id).push('\n') + (decimal(width).push('\n') + decimal(height))
}

/// Why a pending restore cannot be carried out.
#[derive(Debug, Clone, Copy, PartialEq, Eq, Structural)]
pub enum PendingRestoreError {
    Format,
    DisplayId,
    Width,
    Height,
}

/// The switcher that a pending restore file describes.
pub open spec fn pending_switcher(s: Seq<char>) -> Result<DisplayModeSwitcher, PendingRestoreError> {
    let parts = lines(trimmed(s));
    if parts.len() != 3 {
        Err(PendingRestoreError::Format)
    } else {
        match number(parts[0], u32::MAX as nat) {
            None => Err(PendingRestoreError::DisplayId),
            Some(id) => match number(parts[1], u64::MAX as nat) {
                None => Err(PendingRestoreError::Width),
                Some(w) => match number(parts[2], u64::MAX as nat) {
                    None => Err(PendingRestoreError::Height),
                    Some(h) => Ok(
                        DisplayModeSwitcher {
                            display_id: id as u32,
                            original_width: w as u64,
                            original_height: h as u64,
                            switched: true,
                        },
                    ),
                },
            },
        }
    }
}

/// The arguments of a request to the helper.
fn request_args(flag: &str, display_id: u32, width: u64, height: u64) -> (args: Vec<String>)
    ensures
        texts(args@) == request(flag@, display_id as nat, width as nat, height as nat),
{
    let mut args: Vec<String> = Vec::new();
    args.push(flag.to_string());
    args.push(to_decimal(display_id as u64));
    args.push(to_decimal(width));
    args.push(to_decimal(height));
    proof {
        assert(texts(args@) =~= request(
            flag@,
            display_id as nat,
            width as nat,
            height as nat,
        ));
    }
    args
}

/// The resolution in the text of the helper's reply.
pub fn parse_reply(text: &str) -> (r: Option<(u32, u32)>)
    ensures
        match r {
            Some((w, h)) => reply(text@) == Some((w as nat, h as nat)),
            None => reply(text@) is None,
        },
{
    let parts: Vec<Vec<char>> = split_words(&trim(&chars_of(text)));
    proof {
        assert(pieces(parts@) == words(trimmed(text@)));
    }
    if parts.len() != 3 {
        return None;
    }
    proof {
        assert(pieces(parts@)[0] == parts@[0]@);
        assert(pieces(parts@)[1] == parts@[1]@);
        assert(pieces(parts@)[2] == parts@[2]@);
    }
    if !text_is(&parts[0], "OK") {
        return None;
    }
    match (parse_number(&parts[1], u32::MAX as u64), parse_number(&parts[2], u32::MAX as u64)) {
        (Some(w), Some(h)) => Some((w as u32, h as u32)),
        _ => None,
    }
}

/// The resolution in what the helper printed.
///
/// The reply of a helper that switched is understood.
pub fn helper_reply(stdout: &[u8]) -> (r: Option<(u32, u32)>)
    ensures
        match r {
            Some((w, h)) => reply(lossy_text(stdout@)) == Some((w as nat, h as nat)),
            None => reply(lossy_text(stdout@)) is None,
        },
        forall|w: u32, h: u32|
            stdout@ == encode_utf8(#[trigger] reply_line_text(w as nat, h as nat)) ==> r == Some(
                (w, h),
            ),
{
    let text: String = decode_lossy(stdout);
    let r: Option<(u32, u32)> = parse_reply(text.as_str());
    proof {
        assert forall|w: u32, h: u32|
            stdout@ == encode_utf8(#[trigger] reply_line_text(w as nat, h as nat)) implies r
            == Some((w, h)) by {
            let line = reply_line_text(w as nat, h as nat);
            encode_utf8_valid_utf8(line);
            encode_utf8_decode_utf8(line);
            law_reply_is_understood(w as nat, h as nat);
        }
    }
    r
}

/// The line that tells the parent process the resolution of the display.
pub fn reply_line(width: u64, height: u64) -> (s: String)
    ensures
        s@ == reply_line_text(width as nat, height as nat),
{
    let mut s: String = String::new();
    s.append("OK");
    s.append(" ");
    s.append(to_decimal(width).as_str());
    s.append(" ");
    s.append(to_decimal(height).as_str());
    s.append("\n");
    proof {
        reveal_strlit(" ");
        reveal_strlit("\n");
        assert(s@ =~= reply_line_text(width as nat, height as nat));
    }
    s
}

impl DisplayModeSwitcher {
    /// Create a switcher for the display with the given id, which has the given
    /// size now.
    pub fn new(display_id: u32, width: u64, height: u64) -> (s: Self)
        ensures
            s == (DisplayModeSwitcher {
                display_id,
                original_width: width,
                original_height: height,
                switched: false,
            }),
    {
        DisplayModeSwitcher {
            display_id,
            original_width: width,
            original_height: height,
            switched: false,
        }
    }

    /// Create a switcher with known original dimensions (for restore_pending).
    pub fn new_with_id(display_id: u32, original_width: u64, original_height: u64) -> (s: Self)
        ensures
            s == (DisplayModeSwitcher {
                display_id,
                original_width,
                original_height,
                switched: true,
            }),
    {
        DisplayModeSwitcher {
            display_id,
            original_width,
            original_height,
            switched: true,  // we're restoring, so mark as switched
        }
    }

    /// Try to switch the display, which is at `current_w` by `current_h`, to a
    /// mode matching `target_w` by `target_h`. Where the helper has to run, the
    /// switch ends with [`Self::switch_finished`].
    pub fn switch_to_best_mode(
        &self,
        current_w: u32,
        current_h: u32,
        target_w: u32,
        target_h: u32,
    ) -> (step: SwitchStep)
        ensures
            match step {
                SwitchStep::Already(w, h) => {
                    &&& current_w == target_w && current_h == target_h
                    &&& w == current_w && h == current_h
                },
                SwitchStep::RunHelper(args) => {
                    &&& !(current_w == target_w && current_h == target_h)
                    &&& texts(args@) == request(
                        switch_flag(),
                        self.display_id as nat,
                        target_w as nat,
                        target_h as nat,
                    )
                },
            },
    {
        if current_w == target_w && current_h == target_h {
            SwitchStep::Already(current_w, current_h)
        } else {
            SwitchStep::RunHelper(
                request_args(
                    "--display-mode-switch",
                    self.display_id,
                    target_w as u64,
                    target_h as u64,
                ),
            )
        }
    }

    /// Take note of what the helper printed; `None` where it could not be run or
    /// failed. The display was at `before_w` by `before_h` when the switch began.
    /// After any resolution that is understood the display counts as switched, so
    /// that its original mode is restored, and [`Self::pending_restore`] has to be
    /// saved.
    pub fn switch_finished(
        &mut self,
        before_w: u32,
        before_h: u32,
        stdout: Option<&[u8]>,
    ) -> (outcome: SwitchOutcome)
        ensures
            outcome == switch_outcome(
                before_w,
                before_h,
                match stdout {
                    None => None,
                    Some(out) => reply(lossy_text(out@)),
                },
            ),
            *final(self) == (DisplayModeSwitcher {
                switched: old(self).switched || !(outcome is Failed),
                ..*old(self)
            }),
    {
        let replied: Option<(u32, u32)> = match stdout {
            Some(out) => helper_reply(out),
            None => None,
        };
        match replied {
            None => SwitchOutcome::Failed,
            Some((w, h)) => {
                self.switched = true;
                if w == before_w && h == before_h {
                    SwitchOutcome::Already(w, h)
                } else {
                    SwitchOutcome::Switched(w, h)
                }
            },
        }
    }

    /// The contents of the file that lets a later run restore the original
    /// mode.
    pub fn pending_restore(&self) -> (s: String)
        ensures
            s@ == pending_text(
                self.display_id as nat,
                self.original_width as nat,
                self.original_height as nat,
            ),
    {
        let mut s: String = String::new();
        s.append(to_decimal(self.display_id as u64).as_str());
        s.append("\n");
        s.append(to_decimal(self.original_width).as_str());
        s.append("\n");
        s.append(to_decimal(self.original_height).as_str());
        proof {
            reveal_strlit("\n");
            assert(s@ =~= pending_text(
                self.display_id as nat,
                self.original_width as nat,
                self.original_height as nat,
            ));
        }
        s
    }

    /// Restore the display to its original mode. A display is restored once
    /// after it was switched.
    pub fn restore(&mut self) -> (step: RestoreStep)
        ensures
            *final(self) == (DisplayModeSwitcher { switched: false, ..*old(self) }),
            match step {
                RestoreStep::Nothing => !old(self).switched,
                RestoreStep::NoOriginalMode => {
                    &&& old(self).switched
                    &&& old(self).original_width == 0 || old(self).original_height == 0
                },
                RestoreStep::RunHelper(args) => {
                    &&& old(self).switched
                    &&& old(self).original_width != 0 && old(self).original_height != 0
                    &&& texts(args@) == request(
                        restore_flag(),
                        old(self).display_id as nat,
                        old(self).original_width as nat,
                        old(self).original_height as nat,
                    )
                },
            },
    {
        if !self.switched {
            return RestoreStep::Nothing;
        }
        self.switched = false;
        if self.original_width == 0 || self.original_height == 0 {
            return RestoreStep::NoOriginalMode;
        }
        RestoreStep::RunHelper(
            request_args(
                "--display-mode-restore",
                self.display_id,
                self.original_width,
                self.original_height,
            ),
        )
    }
}

/// Read a pending restore file left by a previous run that crashed during a
/// display mode switch. Whatever the outcome, the file has served its purpose.
pub fn restore_pending(contents: &str) -> (r: Result<DisplayModeSwitcher, PendingRestoreError>)
    ensures
        r == pending_switcher(contents@),
{
    let parts: Vec<Vec<char>> = split_lines(&trim(&chars_of(contents)));
    proof {
        assert(pieces(parts@) == lines(trimmed(contents@)));
    }
    if parts.len() != 3 {
        return Err(PendingRestoreError::Format);
    }
    proof {
        assert(pieces(parts@)[0] == parts@[0]@);
        assert(pieces(parts@)[1] == parts@[1]@);
        assert(pieces(parts@)[2] == parts@[2]@);
    }
    let display_id: u32 = match parse_number(&parts[0], u32::MAX as u64) {
        Some(v) => v as u32,
        None => {
            return Err(PendingRestoreError::DisplayId);
        },
    };
    let original_width: u64 = match parse_number(&parts[1], u64::MAX) {
        Some(v) => v,
        None => {
            return Err(PendingRestoreError::Width);
        },
    };
    let original_height: u64 = match parse_number(&parts[2], u64::MAX) {
        Some(v) => v,
        None => {
            return Err(PendingRestoreError::Height);
        },
    };
    Ok(DisplayModeSwitcher::new_with_id(display_id, original_width, original_height))
}

/// What the helper is asked to do.
#[derive(Debug, Clone, Copy, PartialEq, Eq, Structural)]
pub enum HelperCommand {
    Switch { display_id: u32, width: u32, height: u32 },
    Restore { display_id: u32, original_width: u64, original_height: u64 },
}

/// Why the helper's arguments are not understood.
#[derive(Debug, Clone, Copy, PartialEq, Eq, Structural)]
pub enum HelperError {
    Usage,
    DisplayId,
    Width,
    Height,
    UnknownArgument,
}

/// What the helper is asked to do by its arguments, the program's name first.
pub open spec fn helper_command(args: Seq<Seq<char>>) -> Result<HelperCommand, HelperError> {
    if args.len() < 5 {
        Err(HelperError::Usage)
    } else {
        match number(args[2], u32::MAX as nat) {
            None => Err(HelperError::DisplayId),
            Some(id) => {
                if args[1] == switch_flag() {
                    match (number(args[3], u32::MAX as nat), number(args[4], u32::MAX as nat)) {
                        (None, _) => Err(HelperError::Width),
                        (_, None) => Err(HelperError::Height),
                        (Some(w), Some(h)) => Ok(
                            HelperCommand::Switch {
                                display_id: id as u32,
                                width: w as u32,
                                height: h as u32,
                            },
                        ),
                    }
                } else if args[1] == restore_flag() {
                    match (number(args[3], u64::MAX as nat), number(args[4], u64::MAX as nat)) {
                        (None, _) => Err(HelperError::Width),
                        (_, None) => Err(HelperError::Height),
                        (Some(w), Some(h)) => Ok(
                            HelperCommand::Restore {
                                display_id: id as u32,
                                original_width: w as u64,
                                original_height: h as u64,
                            },
                        ),
                    }
                } else {
                    Err(HelperError::UnknownArgument)
                }
            },
        }
    }
}

/// What the helper is asked to do by its arguments, the program's name first.
pub fn parse_helper_args(args: &Vec<String>) -> (r: Result<HelperCommand, HelperError>)
    ensures
        r == helper_command(texts(args@)),
{
    let ghost t = texts(args@);
    if args.len() < 5 {
        return Err(HelperError::Usage);
    }
    proof {
        assert(t[1] == args@[1]@ && t[2] == args@[2]@ && t[3] == args@[3]@ && t[4] == args@[4]@);
    }
    let display_id: u32 = match parse_number(&chars_of(args[2].as_str()), u32::MAX as u64) {
        Some(v) => v as u32,
        None => {
            return Err(HelperError::DisplayId);
        },
    };
    let flag: Vec<char> = chars_of(args[1].as_str());
    let width: Vec<char> = chars_of(args[3].as_str());
    let height: Vec<char> = chars_of(args[4].as_str());
    if text_is(&flag, "--display-mode-switch") {
        match parse_number(&width, u32::MAX as u64) {
            None => Err(HelperError::Width),
            Some(w) => match parse_number(&height, u32::MAX as u64) {
                None => Err(HelperError::Height),
                Some(h) => Ok(
                    HelperCommand::Switch { display_id, width: w as u32, height: h as u32 },
                ),
            },
        }
    } else if text_is(&flag, "--display-mode-restore") {
        match parse_number(&width, u64::MAX) {
            None => Err(HelperError::Width),
            Some(w) => match parse_number(&height, u64::MAX) {
                None => Err(HelperError::Height),
                Some(h) => Ok(
                    HelperCommand::Restore { display_id, original_width: w, original_height: h },
                ),
            },
        }
    } else {
        Err(HelperError::UnknownArgument)
    }
}

/// What the helper does about a request to switch.
#[derive(Debug, Clone, Copy, PartialEq, Eq, Structural)]
pub enum ModeStep {
    /// The display stays in its mode; reply with its size.
    Stay { current_width: u64, current_height: u64 },
    /// Apply the mode at this position, then reply with its size.
    Apply { index: usize, width: u32, height: u32 },
    /// No mode suits.
    NoMode,
}

/// How a display with the given modes, which is in mode `current` if that is
/// known, is brought to `width` by `height`.
pub open spec fn mode_plan(
    modes: Seq<DisplayMode>,
    current: Option<DisplayMode>,
    width: u32,
    height: u32,
) -> ModeStep {
    let now = match current {
        Some(m) => m,
        None => DisplayMode { width: 0, height: 0 },
    };
    if now.width == width && now.height == height {
        ModeStep::Stay { current_width: now.width, current_height: now.height }
    } else {
        match chosen(modes, width, height) {
            None => ModeStep::NoMode,
            Some(i) => {
                let w = modes[i].width as u32;
                let h = modes[i].height as u32;
                if w == now.width as u32 && h == now.height as u32 {
                    ModeStep::Stay { current_width: w as u64, current_height: h as u64 }
                } else {
                    ModeStep::Apply { index: i as usize, width: w, height: h }
                }
            },
        }
    }
}

/// Decides how a display with the given modes, which is in mode `current` if
/// that is known, is brought to `width` by `height`.
pub fn plan_mode_switch(
    modes: &Vec<DisplayMode>,
    current: Option<DisplayMode>,
    width: u32,
    height: u32,
) -> (step: ModeStep)
    ensures
        step == mode_plan(modes@, current, width, height),
{
    let now = match current {
        Some(m) => m,
        None => DisplayMode { width: 0, height: 0 },
    };
    if now.width == width as u64 && now.height == height as u64 {
        return ModeStep::Stay { current_width: now.width, current_height: now.height };
    }
    match choose_mode(modes, width, height) {
        None => ModeStep::NoMode,
        Some(i) => {
            let w: u32 = modes[i].width as u32;
            let h: u32 = modes[i].height as u32;
            if w == now.width as u32 && h == now.height as u32 {
                ModeStep::Stay { current_width: w as u64, current_height: h as u64 }
            } else {
                ModeStep::Apply { index: i, width: w, height: h }
            }
        },
    }
}

/// Digits are not white space.
proof fn lemma_decimal_no_space(n: nat)
    ensures
        decimal(n).len() > 0,
        forall|i: int| 0 <= i < decimal(n).len() ==> !is_space(#[trigger] decimal(n)[i]),
        forall|i: int| 0 <= i < decimal(n).len() ==> #[trigger] decimal(n)[i] != '\n',
{
    lemma_decimal(n);
    assert forall|i: int| 0 <= i < decimal(n).len() implies !is_space(#[trigger] decimal(n)[i]) by {
        assert(is_digit(decimal(n)[i]));
    }
    assert forall|i: int| 0 <= i < decimal(n).len() implies #[trigger] decimal(n)[i] != '\n' by {
        assert(is_digit(decimal(n)[i]));
    }
}

/// The parent process reads from the helper's reply the resolution that the
/// helper wrote.
pub proof fn law_reply_is_understood(width: nat, height: nat)
    requires
        width <= u32::MAX,
        height <= u32::MAX,
    ensures
        reply(reply_line_text(width, height)) == Some((width, height)),
{
    let ok = "OK"@;
    let w = decimal(width);
    let h = decimal(height);
    reveal_strlit("OK");
    lemma_decimal_no_space(width);
    lemma_decimal_no_space(height);
    let line = reply_line_text(width, height);
    let body = ok.push(' ') + (w.push(' ') + h);
    assert(line =~= body.push('\n'));
    assert(body[0] == 'O');
    assert(line[0] == 'O');
    assert(trim_start(line) == line);
    assert(line.drop_last() =~= body);
    assert(body.last() == h.last());
    assert(trim_end(body) == body);
    assert(trim_end(line) == body);
    lemma_words_apart(ok, ' ', w.push(' ') + h);
    lemma_words_apart(w, ' ', h);
    lemma_one_word(ok);
    lemma_one_word(w);
    lemma_one_word(h);
    let parts = words(trimmed(line));
    assert(parts =~= seq![ok, w, h]);
    law_number_reads_decimal(width, u32::MAX as nat);
    law_number_reads_decimal(height, u32::MAX as nat);
}

/// Where the parent process saw the display at the size of its mode, it tells
/// from the helper's reply whether the display was switched: it was if the helper
/// applied a mode, and not if the helper left the display in the mode that it was
/// in.
pub proof fn law_reply_tells_a_switch(
    modes: Seq<DisplayMode>,
    now: DisplayMode,
    width: u32,
    height: u32,
)
    ensures
        ({
            let before_w = now.width as u32;
            let before_h = now.height as u32;
            match mode_plan(modes, Some(now), width, height) {
                ModeStep::Stay { current_width, current_height } => switch_outcome(
                    before_w,
                    before_h,
                    reply(reply_line_text(current_width as nat, current_height as nat)),
                ) == SwitchOutcome::Already(before_w, before_h),
                ModeStep::Apply { width: w, height: h, .. } => switch_outcome(
                    before_w,
                    before_h,
                    reply(reply_line_text(w as nat, h as nat)),
                ) == SwitchOutcome::Switched(w, h),
                ModeStep::NoMode => true,
            }
        }),
{
    match mode_plan(modes, Some(now), width, height) {
        ModeStep::Stay { current_width, current_height } => {
            law_reply_is_understood(current_width as nat, current_height as nat);
        },
        ModeStep::Apply { width: w, height: h, .. } => {
            law_reply_is_understood(w as nat, h as nat);
        },
        ModeStep::NoMode => {},
    }
}

/// A later run reads from the pending restore file the switcher that wrote it.
pub proof fn law_pending_restore_round_trip(s: DisplayModeSwitcher)
    ensures
        pending_switcher(
            pending_text(s.display_id as nat, s.original_width as nat, s.original_height as nat),
        ) == Ok::<DisplayModeSwitcher, PendingRestoreError>(
            DisplayModeSwitcher { switched: true, ..s },
        ),
{
    let id = decimal(s.display_id as nat);
    let w = decimal(s.original_width as nat);
    let h = decimal(s.original_height as nat);
    lemma_decimal_no_space(s.display_id as nat);
    lemma_decimal_no_space(s.original_width as nat);
    lemma_decimal_no_space(s.original_height as nat);
    let text = id.push('\n') + (w.push('\n') + h);
    assert(text[0] == id[0]);
    assert(text.last() == h.last());
    lemma_trimmed_same(text);
    lemma_lines_apart(id, w.push('\n') + h);
    lemma_lines_apart(w, h);
    lemma_one_line(id);
    lemma_one_line(w);
    lemma_one_line(h);
    assert(lines(text) =~= seq![id, w, h]);
    law_number_reads_decimal(s.display_id as nat, u32::MAX as nat);
    law_number_reads_decimal(s.original_width as nat, u64::MAX as nat);
    law_number_reads_decimal(s.original_height as nat, u64::MAX as nat);
}

/// The helper understands a request to switch as it was meant.
pub proof fn law_switch_request_is_understood(
    program: Seq<char>,
    display_id: u32,
    width: u32,
    height: u32,
)
    ensures
        helper_command(
            seq![program] + request(
                switch_flag(),
                display_id as nat,
                width as nat,
                height as nat,
            ),
        ) == Ok::<HelperCommand, HelperError>(HelperCommand::Switch { display_id, width, height }),
{
    law_number_reads_decimal(display_id as nat, u32::MAX as nat);
    law_number_reads_decimal(width as nat, u32::MAX as nat);
    law_number_reads_decimal(height as nat, u32::MAX as nat);
}

/// The helper understands a request to restore as it was meant.
pub proof fn law_restore_request_is_understood(
    program: Seq<char>,
    display_id: u32,
    width: u64,
    height: u64,
)
    ensures
        helper_command(
            seq![program] + request(
                restore_flag(),
                display_id as nat,
                width as nat,
                height as nat,
            ),
        ) == Ok::<HelperCommand, HelperError>(
            HelperCommand::Restore { display_id, original_width: width, original_height: height },
        ),
{
    reveal_strlit("--display-mode-switch");
    reveal_strlit("--display-mode-restore");
    assert(switch_flag().len() != restore_flag().len());
    law_number_reads_decimal(display_id as nat, u32::MAX as nat);
    law_number_reads_decimal(width as nat, u64::MAX as nat);
    law_number_reads_decimal(height as nat, u64::MAX as nat);
}

/// What comes of a switch follows from the reply alone: it failed exactly where
/// no resolution was understood; it changed nothing exactly where the display had
/// that width and that height before; else the display has the resolution of the
/// reply, in this order.
pub proof fn law_switch_outcome(before_w: u32, before_h: u32, w: u32, h: u32)
    ensures
        switch_outcome(before_w, before_h, None) is Failed,
        ({
            let outcome = switch_outcome(before_w, before_h, Some((w as nat, h as nat)));
            &&& outcome is Already <==> before_w == w && before_h == h
            &&& outcome is Switched <==> before_w != w || before_h != h
            &&& outcome == SwitchOutcome::Already(w, h) || outcome == SwitchOutcome::Switched(w, h)
        }),
{
}

/// The helper stays in a mode of the wanted size, and in the mode that it is in
/// where no other suits better. A mode that it applies is one of the display's,
/// is told with its own size, and has another size than the display now.
pub proof fn law_mode_plan(
    modes: Seq<DisplayMode>,
    now: DisplayMode,
    width: u32,
    height: u32,
)
    requires
        modes.len() <= usize::MAX,
        now.width <= u32::MAX,
        now.height <= u32::MAX,
        forall|i: int|
            0 <= i < modes.len() ==> (#[trigger] modes[i]).width <= u32::MAX && modes[i].height
                <= u32::MAX,
    ensures
        now.width == width && now.height == height ==> mode_plan(modes, Some(now), width, height)
            == (ModeStep::Stay { current_width: now.width, current_height: now.height }),
        match mode_plan(modes, Some(now), width, height) {
            ModeStep::Stay { current_width, current_height } => current_width == now.width
                && current_height == now.height,
            ModeStep::Apply { index, width: w, height: h } => {
                &&& index < modes.len()
                &&& modes[index as int].width == w
                &&& modes[index as int].height == h
                &&& w != now.width || h != now.height
                &&& !(now.width == width && now.height == height)
            },
            ModeStep::NoMode => {
                &&& !(now.width == width && now.height == height)
                &&& forall|k: int|
                    0 <= k < modes.len() && large_enough(#[trigger] modes[k], width, height)
                        ==> !(ratio_diff(modes[k], width, height) is Finite)
            },
        },
{
    law_chosen_mode_suits(modes, width, height);
}

/// Where the display's mode is not known, the size of a mode that suits is the
/// one that is applied.
pub proof fn law_unknown_mode_is_replaced(modes: Seq<DisplayMode>, width: u32, height: u32)
    requires
        width > 0 || height > 0,
        modes.len() <= usize::MAX,
    ensures
        match mode_plan(modes, None, width, height) {
            ModeStep::Stay { current_width, current_height } => current_width == 0 && current_height
                == 0,
            ModeStep::Apply { index, width: w, height: h } => {
                &&& index < modes.len()
                &&& w == modes[index as int].width as u32
                &&& h == modes[index as int].height as u32
                &&& large_enough(modes[index as int], width, height)
            },
            ModeStep::NoMode => true,
        },
{
    law_chosen_mode_suits(modes, width, height);
}

/// The first argument that is not understood is the one that is told: their
/// number, the display, what to do, the width, the height.
pub proof fn law_helper_errors(args: Seq<Seq<char>>)
    ensures
        ({
            let command = helper_command(args);
            let limit = if args[1] == switch_flag() {
                u32::MAX as nat
            } else {
                u64::MAX as nat
            };
            let known = args[1] == switch_flag() || args[1] == restore_flag();
            &&& args.len() < 5 <==> command == Err::<HelperCommand, HelperError>(HelperError::Usage)
            &&& args.len() >= 5 ==> {
                &&& number(args[2], u32::MAX as nat) is None <==> command == Err::<
                    HelperCommand,
                    HelperError,
                >(HelperError::DisplayId)
                &&& number(args[2], u32::MAX as nat) is Some ==> {
                    &&& !known <==> command == Err::<HelperCommand, HelperError>(
                        HelperError::UnknownArgument,
                    )
                    &&& known ==> {
                        &&& number(args[3], limit) is None <==> command == Err::<
                            HelperCommand,
                            HelperError,
                        >(HelperError::Width)
                        &&& number(args[3], limit) is Some && number(args[4], limit) is None
                            <==> command == Err::<HelperCommand, HelperError>(HelperError::Height)
                        &&& number(args[3], limit) is Some && number(args[4], limit) is Some
                            <==> command is Ok
                    }
                }
            }
        }),
{
    reveal_strlit("--display-mode-switch");
    reveal_strlit("--display-mode-restore");
    assert(switch_flag().len() != restore_flag().len());
}

/// A pending restore file is refused for the first line that is not understood:
/// their number, the display, the width, the height. It is never about a display
/// that was not switched.
pub proof fn law_pending_restore_errors(s: Seq<char>)
    ensures
        ({
            let found = lines(trimmed(s));
            match pending_switcher(s) {
                Err(PendingRestoreError::Format) => found.len() != 3,
                Err(PendingRestoreError::DisplayId) => found.len() == 3 && number(
                    found[0],
                    u32::MAX as nat,
                ) is None,
                Err(PendingRestoreError::Width) => found.len() == 3 && number(
                    found[0],
                    u32::MAX as nat,
                ) is Some && number(found[1], u64::MAX as nat) is None,
                Err(PendingRestoreError::Height) => found.len() == 3 && number(
                    found[0],
                    u32::MAX as nat,
                ) is Some && number(found[1], u64::MAX as nat) is Some && number(
                    found[2],
                    u64::MAX as nat,
                ) is None,
                Ok(t) => {
                    &&& found.len() == 3
                    &&& t.switched
                    &&& number(found[0], u32::MAX as nat) == Some(t.display_id as nat)
                    &&& number(found[1], u64::MAX as nat) == Some(t.original_width as nat)
                    &&& number(found[2], u64::MAX as nat) == Some(t.original_height as nat)
                },
            }
        }),
{
}

/// A reply is three words: "OK", the width and the height, and nothing else is
/// understood.
pub proof fn law_reply_is_three_words(s: Seq<char>)
    ensures
        reply(s) is Some <==> {
            let found = words(trimmed(s));
            &&& found.len() == 3
            &&& found[0] == seq!['O', 'K']
            &&& number(found[1], u32::MAX as nat) is Some
            &&& number(found[2], u32::MAX as nat) is Some
        },
        reply(s) matches Some((w, h)) ==> {
            let found = words(trimmed(s));
            number(found[1], u32::MAX as nat) == Some(w) && number(found[2], u32::MAX as nat)
                == Some(h)
        },
{
    reveal_strlit("OK");
    assert("OK"@ =~= seq!['O', 'K']);
}

/// The arguments of the helper stand in this order: what to do, the display, the
/// width, the height; what comes after them does not matter.
pub proof fn law_helper_arguments_in_order(args: Seq<Seq<char>>)
    requires
        args.len() >= 5,
    ensures
        helper_command(args) matches Ok(HelperCommand::Switch { display_id, width, height }) ==> {
            &&& args[1] == switch_flag()
            &&& number(args[2], u32::MAX as nat) == Some(display_id as nat)
            &&& number(args[3], u32::MAX as nat) == Some(width as nat)
            &&& number(args[4], u32::MAX as nat) == Some(height as nat)
        },
        helper_command(args) matches Ok(
            HelperCommand::Restore { display_id, original_width, original_height },
        ) ==> {
            &&& args[1] == restore_flag()
            &&& number(args[2], u32::MAX as nat) == Some(display_id as nat)
            &&& number(args[3], u64::MAX as nat) == Some(original_width as nat)
            &&& number(args[4], u64::MAX as nat) == Some(original_height as nat)
        },
        helper_command(args) == helper_command(args.take(5)),
{
}

/// A request asks for the display first, then for the width and the height.
pub proof fn law_request_in_order(flag: Seq<char>, display_id: nat, width: nat, height: nat)
    ensures
        ({
            let args = request(flag, display_id, width, height);
            &&& args.len() == 4
            &&& args[0] == flag
            &&& number(args[1], display_id) == Some(display_id)
            &&& number(args[2], width) == Some(width)
            &&& number(args[3], height) == Some(height)
        }),
{
    law_number_reads_decimal(display_id, display_id);
    law_number_reads_decimal(width, width);
    law_number_reads_decimal(height, height);
}

} // verus!
