//! The boot screen: the boot messages typed out one character per step, then
//! an overlay that fades out. Times are readings of a monotonic clock in
//! nanoseconds, handed in by the caller; the overlay's opacity is held in
//! percent.

use crate::text::{chars_of, string_of, sub_vec};
use vstd::prelude::*;

verus! {

/// The time between two typed characters: 8 ms.
pub const TYPING_STEP_NANOS: u128 = 8_000_000;

/// How much opacity the overlay loses per step, in percent.
pub const FADE_STEP_PCT: u32 = 8;

/// Where the boot screen is.
#[derive(Clone, Copy, Debug, PartialEq, Eq, Structural)]
pub enum BootPhase {
    /// Typing line `line`, whose first `char_pos` characters are shown; the
    /// last step was at `timer_nanos`.
    Typing { line: usize, char_pos: usize, timer_nanos: u128 },
    /// The overlay fades out; its opacity in percent.
    FadeIn { alpha_pct: u32 },
    Done,
}

#[derive(Debug)]
pub struct BootAnimation {
    pub phase: BootPhase,
    /// The boot messages.
    pub lines: Vec<String>,
    /// What is shown of them so far: one entry per line begun.
    pub displayed: Vec<String>,
    /// When the animation was made.
    pub start_nanos: u128,
}

pub open spec fn texts(v: Seq<String>) -> Seq<Seq<char>> {
    v.map_values(|s: String| s@)
}

/// Whether a character takes one byte in UTF-8.
pub open spec fn one_byte(c: char) -> bool {
    (c as u32) < 0x80
}

/// Whether the step clock says a character is due: at least 8 ms since the
/// last step (a reading earlier than the last step counts as no time).
pub open spec fn step_due(timer: u128, now: u128) -> bool {
    now >= timer && now - timer >= TYPING_STEP_NANOS
}

/// The state after one update at time `now`, and whether the animation is
/// over. While typing, a due step shows one more character of the line;
/// a finished line starts the next one, and the last one starts the fade.
/// Each fade step takes 8 percent off the opacity; at 0 the animation is done.
pub open spec fn boot_step(
    phase: BootPhase,
    lines: Seq<Seq<char>>,
    displayed: Seq<Seq<char>>,
    now: u128,
) -> (BootPhase, Seq<Seq<char>>, bool) {
    match phase {
        BootPhase::Typing { line, char_pos, timer_nanos } => {
            if !step_due(timer_nanos, now) {
                (phase, displayed, false)
            } else {
                let cur = lines[line as int];
                let grows = char_pos + 1 <= cur.len();
                let pos: int = if grows {
                    char_pos + 1
                } else {
                    char_pos as int
                };
                let shown = if grows {
                    displayed.update(line as int, cur.take(pos))
                } else {
                    displayed
                };
                if pos >= cur.len() {
                    if line + 1 >= lines.len() {
                        (BootPhase::FadeIn { alpha_pct: 100 }, shown, false)
                    } else {
                        (
                            BootPhase::Typing { line: (line + 1) as usize, char_pos: 0, timer_nanos: now },
                            shown.push(Seq::empty()),
                            false,
                        )
                    }
                } else {
                    (BootPhase::Typing { line, char_pos: pos as usize, timer_nanos: now }, shown, false)
                }
            }
        },
        BootPhase::FadeIn { alpha_pct } => {
            let a: u32 = if alpha_pct >= FADE_STEP_PCT {
                (alpha_pct - FADE_STEP_PCT) as u32
            } else {
                0
            };
            if a == 0 {
                (BootPhase::Done, displayed, true)
            } else {
                (BootPhase::FadeIn { alpha_pct: a }, displayed, false)
            }
        },
        BootPhase::Done => (phase, displayed, true),
    }
}

/// The messages of the boot screen, the first naming the version.
pub open spec fn boot_lines(version: Seq<char>) -> Seq<Seq<char>> {
    seq![
        "eDEX-DE v"@ + version + " — Wayland Desktop Environment"@,
        "Initializing Wayland compositor..."@,
        "Loading wgpu renderer (Vulkan)..."@,
        "Mounting filesystem interface..."@,
        "Starting terminal emulator..."@,
        "Connecting system monitor..."@,
        "Boot sequence complete."@,
    ]
}

impl BootAnimation {
    /// The animation's invariant: while typing, the lines before the current
    /// one are shown whole, and the current one up to its position, whose
    /// characters each take one byte.
    pub open spec fn wf(&self) -> bool {
        match self.phase {
            BootPhase::Typing { line, char_pos, .. } => {
                &&& line < self.lines@.len()
                &&& self.displayed@.len() == line + 1
                &&& char_pos <= self.lines@[line as int]@.len()
                &&& self.displayed@[line as int]@ == self.lines@[line as int]@.take(char_pos as int)
                &&& forall|k: int| 0 <= k < char_pos ==> one_byte(#[trigger] self.lines@[line as int]@[k])
                &&& forall|i: int| 0 <= i < line ==> #[trigger] self.displayed@[i]@ == self.lines@[i]@
            },
            _ => true,
        }
    }

    /// Whether an update at `now` can type the next character: a typed
    /// prefix is cut by bytes, so the next character must take one byte.
    pub open spec fn next_char_fits(&self, now: u128) -> bool {
        match self.phase {
            BootPhase::Typing { line, char_pos, timer_nanos } => step_due(timer_nanos, now)
                && char_pos < self.lines@[line as int]@.len() ==> one_byte(
                self.lines@[line as int]@[char_pos as int],
            ),
            _ => true,
        }
    }

    /// The boot screen at its start, at time `now`, for the package `version`.
    pub fn new(version: &str, now_nanos: u128) -> (b: Self)
        ensures
            b.wf(),
            b.phase == (BootPhase::Typing { line: 0, char_pos: 0, timer_nanos: now_nanos }),
            texts(b.lines@) == boot_lines(version@),
            texts(b.displayed@) == seq![Seq::<char>::empty()],
            b.start_nanos == now_nanos,
    {
        let mut first = String::from_str("eDEX-DE v");
        first.append(version);
        first.append(" — Wayland Desktop Environment");
        let mut lines: Vec<String> = Vec::new();
        lines.push(first);
        lines.push(String::from_str("Initializing Wayland compositor..."));
        lines.push(String::from_str("Loading wgpu renderer (Vulkan)..."));
        lines.push(String::from_str("Mounting filesystem interface..."));
        lines.push(String::from_str("Starting terminal emulator..."));
        lines.push(String::from_str("Connecting system monitor..."));
        lines.push(String::from_str("Boot sequence complete."));
        let mut displayed: Vec<String> = Vec::new();
        displayed.push(String::new());
        proof {
            assert(texts(lines@) =~= boot_lines(version@));
            assert(texts(displayed@) =~= seq![Seq::<char>::empty()]);
            assert(lines@[0]@.take(0) =~= Seq::<char>::empty());
        }
        BootAnimation {
            phase: BootPhase::Typing { line: 0, char_pos: 0, timer_nanos: now_nanos },
            lines,
            displayed,
            start_nanos: now_nanos,
        }
    }

    /// Advance the boot screen at time `now`; returns whether it is over.
    pub fn update(&mut self, now_nanos: u128) -> (done: bool)
        requires
            old(self).wf(),
            old(self).next_char_fits(now_nanos),
        ensures
            final(self).wf(),
            final(self).lines == old(self).lines,
            final(self).start_nanos == old(self).start_nanos,
            (final(self).phase, texts(final(self).displayed@), done) == boot_step(
                old(self).phase,
                texts(old(self).lines@),
                texts(old(self).displayed@),
                now_nanos,
            ),
    {
        match self.phase {
            BootPhase::Typing { line, char_pos, timer_nanos } => {
                if now_nanos < timer_nanos || now_nanos - timer_nanos < TYPING_STEP_NANOS {
                    return false;
                }
                let cur = chars_of(self.lines[line].as_str());
                let ghost d0 = self.displayed@;
                let mut pos = char_pos;
                if char_pos < cur.len() {
                    let next_len = char_pos + 1;
                    let shown = string_of(sub_vec(cur.as_slice(), 0, next_len).as_slice());
                    self.displayed.set(line, shown);
                    pos = next_len;
                    proof {
                        assert(texts(self.displayed@) =~= texts(d0).update(
                            line as int,
                            cur@.take(next_len as int),
                        ));
                        assert(cur@.subrange(0, next_len as int) =~= cur@.take(next_len as int));
                    }
                }
                if pos >= cur.len() {
                    if line >= self.lines.len() - 1 {
                        self.phase = BootPhase::FadeIn { alpha_pct: 100 };
                    } else {
                        let ghost d1 = self.displayed@;
                        self.phase = BootPhase::Typing { line: line + 1, char_pos: 0, timer_nanos: now_nanos };
                        self.displayed.push(String::new());
                        proof {
                            assert(texts(self.displayed@) =~= texts(d1).push(Seq::empty()));
                            assert(self.lines@[line + 1]@.take(0) =~= Seq::<char>::empty());
                            assert forall|i: int| 0 <= i < line + 1 implies #[trigger] self.displayed@[i]@
                                == self.lines@[i]@ by {
                                if i == line {
                                    assert(cur@.take(cur@.len() as int) =~= cur@);
                                }
                            }
                        }
                    }
                } else {
                    self.phase = BootPhase::Typing { line, char_pos: pos, timer_nanos: now_nanos };
                }
                false
            },
            BootPhase::FadeIn { alpha_pct } => {
                let a = if alpha_pct >= FADE_STEP_PCT {
                    alpha_pct - FADE_STEP_PCT
                } else {
                    0
                };
                if a == 0 {
                    self.phase = BootPhase::Done;
                    true
                } else {
                    self.phase = BootPhase::FadeIn { alpha_pct: a };
                    false
                }
            },
            BootPhase::Done => true,
        }
    }

    /// What is shown of the boot messages so far.
    pub fn current_lines(&self) -> (r: &[String])
        ensures
            r@ == self.displayed@,
    {
        self.displayed.as_slice()
    }

    /// The overlay's opacity in percent: full while typing, then fading.
    pub fn overlay_alpha(&self) -> (r: u32)
        ensures
            r == match self.phase {
                BootPhase::Typing { .. } => 100,
                BootPhase::FadeIn { alpha_pct } => alpha_pct,
                BootPhase::Done => 0,
            },
    {
        match self.phase {
            BootPhase::Typing { .. } => 100,
            BootPhase::FadeIn { alpha_pct } => alpha_pct,
            BootPhase::Done => 0,
        }
    }
}

} // verus!
