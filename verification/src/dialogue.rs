//! Pre-song dialogue: conversation lines and the typewriter that reveals them.

use vstd::prelude::*;
use std::time::Duration;
use crate::clock::{duration_nanos, nanos_of};
use crate::text::{chars_of, push_char};

verus! {

/// One line of dialogue: who speaks, the box style, the text, and the typewriter delay
/// per character in milliseconds.
#[derive(Debug, Clone)]
pub struct DialogueLine {
    pub speaker: String,
    pub box_id: String,
    pub text: String,
    pub speed_millis: u16,
}

/// A conversation entry as written: optional speaker and box (`boxId`, or the `box`
/// alias), the per-character delay already in milliseconds, and its lines of text.
#[derive(Debug, Clone)]
pub struct RawDialogueEntry {
    pub speaker: Option<String>,
    pub box_id: Option<String>,
    pub box_alias: Option<String>,
    pub speed_millis: u16,
    pub text: Vec<String>,
}

pub open spec fn or_empty(o: Option<String>) -> Seq<char> {
    match o {
        Some(s) => s@,
        None => Seq::empty(),
    }
}

/// The box of an entry: `boxId`, else `box`, else empty.
pub open spec fn entry_box(e: RawDialogueEntry) -> Seq<char> {
    match e.box_id {
        Some(b) => b@,
        None => or_empty(e.box_alias),
    }
}

/// A flattened line's view: speaker, box, text, delay.
pub open spec fn line_view(l: DialogueLine) -> (Seq<char>, Seq<char>, Seq<char>, u16) {
    (l.speaker@, l.box_id@, l.text@, l.speed_millis)
}

/// Every text of every entry becomes one line, carrying its entry's speaker, box and
/// delay, in order.
pub open spec fn flatten_spec(entries: Seq<RawDialogueEntry>) -> Seq<(Seq<char>, Seq<char>, Seq<char>, u16)>
    decreases entries.len(),
{
    if entries.len() == 0 {
        Seq::empty()
    } else {
        let e = entries.last();
        flatten_spec(entries.drop_last()) + e.text@.map_values(
            |t: String| (or_empty(e.speaker), entry_box(e), t@, e.speed_millis),
        )
    }
}

fn owned_or_empty(o: &Option<String>) -> (r: String)
    ensures
        r@ == or_empty(*o),
{
    match o {
        Some(s) => s.clone(),
        None => String::new(),
    }
}

pub fn flatten_dialogue(entries: &Vec<RawDialogueEntry>) -> (r: Vec<DialogueLine>)
    ensures
        r@.map_values(|l: DialogueLine| line_view(l)) == flatten_spec(entries@),
{
    let mut out: Vec<DialogueLine> = Vec::new();
    let mut i: usize = 0;
    while i < entries.len()
        invariant
            i <= entries.len(),
            out@.map_values(|l: DialogueLine| line_view(l)) == flatten_spec(entries@.subrange(0, i as int)),
        decreases entries.len() - i,
    {
        let e = &entries[i];
        let speaker = owned_or_empty(&e.speaker);
        let box_id = match &e.box_id {
            Some(b) => b.clone(),
            None => owned_or_empty(&e.box_alias),
        };
        let ghost before = out@.map_values(|l: DialogueLine| line_view(l));
        let mut j: usize = 0;
        while j < e.text.len()
            invariant
                j <= e.text.len(),
                e == &entries@[i as int],
                speaker@ == or_empty(e.speaker),
                box_id@ == entry_box(*e),
                out@.map_values(|l: DialogueLine| line_view(l)) == before + e.text@.subrange(0, j as int).map_values(
                    |t: String| (or_empty(e.speaker), entry_box(*e), t@, e.speed_millis),
                ),
            decreases e.text.len() - j,
        {
            let ghost old_out = out@;
            let line = DialogueLine {
                speaker: speaker.clone(),
                box_id: box_id.clone(),
                text: e.text[j].clone(),
                speed_millis: e.speed_millis,
            };
            assert(line_view(line) == (or_empty(e.speaker), entry_box(*e), e.text@[j as int]@, e.speed_millis));
            out.push(line);
            proof {
                assert(out@.map_values(|l: DialogueLine| line_view(l)) =~= old_out.map_values(
                    |l: DialogueLine| line_view(l),
                ).push(line_view(line)));
                assert(e.text@.subrange(0, j + 1).map_values(
                    |t: String| (or_empty(e.speaker), entry_box(*e), t@, e.speed_millis),
                ) =~= e.text@.subrange(0, j as int).map_values(
                    |t: String| (or_empty(e.speaker), entry_box(*e), t@, e.speed_millis),
                ).push((or_empty(e.speaker), entry_box(*e), e.text@[j as int]@, e.speed_millis)));
                assert(out@.map_values(|l: DialogueLine| line_view(l)) =~= before + e.text@.subrange(0, j + 1).map_values(
                    |t: String| (or_empty(e.speaker), entry_box(*e), t@, e.speed_millis),
                ));
            }
            j = j + 1;
        }
        proof {
            assert(e.text@.subrange(0, e.text@.len() as int) =~= e.text@);
            assert(entries@.subrange(0, i + 1).drop_last() =~= entries@.subrange(0, i as int));
        }
        i = i + 1;
    }
    assert(entries@.subrange(0, entries@.len() as int) =~= entries@);
    out
}

#[derive(Debug, Clone, Copy, PartialEq, Eq, Structural)]
pub enum DialogueAdvance {
    Skipped,
    Advanced,
    Finished,
}

/// A conversation in progress: its lines, the line shown, when it started showing
/// (nanoseconds on a monotonic clock), and whether its typewriter was skipped.
#[derive(Debug, Clone)]
pub struct DialogueState {
    pub lines: Vec<DialogueLine>,
    pub selected_line: usize,
    pub line_started_nanos: u128,
    pub skipped_line: bool,
}

/// Characters the typewriter shows `elapsed` nanoseconds into a line of `len`
/// characters: one at once and one more per delay (at least 1 ms), all once skipped.
pub open spec fn visible_count_spec(len: int, speed_millis: u16, elapsed: int, skipped: bool) -> int {
    if skipped {
        len
    } else {
        let delay = (if speed_millis == 0 { 1 } else { speed_millis as int }) * 1_000_000;
        let shown = elapsed / delay + 1;
        if shown < len { shown } else { len }
    }
}

impl DialogueState {
    pub open spec fn elapsed_at(&self, now: int) -> int {
        if now > self.line_started_nanos { now - self.line_started_nanos } else { 0 }
    }

    pub open spec fn visible_count_at(&self, now: int) -> int {
        if self.selected_line < self.lines.len() {
            let line = self.lines@[self.selected_line as int];
            visible_count_spec(line.text@.len() as int, line.speed_millis, self.elapsed_at(now), self.skipped_line)
        } else {
            0
        }
    }

    pub open spec fn complete_at(&self, now: int) -> bool {
        self.selected_line >= self.lines.len() || self.visible_count_at(now) >= self.lines@[self.selected_line as int].text@.len()
    }

    /// A conversation showing its first line from `now`.
    pub fn new(lines: Vec<DialogueLine>, now: Duration) -> (r: Self)
        ensures
            r.lines@ == lines@,
            r.selected_line == 0,
            r.line_started_nanos == duration_nanos(now),
            !r.skipped_line,
    {
        DialogueState { lines, selected_line: 0, line_started_nanos: nanos_of(now), skipped_line: false }
    }

    pub fn current_line(&self) -> (r: Option<&DialogueLine>)
        ensures
            self.selected_line < self.lines.len() ==> r == Some(&self.lines@[self.selected_line as int]),
            self.selected_line >= self.lines.len() ==> r is None,
    {
        if self.selected_line < self.lines.len() {
            Some(&self.lines[self.selected_line])
        } else {
            None
        }
    }

    fn visible_char_count_at(&self, now_nanos: u128) -> (r: usize)
        requires
            self.selected_line < self.lines.len(),
        ensures
            r == self.visible_count_at(now_nanos as int),
            r <= self.lines@[self.selected_line as int].text@.len(),
    {
        let line = &self.lines[self.selected_line];
        let len = line.text.unicode_len();
        if self.skipped_line {
            return len;
        }
        let delay: u128 = (if line.speed_millis == 0 { 1 } else { line.speed_millis as u128 }) * 1_000_000;
        let elapsed: u128 = if now_nanos > self.line_started_nanos { now_nanos - self.line_started_nanos } else { 0 };
        assert(elapsed / delay < u128::MAX) by (nonlinear_arith)
            requires delay >= 1_000_000;
        let shown: u128 = elapsed / delay + 1;
        if shown < (len as u128) { shown as usize } else { len }
    }

    /// Whether the line shown has been fully revealed at `now` (true with no line).
    pub fn current_line_complete_at(&self, now: Duration) -> (r: bool)
        ensures
            r == self.complete_at(duration_nanos(now) as int),
    {
        if self.selected_line >= self.lines.len() {
            return true;
        }
        let n = nanos_of(now);
        self.visible_char_count_at(n) >= self.lines[self.selected_line].text.unicode_len()
    }

    /// The revealed part of the line shown at `now`.
    pub fn visible_text_at(&self, now: Duration) -> (r: String)
        ensures
            self.selected_line < self.lines.len() ==> r@ == self.lines@[self.selected_line as int].text@.subrange(
                0,
                self.visible_count_at(duration_nanos(now) as int),
            ),
            self.selected_line >= self.lines.len() ==> r@.len() == 0,
    {
        let mut out = String::new();
        if self.selected_line >= self.lines.len() {
            return out;
        }
        let k = self.visible_char_count_at(nanos_of(now));
        let chars = chars_of(self.lines[self.selected_line].text.as_str());
        let mut i: usize = 0;
        while i < k
            invariant
                i <= k,
                k <= chars@.len(),
                out@ == chars@.subrange(0, i as int),
            decreases k - i,
        {
            push_char(&mut out, chars[i]);
            i = i + 1;
            assert(out@ =~= chars@.subrange(0, i as int));
        }
        out
    }

    /// Confirm: a line still typing is revealed whole; a revealed line gives way to the
    /// next, restarting the typewriter at `now`; after the last line the dialogue ends.
    pub fn advance(&mut self, now: Duration) -> (r: DialogueAdvance)
        ensures
            final(self).lines@ == old(self).lines@,
            !old(self).complete_at(duration_nanos(now) as int) ==> r == DialogueAdvance::Skipped
                && final(self).skipped_line && final(self).selected_line == old(self).selected_line
                && final(self).line_started_nanos == old(self).line_started_nanos,
            old(self).complete_at(duration_nanos(now) as int) && old(self).selected_line + 1 >= old(self).lines.len()
                ==> r == DialogueAdvance::Finished && final(self).selected_line == old(self).selected_line
                && final(self).skipped_line == old(self).skipped_line
                && final(self).line_started_nanos == old(self).line_started_nanos,
            old(self).complete_at(duration_nanos(now) as int) && old(self).selected_line + 1 < old(self).lines.len()
                ==> r == DialogueAdvance::Advanced && final(self).selected_line == old(self).selected_line + 1
                && !final(self).skipped_line && final(self).line_started_nanos == duration_nanos(now),
    {
        if !self.current_line_complete_at(now) {
            self.skipped_line = true;
            return DialogueAdvance::Skipped;
        }
        if self.selected_line >= self.lines.len() || self.selected_line + 1 >= self.lines.len() {
            return DialogueAdvance::Finished;
        }
        self.selected_line = self.selected_line + 1;
        self.line_started_nanos = nanos_of(now);
        self.skipped_line = false;
        DialogueAdvance::Advanced
    }
}

/// Skipping reveals the whole line: after a confirm that skipped, the line is complete
/// at any time, so the next confirm advances or finishes.
pub proof fn law_skip_completes_line(s: DialogueState, now: int)
    requires
        s.selected_line < s.lines.len(),
        s.skipped_line,
    ensures
        s.complete_at(now),
{
}

} // verus!
