//! The credits screen: its entries, the vertical layout of their lines, and the held
//! inputs that set the scroll speed.

use vstd::prelude::*;
use crate::timing::{Samples, sat_sub_i64, saturating_sub_i64};

verus! {

/// One credits block: an optional header and its body lines.
#[derive(Debug, Clone)]
pub struct CreditEntry {
    pub header: Option<String>,
    pub body: Vec<String>,
}

pub open spec fn entry_view(e: CreditEntry) -> (Option<Seq<char>>, Seq<Seq<char>>) {
    (
        match e.header {
            Some(h) => Some(h@),
            None => None,
        },
        e.body@.map_values(|l: String| l@),
    )
}

/// The built-in credits used when the credits data cannot be read.
pub open spec fn fallback_credits_spec() -> Seq<(Option<Seq<char>>, Seq<Seq<char>>)> {
    seq![
        (Some("Friday Night Funkin'"@), seq!["A video game created by"@, "The Funkin' Crew Inc."@]),
        (Some("The Funkin' Crew Inc. Shareholders"@), seq!["ninjamuffin99"@, "PhantomArcade"@, "Kawai Sprite"@, "evilsk8r"@]),
        (Some("Direction and Art Lead"@), seq!["PhantomArcade"@]),
        (Some("Music Lead"@), seq!["Isaac \"Kawai Sprite\" Garcia"@]),
        (Some("Co-Direction and Programming Lead"@), seq!["ninjamuffin99"@]),
        (Some("Production Manager"@), seq!["Hundrec"@]),
        (Some("Artists"@), seq!["PhantomArcade"@, "evilsk8r"@, "beck"@]),
    ]
}

fn entry(header: &str, body: Vec<String>) -> (r: CreditEntry)
    ensures
        entry_view(r) == (Some(header@), body@.map_values(|l: String| l@)),
{
    CreditEntry { header: Some(header.to_owned()), body }
}

fn owned_lines(lines: &[&str]) -> (r: Vec<String>)
    ensures
        r@.map_values(|l: String| l@) == lines@.map_values(|l: &str| l@),
{
    let mut out: Vec<String> = Vec::new();
    let mut i: usize = 0;
    while i < lines.len()
        invariant
            i <= lines.len(),
            out@.map_values(|l: String| l@) == lines@.subrange(0, i as int).map_values(|l: &str| l@),
        decreases lines.len() - i,
    {
        let ghost prev = out@;
        let owned = lines[i].to_owned();
        assert(owned@ == lines@[i as int]@);
        out.push(owned);
        assert(out@.map_values(|l: String| l@) =~= prev.map_values(|l: String| l@).push(owned@));
        assert(lines@.subrange(0, i + 1).map_values(|l: &str| l@) =~= lines@.subrange(0, i as int).map_values(
            |l: &str| l@,
        ).push(lines@[i as int]@));
        i = i + 1;
    }
    assert(lines@.subrange(0, lines@.len() as int) =~= lines@);
    out
}

pub fn fallback_credits() -> (r: Vec<CreditEntry>)
    ensures
        r@.map_values(|e: CreditEntry| entry_view(e)) == fallback_credits_spec(),
{
    let mut out: Vec<CreditEntry> = Vec::new();
    let a1 = ["A video game created by", "The Funkin' Crew Inc."];
    out.push(entry("Friday Night Funkin'", owned_lines(&a1)));
    let a2 = ["ninjamuffin99", "PhantomArcade", "Kawai Sprite", "evilsk8r"];
    out.push(entry("The Funkin' Crew Inc. Shareholders", owned_lines(&a2)));
    let a3 = ["PhantomArcade"];
    out.push(entry("Direction and Art Lead", owned_lines(&a3)));
    let a4 = ["Isaac \"Kawai Sprite\" Garcia"];
    out.push(entry("Music Lead", owned_lines(&a4)));
    let a5 = ["ninjamuffin99"];
    out.push(entry("Co-Direction and Programming Lead", owned_lines(&a5)));
    let a6 = ["Hundrec"];
    out.push(entry("Production Manager", owned_lines(&a6)));
    let a7 = ["PhantomArcade", "evilsk8r", "beck"];
    out.push(entry("Artists", owned_lines(&a7)));
    assert(a1@.map_values(|l: &str| l@) =~= seq!["A video game created by"@, "The Funkin' Crew Inc."@]);
    assert(a2@.map_values(|l: &str| l@) =~= seq!["ninjamuffin99"@, "PhantomArcade"@, "Kawai Sprite"@, "evilsk8r"@]);
    assert(a3@.map_values(|l: &str| l@) =~= seq!["PhantomArcade"@]);
    assert(a4@.map_values(|l: &str| l@) =~= seq!["Isaac \"Kawai Sprite\" Garcia"@]);
    assert(a5@.map_values(|l: &str| l@) =~= seq!["ninjamuffin99"@]);
    assert(a6@.map_values(|l: &str| l@) =~= seq!["Hundrec"@]);
    assert(a7@.map_values(|l: &str| l@) =~= seq!["PhantomArcade"@, "evilsk8r"@, "beck"@]);
    assert(out@.map_values(|e: CreditEntry| entry_view(e)) =~= fallback_credits_spec());
    out
}

/// Vertical space in pixels: a header takes two header heights (32 each), a body line
/// one body height (24), and each block ends with two and a half body heights.
pub const HEADER_ADVANCE: u64 = 64;

pub const BODY_ADVANCE: u64 = 24;

pub const ENTRY_GAP: u64 = 60;

/// The height of one block.
pub open spec fn entry_height(e: CreditEntry) -> int {
    (if e.header is Some { HEADER_ADVANCE as int } else { 0 }) + BODY_ADVANCE * e.body@.len() + ENTRY_GAP
}

/// The height of the blocks before and including the last of `entries`.
pub open spec fn total_height(entries: Seq<CreditEntry>) -> int
    decreases entries.len(),
{
    if entries.len() == 0 {
        0
    } else {
        total_height(entries.drop_last()) + entry_height(entries.last())
    }
}

/// A laid-out line: its text, its offset below the top of the credits, and whether it
/// is a header.
#[derive(Debug, Clone)]
pub struct CreditLine {
    pub text: String,
    pub offset_y: u64,
    pub header: bool,
}

pub open spec fn credit_line_view(l: CreditLine) -> (Seq<char>, int, bool) {
    (l.text@, l.offset_y as int, l.header)
}

/// The lines of one block starting at offset `y`.
pub open spec fn entry_lines(e: CreditEntry, y: int) -> Seq<(Seq<char>, int, bool)> {
    let h = header_lines(e, y);
    let body_top = y + if e.header is Some { HEADER_ADVANCE as int } else { 0 };
    h + Seq::new(e.body@.len(), |i: int| (e.body@[i]@, body_top + BODY_ADVANCE * i, false))
}

pub open spec fn header_lines(e: CreditEntry, y: int) -> Seq<(Seq<char>, int, bool)> {
    match e.header {
        Some(t) => seq![(t@, y, true)],
        None => Seq::empty(),
    }
}

/// Every block's lines, one block after another.
pub open spec fn layout_spec(entries: Seq<CreditEntry>) -> Seq<(Seq<char>, int, bool)>
    decreases entries.len(),
{
    if entries.len() == 0 {
        Seq::empty()
    } else {
        layout_spec(entries.drop_last()) + entry_lines(entries.last(), total_height(entries.drop_last()))
    }
}

proof fn lemma_total_height_mono(entries: Seq<CreditEntry>, i: int)
    requires
        0 <= i <= entries.len(),
    ensures
        total_height(entries.subrange(0, i)) <= total_height(entries),
    decreases entries.len() - i,
{
    if i < entries.len() {
        lemma_total_height_mono(entries, i + 1);
        assert(entries.subrange(0, i + 1).drop_last() =~= entries.subrange(0, i));
    } else {
        assert(entries.subrange(0, i) =~= entries);
    }
}

/// Lays the credits out from offset 0 downwards.
pub fn credit_lines(entries: &Vec<CreditEntry>) -> (r: Vec<CreditLine>)
    requires
        total_height(entries@) <= u64::MAX,
    ensures
        r@.map_values(|l: CreditLine| credit_line_view(l)) == layout_spec(entries@),
{
    let mut out: Vec<CreditLine> = Vec::new();
    let mut y: u64 = 0;
    let mut i: usize = 0;
    while i < entries.len()
        invariant
            i <= entries.len(),
            total_height(entries@) <= u64::MAX,
            y == total_height(entries@.subrange(0, i as int)),
            out@.map_values(|l: CreditLine| credit_line_view(l)) == layout_spec(entries@.subrange(0, i as int)),
        decreases entries.len() - i,
    {
        let e = &entries[i];
        proof {
            assert(entries@.subrange(0, i + 1).drop_last() =~= entries@.subrange(0, i as int));
            lemma_total_height_mono(entries@, i + 1);
        }
        let ghost before = out@.map_values(|l: CreditLine| credit_line_view(l));
        let ghost y0 = y as int;
        match &e.header {
            Some(h) => {
                out.push(CreditLine { text: h.clone(), offset_y: y, header: true });
                y = y + HEADER_ADVANCE;
            },
            None => {},
        }
        let ghost hlines: Seq<(Seq<char>, int, bool)> = header_lines(*e, y0);
        assert(out@.map_values(|l: CreditLine| credit_line_view(l)) =~= before + hlines);
        let ghost body_top = y as int;
        let mut j: usize = 0;
        while j < e.body.len()
            invariant
                j <= e.body.len(),
                e == &entries@[i as int],
                y == body_top + BODY_ADVANCE * j,
                body_top + BODY_ADVANCE * e.body@.len() + ENTRY_GAP <= u64::MAX,
                out@.map_values(|l: CreditLine| credit_line_view(l)) == before + hlines + Seq::new(
                    j as nat,
                    |k: int| (e.body@[k]@, body_top + BODY_ADVANCE * k, false),
                ),
            decreases e.body.len() - j,
        {
            let ghost prev = out@;
            let line = CreditLine { text: e.body[j].clone(), offset_y: y, header: false };
            assert(credit_line_view(line) == (e.body@[j as int]@, body_top + BODY_ADVANCE * j, false));
            out.push(line);
            assert(out@.map_values(|l: CreditLine| credit_line_view(l)) =~= prev.map_values(
                |l: CreditLine| credit_line_view(l),
            ).push(credit_line_view(line)));
            assert(out@.map_values(|l: CreditLine| credit_line_view(l)) =~= before + hlines + Seq::new(
                (j + 1) as nat,
                |k: int| (e.body@[k]@, body_top + BODY_ADVANCE * k, false),
            ));
            y = y + BODY_ADVANCE;
            j = j + 1;
        }
        y = y + ENTRY_GAP;
        assert(out@.map_values(|l: CreditLine| credit_line_view(l)) =~= before + entry_lines(*e, y0));
        i = i + 1;
    }
    assert(entries@.subrange(0, entries@.len() as int) =~= entries@);
    out
}

/// Scroll speeds in pixels per second.
pub const CREDITS_SCROLL_BASE_SPEED: u32 = 100;

pub const CREDITS_SCROLL_FAST_SPEED: u32 = 400;

pub const CREDITS_SCROLL_PAUSE_SPEED: u32 = 0;

/// Held scroll inputs and the last cursor the scroll advanced to.
#[derive(Debug, Clone, Copy, PartialEq, Eq, Structural, Default)]
pub struct CreditsScrollState {
    pub last_cursor: Option<Samples>,
    pub fast_held: bool,
    pub pause_held: bool,
}

impl CreditsScrollState {
    /// Holding fast wins over holding pause; neither scrolls at the base speed.
    pub open spec fn speed_spec(self) -> u32 {
        if self.fast_held {
            CREDITS_SCROLL_FAST_SPEED
        } else if self.pause_held {
            CREDITS_SCROLL_PAUSE_SPEED
        } else {
            CREDITS_SCROLL_BASE_SPEED
        }
    }

    pub fn new() -> (r: Self)
        ensures
            r.last_cursor is None && !r.fast_held && !r.pause_held,
    {
        CreditsScrollState { last_cursor: None, fast_held: false, pause_held: false }
    }

    pub fn reset(&mut self)
        ensures
            final(self).last_cursor is None && !final(self).fast_held && !final(self).pause_held,
    {
        *self = CreditsScrollState::new();
    }

    pub fn set_fast_held(&mut self, held: bool)
        ensures
            *final(self) == (CreditsScrollState { fast_held: held, ..*old(self) }),
    {
        self.fast_held = held;
    }

    pub fn set_pause_held(&mut self, held: bool)
        ensures
            *final(self) == (CreditsScrollState { pause_held: held, ..*old(self) }),
    {
        self.pause_held = held;
    }

    pub fn speed(self) -> (r: u32)
        ensures
            r == self.speed_spec(),
    {
        if self.fast_held {
            CREDITS_SCROLL_FAST_SPEED
        } else if self.pause_held {
            CREDITS_SCROLL_PAUSE_SPEED
        } else {
            CREDITS_SCROLL_BASE_SPEED
        }
    }

    /// Moves to `cursor`: returns the samples elapsed since the last cursor (none the
    /// first time) and the speed to scroll them at.
    pub fn advance(&mut self, cursor: Samples) -> (r: (i64, u32))
        ensures
            final(self).last_cursor == Some(cursor),
            final(self).fast_held == old(self).fast_held,
            final(self).pause_held == old(self).pause_held,
            r.1 == old(self).speed_spec(),
            r.0 == match old(self).last_cursor {
                Some(last) => sat_sub_i64(cursor.0, last.0),
                None => 0,
            },
    {
        let delta = match self.last_cursor {
            Some(last) => saturating_sub_i64(cursor.0, last.0),
            None => 0,
        };
        self.last_cursor = Some(cursor);
        (delta, self.speed())
    }
}

} // verus!
