//! The Freeplay capsule list (the random capsule, then the songs), its DJ and entry
//! slide, and how the menus move their cursors.

use vstd::prelude::*;
use vstd::arithmetic::div_mod::{lemma_small_mod, lemma_mod_bound, lemma_fundamental_div_mod,
    lemma_fundamental_div_mod_converse, lemma_add_mod_noop, lemma_add_mod_noop_right};
use crate::dj::{DjClock, reset_intro_spec, enter_confirm_spec, player_action_spec, tick_spec, tick_fits};
use crate::songs::{PreviewSong, same_song, VARIATION_BF, VARIATION_PICO};
use crate::text::str_eq;
use crate::timing::Samples;

verus! {

/// What a capsule of the Freeplay list opens: a random song, or a song.
#[derive(Debug, Clone, Copy)]
pub enum CapsuleKind {
    Random,
    Song(PreviewSong),
}

/// The song a capsule opens, if it names one.
pub open spec fn song_of(c: CapsuleKind) -> Option<PreviewSong> {
    match c {
        CapsuleKind::Song(s) => Some(s),
        CapsuleKind::Random => None,
    }
}

/// Whether a capsule opens `song` (songs are told apart by folder).
pub open spec fn holds_song(c: CapsuleKind, song: PreviewSong) -> bool {
    match c {
        CapsuleKind::Song(s) => same_song(s, song),
        CapsuleKind::Random => false,
    }
}

/// The capsules of a song list: the random capsule, then one per song in order.
pub open spec fn song_capsules(songs: Seq<PreviewSong>) -> Seq<CapsuleKind> {
    seq![CapsuleKind::Random] + songs.map_values(|s: PreviewSong| CapsuleKind::Song(s))
}

/// The random pick for `seed` among the capsules after the first: index `seed % n + 1`
/// for `n` such capsules, with its song when it opens one.
pub open spec fn random_choice(capsules: Seq<CapsuleKind>, seed: usize) -> Option<(usize, PreviewSong)> {
    if capsules.len() <= 1 {
        None
    } else {
        let index = (seed % ((capsules.len() - 1) as usize) + 1) as usize;
        match song_of(capsules[index as int]) {
            Some(song) => Some((index, song)),
            None => None,
        }
    }
}

/// In a list built from songs, a random pick is made whenever there is a song, and it
/// is a song capsule: never the random capsule itself.
pub proof fn law_random_pick_is_a_song(songs: Seq<PreviewSong>, seed: usize)
    requires
        0 < songs.len() < usize::MAX,
    ensures
        random_choice(song_capsules(songs), seed) matches Some((index, song)) && 1 <= index
            < song_capsules(songs).len() && song == songs[index - 1],
{
    let caps = song_capsules(songs);
    assert(caps.len() == songs.len() + 1);
    let n = (caps.len() - 1) as usize;
    lemma_mod_bound(seed as int, n as int);
    let index = (seed % n + 1) as usize;
    assert(caps[index as int] == CapsuleKind::Song(songs[index - 1]));
}

/// The capsule list of the Freeplay menu, its DJ when one was loaded, and the cursor at
/// which its entry slide began (none before the menu was entered).
pub struct FreeplayAssets {
    pub capsules: Vec<CapsuleKind>,
    pub dj: Option<DjClock>,
    pub enter_started_at: Option<Samples>,
}

/// The DJ after a change that applies only when there is one.
pub open spec fn map_dj(dj: Option<DjClock>, f: spec_fn(DjClock) -> DjClock) -> Option<DjClock> {
    match dj {
        Some(d) => Some(f(d)),
        None => None,
    }
}

impl FreeplayAssets {
    /// The list for `songs`, behind the random capsule, with no entry slide begun.
    pub fn new(songs: &Vec<PreviewSong>, dj: Option<DjClock>) -> (r: Self)
        ensures
            r.capsules@ == song_capsules(songs@),
            r.dj == dj,
            r.enter_started_at is None,
    {
        let mut capsules: Vec<CapsuleKind> = Vec::new();
        capsules.push(CapsuleKind::Random);
        let mut i: usize = 0;
        while i < songs.len()
            invariant
                i <= songs.len(),
                capsules@ == seq![CapsuleKind::Random] + songs@.take(i as int).map_values(
                    |s: PreviewSong| CapsuleKind::Song(s),
                ),
            decreases songs.len() - i,
        {
            capsules.push(CapsuleKind::Song(songs[i]));
            proof {
                assert(songs@.take(i + 1) =~= songs@.take(i as int).push(songs@[i as int]));
            }
            i = i + 1;
            assert(capsules@ =~= seq![CapsuleKind::Random] + songs@.take(i as int).map_values(
                |s: PreviewSong| CapsuleKind::Song(s),
            ));
        }
        assert(songs@.take(songs@.len() as int) =~= songs@);
        FreeplayAssets { capsules, dj, enter_started_at: None }
    }

    /// The number of capsules, the random one included.
    pub fn item_count(&self) -> (r: usize)
        ensures
            r == self.capsules@.len(),
    {
        self.capsules.len()
    }

    /// The song of the capsule at `index`: none for the random capsule or past the end.
    pub fn song_at(&self, index: usize) -> (r: Option<PreviewSong>)
        ensures
            r == (if index < self.capsules@.len() { song_of(self.capsules@[index as int]) } else { None }),
    {
        if index < self.capsules.len() {
            match self.capsules[index] {
                CapsuleKind::Song(song) => Some(song),
                CapsuleKind::Random => None,
            }
        } else {
            None
        }
    }

    /// Whether the capsule at `index` is the random one.
    pub fn is_random_at(&self, index: usize) -> (r: bool)
        ensures
            r == (index < self.capsules@.len() && self.capsules@[index as int] is Random),
    {
        index < self.capsules.len() && match self.capsules[index] {
            CapsuleKind::Random => true,
            CapsuleKind::Song(_) => false,
        }
    }

    /// The first capsule that opens `song`.
    pub fn index_of(&self, song: PreviewSong) -> (r: Option<usize>)
        ensures
            match r {
                Some(i) => i < self.capsules@.len() && holds_song(self.capsules@[i as int], song)
                    && forall|j: int| 0 <= j < i ==> !holds_song(#[trigger] self.capsules@[j], song),
                None => forall|j: int|
                    0 <= j < self.capsules@.len() ==> !holds_song(#[trigger] self.capsules@[j], song),
            },
    {
        let mut i: usize = 0;
        while i < self.capsules.len()
            invariant
                i <= self.capsules@.len(),
                forall|j: int| 0 <= j < i ==> !holds_song(#[trigger] self.capsules@[j], song),
            decreases self.capsules.len() - i,
        {
            let found = match self.capsules[i] {
                CapsuleKind::Song(s) => s.is(&song),
                CapsuleKind::Random => false,
            };
            if found {
                return Some(i);
            }
            i = i + 1;
        }
        None
    }

    /// A random song for a seed read off a clock (the nanoseconds since start-up): the
    /// capsule `seed % n + 1` among the `n` capsules after the random one, with its song.
    pub fn choose_random_song(&self, seed: u128) -> (r: Option<(usize, PreviewSong)>)
        ensures
            r == random_choice(self.capsules@, seed as usize),
    {
        let count = self.capsules.len();
        if count <= 1 {
            return None;
        }
        let index: usize = (seed as usize) % (count - 1) + 1;
        match self.song_at(index) {
            Some(song) => Some((index, song)),
            None => None,
        }
    }

    /// Enters the menu at `cursor`: the slide-in starts and the DJ replays its intro.
    pub fn reset_dj_intro(&mut self, cursor: Samples)
        ensures
            final(self).capsules@ == old(self).capsules@,
            final(self).enter_started_at == Some(cursor),
            final(self).dj == map_dj(old(self).dj, |d: DjClock| reset_intro_spec(d, cursor)),
    {
        self.enter_started_at = Some(cursor);
        match &mut self.dj {
            Some(dj) => dj.reset_intro(cursor),
            None => {},
        }
    }

    /// A song was picked: the DJ plays its confirm animation from `cursor`.
    pub fn dj_enter_confirm(&mut self, cursor: Samples)
        ensures
            final(self).capsules@ == old(self).capsules@,
            final(self).enter_started_at == old(self).enter_started_at,
            final(self).dj == map_dj(old(self).dj, |d: DjClock| enter_confirm_spec(d, cursor)),
    {
        match &mut self.dj {
            Some(dj) => dj.enter_confirm(cursor),
            None => {},
        }
    }

    /// The player acted: an idling DJ returns to idle at `cursor`.
    pub fn dj_on_player_action(&mut self, cursor: Samples)
        ensures
            final(self).capsules@ == old(self).capsules@,
            final(self).enter_started_at == old(self).enter_started_at,
            final(self).dj == map_dj(old(self).dj, |d: DjClock| player_action_spec(d, cursor)),
    {
        match &mut self.dj {
            Some(dj) => dj.on_player_action(cursor),
            None => {},
        }
    }

    /// Advances the DJ's state machine to `cursor`.
    pub fn tick(&mut self, cursor: Samples, sample_rate: u32)
        requires
            old(self).dj matches Some(d) ==> tick_fits(d, sample_rate),
        ensures
            final(self).capsules@ == old(self).capsules@,
            final(self).enter_started_at == old(self).enter_started_at,
            final(self).dj == map_dj(old(self).dj, |d: DjClock| tick_spec(d, cursor, sample_rate)),
    {
        match &mut self.dj {
            Some(dj) => dj.tick(cursor, sample_rate),
            None => {},
        }
    }
}

/// The Freeplay selection after moving `delta` capsules from `index` in a list of
/// `count`, wrapping at both ends (Euclidean remainder).
pub fn wrapped_selection(index: usize, delta: isize, count: usize) -> (r: usize)
    requires
        1 <= count <= isize::MAX,
        index <= isize::MAX,
        isize::MIN <= index + delta <= isize::MAX,
    ensures
        r == (index + delta) % (count as int),
{
    let n: isize = index as isize + delta;
    if n >= 0 {
        (n as usize) % count
    } else {
        let m: usize = (-(n + 1)) as usize;
        let k: usize = m % count;
        proof {
            let c = count as int;
            let q = m as int / c;
            lemma_fundamental_div_mod(m as int, c);
            lemma_mod_bound(m as int, c);
            assert(n == (-q - 1) * c + (c - 1 - k)) by (nonlinear_arith)
                requires
                    m as int == c * q + k,
                    n == -(m as int) - 1,
            ;
            lemma_fundamental_div_mod_converse(n as int, c, -q - 1, c - 1 - k);
        }
        count - 1 - k
    }
}

/// A wrapped move stays in the list, and moving back by the same amount returns to the
/// capsule it started from.
pub proof fn law_wrapped_selection_returns(index: int, delta: int, count: int)
    requires
        0 <= index < count,
    ensures
        0 <= (index + delta) % count < count,
        ((index + delta) % count - delta) % count == index,
{
    lemma_mod_bound(index + delta, count);
    lemma_add_mod_noop(index + delta, -delta, count);
    lemma_add_mod_noop_right((index + delta) % count, -delta, count);
    assert(index + delta + -delta == index);
    lemma_small_mod(index as nat, count as nat);
}

/// The capsule a jump to `index` lands on: the last one when `index` is past the end,
/// none in an empty list.
pub fn jumped_selection(index: usize, count: usize) -> (r: Option<usize>)
    ensures
        r == (if count == 0 { None } else if index < count { Some(index) } else { Some((count - 1) as usize) }),
{
    if count == 0 {
        None
    } else if index < count {
        Some(index)
    } else {
        Some(count - 1)
    }
}

/// The other Freeplay character: Pico after Boyfriend, Boyfriend after anything else.
pub fn toggled_variation(variation: &str) -> (r: &'static str)
    ensures
        r@ == (if variation@ == VARIATION_BF@ { VARIATION_PICO@ } else { VARIATION_BF@ }),
{
    if str_eq(variation, VARIATION_BF) {
        VARIATION_PICO
    } else {
        VARIATION_BF
    }
}

/// Toggling the Freeplay character twice from Boyfriend or Pico comes back to it.
pub proof fn law_toggle_variation_twice(variation: Seq<char>)
    requires
        variation == VARIATION_BF@ || variation == VARIATION_PICO@,
    ensures
        ({
            let once = if variation == VARIATION_BF@ { VARIATION_PICO@ } else { VARIATION_BF@ };
            (if once == VARIATION_BF@ { VARIATION_PICO@ } else { VARIATION_BF@ }) == variation
        }),
{
    reveal_strlit("bf");
    reveal_strlit("pico");
}

} // verus!
