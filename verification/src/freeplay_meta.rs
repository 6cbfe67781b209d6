//! Freeplay song metadata: albums, icons and difficulty ratings per variation, and the
//! difficulty list that the Freeplay menu cycles through.

use vstd::prelude::*;
use crate::songs::{PreviewDifficulty, PreviewSelection, effective_suffix, opt_str_view};
use crate::text::str_eq;

verus! {

/// The order in which difficulties are listed.
pub open spec fn difficulty_order() -> Seq<PreviewDifficulty> {
    seq![
        PreviewDifficulty::Easy,
        PreviewDifficulty::Normal,
        PreviewDifficulty::Hard,
        PreviewDifficulty::Erect,
        PreviewDifficulty::Nightmare,
    ]
}

/// The position of a difficulty in [`difficulty_order`].
pub open spec fn difficulty_rank(d: PreviewDifficulty) -> int {
    match d {
        PreviewDifficulty::Easy => 0,
        PreviewDifficulty::Normal => 1,
        PreviewDifficulty::Hard => 2,
        PreviewDifficulty::Erect => 3,
        PreviewDifficulty::Nightmare => 4,
    }
}

pub open spec fn keep_if(d: PreviewDifficulty, keep: bool) -> Seq<PreviewDifficulty> {
    if keep {
        seq![d]
    } else {
        Seq::empty()
    }
}

/// The difficulties for which `has` holds, in difficulty order, each once.
pub open spec fn ordered_where(has: spec_fn(PreviewDifficulty) -> bool) -> Seq<PreviewDifficulty> {
    keep_if(PreviewDifficulty::Easy, has(PreviewDifficulty::Easy))
        + keep_if(PreviewDifficulty::Normal, has(PreviewDifficulty::Normal))
        + keep_if(PreviewDifficulty::Hard, has(PreviewDifficulty::Hard))
        + keep_if(PreviewDifficulty::Erect, has(PreviewDifficulty::Erect))
        + keep_if(PreviewDifficulty::Nightmare, has(PreviewDifficulty::Nightmare))
}

/// Strictly increasing in difficulty order: sorted, and nothing twice.
pub open spec fn strictly_ordered(s: Seq<PreviewDifficulty>) -> bool {
    forall|i: int, j: int|
        0 <= i < j < s.len() ==> difficulty_rank(#[trigger] s[i]) < difficulty_rank(#[trigger] s[j])
}

/// `values` in difficulty order without repeats; `[Normal]` when that leaves nothing.
pub open spec fn ordered_unique_spec(values: Seq<PreviewDifficulty>) -> Seq<PreviewDifficulty> {
    let ordered = ordered_where(|d: PreviewDifficulty| values.contains(d));
    if ordered.len() == 0 {
        seq![PreviewDifficulty::Normal]
    } else {
        ordered
    }
}

proof fn lemma_concat_contains(a: Seq<PreviewDifficulty>, b: Seq<PreviewDifficulty>, d: PreviewDifficulty)
    ensures
        (a + b).contains(d) <==> (a.contains(d) || b.contains(d)),
{
    if a.contains(d) {
        let i = choose|i: int| 0 <= i < a.len() && a[i] == d;
        assert((a + b)[i] == d);
    }
    if b.contains(d) {
        let j = choose|j: int| 0 <= j < b.len() && b[j] == d;
        assert((a + b)[a.len() + j] == d);
    }
    if (a + b).contains(d) {
        let k = choose|k: int| 0 <= k < (a + b).len() && (a + b)[k] == d;
        if k < a.len() {
            assert(a[k] == d);
        } else {
            assert(b[k - a.len()] == d);
        }
    }
}

pub open spec fn ranks_below(s: Seq<PreviewDifficulty>, r: int) -> bool {
    forall|i: int| 0 <= i < s.len() ==> difficulty_rank(#[trigger] s[i]) < r
}

proof fn lemma_append_keep(a: Seq<PreviewDifficulty>, d: PreviewDifficulty, keep: bool)
    requires
        strictly_ordered(a),
        ranks_below(a, difficulty_rank(d)),
    ensures
        strictly_ordered(a + keep_if(d, keep)),
        forall|r: int| r > difficulty_rank(d) ==> ranks_below(a + keep_if(d, keep), r),
        forall|x: PreviewDifficulty| #[trigger] (a + keep_if(d, keep)).contains(x)
            <==> (a.contains(x) || (keep && x == d)),
{
    let s = a + keep_if(d, keep);
    assert forall|i: int, j: int| 0 <= i < j < s.len() implies difficulty_rank(#[trigger] s[i])
        < difficulty_rank(#[trigger] s[j]) by {
        if j >= a.len() {
            assert(s[j] == d);
        }
    }
    assert forall|r: int| r > difficulty_rank(d) implies ranks_below(s, r) by {
        assert forall|i: int| 0 <= i < s.len() implies difficulty_rank(#[trigger] s[i]) < r by {
            if i >= a.len() {
                assert(s[i] == d);
            }
        }
    }
    assert forall|x: PreviewDifficulty| #[trigger] s.contains(x) <==> (a.contains(x) || (keep && x == d)) by {
        lemma_concat_contains(a, keep_if(d, keep), x);
        if keep {
            assert(keep_if(d, keep)[0] == d);
        }
    }
}

pub proof fn lemma_ordered_where(has: spec_fn(PreviewDifficulty) -> bool)
    ensures
        strictly_ordered(ordered_where(has)),
        forall|d: PreviewDifficulty| #[trigger] ordered_where(has).contains(d) <==> has(d),
        ordered_where(has).len() <= 5,
{
    let e = Seq::<PreviewDifficulty>::empty();
    lemma_append_keep(e, PreviewDifficulty::Easy, has(PreviewDifficulty::Easy));
    let p1 = e + keep_if(PreviewDifficulty::Easy, has(PreviewDifficulty::Easy));
    assert(ranks_below(p1, 1));
    lemma_append_keep(p1, PreviewDifficulty::Normal, has(PreviewDifficulty::Normal));
    let p2 = p1 + keep_if(PreviewDifficulty::Normal, has(PreviewDifficulty::Normal));
    assert(ranks_below(p2, 2));
    lemma_append_keep(p2, PreviewDifficulty::Hard, has(PreviewDifficulty::Hard));
    let p3 = p2 + keep_if(PreviewDifficulty::Hard, has(PreviewDifficulty::Hard));
    assert(ranks_below(p3, 3));
    lemma_append_keep(p3, PreviewDifficulty::Erect, has(PreviewDifficulty::Erect));
    let p4 = p3 + keep_if(PreviewDifficulty::Erect, has(PreviewDifficulty::Erect));
    assert(ranks_below(p4, 4));
    lemma_append_keep(p4, PreviewDifficulty::Nightmare, has(PreviewDifficulty::Nightmare));
    let p5 = p4 + keep_if(PreviewDifficulty::Nightmare, has(PreviewDifficulty::Nightmare));
    assert(p1 =~= keep_if(PreviewDifficulty::Easy, has(PreviewDifficulty::Easy)));
    assert(p5 =~= ordered_where(has));
    assert forall|d: PreviewDifficulty| #[trigger] ordered_where(has).contains(d) <==> has(d) by {
        assert(!e.contains(d));
        match d {
            PreviewDifficulty::Easy => {},
            PreviewDifficulty::Normal => {},
            PreviewDifficulty::Hard => {},
            PreviewDifficulty::Erect => {},
            PreviewDifficulty::Nightmare => {},
        }
    }
}

/// Per-difficulty star ratings of one song variation.
#[derive(Debug, Clone, Copy, PartialEq, Eq, Structural, Default)]
pub struct FreeplayDifficultyRatings {
    pub easy: Option<u8>,
    pub normal: Option<u8>,
    pub hard: Option<u8>,
    pub erect: Option<u8>,
    pub nightmare: Option<u8>,
}

/// The first value stored under `key` in an association list.
pub open spec fn lookup<V>(entries: Seq<(String, V)>, key: Seq<char>) -> Option<V>
    decreases entries.len(),
{
    if entries.len() == 0 {
        None
    } else if entries[0].0@ == key {
        Some(entries[0].1)
    } else {
        lookup(entries.drop_first(), key)
    }
}

/// No key occurs twice in an association list.
pub open spec fn keys_unique<V>(entries: Seq<(String, V)>) -> bool {
    forall|i: int, j: int| 0 <= i < j < entries.len() ==> entries[i].0@ != entries[j].0@
}

/// With unique keys a lookup is a map's: the value found under a key is the one stored
/// under it, wherever it stands.
pub proof fn lemma_lookup_unique<V>(entries: Seq<(String, V)>, i: int)
    requires
        keys_unique(entries),
        0 <= i < entries.len(),
    ensures
        lookup(entries, entries[i].0@) == Some(entries[i].1),
    decreases i,
{
    if i > 0 {
        let rest = entries.drop_first();
        assert(entries[0].0@ != entries[i].0@);
        assert(rest[i - 1] == entries[i]);
        assert(keys_unique(rest)) by {
            assert forall|a: int, b: int| 0 <= a < b < rest.len() implies rest[a].0@ != rest[b].0@ by {
                assert(rest[a] == entries[a + 1] && rest[b] == entries[b + 1]);
            }
        }
        lemma_lookup_unique(rest, i - 1);
    }
}

proof fn lemma_lookup_step<V>(entries: Seq<(String, V)>, i: int, key: Seq<char>)
    requires
        0 <= i < entries.len(),
        entries[i].0@ != key,
    ensures
        lookup(entries.subrange(i, entries.len() as int), key)
            == lookup(entries.subrange(i + 1, entries.len() as int), key),
{
    assert(entries.subrange(i, entries.len() as int).drop_first()
        =~= entries.subrange(i + 1, entries.len() as int));
}

/// The index of the first entry stored under `key`.
fn find_key<V>(entries: &Vec<(String, V)>, key: &str) -> (r: Option<usize>)
    ensures
        match r {
            Some(i) => i < entries.len() && lookup(entries@, key@) == Some(entries@[i as int].1),
            None => lookup(entries@, key@) is None,
        },
{
    let mut i: usize = 0;
    assert(entries@.subrange(0, entries@.len() as int) =~= entries@);
    while i < entries.len()
        invariant
            i <= entries.len(),
            lookup(entries@, key@) == lookup(entries@.subrange(i as int, entries@.len() as int), key@),
        decreases entries.len() - i,
    {
        if str_eq(entries[i].0.as_str(), key) {
            return Some(i);
        }
        proof {
            lemma_lookup_step(entries@, i as int, key@);
        }
        i = i + 1;
    }
    None
}

pub open spec fn rating_of(r: FreeplayDifficultyRatings, d: PreviewDifficulty) -> Option<u8> {
    match d {
        PreviewDifficulty::Easy => r.easy,
        PreviewDifficulty::Normal => r.normal,
        PreviewDifficulty::Hard => r.hard,
        PreviewDifficulty::Erect => r.erect,
        PreviewDifficulty::Nightmare => r.nightmare,
    }
}

pub open spec fn rated_difficulties(r: FreeplayDifficultyRatings) -> Seq<PreviewDifficulty> {
    ordered_where(|d: PreviewDifficulty| rating_of(r, d) is Some)
}

fn lookup_rating(ratings: &Vec<(String, u8)>, key: &str) -> (r: Option<u8>)
    ensures
        r == lookup(ratings@, key@),
{
    match find_key(ratings, key) {
        Some(i) => Some(ratings[i].1),
        None => None,
    }
}

fn push_if(out: &mut Vec<PreviewDifficulty>, d: PreviewDifficulty, keep: bool)
    ensures
        final(out)@ == old(out)@ + keep_if(d, keep),
{
    if keep {
        out.push(d);
    }
    proof {
        assert(final(out)@ =~= old(out)@ + keep_if(d, keep));
    }
}

impl FreeplayDifficultyRatings {
    /// Reads the five known difficulty names from a song's `ratings` table; other names
    /// are ignored. The table is a key-value list with unique keys: it stands for the
    /// map read from the song's metadata file, and a list keeps lookups by name exact
    /// (see `lemma_lookup_unique`).
    pub fn from_map(ratings: &Vec<(String, u8)>) -> (r: Self)
        requires
            keys_unique(ratings@),
        ensures
            r.easy == lookup(ratings@, "easy"@),
            r.normal == lookup(ratings@, "normal"@),
            r.hard == lookup(ratings@, "hard"@),
            r.erect == lookup(ratings@, "erect"@),
            r.nightmare == lookup(ratings@, "nightmare"@),
    {
        FreeplayDifficultyRatings {
            easy: lookup_rating(ratings, "easy"),
            normal: lookup_rating(ratings, "normal"),
            hard: lookup_rating(ratings, "hard"),
            erect: lookup_rating(ratings, "erect"),
            nightmare: lookup_rating(ratings, "nightmare"),
        }
    }

    pub fn get(self, difficulty: PreviewDifficulty) -> (r: Option<u8>)
        ensures
            r == rating_of(self, difficulty),
    {
        match difficulty {
            PreviewDifficulty::Easy => self.easy,
            PreviewDifficulty::Normal => self.normal,
            PreviewDifficulty::Hard => self.hard,
            PreviewDifficulty::Erect => self.erect,
            PreviewDifficulty::Nightmare => self.nightmare,
        }
    }

    /// The rated difficulties, in difficulty order.
    pub fn difficulties(self) -> (r: Vec<PreviewDifficulty>)
        ensures
            r@ == rated_difficulties(self),
    {
        let mut out: Vec<PreviewDifficulty> = Vec::new();
        push_if(&mut out, PreviewDifficulty::Easy, self.easy.is_some());
        push_if(&mut out, PreviewDifficulty::Normal, self.normal.is_some());
        push_if(&mut out, PreviewDifficulty::Hard, self.hard.is_some());
        push_if(&mut out, PreviewDifficulty::Erect, self.erect.is_some());
        push_if(&mut out, PreviewDifficulty::Nightmare, self.nightmare.is_some());
        proof {
            assert(out@ =~= rated_difficulties(self));
        }
        out
    }
}

fn contains_difficulty(values: &Vec<PreviewDifficulty>, d: PreviewDifficulty) -> (r: bool)
    ensures
        r == values@.contains(d),
{
    let mut i: usize = 0;
    while i < values.len()
        invariant
            i <= values.len(),
            forall|j: int| 0 <= j < i ==> values@[j] != d,
        decreases values.len() - i,
    {
        if values[i] == d {
            return true;
        }
        i = i + 1;
    }
    false
}

/// `values` in difficulty order without repeats; `[Normal]` when `values` is empty.
pub fn ordered_unique_difficulties(values: Vec<PreviewDifficulty>) -> (r: Vec<PreviewDifficulty>)
    ensures
        r@ == ordered_unique_spec(values@),
{
    let mut out: Vec<PreviewDifficulty> = Vec::new();
    push_if(&mut out, PreviewDifficulty::Easy, contains_difficulty(&values, PreviewDifficulty::Easy));
    push_if(&mut out, PreviewDifficulty::Normal, contains_difficulty(&values, PreviewDifficulty::Normal));
    push_if(&mut out, PreviewDifficulty::Hard, contains_difficulty(&values, PreviewDifficulty::Hard));
    push_if(&mut out, PreviewDifficulty::Erect, contains_difficulty(&values, PreviewDifficulty::Erect));
    push_if(
        &mut out,
        PreviewDifficulty::Nightmare,
        contains_difficulty(&values, PreviewDifficulty::Nightmare),
    );
    let ghost ordered = ordered_where(|d: PreviewDifficulty| values@.contains(d));
    assert(out@ =~= ordered);
    if out.len() == 0 {
        out.push(PreviewDifficulty::Normal);
        assert(out@ =~= seq![PreviewDifficulty::Normal]);
    }
    out
}

/// Ordering a difficulty list is idempotent, and its result is never empty, strictly
/// ordered, and holds exactly the listed difficulties (or `Normal` alone for none).
pub proof fn law_ordered_unique(values: Seq<PreviewDifficulty>)
    ensures
        ordered_unique_spec(ordered_unique_spec(values)) == ordered_unique_spec(values),
        ordered_unique_spec(values).len() > 0,
        strictly_ordered(ordered_unique_spec(values)),
        values.len() > 0 ==> forall|d: PreviewDifficulty|
            #[trigger] ordered_unique_spec(values).contains(d) <==> values.contains(d),
{
    let has = |d: PreviewDifficulty| values.contains(d);
    lemma_ordered_where(has);
    let o = ordered_unique_spec(values);
    let has2 = |d: PreviewDifficulty| o.contains(d);
    lemma_ordered_where(has2);
    if values.len() > 0 {
        assert(values.contains(values[0]));
        assert(has(values[0]));
        assert(ordered_where(has).contains(values[0]));
    }
    if ordered_where(has).len() == 0 {
        assert(o =~= seq![PreviewDifficulty::Normal]);
        assert forall|d: PreviewDifficulty| #[trigger] has2(d) == (d == PreviewDifficulty::Normal) by {
            if d == PreviewDifficulty::Normal {
                assert(o[0] == d);
            }
        }
        assert(ordered_where(has2) =~= o);
    } else {
        assert(o == ordered_where(has));
        assert forall|d: PreviewDifficulty| #[trigger] has2(d) == has(d) by {}
        assert(has2 =~= has);
    }
}

/// Album, ratings and opponent icon of one song, for its base chart and for each
/// variation. The per-variation tables are key-value lists keyed by variation suffix,
/// standing for maps: their keys are unique (`wf`), so a lookup finds the one entry
/// under a suffix, and lookups by string key stay exact in the contracts.
#[derive(Debug, Clone)]
pub struct FreeplaySongMetadata {
    pub base_album: String,
    pub variant_albums: Vec<(String, String)>,
    pub base_ratings: FreeplayDifficultyRatings,
    pub variant_ratings: Vec<(String, FreeplayDifficultyRatings)>,
    pub base_icon_id: Option<String>,
    pub variant_icon_ids: Vec<(String, String)>,
}

pub open spec fn opt_string_view(o: Option<String>) -> Option<Seq<char>> {
    match o {
        Some(s) => Some(s@),
        None => None,
    }
}

pub open spec fn opt_lookup<V>(entries: Seq<(String, V)>, key: Option<Seq<char>>) -> Option<V> {
    match key {
        Some(k) => lookup(entries, k),
        None => None,
    }
}

impl FreeplaySongMetadata {
    /// Each per-variation table has unique keys.
    pub open spec fn wf(self) -> bool {
        &&& keys_unique(self.variant_albums@)
        &&& keys_unique(self.variant_ratings@)
        &&& keys_unique(self.variant_icon_ids@)
    }

    /// The album of the selection's variation, else the base album.
    pub open spec fn album_spec(self, selection: PreviewSelection) -> Seq<char> {
        match opt_lookup(self.variant_albums@, effective_suffix(selection)) {
            Some(a) => a@,
            None => self.base_album@,
        }
    }

    /// The variation's rating at the selection's difficulty, else the base rating.
    pub open spec fn rating_spec(self, selection: PreviewSelection) -> Option<u8> {
        match opt_lookup(self.variant_ratings@, effective_suffix(selection)) {
            Some(r) if rating_of(r, selection.difficulty) is Some => rating_of(r, selection.difficulty),
            _ => rating_of(self.base_ratings, selection.difficulty),
        }
    }

    /// The variation's opponent icon, else the base one.
    pub open spec fn icon_spec(self, selection: PreviewSelection) -> Option<Seq<char>> {
        match opt_lookup(self.variant_icon_ids@, effective_suffix(selection)) {
            Some(i) => Some(i@),
            None => opt_string_view(self.base_icon_id),
        }
    }

    /// The variation's rated difficulties (the base ones where the variation has no
    /// ratings), plus the Erect variant's when no variation is chosen; then ordered.
    pub open spec fn difficulties_spec(self, variation: Option<Seq<char>>) -> Seq<PreviewDifficulty> {
        let first = match opt_lookup(self.variant_ratings@, variation) {
            Some(r) => rated_difficulties(r),
            None => rated_difficulties(self.base_ratings),
        };
        let all = if variation is None {
            match lookup(self.variant_ratings@, "erect"@) {
                Some(e) => first + rated_difficulties(e),
                None => first,
            }
        } else {
            first
        };
        ordered_unique_spec(all)
    }

    pub fn new(
        base_album: String,
        variant_albums: Vec<(String, String)>,
        base_ratings: FreeplayDifficultyRatings,
        variant_ratings: Vec<(String, FreeplayDifficultyRatings)>,
        base_icon_id: Option<String>,
        variant_icon_ids: Vec<(String, String)>,
    ) -> (r: Self)
        requires
            keys_unique(variant_albums@),
            keys_unique(variant_ratings@),
            keys_unique(variant_icon_ids@),
        ensures
            r.wf(),
            r.base_album == base_album,
            r.variant_albums == variant_albums,
            r.base_ratings == base_ratings,
            r.variant_ratings == variant_ratings,
            r.base_icon_id == base_icon_id,
            r.variant_icon_ids == variant_icon_ids,
    {
        FreeplaySongMetadata {
            base_album,
            variant_albums,
            base_ratings,
            variant_ratings,
            base_icon_id,
            variant_icon_ids,
        }
    }

    pub fn album_id_for_selection(&self, selection: PreviewSelection) -> (r: &str)
        ensures
            r@ == self.album_spec(selection),
    {
        match selection.effective_variation_suffix() {
            Some(suffix) => match find_key(&self.variant_albums, suffix) {
                Some(i) => self.variant_albums[i].1.as_str(),
                None => self.base_album.as_str(),
            },
            None => self.base_album.as_str(),
        }
    }

    pub fn rating_for_selection(&self, selection: PreviewSelection) -> (r: Option<u8>)
        ensures
            r == self.rating_spec(selection),
    {
        let variant = match selection.effective_variation_suffix() {
            Some(suffix) => match find_key(&self.variant_ratings, suffix) {
                Some(i) => self.variant_ratings[i].1.get(selection.difficulty),
                None => None,
            },
            None => None,
        };
        match variant {
            Some(v) => Some(v),
            None => self.base_ratings.get(selection.difficulty),
        }
    }

    pub fn icon_id_for_selection(&self, selection: PreviewSelection) -> (r: Option<&str>)
        ensures
            match r {
                Some(s) => self.icon_spec(selection) == Some(s@),
                None => self.icon_spec(selection) is None,
            },
    {
        let variant = match selection.effective_variation_suffix() {
            Some(suffix) => find_key(&self.variant_icon_ids, suffix),
            None => None,
        };
        match variant {
            Some(i) => Some(self.variant_icon_ids[i].1.as_str()),
            None => match &self.base_icon_id {
                Some(s) => Some(s.as_str()),
                None => None,
            },
        }
    }

    /// The base album, then each variation's album in table order.
    pub fn album_ids(&self) -> (r: Vec<&str>)
        ensures
            r@.len() == self.variant_albums@.len() + 1,
            r@[0]@ == self.base_album@,
            forall|i: int| 0 <= i < self.variant_albums@.len() ==>
                (#[trigger] r@[i + 1])@ == self.variant_albums@[i].1@,
    {
        let mut out: Vec<&str> = Vec::new();
        out.push(self.base_album.as_str());
        let mut i: usize = 0;
        while i < self.variant_albums.len()
            invariant
                i <= self.variant_albums.len(),
                out@.len() == i + 1,
                out@[0]@ == self.base_album@,
                forall|j: int| 0 <= j < i ==> (#[trigger] out@[j + 1])@ == self.variant_albums@[j].1@,
            decreases self.variant_albums.len() - i,
        {
            out.push(self.variant_albums[i].1.as_str());
            i = i + 1;
        }
        out
    }

    pub fn difficulties_for_variation(&self, variation: Option<&str>) -> (r: Vec<PreviewDifficulty>)
        ensures
            r@ == self.difficulties_spec(opt_str_view_any(variation)),
    {
        let found = match variation {
            Some(suffix) => match find_key(&self.variant_ratings, suffix) {
                Some(i) => Some(self.variant_ratings[i].1),
                None => None,
            },
            None => None,
        };
        let mut difficulties = match found {
            Some(r) => r.difficulties(),
            None => self.base_ratings.difficulties(),
        };
        if variation.is_none() {
            match find_key(&self.variant_ratings, "erect") {
                Some(i) => {
                    let mut extra = self.variant_ratings[i].1.difficulties();
                    difficulties.append(&mut extra);
                },
                None => {},
            }
        }
        ordered_unique_difficulties(difficulties)
    }
}

pub open spec fn opt_str_view_any(o: Option<&str>) -> Option<Seq<char>> {
    match o {
        Some(s) => Some(s@),
        None => None,
    }
}

/// The Freeplay difficulty list of a song's metadata for a variation.
pub fn difficulties_for_metadata(metadata: &FreeplaySongMetadata, variation: Option<&str>) -> (r: Vec<
    PreviewDifficulty,
>)
    ensures
        r@ == metadata.difficulties_spec(opt_str_view_any(variation)),
{
    metadata.difficulties_for_variation(variation)
}

/// The difficulties the Freeplay menu offers for a selection: those of its song's
/// metadata (found by the song's folder in `song_albums`) for the selection's
/// variation; for a song without metadata, the song's own list `available`.
pub fn difficulties_for_selection(
    song_albums: &Vec<(String, FreeplaySongMetadata)>,
    selection: PreviewSelection,
    available: &Vec<PreviewDifficulty>,
) -> (r: Vec<PreviewDifficulty>)
    ensures
        r@ == match lookup(song_albums@, selection.song.folder@) {
            Some(metadata) => metadata.difficulties_spec(opt_str_view_any(selection.variation)),
            None => available@,
        },
{
    match find_key(song_albums, selection.song.folder) {
        Some(i) => difficulties_for_metadata(&song_albums[i].1, selection.variation),
        None => available.clone(),
    }
}

/// What one song metadata file gives: album, ratings and opponent icon.
#[derive(Debug, Clone)]
pub struct FreeplayLoadedSongMetadata {
    pub album: String,
    pub ratings: FreeplayDifficultyRatings,
    pub opponent: Option<String>,
}

impl FreeplayLoadedSongMetadata {
    /// Stand-in for a file that could not be read: the given album, no ratings, no icon.
    pub fn fallback(album: &str) -> (r: Self)
        ensures
            r.album@ == album@,
            r.ratings == FreeplayDifficultyRatings::default_spec(),
            r.opponent is None,
    {
        FreeplayLoadedSongMetadata {
            album: album.to_owned(),
            ratings: FreeplayDifficultyRatings::no_ratings(),
            opponent: None,
        }
    }
}

impl FreeplayDifficultyRatings {
    pub open spec fn default_spec() -> Self {
        FreeplayDifficultyRatings { easy: None, normal: None, hard: None, erect: None, nightmare: None }
    }

    /// No rating at any difficulty.
    pub fn no_ratings() -> (r: Self)
        ensures
            r == Self::default_spec(),
    {
        FreeplayDifficultyRatings { easy: None, normal: None, hard: None, erect: None, nightmare: None }
    }
}

fn position_of(values: &Vec<PreviewDifficulty>, d: PreviewDifficulty) -> (r: Option<usize>)
    ensures
        match r {
            Some(i) => i < values.len() && values@[i as int] == d
                && forall|j: int| 0 <= j < i ==> values@[j] != d,
            None => !values@.contains(d),
        },
{
    let mut i: usize = 0;
    while i < values.len()
        invariant
            i <= values.len(),
            forall|j: int| 0 <= j < i ==> values@[j] != d,
        decreases values.len() - i,
    {
        if values[i] == d {
            return Some(i);
        }
        i = i + 1;
    }
    None
}

/// Where the cycle starts: the selected difficulty's position, else Normal's, else 0.
pub open spec fn cycle_start(difficulties: Seq<PreviewDifficulty>, current: PreviewDifficulty) -> int {
    if difficulties.contains(current) {
        first_pos(difficulties, current)
    } else if difficulties.contains(PreviewDifficulty::Normal) {
        first_pos(difficulties, PreviewDifficulty::Normal)
    } else {
        0
    }
}

/// The first position of `d` in `s` (meaningful when `s` contains `d`).
pub open spec fn first_pos(s: Seq<PreviewDifficulty>, d: PreviewDifficulty) -> int
    decreases s.len(),
{
    if s.len() == 0 {
        0
    } else if s[0] == d {
        0
    } else {
        1 + first_pos(s.drop_first(), d)
    }
}

proof fn lemma_first_pos(s: Seq<PreviewDifficulty>, d: PreviewDifficulty, i: int)
    requires
        0 <= i < s.len(),
        s[i] == d,
        forall|j: int| 0 <= j < i ==> s[j] != d,
    ensures
        first_pos(s, d) == i,
    decreases i,
{
    if i > 0 {
        assert(s[0] != d);
        lemma_first_pos(s.drop_first(), d, i - 1);
    }
}

/// The selection moved `delta` steps through `difficulties` from where the cycle
/// starts, wrapping around (Euclidean remainder).
pub open spec fn cycle_spec(difficulties: Seq<PreviewDifficulty>, selection: PreviewSelection, delta: int) -> PreviewSelection {
    selection.with_difficulty_spec(
        difficulties[(cycle_start(difficulties, selection.difficulty) + delta) % (difficulties.len() as int)],
    )
}

/// `steps` moves of one step forward.
pub open spec fn cycle_forward(difficulties: Seq<PreviewDifficulty>, selection: PreviewSelection, steps: nat) -> PreviewSelection
    decreases steps,
{
    if steps == 0 {
        selection
    } else {
        cycle_spec(difficulties, cycle_forward(difficulties, selection, (steps - 1) as nat), 1)
    }
}

proof fn lemma_cycle_forward(difficulties: Seq<PreviewDifficulty>, selection: PreviewSelection, steps: nat)
    requires
        difficulties.len() > 0,
        difficulties.no_duplicates(),
        difficulties.contains(selection.difficulty),
    ensures
        cycle_forward(difficulties, selection, steps) == selection.with_difficulty_spec(
            difficulties[(first_pos(difficulties, selection.difficulty) + steps) % (difficulties.len() as int)],
        ),
    decreases steps,
{
    let n = difficulties.len() as int;
    let p = first_pos(difficulties, selection.difficulty);
    let j = choose|j: int| 0 <= j < n && difficulties[j] == selection.difficulty;
    lemma_first_pos(difficulties, selection.difficulty, j);
    if steps == 0 {
        vstd::arithmetic::div_mod::lemma_small_mod(p as nat, n as nat);
    } else {
        lemma_cycle_forward(difficulties, selection, (steps - 1) as nat);
        let q = (p + steps - 1) % n;
        vstd::arithmetic::div_mod::lemma_mod_bound(p + steps - 1, n);
        let prev = cycle_forward(difficulties, selection, (steps - 1) as nat);
        assert(prev.difficulty == difficulties[q]);
        lemma_first_pos(difficulties, difficulties[q], q);
        assert(difficulties.contains(difficulties[q]));
        assert((q + 1) % n == (p + steps) % n) by {
            vstd::arithmetic::div_mod::lemma_add_mod_noop_right(1, p + steps - 1, n);
            vstd::arithmetic::div_mod::lemma_add_mod_noop_right(1, q, n);
            vstd::arithmetic::div_mod::lemma_mod_twice(p + steps - 1, n);
        }
    }
}

/// Cycling the difficulty undoes itself: on a list without repeats that holds the
/// selection's difficulty, moving `delta` steps and then `-delta` steps gives the
/// selection back, as do as many single steps forward as the list is long; every move
/// keeps the song and variation and lands on a listed difficulty.
pub proof fn law_cycle_difficulty_returns(difficulties: Seq<PreviewDifficulty>, selection: PreviewSelection, delta: int)
    requires
        difficulties.len() > 0,
        difficulties.no_duplicates(),
        difficulties.contains(selection.difficulty),
    ensures
        cycle_spec(difficulties, cycle_spec(difficulties, selection, delta), -delta) == selection,
        cycle_forward(difficulties, selection, difficulties.len()) == selection,
        cycle_spec(difficulties, selection, delta).song == selection.song,
        cycle_spec(difficulties, selection, delta).variation == selection.variation,
        difficulties.contains(cycle_spec(difficulties, selection, delta).difficulty),
{
    let n = difficulties.len() as int;
    let j = choose|j: int| 0 <= j < n && difficulties[j] == selection.difficulty;
    lemma_first_pos(difficulties, selection.difficulty, j);
    let p = j;
    let q = (p + delta) % n;
    vstd::arithmetic::div_mod::lemma_mod_bound(p + delta, n);
    assert(difficulties.contains(difficulties[q]));
    lemma_first_pos(difficulties, difficulties[q], q);
    vstd::arithmetic::div_mod::lemma_add_mod_noop(p + delta, -delta, n);
    vstd::arithmetic::div_mod::lemma_add_mod_noop_right((p + delta) % n, -delta, n);
    assert(p + delta + -delta == p);
    vstd::arithmetic::div_mod::lemma_small_mod(p as nat, n as nat);
    lemma_cycle_forward(difficulties, selection, n as nat);
    vstd::arithmetic::div_mod::lemma_mod_add_multiples_vanish(p, n);
}

/// Moves the selection `delta` steps through `difficulties`, wrapping around.
pub fn cycle_selection_difficulty(
    difficulties: &Vec<PreviewDifficulty>,
    selection: PreviewSelection,
    delta: isize,
) -> (r: PreviewSelection)
    requires
        difficulties.len() > 0,
        isize::MIN <= cycle_start(difficulties@, selection.difficulty) + delta <= isize::MAX,
    ensures
        r == cycle_spec(difficulties@, selection, delta as int),
{
    let current: usize = match position_of(difficulties, selection.difficulty) {
        Some(i) => {
            proof {
                lemma_first_pos(difficulties@, selection.difficulty, i as int);
            }
            i
        },
        None => match position_of(difficulties, PreviewDifficulty::Normal) {
            Some(i) => {
                proof {
                    lemma_first_pos(difficulties@, PreviewDifficulty::Normal, i as int);
                }
                i
            },
            None => 0,
        },
    };
    let len = difficulties.len();
    let next: usize = if delta >= 0 {
        let s: usize = current + (delta as usize);
        s % len
    } else {
        let back: usize = ((0 - (delta as i128)) as u128 % (len as u128)) as usize;
        if back <= current {
            current - back
        } else {
            current + (len - back)
        }
    };
    proof {
        let m = len as int;
        let t = current as int + delta as int;
        if delta < 0 {
            let n = -(delta as int);
            let b = n % m;
            let q = n / m;
            vstd::arithmetic::div_mod::lemma_fundamental_div_mod(n, m);
            assert(n == m * q + b);
            if b <= current {
                assert(t == m * (-q) + (current - b)) by (nonlinear_arith)
                    requires t == current as int - n, n == m * q + b;
                vstd::arithmetic::div_mod::lemma_mod_multiples_vanish(-q, current - b, m);
                vstd::arithmetic::div_mod::lemma_small_mod((current - b) as nat, m as nat);
            } else {
                assert(t == m * (-q - 1) + (current + m - b)) by (nonlinear_arith)
                    requires t == current as int - n, n == m * q + b;
                vstd::arithmetic::div_mod::lemma_mod_multiples_vanish(-q - 1, current + m - b, m);
                vstd::arithmetic::div_mod::lemma_small_mod((current + m - b) as nat, m as nat);
            }
        }
    }
    selection.with_difficulty(difficulties[next])
}

/// The selection's difficulty when the list holds it; else Normal when listed; else the
/// first listed difficulty.
pub fn clamp_selection_difficulty(difficulties: &Vec<PreviewDifficulty>, selection: PreviewSelection) -> (r:
    PreviewSelection)
    requires
        difficulties.len() > 0,
    ensures
        r == selection.with_difficulty_spec(
            if difficulties@.contains(selection.difficulty) {
                selection.difficulty
            } else if difficulties@.contains(PreviewDifficulty::Normal) {
                PreviewDifficulty::Normal
            } else {
                difficulties@[0]
            },
        ),
{
    if contains_difficulty(difficulties, selection.difficulty) {
        selection
    } else if contains_difficulty(difficulties, PreviewDifficulty::Normal) {
        selection.with_difficulty(PreviewDifficulty::Normal)
    } else {
        selection.with_difficulty(difficulties[0])
    }
}

} // verus!
