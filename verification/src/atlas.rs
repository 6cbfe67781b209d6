//! Texture atlases of Adobe Animate exports: the named sprite frames of a spritemap.
//!
//! Frame geometry (UVs and sizes, in floating point) stays with the caller, indexed by
//! each frame's position in the spritemap.

use vstd::prelude::*;
use crate::animation::AtlasError;
use crate::text::{is_blank, is_blank_seq, str_eq};

verus! {

/// A spritemap entry as read: its name, whether its width and height are positive,
/// and whether it is stored rotated.
#[derive(Debug, Clone)]
pub struct RawSprite {
    pub name: String,
    pub size_positive: bool,
    pub rotated: bool,
}

/// A validated frame: its name, rotation, and position in the spritemap.
#[derive(Debug, Clone)]
pub struct Frame {
    pub name: String,
    pub rotated: bool,
    pub index: usize,
}

/// The frames of one spritemap.
#[derive(Debug, Clone)]
pub struct Sprite {
    pub frames: Vec<Frame>,
}

#[derive(Debug, Clone)]
pub struct Atlas {
    pub sprites: Vec<Sprite>,
}

/// The first sprite that is not valid, with the error it gives: a blank name, or a
/// non-positive size.
pub open spec fn first_bad_sprite(raws: Seq<RawSprite>) -> Option<AtlasError>
    decreases raws.len(),
{
    if raws.len() == 0 {
        None
    } else if is_blank_seq(raws[0].name@) {
        Some(AtlasError::EmptyFrameName)
    } else if !raws[0].size_positive {
        Some(AtlasError::NonPositiveFrameSize(raws[0].name))
    } else {
        first_bad_sprite(raws.drop_first())
    }
}

/// The frame a valid sprite becomes at position `i`.
pub open spec fn frame_view(f: Frame) -> (Seq<char>, bool, usize) {
    (f.name@, f.rotated, f.index)
}

impl Atlas {
    /// Reads a spritemap: a texture without positive size is refused, then the first
    /// blank-named or non-positive sprite; otherwise one sprite holds every frame in
    /// order.
    pub fn parse_spritemap(texture_size_positive: bool, raws: &Vec<RawSprite>) -> (r: Result<Atlas, AtlasError>)
        ensures
            !texture_size_positive ==> r == Err::<Atlas, AtlasError>(AtlasError::ZeroTextureSize),
            texture_size_positive ==> match first_bad_sprite(raws@) {
                Some(e) => r == Err::<Atlas, AtlasError>(e),
                None => r matches Ok(a) && a.sprites@.len() == 1 && a.sprites@[0].frames@.len() == raws@.len()
                    && forall|i: int| 0 <= i < raws@.len() ==> frame_view(#[trigger] a.sprites@[0].frames@[i])
                        == (raws@[i].name@, raws@[i].rotated, i as usize),
            },
    {
        if !texture_size_positive {
            return Err(AtlasError::ZeroTextureSize);
        }
        let mut frames: Vec<Frame> = Vec::new();
        let mut i: usize = 0;
        assert(raws@.subrange(0, raws@.len() as int) =~= raws@);
        while i < raws.len()
            invariant
                texture_size_positive,
                i <= raws.len(),
                first_bad_sprite(raws@) == first_bad_sprite(raws@.subrange(i as int, raws@.len() as int)),
                frames@.len() == i,
                forall|k: int| 0 <= k < i ==> frame_view(#[trigger] frames@[k]) == (raws@[k].name@, raws@[k].rotated, k as usize),
            decreases raws.len() - i,
        {
            let ghost rest = raws@.subrange(i as int, raws@.len() as int);
            assert(rest.drop_first() =~= raws@.subrange(i + 1, raws@.len() as int));
            assert(rest[0] == raws@[i as int]);
            let raw = &raws[i];
            if is_blank(raw.name.as_str()) {
                return Err(AtlasError::EmptyFrameName);
            }
            if !raw.size_positive {
                return Err(AtlasError::NonPositiveFrameSize(raw.name.clone()));
            }
            frames.push(Frame { name: raw.name.clone(), rotated: raw.rotated, index: i });
            i = i + 1;
        }
        let mut sprites: Vec<Sprite> = Vec::new();
        sprites.push(Sprite { frames });
        Ok(Atlas { sprites })
    }

    /// The first frame with the given name, over all sprites in order, as (sprite,
    /// frame) positions.
    pub fn frame(&self, name: &str) -> (r: Option<(usize, usize)>)
        ensures
            match r {
                Some((s, f)) => s < self.sprites@.len() && f < self.sprites@[s as int].frames@.len()
                    && self.sprites@[s as int].frames@[f as int].name@ == name@
                    && forall|s2: int, f2: int| 0 <= s2 < self.sprites@.len() && 0 <= f2 < self.sprites@[s2].frames@.len()
                        && (s2 < s || (s2 == s && f2 < f)) ==> self.sprites@[s2].frames@[f2].name@ != name@,
                None => forall|s2: int, f2: int| 0 <= s2 < self.sprites@.len() && 0 <= f2 < self.sprites@[s2].frames@.len()
                    ==> self.sprites@[s2].frames@[f2].name@ != name@,
            },
    {
        let mut s: usize = 0;
        while s < self.sprites.len()
            invariant
                s <= self.sprites.len(),
                forall|s2: int, f2: int| 0 <= s2 < s && 0 <= f2 < self.sprites@[s2].frames@.len()
                    ==> self.sprites@[s2].frames@[f2].name@ != name@,
            decreases self.sprites.len() - s,
        {
            let frames = &self.sprites[s].frames;
            let mut f: usize = 0;
            while f < frames.len()
                invariant
                    s < self.sprites.len(),
                    frames == &self.sprites@[s as int].frames,
                    f <= frames.len(),
                    forall|s2: int, f2: int| 0 <= s2 < s && 0 <= f2 < self.sprites@[s2].frames@.len()
                        ==> self.sprites@[s2].frames@[f2].name@ != name@,
                    forall|f2: int| 0 <= f2 < f ==> self.sprites@[s as int].frames@[f2].name@ != name@,
                decreases frames.len() - f,
            {
                if str_eq(frames[f].name.as_str(), name) {
                    return Some((s, f));
                }
                f = f + 1;
            }
            s = s + 1;
        }
        None
    }
}

} // verus!
