//! Camera event rules: which point a focus event aims at, and how an ease is named.

use vstd::prelude::*;
use crate::text::{str_eq, eq_ignore_ascii_case, eq_ignore_ascii_case_seq};

verus! {

/// Easing curves of camera tweens.
#[derive(Debug, Clone, Copy, PartialEq, Eq, Structural)]
pub enum CameraEase {
    Linear,
    Instant,
    QuadIn,
    QuadOut,
    QuadInOut,
    QuintInOut,
    ExpoIn,
    ExpoOut,
    ExpoInOut,
    SmoothStep,
    CircOut,
    ElasticInOut,
}

pub open spec fn ease_for_name(name: Seq<char>) -> CameraEase {
    if name == "INSTANT"@ {
        CameraEase::Instant
    } else if name == "quadIn"@ || name == "quad"@ {
        CameraEase::QuadIn
    } else if name == "quadOut"@ {
        CameraEase::QuadOut
    } else if name == "quadInOut"@ {
        CameraEase::QuadInOut
    } else if name == "quintInOut"@ {
        CameraEase::QuintInOut
    } else if name == "expoIn"@ || name == "expo"@ {
        CameraEase::ExpoIn
    } else if name == "expoOut"@ {
        CameraEase::ExpoOut
    } else if name == "expoInOut"@ {
        CameraEase::ExpoInOut
    } else if name == "smoothStep"@ || name == "smoothStepIn"@ {
        CameraEase::SmoothStep
    } else if name == "circOut"@ {
        CameraEase::CircOut
    } else if name == "elasticInOut"@ {
        CameraEase::ElasticInOut
    } else {
        CameraEase::Linear
    }
}

impl CameraEase {
    /// The ease a chart names (case-sensitive); unknown names are linear.
    pub fn from_name(name: &str) -> (r: Self)
        ensures
            r == ease_for_name(name@),
    {
        if str_eq(name, "INSTANT") {
            CameraEase::Instant
        } else if str_eq(name, "quadIn") || str_eq(name, "quad") {
            CameraEase::QuadIn
        } else if str_eq(name, "quadOut") {
            CameraEase::QuadOut
        } else if str_eq(name, "quadInOut") {
            CameraEase::QuadInOut
        } else if str_eq(name, "quintInOut") {
            CameraEase::QuintInOut
        } else if str_eq(name, "expoIn") || str_eq(name, "expo") {
            CameraEase::ExpoIn
        } else if str_eq(name, "expoOut") {
            CameraEase::ExpoOut
        } else if str_eq(name, "expoInOut") {
            CameraEase::ExpoInOut
        } else if str_eq(name, "smoothStep") || str_eq(name, "smoothStepIn") {
            CameraEase::SmoothStep
        } else if str_eq(name, "circOut") {
            CameraEase::CircOut
        } else if str_eq(name, "elasticInOut") {
            CameraEase::ElasticInOut
        } else {
            CameraEase::Linear
        }
    }
}

/// A focus event in the `CLASSIC` style (any case) moves the camera without a tween.
pub fn is_classic_ease(ease: &str) -> (r: bool)
    ensures
        r == eq_ignore_ascii_case_seq(ease@, "CLASSIC"@),
{
    eq_ignore_ascii_case(ease, "CLASSIC")
}

/// The point a focus event is relative to.
#[derive(Debug, Clone, Copy, PartialEq, Eq, Structural)]
pub enum FocusAnchor {
    Origin,
    Player,
    Opponent,
    Girlfriend,
}

/// Target -1 is the origin, 0 (and no target) the player, 1 the opponent, 2 the
/// girlfriend when the stage has one; anything else is no focus.
pub open spec fn focus_anchor_spec(target: Option<i8>, has_girlfriend: bool) -> Option<FocusAnchor> {
    let t = match target {
        Some(t) => t as int,
        None => 0,
    };
    if t == -1 {
        Some(FocusAnchor::Origin)
    } else if t == 0 {
        Some(FocusAnchor::Player)
    } else if t == 1 {
        Some(FocusAnchor::Opponent)
    } else if t == 2 && has_girlfriend {
        Some(FocusAnchor::Girlfriend)
    } else {
        None
    }
}

pub fn focus_anchor(target: Option<i8>, has_girlfriend: bool) -> (r: Option<FocusAnchor>)
    ensures
        r == focus_anchor_spec(target, has_girlfriend),
{
    let t: i8 = match target {
        Some(t) => t,
        None => 0,
    };
    if t == -1 {
        Some(FocusAnchor::Origin)
    } else if t == 0 {
        Some(FocusAnchor::Player)
    } else if t == 1 {
        Some(FocusAnchor::Opponent)
    } else if t == 2 && has_girlfriend {
        Some(FocusAnchor::Girlfriend)
    } else {
        None
    }
}

/// The song's first focus is on the opponent.
pub const INITIAL_FOCUS_TARGET: i8 = 1;

/// What a focus target means: no target is the same as target 0, the player; -1 is the
/// origin, 1 the opponent, 2 the girlfriend exactly when the stage has one, and any other
/// target moves nothing. Only target 2 depends on the stage having a girlfriend.
pub proof fn law_focus_targets(t: i8, g: bool, g2: bool)
    ensures
        focus_anchor_spec(None, g) == focus_anchor_spec(Some(0i8), g),
        focus_anchor_spec(Some(0i8), g) == Some(FocusAnchor::Player),
        focus_anchor_spec(Some(-1i8), g) == Some(FocusAnchor::Origin),
        focus_anchor_spec(Some(1i8), g) == Some(FocusAnchor::Opponent),
        focus_anchor_spec(Some(2i8), g) == (if g { Some(FocusAnchor::Girlfriend) } else { None }),
        (t < -1 || t > 2) ==> focus_anchor_spec(Some(t), g) is None,
        t != 2 ==> focus_anchor_spec(Some(t), g) == focus_anchor_spec(Some(t), g2),
{
}

} // verus!
