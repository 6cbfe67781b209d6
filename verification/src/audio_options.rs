//! Audio start-up options read from the environment.

use vstd::prelude::*;
use std::time::Duration;
use crate::clock::{duration_from_millis, duration_nanos};
use crate::number_text::{parse_u64, parse_u64_spec};
use crate::text::{chars_of, chars_eq, trim_chars, trim_seq};

verus! {

/// Milliseconds to wait for the audio device before falling back to the wall clock.
pub const AUDIO_OPEN_TIMEOUT_MS: u64 = 750;

/// Values of the audio switch that turn audio off (after trimming).
pub open spec fn is_off_word(s: Seq<char>) -> bool {
    s == seq!['0'] || s == seq!['o', 'f', 'f'] || s == seq!['f', 'a', 'l', 's', 'e'] || s == seq![
        'n',
        'o',
        'n',
        'e',
    ]
}

fn chars_is(v: &Vec<char>, lit: &str) -> (r: bool)
    ensures
        r == (v@ == lit@),
{
    let l = chars_of(lit);
    chars_eq(v, &l)
}

/// Whether the audio switch's value disables audio: `0`, `off`, `false` or `none`,
/// ignoring surrounding white space; an absent value leaves audio on.
pub fn audio_disabled_value(value: Option<&str>) -> (r: bool)
    ensures
        r == match value {
            Some(v) => is_off_word(trim_seq(v@)),
            None => false,
        },
{
    match value {
        None => false,
        Some(v) => {
            let t = trim_chars(v);
            proof {
                reveal_strlit("0");
                reveal_strlit("off");
                reveal_strlit("false");
                reveal_strlit("none");
            }
            assert("0"@ =~= seq!['0']);
            assert("off"@ =~= seq!['o', 'f', 'f']);
            assert("false"@ =~= seq!['f', 'a', 'l', 's', 'e']);
            assert("none"@ =~= seq!['n', 'o', 'n', 'e']);
            chars_is(&t, "0") || chars_is(&t, "off") || chars_is(&t, "false") || chars_is(&t, "none")
        },
    }
}

/// Timeout in milliseconds: a positive whole number given (white space trimmed), else 750.
pub open spec fn audio_open_timeout_ms(value: Option<&str>) -> u64 {
    match value {
        Some(v) => match parse_u64_spec(trim_seq(v@)) {
            Some(ms) => if ms > 0 {
                ms
            } else {
                AUDIO_OPEN_TIMEOUT_MS
            },
            None => AUDIO_OPEN_TIMEOUT_MS,
        },
        None => AUDIO_OPEN_TIMEOUT_MS,
    }
}

/// How long to wait for the audio device.
pub fn audio_open_timeout(value: Option<&str>) -> (r: Duration)
    ensures
        duration_nanos(r) == audio_open_timeout_ms(value) as int * 1_000_000,
{
    let millis = match value {
        None => AUDIO_OPEN_TIMEOUT_MS,
        Some(v) => {
            let t = trim_chars(v);
            match parse_u64(&t) {
                Some(ms) => if ms > 0 {
                    ms
                } else {
                    AUDIO_OPEN_TIMEOUT_MS
                },
                None => AUDIO_OPEN_TIMEOUT_MS,
            }
        },
    };
    duration_from_millis(millis)
}

} // verus!
