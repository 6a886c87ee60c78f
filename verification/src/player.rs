//! The playback engine's state: one sink's linear gain and pause flag,
//! and the check that guards the audio decoder.
//!
//! Gain is carried as millionths of unity (`1_000_000` = unscaled).
//! Construction converts whole decibels through `10^(dB/10)` -- the
//! power scaling the volume curve is defined by, kept as is for
//! compatibility.  Zero decibels is the default, unscaled gain.  Volume
//! steps multiply or divide the gain by the fixed ratio `69/100`;
//! stepping up is clamped so the gain never passes unity, stepping down
//! has no lower clamp, so repeated presses can silence the output
//! entirely (intentional).  The decoding itself and the audio sink live
//! outside the library; they act on this state.
use vstd::prelude::*;

verus! {

use crate::audius::StreamError;
use crate::text::utf8_string;
use vstd::string::StringExecFns;
use crate::utils::pow10;
use vstd::utf8::decode_utf8;
use vstd::utf8::valid_utf8;

/// Unity gain, in millionths.
pub const GAIN_UNITY_PPM: u64 = 1000000;

/// The volume step ratio, in hundredths: each step multiplies or
/// divides the gain by 69/100.
pub const VOLUME_ADJUST_HUNDREDTHS: u64 = 69;

/// Byte streams shorter than this are diagnostic payloads, not audio.
pub const MIN_AUDIO_BYTES: usize = 16384;

/// Playing one track failed; the session reports it and advances.
#[derive(Debug)]
pub enum PlaybackError {
    /// The stream could not be fetched.
    Stream(StreamError),
    /// The stream was not decodable audio; carries either the decoder's
    /// message or the extracted text payload.
    Decode(String),
}

/// One gain step up: multiply by 100/69, unless that would pass unity.
pub open spec fn spec_vol_up(g: u64) -> u64 {
    let cand = g * 100 / 69;
    if cand <= GAIN_UNITY_PPM {
        cand as u64
    } else {
        g
    }
}

/// One gain step down: multiply by 69/100.  No lower clamp.
pub open spec fn spec_vol_down(g: u64) -> u64 {
    (g * 69 / 100) as u64
}

/// The gain `10^(db/10)` in millionths, for whole tens of decibels.
pub open spec fn spec_gain_ppm_from_db(db: int) -> nat {
    pow10((db / 10 + 6) as nat)
}

/// The transport state of the single audio sink.
pub struct Player {
    pub gain_ppm: u64,
    pub paused: bool,
}

impl Player {
    /// A player whose sink starts unpaused at the given linear gain.
    pub fn new(gain_ppm: u64) -> (r: Player)
        ensures
            r.gain_ppm == gain_ppm,
            !r.paused,
    {
        Player { gain_ppm, paused: false }
    }

    /// The linear gain for a volume given in whole tens of decibels:
    /// `10^(db/10)`, so 0 dB is unity and -10 dB is a tenth.  Decibel
    /// values off the tens grid need fractional powers and stay with
    /// the surrounding application.
    pub fn gain_ppm_from_db(db: i32) -> (r: u64)
        requires
            -60 <= db <= 60,
            db % 10 == 0,
        ensures
            r as nat == spec_gain_ppm_from_db(db as int),
    {
        proof {
            reveal_with_fuel(pow10, 14);
        }
        if db == -60 {
            1
        } else if db == -50 {
            10
        } else if db == -40 {
            100
        } else if db == -30 {
            1000
        } else if db == -20 {
            10000
        } else if db == -10 {
            100000
        } else if db == 0 {
            1000000
        } else if db == 10 {
            10000000
        } else if db == 20 {
            100000000
        } else if db == 30 {
            1000000000
        } else if db == 40 {
            10000000000
        } else if db == 50 {
            100000000000
        } else {
            1000000000000
        }
    }

    /// Toggles pause: pausing when playing, resuming when paused.
    pub fn pause(&mut self)
        ensures
            final(self).paused == !old(self).paused,
            final(self).gain_ppm == old(self).gain_ppm,
    {
        self.paused = !self.paused;
    }

    /// One volume step up, clamped so the gain never passes unity.
    pub fn volume_up(&mut self)
        ensures
            final(self).gain_ppm == spec_vol_up(old(self).gain_ppm),
            final(self).paused == old(self).paused,
    {
        let cand_wide: u128 = (self.gain_ppm as u128) * 100 / 69;
        if cand_wide <= GAIN_UNITY_PPM as u128 {
            self.gain_ppm = cand_wide as u64;
        }
    }

    /// One volume step down.  No lower clamp: repeated steps can
    /// silence the output entirely.
    pub fn volume_down(&mut self)
        ensures
            final(self).gain_ppm == spec_vol_down(old(self).gain_ppm),
            final(self).paused == old(self).paused,
    {
        let g0 = self.gain_ppm;
        let down_wide: u128 = (g0 as u128) * 69 / 100;
        proof {
            assert((g0 as int) * 69 / 100 <= g0 as int) by (nonlinear_arith);
        }
        self.gain_ppm = down_wide as u64;
    }
}

/// The message for a stream that is a diagnostic payload: its text when
/// it is UTF-8, a fixed message otherwise.
pub open spec fn spec_stream_error_text(b: Seq<u8>) -> Seq<char> {
    if valid_utf8(b) {
        decode_utf8(b)
    } else {
        "Error: invalid stream format"@
    }
}

/// Guards the audio decoder: a stream below the 16 KiB heuristic is a
/// diagnostic payload (an error message body, not audio) and is decoded
/// as text for the error channel instead of being handed to the
/// decoder.  Anything at or above the threshold goes to the decoder.
pub fn check_stream(stream: &Vec<u8>) -> (r: Result<(), PlaybackError>)
    ensures
        stream@.len() >= MIN_AUDIO_BYTES <==> r is Ok,
        r matches Err(e) ==> e matches PlaybackError::Decode(m) && m@ == spec_stream_error_text(
            stream@,
        ),
{
    if stream.len() >= MIN_AUDIO_BYTES {
        Ok(())
    } else {
        match utf8_string(crate::text::clone_bytes(stream)) {
            Some(text) => Err(PlaybackError::Decode(text)),
            None => Err(
                PlaybackError::Decode(String::from_str("Error: invalid stream format")),
            ),
        }
    }
}

/// Fetches one track's audio bytes and guards the decoder: the verified
/// half of starting playback.  On success the bytes are long enough to
/// be audio; every shorter or unfetchable stream comes back as the
/// error the session reports before advancing.
pub fn prepare_stream(track: &crate::audius::track::Track, cache: &mut crate::audius::ApiCache) -> (r:
    Result<Vec<u8>, PlaybackError>)
    ensures
        r matches Ok(b) ==> b@.len() >= MIN_AUDIO_BYTES,
{
    let stream = match track.get_stream(cache) {
        Ok(b) => b,
        Err(e) => {
            return Err(PlaybackError::Stream(e));
        },
    };
    match check_stream(&stream) {
        Ok(_) => Ok(stream),
        Err(e) => Err(e),
    }
}

/// Law: a single step up never pushes the gain above unity when it was
/// at or below unity, and never increases a gain already above unity.
pub proof fn lemma_vol_up_clamped(g: u64)
    ensures
        g <= GAIN_UNITY_PPM ==> spec_vol_up(g) <= GAIN_UNITY_PPM,
        g > GAIN_UNITY_PPM ==> spec_vol_up(g) <= g,
{
}

/// The gain after `n` volume steps up.
pub open spec fn spec_vol_up_n(g: u64, n: nat) -> u64
    decreases n,
{
    if n == 0 {
        g
    } else {
        spec_vol_up(spec_vol_up_n(g, (n - 1) as nat))
    }
}

/// Law: however many volume steps up are taken, the gain never passes
/// unity -- from at or below unity it stays at or below unity, and from
/// above unity it never grows.
pub proof fn lemma_repeated_vol_up_bounded(g: u64, n: nat)
    ensures
        spec_vol_up_n(g, n) <= (if g > GAIN_UNITY_PPM {
            g
        } else {
            GAIN_UNITY_PPM
        }),
    decreases n,
{
    if n > 0 {
        lemma_repeated_vol_up_bounded(g, (n - 1) as nat);
        lemma_vol_up_clamped(spec_vol_up_n(g, (n - 1) as nat));
    }
}

} // verus!
