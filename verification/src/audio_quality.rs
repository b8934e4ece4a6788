//! A rough measure of how good a sound file is, from its sample rate, its
//! bitrate, its codec and its channels.

use vstd::prelude::*;
use crate::paths::{lowercase, to_lowercase};
use crate::scan::{occurs_at, stands_at};
use crate::text::chars_of;

verus! {

/// `marker` stands somewhere in `text`.
pub open spec fn holds(text: Seq<char>, marker: Seq<char>) -> bool {
    exists|i: int| occurs_at(text, marker, i)
}

/// The points for a sample rate in hertz: up to 30.
pub open spec fn rate_points(sample_rate: Option<u32>) -> nat {
    match sample_rate {
        None => 0,
        Some(rate) => if rate >= 192000 {
            30
        } else if rate >= 96000 {
            28
        } else if rate >= 48000 {
            25
        } else if rate >= 44100 {
            20
        } else {
            10
        },
    }
}

/// The points for a bitrate in bits per second: up to 25.
pub open spec fn bitrate_points(bitrate: Option<u32>) -> nat {
    match bitrate {
        None => 0,
        Some(rate) => if rate / 1000 >= 1000 {
            25
        } else if rate / 1000 >= 320 {
            22
        } else if rate / 1000 >= 256 {
            18
        } else if rate / 1000 >= 128 {
            15
        } else {
            8
        },
    }
}

/// The points for a codec, by what its name holds in lowercase: 25 for a
/// lossless one, 20 for a modern one, 15 for MP3, 10 for any other.
pub open spec fn codec_points(codec: Option<Seq<char>>) -> nat {
    match codec {
        None => 0,
        Some(name) => if holds(lowercase(name), "flac"@) || holds(lowercase(name), "pcm"@) {
            25
        } else if holds(lowercase(name), "aac"@) || holds(lowercase(name), "opus"@) {
            20
        } else if holds(lowercase(name), "mp3"@) {
            15
        } else {
            10
        },
    }
}

/// The points for a number of channels: up to 20.
pub open spec fn channel_points(channels: Option<u32>) -> nat {
    match channels {
        None => 0,
        Some(count) => if count >= 6 {
            20
        } else if count == 2 {
            18
        } else if count == 1 {
            12
        } else {
            5
        },
    }
}

/// The quality score: the four kinds of points together, which is at most a
/// hundred.
pub open spec fn quality_score(
    sample_rate: Option<u32>,
    bitrate: Option<u32>,
    codec: Option<Seq<char>>,
    channels: Option<u32>,
) -> nat {
    rate_points(sample_rate) + bitrate_points(bitrate) + codec_points(codec) + channel_points(
        channels,
    )
}

/// The view of a string slice that may be missing.
pub open spec fn name_of(codec: Option<&str>) -> Option<Seq<char>> {
    match codec {
        Some(name) => Some(name@),
        None => None,
    }
}

/// Whether `marker` stands somewhere in `text`.
pub fn contains(text: &Vec<char>, marker: &str) -> (found: bool)
    ensures
        found == holds(text@, marker@),
{
    let wanted = chars_of(marker);
    let n = text.len();
    let mut i: usize = 0;
    while i < n
        invariant
            n == text@.len(),
            wanted@ == marker@,
            i <= n,
            forall|k: int| 0 <= k < i ==> !occurs_at(text@, marker@, k),
        decreases n - i,
    {
        if stands_at(text, &wanted, i) {
            return true;
        }
        i = i + 1;
    }
    stands_at(text, &wanted, n)
}

/// The quality score of a sound file, from 0 to 100.
pub fn calculate_quality_score(
    sample_rate: Option<u32>,
    bitrate: Option<u32>,
    codec: Option<&str>,
    channels: Option<u32>,
) -> (score: u32)
    ensures
        score == quality_score(sample_rate, bitrate, name_of(codec), channels),
        score <= 100,
{
    let mut score: u32 = 0;
    match sample_rate {
        Some(rate) => {
            score = score + if rate >= 192000 {
                30
            } else if rate >= 96000 {
                28
            } else if rate >= 48000 {
                25
            } else if rate >= 44100 {
                20
            } else {
                10
            };
        },
        None => {},
    }
    match bitrate {
        Some(rate) => {
            let kbps = rate / 1000;
            score = score + if kbps >= 1000 {
                25
            } else if kbps >= 320 {
                22
            } else if kbps >= 256 {
                18
            } else if kbps >= 128 {
                15
            } else {
                8
            };
        },
        None => {},
    }
    match codec {
        Some(name) => {
            let lowered = to_lowercase(name);
            let text = chars_of(lowered.as_str());
            score = score + if contains(&text, "flac") || contains(&text, "pcm") {
                25
            } else if contains(&text, "aac") || contains(&text, "opus") {
                20
            } else if contains(&text, "mp3") {
                15
            } else {
                10
            };
        },
        None => {},
    }
    match channels {
        Some(count) => {
            score = score + if count >= 6 {
                20
            } else if count == 2 {
                18
            } else if count == 1 {
                12
            } else {
                5
            };
        },
        None => {},
    }
    score
}

} // verus!
