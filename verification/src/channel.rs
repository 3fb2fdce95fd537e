//! Mapping from an operating frequency to its Wi-Fi channel number.

use vstd::prelude::*;

verus! {

/// Lowest and highest frequency, in MHz, of the 2.4 GHz band.
pub const BAND_2G_FIRST: u32 = 2412;
pub const BAND_2G_LAST: u32 = 2484;

/// Lowest and highest frequency, in MHz, of the 5 GHz band.
pub const BAND_5G_FIRST: u32 = 5180;
pub const BAND_5G_LAST: u32 = 5825;

/// Whether `freq` lies in the 2.4 GHz band.
pub open spec fn in_band_2g(freq: int) -> bool {
    BAND_2G_FIRST <= freq <= BAND_2G_LAST
}

/// Whether `freq` lies in the 5 GHz band.
pub open spec fn in_band_5g(freq: int) -> bool {
    BAND_5G_FIRST <= freq <= BAND_5G_LAST
}

/// The channel of a frequency: channel 14 sits apart at 2484 MHz, every other
/// frequency of a band is counted in 5 MHz steps from the band's base, and a
/// frequency outside both bands has the channel 0, which stands for "unknown".
pub open spec fn channel_of(freq: int) -> int {
    if freq == 2484 {
        14
    } else if in_band_2g(freq) {
        (freq - 2407) / 5
    } else if in_band_5g(freq) {
        (freq - 5000) / 5
    } else {
        0
    }
}

/// Maps a frequency in MHz to its channel number.
pub fn freq_to_channel(freq: u32) -> (channel: u32)
    ensures
        channel == channel_of(freq as int),
{
    match freq {
        2412 => 1,
        2417 => 2,
        2422 => 3,
        2427 => 4,
        2432 => 5,
        2437 => 6,
        2442 => 7,
        2447 => 8,
        2452 => 9,
        2457 => 10,
        2462 => 11,
        2467 => 12,
        2472 => 13,
        2484 => 14,
        5180 => 36,
        5200 => 40,
        5220 => 44,
        5240 => 48,
        5260 => 52,
        5280 => 56,
        5300 => 60,
        5320 => 64,
        5500 => 100,
        5520 => 104,
        5540 => 108,
        5560 => 112,
        5580 => 116,
        5600 => 120,
        5620 => 124,
        5640 => 128,
        5660 => 132,
        5680 => 136,
        5700 => 140,
        5720 => 144,
        5745 => 149,
        5765 => 153,
        5785 => 157,
        5805 => 161,
        5825 => 165,
        f => if f >= BAND_2G_FIRST && f <= BAND_2G_LAST {
            (f - 2407) / 5
        } else if f >= BAND_5G_FIRST && f <= BAND_5G_LAST {
            (f - 5000) / 5
        } else {
            0
        },
    }
}

} // verus!
