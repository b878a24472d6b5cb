//! The configuration of AAC.

use vstd::prelude::*;

verus! {

/// The place of a sample rate in the standard table; 15 for one that is not there.
pub open spec fn frequency_index(sample_rate: u32) -> nat {
    if sample_rate == 96000 {
        0
    } else if sample_rate == 88200 {
        1
    } else if sample_rate == 64000 {
        2
    } else if sample_rate == 48000 {
        3
    } else if sample_rate == 44100 {
        4
    } else if sample_rate == 32000 {
        5
    } else if sample_rate == 24000 {
        6
    } else if sample_rate == 22050 {
        7
    } else if sample_rate == 16000 {
        8
    } else if sample_rate == 12000 {
        9
    } else if sample_rate == 11025 {
        10
    } else if sample_rate == 8000 {
        11
    } else if sample_rate == 7350 {
        12
    } else {
        15
    }
}

/// The fields of an AudioSpecificConfig as one number: five bits of profile, four of the place of
/// the sample rate, where that is 15 also 24 of the rate itself, four of channels, and three that
/// are zero. A rate that 24 bits do not hold runs over into the fields before it.
pub open spec fn config_number(profile: u8, sample_rate: u32, channels: u32) -> nat {
    let p = (profile % 32) as nat;
    let c = (channels % 16) as nat;
    let f = frequency_index(sample_rate);
    if f != 15 {
        p * 0x800 + f * 0x80 + c * 8
    } else {
        let high = (p * 0x8_0000_0000) as u64;
        let rate = (sample_rate * 0x80) as u64;
        let low = (c * 8) as u64;
        (high | 0x7_8000_0000u64 | rate | low) as nat
    }
}

/// The AudioSpecificConfig: two bytes where the sample rate is in the table, and else five.
pub open spec fn audio_specific_config(profile: u8, sample_rate: u32, channels: u32) -> Seq<u8> {
    crate::coding::be_bytes(
        config_number(profile, sample_rate, channels),
        if frequency_index(sample_rate) != 15 {
            2
        } else {
            5
        },
    )
}

/// Reconstruct the AudioSpecificConfig from parsed fields.
///
/// Layout (ISO 14496-3):
///   audioObjectType      (5 bits)  — the AAC profile (2 = AAC-LC)
///   samplingFreqIndex    (4 bits)  — index into the standard table, or 0xF
///   [samplingFrequency  (24 bits)] — only if index == 0xF
///   channelConfiguration (4 bits)
///
/// For standard sample rates this produces exactly 2 bytes (e.g. 0x12 0x10
/// for AAC-LC / 44100 Hz / stereo).
pub fn build_aac_audio_specific_config(profile: u8, sample_rate: u32, channels: u32) -> (config: Vec<
    u8,
>)
    ensures
        config@ == audio_specific_config(profile, sample_rate, channels),
{
    // audioObjectType is a 5-bit field.
    let profile: u8 = profile % 32;
    let channels: u8 = (channels % 16) as u8;
    let freq_index: u8 = match sample_rate {
        96000 => 0,
        88200 => 1,
        64000 => 2,
        48000 => 3,
        44100 => 4,
        32000 => 5,
        24000 => 6,
        22050 => 7,
        16000 => 8,
        12000 => 9,
        11025 => 10,
        8000 => 11,
        7350 => 12,
        _ => 0xF,
    };
    let mut config: Vec<u8> = Vec::new();
    if freq_index != 0xF {
        let number: u16 = profile as u16 * 0x800 + freq_index as u16 * 0x80 + channels as u16 * 8;
        config.push((number / 256) as u8);
        config.push((number % 256) as u8);
        proof {
            reveal_with_fuel(crate::coding::be_bytes, 3);
            assert(config@ =~= crate::coding::be_bytes(number as nat, 2));
        }
    } else {
        let high: u64 = profile as u64 * 0x8_0000_0000;
        let rate: u64 = sample_rate as u64 * 0x80;
        let low: u64 = channels as u64 * 8;
        let number: u64 = high | 0x7_8000_0000 | rate | low;
        assert(high | 0x7_8000_0000 | rate | low < 0x100_0000_0000) by (bit_vector)
            requires
                high < 0x100_0000_0000,
                rate < 0x100_0000_0000,
                low < 0x100_0000_0000,
        ;
        config.push((number / 0x1_0000_0000) as u8);
        config.push((number / 0x100_0000 % 256) as u8);
        config.push((number / 0x1_0000 % 256) as u8);
        config.push((number / 0x100 % 256) as u8);
        config.push((number % 256) as u8);
        proof {
            reveal_with_fuel(crate::coding::be_bytes, 6);
            assert(config@ =~= crate::coding::be_bytes(number as nat, 5));
        }
    }
    config
}

proof fn lemma_fields(p: nat, f: nat, c: nat)
    requires
        p < 32,
        f < 16,
        c < 16,
    ensures
        ({
            let n = p * 0x800 + f * 0x80 + c * 8;
            &&& n < 0x1_0000
            &&& n / 0x800 == p
            &&& n / 0x80 % 16 == f
            &&& n / 8 % 16 == c
        }),
{
    let n = p * 0x800 + f * 0x80 + c * 8;
    assert(n / 0x80 == p * 16 + f);
    assert(n / 8 == p * 256 + f * 16 + c);
}

proof fn lemma_two_bytes(n: nat)
    requires
        n < 0x1_0000,
    ensures
        crate::coding::be_bytes(n, 2).len() == 2,
        crate::coding::be_bytes(n, 2)[0] * 256 + crate::coding::be_bytes(n, 2)[1] == n,
{
    reveal_with_fuel(crate::coding::be_bytes, 3);
    assert(n / 256 < 256);
}

/// A sample rate of the table makes a configuration of two bytes, and profile, rate and channels
/// can be read back from it.
pub proof fn law_standard_config(profile: u8, sample_rate: u32, channels: u32)
    requires
        frequency_index(sample_rate) != 15,
    ensures
        ({
            let b = audio_specific_config(profile, sample_rate, channels);
            let n = b[0] * 256 + b[1];
            &&& b.len() == 2
            &&& n / 0x800 == profile % 32
            &&& n / 0x80 % 16 == frequency_index(sample_rate)
            &&& n / 8 % 16 == channels % 16
        }),
{
    let p = (profile % 32) as nat;
    let c = (channels % 16) as nat;
    let f = frequency_index(sample_rate);
    lemma_fields(p, f, c);
    lemma_two_bytes(p * 0x800 + f * 0x80 + c * 8);
}

/// A sample rate that is not in the table, and that 24 bits hold, makes a configuration of five
/// bytes, and profile, rate and channels can be read back from it.
pub proof fn law_free_config(profile: u8, sample_rate: u32, channels: u32)
    requires
        frequency_index(sample_rate) == 15,
        sample_rate < 0x100_0000,
    ensures
        audio_specific_config(profile, sample_rate, channels).len() == 5,
        ({
            let n = crate::coding::be_value(audio_specific_config(profile, sample_rate, channels));
            &&& n / 0x8_0000_0000 == profile % 32
            &&& n / 0x8000_0000 % 16 == 15
            &&& n / 0x80 % 0x100_0000 == sample_rate
            &&& n / 8 % 16 == channels % 16
        }),
{
    let p = (profile % 32) as u64;
    let c = (channels % 16) as u64;
    let r = sample_rate as u64;
    let high = (p * 0x8_0000_0000) as u64;
    let rate = (sample_rate * 0x80) as u64;
    let low = (c * 8) as u64;
    let number = high | 0x7_8000_0000u64 | rate | low;
    assert(number / 0x8_0000_0000u64 == p && number / 0x8000_0000u64 % 16 == 15 && number / 0x80u64
        % 0x100_0000 == r && number / 8u64 % 16 == c && number < 0x100_0000_0000u64)
        by (bit_vector)
        requires
            number == high | 0x7_8000_0000u64 | rate | low,
            high == p * 0x8_0000_0000,
            rate == r * 0x80,
            low == c * 8,
            p < 32,
            c < 16,
            r < 0x100_0000,
    ;
    let n = config_number(profile, sample_rate, channels);
    crate::coding::lemma_pow256();
    crate::coding::lemma_be_round_trip(n, 5);
}

} // verus!
