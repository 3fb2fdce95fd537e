use idkspot::channel::freq_to_channel;

#[test]
fn known_frequencies_have_their_channels() {
    assert_eq!(freq_to_channel(2437), 6);
    assert_eq!(freq_to_channel(5180), 36);
}

#[test]
fn frequency_outside_both_bands_has_channel_zero() {
    assert_eq!(freq_to_channel(2400), 0);
    assert_eq!(freq_to_channel(0), 0);
    assert_eq!(freq_to_channel(2411), 0);
    assert_eq!(freq_to_channel(2485), 0);
    assert_eq!(freq_to_channel(5179), 0);
    assert_eq!(freq_to_channel(5826), 0);
    assert_eq!(freq_to_channel(5955), 0);
    assert_eq!(freq_to_channel(u32::MAX), 0);
}

#[test]
fn the_2g_band_counts_in_steps_of_five() {
    let mut channel = 1;
    let mut freq = 2412;
    while freq <= 2472 {
        assert_eq!(freq_to_channel(freq), channel);
        channel += 1;
        freq += 5;
    }
    assert_eq!(channel, 14);
}

#[test]
fn channel_fourteen_sits_apart() {
    assert_eq!(freq_to_channel(2484), 14);
    assert_eq!(freq_to_channel(2483), 15);
    assert_eq!(freq_to_channel(2477), 14);
}

#[test]
fn the_5g_band_has_its_control_channels() {
    let table: [(u32, u32); 25] = [
        (5180, 36),
        (5200, 40),
        (5220, 44),
        (5240, 48),
        (5260, 52),
        (5280, 56),
        (5300, 60),
        (5320, 64),
        (5500, 100),
        (5520, 104),
        (5540, 108),
        (5560, 112),
        (5580, 116),
        (5600, 120),
        (5620, 124),
        (5640, 128),
        (5660, 132),
        (5680, 136),
        (5700, 140),
        (5720, 144),
        (5745, 149),
        (5765, 153),
        (5785, 157),
        (5805, 161),
        (5825, 165),
    ];
    for (freq, channel) in table {
        assert_eq!(freq_to_channel(freq), channel);
    }
}

#[test]
fn frequencies_between_channels_round_down() {
    assert_eq!(freq_to_channel(2413), 1);
    assert_eq!(freq_to_channel(2416), 1);
    assert_eq!(freq_to_channel(2473), 13);
    assert_eq!(freq_to_channel(5190), 38);
    assert_eq!(freq_to_channel(5184), 36);
    assert_eq!(freq_to_channel(5824), 164);
}

#[test]
fn the_channel_is_zero_only_outside_the_bands() {
    let mut freq = 2000;
    while freq < 6000 {
        let inside = (2412..=2484).contains(&freq) || (5180..=5825).contains(&freq);
        assert_eq!(freq_to_channel(freq) != 0, inside);
        freq += 1;
    }
}
