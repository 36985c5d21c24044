use rtty_encoder::{encode, frames, lookup, shift_code, Case, CodeWord, FrequencyEvent};

const SPACE_FREQ: u32 = 1800;
const MARK_FREQ: u32 = 1400;

fn word(value: u8) -> CodeWord {
    CodeWord { value }
}

/// The 7 expected events of frame `i` carrying the 5 bits written as a
/// binary string, bit 0 transmitted first.
fn expected_frame(i: u64, bits: &str) -> Vec<FrequencyEvent> {
    assert_eq!(bits.len(), 5);
    let t0 = 8 * i;
    let mut evs = vec![FrequencyEvent { time: t0, freq: SPACE_FREQ }];
    for (j, b) in bits.chars().enumerate() {
        let freq = match b {
            '0' => SPACE_FREQ,
            '1' => MARK_FREQ,
            _ => panic!("bad bit"),
        };
        evs.push(FrequencyEvent { time: t0 + 1 + j as u64, freq });
    }
    evs.push(FrequencyEvent { time: t0 + 6, freq: MARK_FREQ });
    evs
}

fn expected_schedule(frames_bits: &[&str]) -> Vec<FrequencyEvent> {
    let mut evs = Vec::new();
    for (i, bits) in frames_bits.iter().enumerate() {
        evs.extend(expected_frame(i as u64, bits));
    }
    evs
}

#[test]
fn lookup_letters_page() {
    assert_eq!(lookup('A'), Some((Case::Letters, word(0b11000))));
    assert_eq!(lookup('Z'), Some((Case::Letters, word(0b10001))));
    assert_eq!(lookup(' '), Some((Case::Letters, word(0b00100))));
    assert_eq!(lookup('T'), Some((Case::Letters, word(0b00001))));
}

#[test]
fn lookup_figures_page() {
    assert_eq!(lookup('0'), Some((Case::Figures, word(0b01101))));
    assert_eq!(lookup('1'), Some((Case::Figures, word(0b10111))));
    assert_eq!(lookup('9'), Some((Case::Figures, word(0b00011))));
    assert_eq!(lookup('.'), Some((Case::Figures, word(0b00111))));
}

#[test]
fn lookup_unsupported() {
    assert_eq!(lookup('a'), None);
    assert_eq!(lookup('!'), None);
    assert_eq!(lookup('@'), None);
    assert_eq!(lookup('#'), None);
    assert_eq!(lookup(','), None);
    assert_eq!(lookup('\n'), None);
}

#[test]
fn shift_code_words() {
    assert_eq!(shift_code(Case::Letters), word(0b11111));
    assert_eq!(shift_code(Case::Figures), word(0b11011));
}

#[test]
fn first_supported_char_always_draws_one_shift_frame() {
    let letters = "ABCDEFGHIJKLMNOPQRSTUVWXYZ ";
    let figures = "0123456789.";
    for c in letters.chars() {
        let text = c.to_string();
        let fs = frames(&text);
        assert_eq!(fs.len(), 2, "one shift + one data frame for {c:?}");
        assert_eq!(fs[0], word(0b11111));
        assert_eq!(encode(&text, SPACE_FREQ, MARK_FREQ).len(), 14);
    }
    for c in figures.chars() {
        let text = c.to_string();
        let fs = frames(&text);
        assert_eq!(fs.len(), 2, "one shift + one data frame for {c:?}");
        assert_eq!(fs[0], word(0b11011));
        assert_eq!(encode(&text, SPACE_FREQ, MARK_FREQ).len(), 14);
    }
}

#[test]
fn encode_single_letter_scenario() {
    // "A": frame 0 = LettersShift (11111), frame 1 = data 'A' (11000);
    // 2 frames, 14 events, frame 1's start bit at 8 periods.
    let evs = encode("A", SPACE_FREQ, MARK_FREQ);
    assert_eq!(evs, expected_schedule(&["11111", "11000"]));
    assert_eq!(evs.len(), 14);
    assert_eq!(evs[7].time, 8);
    assert_eq!(evs[7].freq, SPACE_FREQ);
    // At the standard 45.45-baud rate, 8 periods is about 0.176 s.
    let period = 1.0 / 45.45;
    assert!((evs[7].time as f64 * period - 0.176).abs() < 1e-3);
}

#[test]
fn encode_single_figure_scenario() {
    let evs = encode("1", SPACE_FREQ, MARK_FREQ);
    assert_eq!(evs, expected_schedule(&["11011", "10111"]));
}

#[test]
fn same_case_run_has_no_extra_shift() {
    // "AB": 3 frames (1 shift + 2 data), no shift between 'A' and 'B'.
    let fs = frames("AB");
    assert_eq!(fs, vec![word(0b11111), word(0b11000), word(0b10011)]);
    let evs = encode("AB", SPACE_FREQ, MARK_FREQ);
    assert_eq!(evs, expected_schedule(&["11111", "11000", "10011"]));
    assert_eq!(evs.len(), 21);
}

#[test]
fn long_same_case_run_counts_frames() {
    // Same-page text of length n yields 1 + n frames, whatever n.
    let text = "HELLO WORLD";
    let fs = frames(text);
    assert_eq!(fs.len(), 1 + text.len());
    assert_eq!(
        encode(text, SPACE_FREQ, MARK_FREQ).len(),
        7 * (1 + text.len())
    );
}

#[test]
fn case_transition_inserts_one_shift() {
    // "A1": LettersShift, data('A'), FiguresShift, data('1') — 4 frames.
    let fs = frames("A1");
    assert_eq!(
        fs,
        vec![word(0b11111), word(0b11000), word(0b11011), word(0b10111)]
    );
    let evs = encode("A1", SPACE_FREQ, MARK_FREQ);
    assert_eq!(evs, expected_schedule(&["11111", "11000", "11011", "10111"]));
    assert_eq!(evs.len(), 28);
}

#[test]
fn transition_back_and_forth() {
    // "1A2": shift, 1, shift, A, shift, 2 — one shift per page change.
    let fs = frames("1A2");
    assert_eq!(
        fs,
        vec![
            word(0b11011),
            word(0b10111),
            word(0b11111),
            word(0b11000),
            word(0b11011),
            word(0b10011),
        ]
    );
}

#[test]
fn empty_input_yields_nothing() {
    assert_eq!(frames(""), vec![]);
    assert_eq!(encode("", SPACE_FREQ, MARK_FREQ), vec![]);
}

#[test]
fn all_unsupported_input_yields_nothing() {
    assert_eq!(frames("!@#"), vec![]);
    assert_eq!(encode("!@#", SPACE_FREQ, MARK_FREQ), vec![]);
}

#[test]
fn unsupported_chars_are_skipped_in_place() {
    // Lowercase and punctuation outside the table vanish without a trace:
    // no frame, no event, no page change.
    assert_eq!(frames("a!A"), frames("A"));
    assert_eq!(
        encode("A?B", SPACE_FREQ, MARK_FREQ),
        encode("AB", SPACE_FREQ, MARK_FREQ)
    );
}

#[test]
fn frame_timing_formula() {
    // Frame i's start-bit event is at 8*i periods and its stop-bit event at
    // 8*i + 6, for every frame of the schedule.
    let evs = encode("AB1. Z9", SPACE_FREQ, MARK_FREQ);
    assert_eq!(evs.len() % 7, 0);
    let n_frames = evs.len() / 7;
    for i in 0..n_frames {
        let start = &evs[7 * i];
        assert_eq!(start.time, 8 * i as u64);
        assert_eq!(start.freq, SPACE_FREQ);
        let stop = &evs[7 * i + 6];
        assert_eq!(stop.time, 8 * i as u64 + 6);
        assert_eq!(stop.freq, MARK_FREQ);
        for j in 0..5 {
            assert_eq!(evs[7 * i + 1 + j].time, 8 * i as u64 + 1 + j as u64);
        }
    }
}

#[test]
fn timestamps_never_decrease() {
    let evs = encode("THE QUICK BROWN FOX 0123456789.", SPACE_FREQ, MARK_FREQ);
    for pair in evs.windows(2) {
        assert!(pair[0].time <= pair[1].time);
    }
}

#[test]
fn data_bits_choose_the_frequencies() {
    // 'T' = 00001: four Space bits then one Mark bit.
    let evs = encode("T", SPACE_FREQ, MARK_FREQ);
    let data = &evs[8..13];
    assert_eq!(data[0].freq, SPACE_FREQ);
    assert_eq!(data[1].freq, SPACE_FREQ);
    assert_eq!(data[2].freq, SPACE_FREQ);
    assert_eq!(data[3].freq, SPACE_FREQ);
    assert_eq!(data[4].freq, MARK_FREQ);
    // The configured frequencies are carried through as given.
    let evs2 = encode("T", 2125, 2295);
    assert_eq!(evs2[8].freq, 2125);
    assert_eq!(evs2[12].freq, 2295);
}
