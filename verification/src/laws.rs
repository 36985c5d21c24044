//! Properties of the encoder, stated and proved once for all inputs: how
//! many frames an input draws, where shift frames stand, what unsupported
//! input contributes, and the exact timing of every event of a schedule.

use vstd::prelude::*;

use crate::code_table::{char_case, lookup_spec, shift_code_spec, Case, CodeWord};
use crate::scheduler::{
    events_of, frame_event, frame_events, frames_from, frames_of, lemma_events_len, step_case,
    step_frames,
};

verus! {

/// Every character of `s` is supported and belongs to page `k`.
pub open spec fn all_in_case(s: Seq<char>, k: Case) -> bool {
    forall|i: int| 0 <= i < s.len() ==> char_case(s[i]) == Some(k)
}

proof fn lemma_all_in_case_drop_first(s: Seq<char>, k: Case)
    requires
        s.len() > 0,
        all_in_case(s, k),
    ensures
        all_in_case(s.drop_first(), k),
{
    assert forall|i: int| 0 <= i < s.drop_first().len() implies char_case(s.drop_first()[i])
        == Some(k) by {
        assert(s.drop_first()[i] == s[i + 1]);
    }
}

/// The very first supported character always forces exactly one shift
/// frame: a single supported character encodes as exactly two frames, the
/// shift code of its page followed by its own code word.
pub proof fn lemma_first_char_shift(c: char, k: Case, w: CodeWord)
    requires
        lookup_spec(c) == Some((k, w)),
    ensures
        frames_of(seq![c]) == seq![shift_code_spec(k), w],
{
    reveal_with_fuel(frames_from, 2);
    assert(seq![c].drop_first() =~= Seq::<char>::empty());
    assert(frames_of(seq![c]) =~= seq![shift_code_spec(k), w]);
}

/// A run that stays on the already-current page draws no shift frames:
/// one data frame per character, nothing else.
pub proof fn lemma_same_case_stays(s: Seq<char>, k: Case)
    requires
        all_in_case(s, k),
    ensures
        frames_from(s, Some(k)).len() == s.len(),
    decreases s.len(),
{
    if s.len() > 0 {
        assert(char_case(s[0]) == Some(k));
        lemma_all_in_case_drop_first(s, k);
        lemma_same_case_stays(s.drop_first(), k);
    }
}

/// No shift frames are inserted inside a same-page run: a nonempty text
/// whose characters are all supported and share one page — here given as
/// two concatenated pieces — yields exactly one initial shift frame
/// followed by one data frame per character.
pub proof fn lemma_same_case_run(s1: Seq<char>, s2: Seq<char>, k: Case)
    requires
        all_in_case(s1, k),
        all_in_case(s2, k),
        s1.len() + s2.len() > 0,
    ensures
        frames_of(s1 + s2).len() == 1 + s1.len() + s2.len(),
{
    let s = s1 + s2;
    assert forall|i: int| 0 <= i < s.len() implies char_case(s[i]) == Some(k) by {
        if i < s1.len() {
            assert(s[i] == s1[i]);
        } else {
            assert(s[i] == s2[i - s1.len()]);
        }
    }
    assert(char_case(s[0]) == Some(k));
    lemma_all_in_case_drop_first(s, k);
    lemma_same_case_stays(s.drop_first(), k);
}

/// Exactly one shift frame stands between the data frames of two adjacent
/// supported characters `a` and `b` whose pages differ, whatever precedes
/// them (summed up in the page `cur` current when `a` is reached) and
/// whatever text `t` follows: after `a`'s frames, which end in `a`'s data
/// frame, come the shift code of `b`'s page and `b`'s data frame.
pub proof fn lemma_case_transition(
    a: char,
    ka: Case,
    wa: CodeWord,
    b: char,
    kb: Case,
    wb: CodeWord,
    t: Seq<char>,
    cur: Option<Case>,
)
    requires
        lookup_spec(a) == Some((ka, wa)),
        lookup_spec(b) == Some((kb, wb)),
        ka != kb,
    ensures
        frames_from(seq![a, b] + t, cur) == step_frames(a, cur) + seq![shift_code_spec(kb), wb]
            + frames_from(t, Some(kb)),
        step_frames(a, cur).last() == wa,
{
    reveal_with_fuel(frames_from, 2);
    let s = seq![a, b] + t;
    assert(s[0] == a);
    assert(s.drop_first() =~= seq![b] + t);
    assert((seq![b] + t)[0] == b);
    assert((seq![b] + t).drop_first() =~= t);
    assert(frames_from(seq![b] + t, Some(ka)) == step_frames(b, Some(ka)) + frames_from(
        t,
        Some(kb),
    ));
    assert(step_frames(b, Some(ka)) == seq![shift_code_spec(kb), wb]);
    assert(frames_from(s, cur) =~= step_frames(a, cur) + seq![shift_code_spec(kb), wb]
        + frames_from(t, Some(kb)));
    if cur == Some(ka) {
        assert(step_frames(a, cur) == seq![wa]);
    } else {
        assert(step_frames(a, cur) == seq![shift_code_spec(ka), wa]);
    }
}

/// At the start of a transmission, a supported pair with differing pages
/// encodes as exactly four frames: shift, data, shift, data.
pub proof fn lemma_pair_transition(a: char, ka: Case, wa: CodeWord, b: char, kb: Case, wb: CodeWord)
    requires
        lookup_spec(a) == Some((ka, wa)),
        lookup_spec(b) == Some((kb, wb)),
        ka != kb,
    ensures
        frames_of(seq![a, b]) == seq![shift_code_spec(ka), wa, shift_code_spec(kb), wb],
{
    assert(seq![a, b] =~= seq![a, b] + Seq::<char>::empty());
    lemma_case_transition(a, ka, wa, b, kb, wb, Seq::<char>::empty(), None);
    assert(frames_from(Seq::<char>::empty(), Some(kb)) == Seq::<CodeWord>::empty());
    assert(step_frames(a, None) == seq![shift_code_spec(ka), wa]);
    assert(frames_of(seq![a, b]) =~= seq![shift_code_spec(ka), wa, shift_code_spec(kb), wb]);
}

proof fn lemma_unsupported_from(s: Seq<char>, cur: Option<Case>)
    requires
        forall|i: int| 0 <= i < s.len() ==> char_case(s[i]) is None,
    ensures
        frames_from(s, cur) == Seq::<CodeWord>::empty(),
    decreases s.len(),
{
    if s.len() > 0 {
        assert(char_case(s[0]) is None);
        assert forall|i: int| 0 <= i < s.drop_first().len() implies char_case(s.drop_first()[i])
            is None by {
            assert(s.drop_first()[i] == s[i + 1]);
        }
        lemma_unsupported_from(s.drop_first(), cur);
        assert(frames_from(s, cur) =~= Seq::<CodeWord>::empty());
    }
}

/// Text made only of unsupported characters is dropped whole: it yields no
/// frames and no events.
pub proof fn lemma_unsupported_silent(s: Seq<char>, space: u32, mark: u32)
    requires
        forall|i: int| 0 <= i < s.len() ==> char_case(s[i]) is None,
    ensures
        frames_of(s) == Seq::<CodeWord>::empty(),
        events_of(frames_of(s), space, mark) == Seq::<(int, u32)>::empty(),
{
    lemma_unsupported_from(s, None);
}

/// Event `j` of frame `i` stands at position `7*i + j` of the schedule.
pub proof fn lemma_event_index(fs: Seq<CodeWord>, space: u32, mark: u32, i: int, j: int)
    requires
        0 <= i < fs.len(),
        0 <= j < 7,
    ensures
        events_of(fs, space, mark)[7 * i + j] == frame_event(i, fs[i], j, space, mark),
    decreases fs.len(),
{
    lemma_events_len(fs, space, mark);
    lemma_events_len(fs.drop_last(), space, mark);
    if i == fs.len() - 1 {
        assert(frame_events(i, fs[i], space, mark)[j] == frame_event(i, fs[i], j, space, mark));
    } else {
        lemma_event_index(fs.drop_last(), space, mark, i, j);
        assert(fs.drop_last()[i] == fs[i]);
    }
}

/// Timestamps never decrease across a schedule, and strictly increase
/// inside one frame (events `k1` and `k2` lie in the same frame exactly
/// when `k1 / 7 == k2 / 7`).
pub proof fn lemma_timestamps_monotonic(
    fs: Seq<CodeWord>,
    space: u32,
    mark: u32,
    k1: int,
    k2: int,
)
    requires
        0 <= k1 < k2 < events_of(fs, space, mark).len(),
    ensures
        events_of(fs, space, mark)[k1].0 <= events_of(fs, space, mark)[k2].0,
        k1 / 7 == k2 / 7 ==> events_of(fs, space, mark)[k1].0 < events_of(fs, space, mark)[k2].0,
{
    lemma_events_len(fs, space, mark);
    let i1 = k1 / 7;
    let j1 = k1 % 7;
    let i2 = k2 / 7;
    let j2 = k2 % 7;
    vstd::arithmetic::div_mod::lemma_fundamental_div_mod(k1, 7);
    vstd::arithmetic::div_mod::lemma_fundamental_div_mod(k2, 7);
    vstd::arithmetic::div_mod::lemma_mod_bound(k1, 7);
    vstd::arithmetic::div_mod::lemma_mod_bound(k2, 7);
    assert(k1 == 7 * i1 + j1);
    assert(k2 == 7 * i2 + j2);
    assert(0 <= i1 < fs.len());
    assert(0 <= i2 < fs.len());
    lemma_event_index(fs, space, mark, i1, j1);
    lemma_event_index(fs, space, mark, i2, j2);
    let t1 = frame_event(i1, fs[i1], j1, space, mark).0;
    let t2 = frame_event(i2, fs[i2], j2, space, mark).0;
    assert(8 * i1 <= t1 <= 8 * i1 + 6);
    assert(8 * i2 <= t2 <= 8 * i2 + 6);
    if i1 == i2 {
        assert(j1 < j2);
        assert(t1 < t2);
    } else {
        assert(i1 < i2);
    }
}

/// Timing determinism: in any schedule, frame `i`'s 7 events stand at
/// positions 7i through 7i+6; the start-bit event carries timestamp 8i
/// bit periods at the space frequency, data bit `j` of the code word
/// stands at 8i + j + 1, and the stop-bit event at 8i + 6 carries the
/// mark frequency.
pub proof fn lemma_frame_timing(fs: Seq<CodeWord>, space: u32, mark: u32, i: int)
    requires
        0 <= i < fs.len(),
    ensures
        events_of(fs, space, mark).len() == 7 * fs.len(),
        events_of(fs, space, mark)[7 * i] == (8 * i, space),
        events_of(fs, space, mark)[7 * i + 6] == (8 * i + 6, mark),
        forall|j: int|
            0 <= j < 7 ==> events_of(fs, space, mark)[7 * i + j] == frame_event(
                i,
                fs[i],
                j,
                space,
                mark,
            ),
{
    lemma_events_len(fs, space, mark);
    assert forall|j: int| 0 <= j < 7 implies events_of(fs, space, mark)[7 * i + j] == frame_event(
        i,
        fs[i],
        j,
        space,
        mark,
    ) by {
        lemma_event_index(fs, space, mark, i, j);
    }
    lemma_event_index(fs, space, mark, i, 0);
    lemma_event_index(fs, space, mark, i, 6);
}

} // verus!
