//! The frame scheduler: walks the input text left to right, keeping the
//! current code page, and emits a time-ordered schedule of carrier
//! frequency changes — per transmitted code word one start bit (Space),
//! five data bits, and one stop bit (Mark), in a fixed slot of 8 bit
//! periods per frame.

use vstd::prelude::*;

use crate::code_table::{
    code_bit, lookup, lookup_spec, shift_code, shift_code_spec, Case, CodeWord,
};

verus! {

/// The longest input text `encode` accepts. Each character contributes at
/// most two frames and a frame occupies 8 bit periods, so this bound keeps
/// every timestamp of the schedule inside `u64`.
pub const MAX_TEXT_LEN: u64 = 0x0FFF_FFFF_FFFF_FFFF;

/// One scheduled change of the transmitted carrier frequency. `time`
/// counts bit periods from the start of the schedule (at the standard
/// 45.45-baud rate one period is 1/45.45 s); `freq` is the carrier
/// frequency in Hz that holds from that instant until the next event.
#[derive(Clone, Copy, Debug, PartialEq, Eq, Structural)]
pub struct FrequencyEvent {
    pub time: u64,
    pub freq: u32,
}

impl View for FrequencyEvent {
    type V = (int, u32);

    open spec fn view(&self) -> (int, u32) {
        (self.time as int, self.freq)
    }
}

/// The frames one character contributes: none when it is unsupported, its
/// code word alone when its page is already current, and the page's shift
/// code word followed by its code word otherwise.
pub open spec fn step_frames(c: char, cur: Option<Case>) -> Seq<CodeWord> {
    match lookup_spec(c) {
        None => Seq::empty(),
        Some((k, w)) => if cur == Some(k) {
            seq![w]
        } else {
            seq![shift_code_spec(k), w]
        },
    }
}

/// The current code page after one character: unchanged when the
/// character is unsupported, the character's page otherwise.
pub open spec fn step_case(c: char, cur: Option<Case>) -> Option<Case> {
    match lookup_spec(c) {
        None => cur,
        Some((k, _)) => Some(k),
    }
}

/// The full frame sequence for text `s`, starting from code page `cur`.
pub open spec fn frames_from(s: Seq<char>, cur: Option<Case>) -> Seq<CodeWord>
    decreases s.len(),
{
    if s.len() == 0 {
        Seq::empty()
    } else {
        step_frames(s[0], cur) + frames_from(s.drop_first(), step_case(s[0], cur))
    }
}

/// The current code page after all of `s`, starting from `cur`.
pub open spec fn case_after(s: Seq<char>, cur: Option<Case>) -> Option<Case>
    decreases s.len(),
{
    if s.len() == 0 {
        cur
    } else {
        case_after(s.drop_first(), step_case(s[0], cur))
    }
}

/// The frame sequence for text `s` from the initial state, in which no
/// code page is selected yet and the first supported character always
/// draws a shift frame.
pub open spec fn frames_of(s: Seq<char>) -> Seq<CodeWord> {
    frames_from(s, None)
}

/// Event `j` of the 7 events of frame `i` carrying code word `w`, as a
/// (timestamp in bit periods, frequency in Hz) pair. Event 0 is the start
/// bit (Space) at `8*i`; events 1 through 5 carry data bit `j-1` at
/// `8*i + j`; event 6 is the stop bit (Mark) at `8*i + 6`, held through
/// the remaining 2 periods of the 8-period slot.
pub open spec fn frame_event(i: int, w: CodeWord, j: int, space: u32, mark: u32) -> (int, u32)
    recommends
        0 <= j < 7,
{
    if j == 0 {
        (8 * i, space)
    } else if j <= 5 {
        (8 * i + j, if code_bit(w, j - 1) { mark } else { space })
    } else {
        (8 * i + 6, mark)
    }
}

/// The 7 events of frame `i` carrying code word `w`.
pub open spec fn frame_events(i: int, w: CodeWord, space: u32, mark: u32) -> Seq<(int, u32)> {
    Seq::new(7, |j: int| frame_event(i, w, j, space, mark))
}

/// The full event schedule for the frame sequence `fs`: frame `i` occupies
/// events `7*i` through `7*i + 6`.
pub open spec fn events_of(fs: Seq<CodeWord>, space: u32, mark: u32) -> Seq<(int, u32)>
    decreases fs.len(),
{
    if fs.len() == 0 {
        Seq::empty()
    } else {
        events_of(fs.drop_last(), space, mark) + frame_events(
            fs.len() - 1,
            fs.last(),
            space,
            mark,
        )
    }
}

/// The view of a schedule as a sequence of (timestamp in bit periods,
/// frequency in Hz) pairs.
pub open spec fn event_views(s: Seq<FrequencyEvent>) -> Seq<(int, u32)> {
    s.map_values(|e: FrequencyEvent| e@)
}

proof fn lemma_event_views_push(s: Seq<FrequencyEvent>, e: FrequencyEvent)
    ensures
        event_views(s.push(e)) == event_views(s).push(e@),
{
    assert(event_views(s.push(e)) =~= event_views(s).push(e@));
}

/// Appending one character to the text appends that character's frames to
/// the frame sequence and steps the current code page once.
pub proof fn lemma_frames_snoc(s: Seq<char>, c: char, cur: Option<Case>)
    ensures
        frames_from(s.push(c), cur) == frames_from(s, cur) + step_frames(c, case_after(s, cur)),
        case_after(s.push(c), cur) == step_case(c, case_after(s, cur)),
    decreases s.len(),
{
    reveal_with_fuel(frames_from, 2);
    reveal_with_fuel(case_after, 2);
    if s.len() == 0 {
        assert(s.push(c).drop_first() =~= Seq::<char>::empty());
        assert(s.push(c)[0] == c);
        assert(frames_from(s.push(c), cur) == step_frames(c, cur) + frames_from(
            Seq::<char>::empty(),
            step_case(c, cur),
        ));
        assert(frames_from(s.push(c), cur) =~= frames_from(s, cur) + step_frames(
            c,
            case_after(s, cur),
        ));
    } else {
        assert(s.push(c).drop_first() =~= s.drop_first().push(c));
        assert(s.push(c)[0] == s[0]);
        lemma_frames_snoc(s.drop_first(), c, step_case(s[0], cur));
        assert(frames_from(s.push(c), cur) == step_frames(s[0], cur) + frames_from(
            s.drop_first().push(c),
            step_case(s[0], cur),
        ));
        assert(frames_from(s, cur) == step_frames(s[0], cur) + frames_from(
            s.drop_first(),
            step_case(s[0], cur),
        ));
        assert(case_after(s, cur) == case_after(s.drop_first(), step_case(s[0], cur)));
        assert(frames_from(s.push(c), cur) =~= frames_from(s, cur) + step_frames(
            c,
            case_after(s, cur),
        ));
    }
}

/// The schedule has exactly 7 events per frame.
pub proof fn lemma_events_len(fs: Seq<CodeWord>, space: u32, mark: u32)
    ensures
        events_of(fs, space, mark).len() == 7 * fs.len(),
    decreases fs.len(),
{
    if fs.len() > 0 {
        lemma_events_len(fs.drop_last(), space, mark);
    }
}

/// The sequence of code words to transmit for `text`: one data frame per
/// supported character, preceded by a shift frame wherever the character's
/// page differs from the current one (always for the first supported
/// character); unsupported characters contribute nothing. Every emitted
/// code word is well formed: exactly five bits.
pub fn frames(text: &str) -> (r: Vec<CodeWord>)
    ensures
        r@ == frames_of(text@),
        r@.len() <= 2 * text@.len(),
        forall|t: int| 0 <= t < r@.len() ==> r@[t].wf(),
{
    let n = text.unicode_len();
    let mut out: Vec<CodeWord> = Vec::new();
    let mut cur: Option<Case> = None;
    let mut i: usize = 0;
    while i < n
        invariant
            n == text@.len(),
            i <= n,
            out@ == frames_from(text@.take(i as int), None),
            cur == case_after(text@.take(i as int), None),
            out@.len() <= 2 * i,
            forall|t: int| 0 <= t < out@.len() ==> out@[t].wf(),
        decreases n - i,
    {
        let c = text.get_char(i);
        let ghost prev = text@.take(i as int);
        let ghost prev_out = out@;
        let ghost prev_cur = cur;
        proof {
            assert(text@.take(i + 1) =~= prev.push(c));
            lemma_frames_snoc(prev, c, None);
        }
        match lookup(c) {
            None => {},
            Some((k, w)) => {
                let same = match cur {
                    Some(cc) => cc == k,
                    None => false,
                };
                if !same {
                    out.push(shift_code(k));
                    cur = Some(k);
                }
                out.push(w);
            },
        }
        proof {
            assert(out@ =~= prev_out + step_frames(c, case_after(prev, None)));
            assert(cur == step_case(c, prev_cur));
        }
        i = i + 1;
    }
    proof {
        assert(text@.take(n as int) =~= text@);
    }
    out
}

/// Encodes `text` as the full FSK event schedule: the events of
/// `frames_of(text)` in order, with timestamps in bit periods, the start
/// bit and Space data bits at `space_freq` Hz and the Mark bits and stop
/// bit at `mark_freq` Hz. Unsupported characters are silently skipped.
pub fn encode(text: &str, space_freq: u32, mark_freq: u32) -> (r: Vec<FrequencyEvent>)
    requires
        text@.len() <= MAX_TEXT_LEN,
    ensures
        event_views(r@) == events_of(frames_of(text@), space_freq, mark_freq),
        r@.len() == 7 * frames_of(text@).len(),
{
    let fs = frames(text);
    let mut out: Vec<FrequencyEvent> = Vec::new();
    let mut i: usize = 0;
    while i < fs.len()
        invariant
            fs@ == frames_of(text@),
            fs@.len() <= 2 * text@.len(),
            text@.len() <= MAX_TEXT_LEN,
            i <= fs@.len(),
            event_views(out@) == events_of(fs@.take(i as int), space_freq, mark_freq),
            out@.len() == 7 * i,
        decreases fs@.len() - i,
    {
        let w = fs[i];
        let t0: u64 = 8 * (i as u64);
        let ghost pre = event_views(out@);
        let ghost fev = frame_events(i as int, w, space_freq, mark_freq);
        let e0 = FrequencyEvent { time: t0, freq: space_freq };
        proof {
            lemma_event_views_push(out@, e0);
            assert(pre.push(e0@) =~= pre + fev.take(1));
        }
        out.push(e0);
        let mut j: usize = 0;
        while j < 5
            invariant
                j <= 5,
                i < fs@.len(),
                fs@.len() <= 2 * text@.len(),
                text@.len() <= MAX_TEXT_LEN,
                fs@[i as int] == w,
                t0 == 8 * i,
                fev == frame_events(i as int, w, space_freq, mark_freq),
                event_views(out@) == pre + fev.take(j + 1),
            decreases 5 - j,
        {
            let f = if w.bit(j) {
                mark_freq
            } else {
                space_freq
            };
            let e = FrequencyEvent { time: t0 + (j as u64) + 1, freq: f };
            proof {
                lemma_event_views_push(out@, e);
                assert((pre + fev.take(j + 1)).push(e@) =~= pre + fev.take(j + 2));
            }
            out.push(e);
            j = j + 1;
        }
        let e6 = FrequencyEvent { time: t0 + 6, freq: mark_freq };
        proof {
            lemma_event_views_push(out@, e6);
            assert((pre + fev.take(6)).push(e6@) =~= pre + fev);
        }
        out.push(e6);
        proof {
            assert(fs@.take(i + 1).drop_last() =~= fs@.take(i as int));
            assert(fs@.take(i + 1).last() == w);
            assert(event_views(out@) =~= events_of(fs@.take(i + 1), space_freq, mark_freq));
        }
        i = i + 1;
    }
    proof {
        assert(fs@.take(fs@.len() as int) =~= fs@);
        lemma_events_len(fs@, space_freq, mark_freq);
    }
    out
}

} // verus!

