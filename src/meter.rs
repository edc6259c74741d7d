//! The auto-ranging meter: hysteretic range switching, the smoothing buffer
//! and the reading produced for each sample.

use vstd::prelude::*;
use crate::range::{
    correction_of, correction_permille, divider_milli, divider_milliohms, reference_ohms,
    reference_resistance, CONNECTED_LIMIT_OHMS, FULL_SCALE_CODE, LOWER_THRESHOLD,
    OVER_RANGE_CODE, RANGE_COUNT, TOP_RANGE, UPPER_THRESHOLD,
};
use crate::text::{format_ohms, is_ascii, reading_text, text_chars, text_from_chars};

verus! {

/// Number of samples averaged into a reading.
pub const SAMPLE_COUNT: usize = 50;

/// Delay, in milliseconds, before a sample is trusted after a range change.
pub const SETTLE_MS: u64 = 5;

/// Upper bound of a stored sample, in milliohms.
pub const MAX_SAMPLE_MILLI: u64 = 10_000_000_000_000;

/// What one sample produced.
pub enum MeterOutput {
    /// The range just changed; no value until the divider settles.
    Settling,
    /// The input is open or beyond what can be displayed.
    OverRange,
    /// A smoothed reading, as display text.
    Reading(heapless::String<32>),
}

/// The meter's state: the selected range, its reference resistance and the
/// circular buffer of resistance samples, in milliohms.
pub struct Meter {
    pub sample_index: usize,
    pub samples: Vec<u64>,
    pub channel: u8,
    pub res: u32,
}

/// The meter's state as mathematical values.
pub struct MeterView {
    pub sample_index: int,
    pub samples: Seq<u64>,
    pub channel: int,
    pub res: int,
}

impl View for Meter {
    type V = MeterView;

    open spec fn view(&self) -> MeterView {
        MeterView {
            sample_index: self.sample_index as int,
            samples: self.samples@,
            channel: self.channel as int,
            res: self.res as int,
        }
    }
}

/// A buffer of zero samples.
pub open spec fn zeros() -> Seq<u64> {
    Seq::new(SAMPLE_COUNT as nat, |i: int| 0u64)
}

/// The state right after `range` is selected.
pub open spec fn reset_view(range: int) -> MeterView {
    MeterView { sample_index: 0, samples: zeros(), channel: range, res: reference_ohms(range) }
}

impl MeterView {
    /// A reachable state: full buffer, cursor inside it, a valid range with
    /// its own reference, bounded samples.
    pub open spec fn wf(self) -> bool {
        &&& self.samples.len() == SAMPLE_COUNT
        &&& 0 <= self.sample_index < SAMPLE_COUNT
        &&& 0 <= self.channel < RANGE_COUNT
        &&& self.res == reference_ohms(self.channel)
        &&& forall|i: int| 0 <= i < self.samples.len() ==> self.samples[i] <= MAX_SAMPLE_MILLI
    }
}

/// The sample, in milliohms, that `code` gives in `range`.
pub open spec fn sample_of(code: int, range: int) -> int {
    divider_milli(code, reference_ohms(range), correction_of(range), FULL_SCALE_CODE as int)
}

/// Sum of a sequence of samples.
pub open spec fn seq_sum(s: Seq<u64>) -> int
    decreases s.len(),
{
    if s.len() == 0 {
        0
    } else {
        seq_sum(s.drop_last()) + s.last()
    }
}

/// The smoothed resistance of a buffer, in whole ohms.
pub open spec fn smoothed_ohms(samples: Seq<u64>) -> int {
    seq_sum(samples) / (SAMPLE_COUNT as int) / 1000
}

/// `code` moves the meter one range up.
pub open spec fn steps_up(m: MeterView, code: int) -> bool {
    code >= UPPER_THRESHOLD && m.channel < TOP_RANGE
}

/// `code` moves the meter one range down.
pub open spec fn steps_down(m: MeterView, code: int) -> bool {
    !steps_up(m, code) && code <= LOWER_THRESHOLD && m.channel > 0
}

/// `code` is taken into the buffer.
pub open spec fn accepts(m: MeterView, code: int) -> bool {
    !steps_up(m, code) && !steps_down(m, code) && code < OVER_RANGE_CODE
}

/// The state after one sample of `code`.
pub open spec fn step(m: MeterView, code: int) -> MeterView {
    if steps_up(m, code) {
        reset_view(m.channel + 1)
    } else if steps_down(m, code) {
        reset_view(m.channel - 1)
    } else if code >= OVER_RANGE_CODE {
        m
    } else {
        MeterView {
            samples: m.samples.update(m.sample_index, sample_of(code, m.channel) as u64),
            sample_index: (m.sample_index + 1) % (SAMPLE_COUNT as int),
            ..m
        }
    }
}

/// `code` lies below the rail and gives, against `res` ohms, a resistance
/// below the connection limit.
pub open spec fn connected(code: int, res: int) -> bool {
    code < FULL_SCALE_CODE && code * res < CONNECTED_LIMIT_OHMS * (FULL_SCALE_CODE - code)
}

proof fn lemma_sum_prefix_bound(s: Seq<u64>, i: int)
    requires
        0 <= i < s.len(),
        forall|j: int| 0 <= j < s.len() ==> s[j] <= MAX_SAMPLE_MILLI,
        seq_sum(s.take(i)) <= i * MAX_SAMPLE_MILLI,
    ensures
        seq_sum(s.take(i + 1)) == seq_sum(s.take(i)) + s[i],
        seq_sum(s.take(i + 1)) <= (i + 1) * MAX_SAMPLE_MILLI,
{
    assert(s.take(i + 1).drop_last() =~= s.take(i));
}

proof fn lemma_sample_bound(code: int, range: int)
    requires
        0 <= code < OVER_RANGE_CODE,
        0 <= range < RANGE_COUNT,
    ensures
        0 <= sample_of(code, range) <= MAX_SAMPLE_MILLI,
{
    let num = code * reference_ohms(range) * 1000;
    let den = FULL_SCALE_CODE - code;
    assert(0 <= num <= 2700 * 1_700_000 * 1000) by (nonlinear_arith)
        requires
            0 <= code <= 2700,
            0 <= reference_ohms(range) <= 1_700_000,
            num == code * reference_ohms(range) * 1000;
    assert(0 <= num / den <= num) by (nonlinear_arith)
        requires
            num >= 0,
            den >= 1;
}

impl Meter {
    /// A meter in the top range with an empty buffer.
    pub fn new() -> (r: Meter)
        ensures
            r@ == reset_view(TOP_RANGE as int),
            r@.wf(),
    {
        let mut m = Meter { sample_index: 0, samples: Vec::new(), channel: TOP_RANGE, res: 0 };
        m.set_channel(TOP_RANGE);
        m
    }

    /// Selects `channel` and clears the buffer.
    pub fn set_channel(&mut self, channel: u8)
        requires
            channel < RANGE_COUNT,
        ensures
            final(self)@ == reset_view(channel as int),
            final(self)@.wf(),
    {
        let mut samples: Vec<u64> = Vec::new();
        let mut i: usize = 0;
        while i < SAMPLE_COUNT
            invariant
                i <= SAMPLE_COUNT,
                samples@ == Seq::new(i as nat, |j: int| 0u64),
            decreases SAMPLE_COUNT - i,
        {
            samples.push(0);
            i = i + 1;
            assert(samples@ =~= Seq::new(i as nat, |j: int| 0u64));
        }
        self.channel = channel;
        self.sample_index = 0;
        self.samples = samples;
        self.res = reference_resistance(channel);
        assert(self.samples@ =~= zeros());
    }

    /// A probe is connected: the resistance that `volt_image` gives in the
    /// current range is below the connection limit.
    pub fn is_connected(&self, volt_image: u16) -> (r: bool)
        ensures
            r == connected(volt_image as int, self.res as int),
    {
        if volt_image >= FULL_SCALE_CODE {
            return false;
        }
        let c = volt_image as u64;
        let rf = self.res as u64;
        proof {
            assert(c * rf <= 0xffff * 0xffff_ffff) by (nonlinear_arith)
                requires c <= 0xffff, rf <= 0xffff_ffff;
        }
        c * rf < CONNECTED_LIMIT_OHMS * ((FULL_SCALE_CODE - volt_image) as u64)
    }

    /// Smoothed resistance of the buffer, in whole ohms.
    fn smoothed(&self) -> (r: u64)
        requires
            self@.wf(),
        ensures
            r == smoothed_ohms(self.samples@),
    {
        let mut sum: u64 = 0;
        let mut i: usize = 0;
        while i < self.samples.len()
            invariant
                self@.wf(),
                i <= SAMPLE_COUNT,
                sum == seq_sum(self.samples@.take(i as int)),
                sum <= i * MAX_SAMPLE_MILLI,
            decreases SAMPLE_COUNT - i,
        {
            proof {
                lemma_sum_prefix_bound(self.samples@, i as int);
            }
            sum = sum + self.samples[i];
            i = i + 1;
        }
        assert(self.samples@.take(SAMPLE_COUNT as int) =~= self.samples@);
        sum / (SAMPLE_COUNT as u64) / 1000
    }

    /// Takes one ADC code: switches range when the code crosses a
    /// threshold, otherwise stores the sample and reports the smoothed value.
    pub fn read(&mut self, volt_image: u16) -> (r: MeterOutput)
        requires
            old(self)@.wf(),
        ensures
            final(self)@ == step(old(self)@, volt_image as int),
            final(self)@.wf(),
            !accepts(old(self)@, volt_image as int) ==> (
                r is Settling <==> (steps_up(old(self)@, volt_image as int)
                    || steps_down(old(self)@, volt_image as int))),
            !accepts(old(self)@, volt_image as int) ==> (r is Settling || r is OverRange),
            accepts(old(self)@, volt_image as int) ==> ({
                let t = reading_text(smoothed_ohms(final(self).samples@) as nat);
                &&& t.is_none() ==> r is OverRange
                &&& t.is_some() ==> r is Reading && text_chars(r->Reading_0) == t->Some_0
            }),
    {
        if volt_image >= UPPER_THRESHOLD && self.channel < TOP_RANGE {
            self.set_channel(self.channel + 1);
            return MeterOutput::Settling;
        }
        if volt_image <= LOWER_THRESHOLD && self.channel > 0 {
            self.set_channel(self.channel - 1);
            return MeterOutput::Settling;
        }
        if volt_image >= OVER_RANGE_CODE {
            return MeterOutput::OverRange;
        }
        let ref_ohms = reference_resistance(self.channel);
        let value = divider_milliohms(
            volt_image,
            ref_ohms,
            correction_permille(self.channel),
            FULL_SCALE_CODE,
        );
        proof {
            lemma_sample_bound(volt_image as int, self.channel as int);
        }
        self.samples.set(self.sample_index, value);
        self.sample_index = (self.sample_index + 1) % SAMPLE_COUNT;
        match format_ohms(self.smoothed()) {
            Some(t) => MeterOutput::Reading(t),
            None => MeterOutput::OverRange,
        }
    }
}


/// The text shown for an open or over-range input.
pub open spec fn over_range_text() -> Seq<char> {
    seq!['O', 'L']
}

impl MeterOutput {
    /// The value handed to the display: nothing while settling, the
    /// over-range text, or the reading itself.
    pub fn published(self) -> (r: Option<heapless::String<32>>)
        ensures
            self is Settling ==> r is None,
            self is OverRange ==> r is Some && text_chars(r->Some_0) == over_range_text(),
            self is Reading ==> r is Some && text_chars(r->Some_0) == text_chars(self->Reading_0),
    {
        match self {
            MeterOutput::Settling => None,
            MeterOutput::OverRange => {
                let chars: Vec<char> = vec!['O', 'L'];
                assert(chars@ =~= over_range_text());
                assert(is_ascii(chars@));
                Some(text_from_chars(&chars))
            },
            MeterOutput::Reading(t) => Some(t),
        }
    }
}


/// The state after `n` samples of the same `code`.
pub open spec fn repeat_step(m: MeterView, code: int, n: nat) -> MeterView
    decreases n,
{
    if n == 0 {
        m
    } else {
        step(repeat_step(m, code, (n - 1) as nat), code)
    }
}

proof fn lemma_sum_uniform(s: Seq<u64>, v: u64)
    requires
        forall|i: int| 0 <= i < s.len() ==> s[i] == v,
    ensures
        seq_sum(s) == s.len() * v,
    decreases s.len(),
{
    if s.len() > 0 {
        lemma_sum_uniform(s.drop_last(), v);
        assert(seq_sum(s) == (s.len() - 1) * v + v);
        assert((s.len() - 1) * v + v == s.len() * v) by (nonlinear_arith);
    }
}

proof fn lemma_sum_first_only(s: Seq<u64>)
    requires
        s.len() >= 1,
        forall|i: int| 1 <= i < s.len() ==> s[i] == 0,
    ensures
        seq_sum(s) == s[0],
    decreases s.len(),
{
    if s.len() > 1 {
        lemma_sum_first_only(s.drop_last());
        assert(s.drop_last()[0] == s[0]);
        assert(s.last() == 0);
    } else {
        assert(seq_sum(s.drop_last()) == 0);
        assert(s.last() == s[0]);
    }
}

/// A code strictly between the two thresholds keeps the current range and
/// is stored at the cursor, which moves on by one.
pub proof fn lemma_in_band_keeps_range(m: MeterView, code: int)
    requires
        m.wf(),
        LOWER_THRESHOLD < code < UPPER_THRESHOLD,
    ensures
        accepts(m, code),
        step(m, code).wf(),
        step(m, code).channel == m.channel,
        step(m, code).samples == m.samples.update(m.sample_index, sample_of(code, m.channel) as u64),
        step(m, code).sample_index == (m.sample_index + 1) % (SAMPLE_COUNT as int),
{
    lemma_sample_bound(code, m.channel);
}

/// A code at or above the upper threshold, below the top range, moves the
/// meter exactly one range up with a cleared buffer; the next accepted sample
/// is then the only one in the buffer, unmixed with earlier ones.
pub proof fn lemma_step_up_resets(m: MeterView, code: int, next: int)
    requires
        m.wf(),
        code >= UPPER_THRESHOLD,
        m.channel < TOP_RANGE,
        0 <= next,
        accepts(reset_view(m.channel + 1), next),
    ensures
        step(m, code) == reset_view(m.channel + 1),
        step(step(m, code), next).channel == m.channel + 1,
        step(step(m, code), next).samples == zeros().update(0, sample_of(next, m.channel + 1) as u64),
        seq_sum(step(step(m, code), next).samples) == sample_of(next, m.channel + 1),
{
    lemma_sample_bound(next, m.channel + 1);
    let s = step(step(m, code), next).samples;
    assert(s.len() == SAMPLE_COUNT);
    lemma_sum_first_only(s);
}

/// Selecting a range leaves the same state whatever came before, so doing
/// it twice equals doing it once: that range, its reference, the cursor at
/// the start and an all-zero buffer.
pub proof fn lemma_set_channel_twice(range: int)
    requires
        0 <= range < RANGE_COUNT,
    ensures
        reset_view(range).wf(),
        reset_view(range).channel == range,
        reset_view(range).res == reference_ohms(range),
        reset_view(range).sample_index == 0,
        seq_sum(reset_view(range).samples) == 0,
        forall|i: int| 0 <= i < SAMPLE_COUNT ==> reset_view(range).samples[i] == 0,
{
    lemma_sum_uniform(zeros(), 0);
}

/// A buffer holding only the value `v` smooths to `v`.
pub proof fn lemma_uniform_buffer(m: MeterView, v: u64)
    requires
        m.wf(),
        forall|i: int| 0 <= i < m.samples.len() ==> m.samples[i] == v,
    ensures
        seq_sum(m.samples) == SAMPLE_COUNT * v,
        smoothed_ohms(m.samples) == v / 1000,
{
    lemma_sum_uniform(m.samples, v);
    assert((SAMPLE_COUNT * v) / (SAMPLE_COUNT as int) == v) by (nonlinear_arith);
}

/// The buffer position `t` places after `start`.
pub open spec fn slot_after(start: int, t: int) -> int {
    (start + t) % (SAMPLE_COUNT as int)
}

proof fn lemma_repeat_fills(m: MeterView, code: int, n: nat)
    requires
        m.wf(),
        LOWER_THRESHOLD < code < UPPER_THRESHOLD,
        n <= SAMPLE_COUNT,
    ensures
        repeat_step(m, code, n).wf(),
        repeat_step(m, code, n).channel == m.channel,
        repeat_step(m, code, n).sample_index == (m.sample_index + n) % (SAMPLE_COUNT as int),
        forall|t: int|
            0 <= t < n ==> repeat_step(m, code, n).samples[#[trigger] slot_after(
                m.sample_index,
                t,
            )] == sample_of(code, m.channel) as u64,
    decreases n,
{
    if n > 0 {
        let k = (n - 1) as nat;
        lemma_repeat_fills(m, code, k);
        let prev = repeat_step(m, code, k);
        lemma_in_band_keeps_range(prev, code);
        let at = (m.sample_index + k) % (SAMPLE_COUNT as int);
        assert forall|t: int| 0 <= t < n implies repeat_step(m, code, n).samples[#[trigger] slot_after(
            m.sample_index,
            t,
        )] == sample_of(code, m.channel) as u64 by {
            if t < k {
                assert(slot_after(m.sample_index, t) != at);
            }
        }
    }
}

/// Feeding a buffer's worth of the same in-band code smooths to exactly the
/// resistance of that code.
pub proof fn lemma_steady_input(m: MeterView, code: int)
    requires
        m.wf(),
        LOWER_THRESHOLD < code < UPPER_THRESHOLD,
    ensures
        repeat_step(m, code, SAMPLE_COUNT as nat).channel == m.channel,
        smoothed_ohms(repeat_step(m, code, SAMPLE_COUNT as nat).samples) == sample_of(
            code,
            m.channel,
        ) / 1000,
{
    let f = repeat_step(m, code, SAMPLE_COUNT as nat);
    lemma_repeat_fills(m, code, SAMPLE_COUNT as nat);
    lemma_sample_bound(code, m.channel);
    let v = sample_of(code, m.channel) as u64;
    assert forall|j: int| 0 <= j < f.samples.len() implies f.samples[j] == v by {
        let t = (j - m.sample_index + SAMPLE_COUNT) % (SAMPLE_COUNT as int);
        assert(slot_after(m.sample_index, t) == j);
    }
    lemma_uniform_buffer(f, v);
}

} // verus!
