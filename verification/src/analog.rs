//! Generic analog input support.

use crate::key::{keys_of, lemma_keys_of_empty, lemma_keys_of_insert, lemma_keys_of_remove, InputKey};
use std::collections::{HashMap, HashSet};
use std::marker::PhantomData;
use vstd::prelude::*;

verus! {

/// Number of fixed-point units in one step of a signed 16-bit hardware sample.
pub const UNITS_PER_STEP: i32 = 1000;

/// The maximum value of an analog input: full positive deflection.
pub const ANALOG_MAX: i32 = 32_767_000;

/// The minimum value of an analog input: full negative deflection.
pub const ANALOG_MIN: i32 = -32_767_000;

/// The analog deadzone of a new container: a tenth of full deflection.
pub const DEFAULT_DEADZONE: i32 = 3_276_700;

/// The digital deadzone of a new container: half of full deflection.
pub const DEFAULT_DEADZONE_DIGITAL: i32 = 16_383_500;

/// Clamps `v` into the closed range between `lo` and `hi`.
pub open spec fn clamp_units(v: int, lo: int, hi: int) -> int {
    if v < lo {
        lo
    } else if v > hi {
        hi
    } else {
        v
    }
}

/// Magnitude of a fixed-point quantity.
pub open spec fn magnitude(v: int) -> int {
    if v < 0 {
        -v
    } else {
        v
    }
}

/// Sign of a fixed-point quantity; zero counts as positive.
pub open spec fn sign(v: int) -> int {
    if v < 0 {
        -1
    } else {
        1
    }
}

/// True when `v` is a representable sample.
pub open spec fn is_sample(v: int) -> bool {
    ANALOG_MIN <= v <= ANALOG_MAX
}

/// True when `d` is a representable threshold.
pub open spec fn is_threshold(d: int) -> bool {
    0 <= d <= ANALOG_MAX
}

/// A normalized analog sample, in fixed-point units.
#[derive(Debug, Clone, Copy, PartialEq, Eq, Structural)]
pub struct AnalogInputValue(i32);

impl View for AnalogInputValue {
    type V = int;

    closed spec fn view(&self) -> int {
        self.0 as int
    }
}

impl AnalogInputValue {
    #[verifier::type_invariant]
    spec fn in_range(self) -> bool {
        ANALOG_MIN <= self.0 <= ANALOG_MAX
    }

    /// The sample in fixed-point units.
    pub fn get(&self) -> (units: i32)
        ensures
            units == self@,
            is_sample(units as int),
    {
        proof {
            use_type_invariant(self);
        }
        self.0
    }

    /// Builds a sample from fixed-point units, clamping it into range.
    pub fn from_units(units: i32) -> (sample: Self)
        ensures
            sample@ == clamp_units(units as int, ANALOG_MIN as int, ANALOG_MAX as int),
            is_sample(sample@),
    {
        if units < ANALOG_MIN {
            AnalogInputValue(ANALOG_MIN)
        } else if units > ANALOG_MAX {
            AnalogInputValue(ANALOG_MAX)
        } else {
            AnalogInputValue(units)
        }
    }
}

impl Default for AnalogInputValue {
    /// The rest position.
    fn default() -> (sample: Self)
        ensures
            sample@ == 0,
    {
        AnalogInputValue(0)
    }
}

/// The sample that a signed 16-bit hardware reading stands for: the reading
/// scaled so that `i16::MAX` is full deflection, then clamped into range.
pub open spec fn sample_of_reading(reading: i16) -> int {
    clamp_units(reading as int * UNITS_PER_STEP as int, ANALOG_MIN as int, ANALOG_MAX as int)
}

impl From<i16> for AnalogInputValue {
    fn from(value: i16) -> (sample: Self)
        ensures
            sample@ == sample_of_reading(value),
            is_sample(sample@),
    {
        let scaled: i32 = (value as i32) * UNITS_PER_STEP;
        if scaled < ANALOG_MIN {
            AnalogInputValue(ANALOG_MIN)
        } else {
            AnalogInputValue(scaled)
        }
    }
}

impl vstd::std_specs::convert::FromSpecImpl<i16> for AnalogInputValue {
    open spec fn obeys_from_spec() -> bool {
        true
    }

    closed spec fn from_spec(value: i16) -> Self {
        AnalogInputValue(sample_of_reading(value) as i32)
    }
}

/// Wrapper around a fixed-point magnitude for deadzones.
#[derive(Debug, Clone, Copy, PartialEq, Eq, Structural)]
pub struct Deadzone(i32);

impl View for Deadzone {
    type V = int;

    closed spec fn view(&self) -> int {
        self.0 as int
    }
}

impl Deadzone {
    #[verifier::type_invariant]
    spec fn in_range(self) -> bool {
        0 <= self.0 <= ANALOG_MAX
    }

    /// The threshold in fixed-point units.
    pub fn get(&self) -> (units: i32)
        ensures
            units == self@,
            is_threshold(units as int),
    {
        proof {
            use_type_invariant(self);
        }
        self.0
    }
}

impl Default for Deadzone {
    /// The threshold that every sample reaches.
    fn default() -> (threshold: Self)
        ensures
            threshold@ == 0,
    {
        Deadzone(0)
    }
}

impl From<AnalogInputValue> for Deadzone {
    fn from(value: AnalogInputValue) -> (threshold: Self)
        ensures
            threshold@ == magnitude(value@),
            is_threshold(threshold@),
    {
        let units: i32 = value.get();
        if units < 0 {
            Deadzone(-units)
        } else {
            Deadzone(units)
        }
    }
}

impl vstd::std_specs::convert::FromSpecImpl<AnalogInputValue> for Deadzone {
    open spec fn obeys_from_spec() -> bool {
        true
    }

    closed spec fn from_spec(value: AnalogInputValue) -> Self {
        Deadzone(magnitude(value@) as i32)
    }
}

/// True when a sample of `raw` units reaches the threshold. A sample that
/// sits exactly on the threshold reaches it.
pub open spec fn reaches(raw: int, threshold: int) -> bool {
    magnitude(raw) >= threshold
}

/// The part of a sample beyond the deadzone, stretched back over the whole
/// range and rounded toward zero. A deadzone of full deflection leaves
/// nothing beyond it, so the result is zero there.
pub open spec fn remap(raw: int, deadzone: int) -> int {
    if deadzone >= ANALOG_MAX {
        0
    } else {
        sign(raw) * (((magnitude(raw) - deadzone) * ANALOG_MAX) / (ANALOG_MAX - deadzone))
    }
}

/// The three-valued reading of a sample: full deflection toward its side
/// when it reaches the threshold and is not at rest, zero otherwise.
pub open spec fn digitize(raw: int, threshold: int) -> int {
    if !reaches(raw, threshold) || raw == 0 {
        0
    } else if raw < 0 {
        ANALOG_MIN as int
    } else {
        ANALOG_MAX as int
    }
}

/// The keys that went active this frame, after `key` with previous sample
/// `prev` was sampled at `new`.
pub open spec fn activated_after<T>(
    edges: Set<T>,
    key: T,
    prev: Option<int>,
    new: int,
    threshold: int,
) -> Set<T> {
    match prev {
        None => if reaches(new, threshold) {
            edges.insert(key)
        } else {
            edges
        },
        Some(last) => if !reaches(new, threshold) {
            edges.remove(key)
        } else if !reaches(last, threshold) || sign(new) != sign(last) {
            edges.insert(key)
        } else {
            edges
        },
    }
}

/// The keys that went inactive this frame, after `key` with previous sample
/// `prev` was sampled at `new`.
pub open spec fn deactivated_after<T>(
    edges: Set<T>,
    key: T,
    prev: Option<int>,
    new: int,
    threshold: int,
) -> Set<T> {
    match prev {
        None => if reaches(new, threshold) {
            edges.remove(key)
        } else {
            edges
        },
        Some(last) => if reaches(new, threshold) {
            edges.remove(key)
        } else if reaches(last, threshold) {
            edges.insert(key)
        } else {
            edges
        },
    }
}

/// What an analog container holds: the last sample of each key, both
/// thresholds, and for each threshold the keys that crossed it this frame.
#[verifier::reject_recursive_types(T)]
pub struct AnalogState<T> {
    pub values: Map<T, int>,
    pub just_activated: Set<T>,
    pub just_deactivated: Set<T>,
    pub deadzone: int,
    pub just_activated_digital: Set<T>,
    pub just_deactivated_digital: Set<T>,
    pub digital_deadzone: int,
}

impl<T> AnalogState<T> {
    /// The state of a new container: no samples, no edges, default thresholds.
    pub open spec fn initial() -> Self {
        AnalogState {
            values: Map::empty(),
            just_activated: Set::empty(),
            just_deactivated: Set::empty(),
            deadzone: DEFAULT_DEADZONE as int,
            just_activated_digital: Set::empty(),
            just_deactivated_digital: Set::empty(),
            digital_deadzone: DEFAULT_DEADZONE_DIGITAL as int,
        }
    }

    /// The last sample of `key`, if it was ever sampled.
    pub open spec fn sample(self, key: T) -> Option<int> {
        if self.values.contains_key(key) {
            Some(self.values[key])
        } else {
            None
        }
    }

    /// The value reported for `key`.
    pub open spec fn value(self, key: T) -> int {
        match self.sample(key) {
            Some(raw) if reaches(raw, self.deadzone) => remap(raw, self.deadzone),
            _ => 0,
        }
    }

    /// The three-valued reading reported for `key`.
    pub open spec fn digital_value(self, key: T) -> int {
        match self.sample(key) {
            Some(raw) => digitize(raw, self.digital_deadzone),
            None => 0,
        }
    }

    /// The state after `key` was sampled at `new`.
    pub open spec fn set(self, key: T, new: int) -> Self {
        let prev = self.sample(key);
        AnalogState {
            values: self.values.insert(key, new),
            just_activated: activated_after(self.just_activated, key, prev, new, self.deadzone),
            just_deactivated: deactivated_after(
                self.just_deactivated,
                key,
                prev,
                new,
                self.deadzone,
            ),
            deadzone: self.deadzone,
            just_activated_digital: activated_after(
                self.just_activated_digital,
                key,
                prev,
                new,
                self.digital_deadzone,
            ),
            just_deactivated_digital: deactivated_after(
                self.just_deactivated_digital,
                key,
                prev,
                new,
                self.digital_deadzone,
            ),
            digital_deadzone: self.digital_deadzone,
        }
    }

    /// The state at the start of the next frame.
    pub open spec fn update(self) -> Self {
        AnalogState {
            values: self.values,
            just_activated: Set::empty(),
            just_deactivated: Set::empty(),
            deadzone: self.deadzone,
            just_activated_digital: Set::empty(),
            just_deactivated_digital: Set::empty(),
            digital_deadzone: self.digital_deadzone,
        }
    }

    /// The state with another analog deadzone. Samples and edges stay.
    pub open spec fn with_deadzone(self, threshold: int) -> Self {
        AnalogState { deadzone: threshold, ..self }
    }

    /// The state with another digital deadzone. Samples and edges stay.
    pub open spec fn with_digital_deadzone(self, threshold: int) -> Self {
        AnalogState { digital_deadzone: threshold, ..self }
    }

    /// No key is on both sides of a threshold's edge, and every key on an
    /// edge was sampled.
    pub open spec fn consistent(self) -> bool {
        &&& self.just_activated.disjoint(self.just_deactivated)
        &&& self.just_activated_digital.disjoint(self.just_deactivated_digital)
        &&& self.just_activated.subset_of(self.values.dom())
        &&& self.just_deactivated.subset_of(self.values.dom())
        &&& self.just_activated_digital.subset_of(self.values.dom())
        &&& self.just_deactivated_digital.subset_of(self.values.dom())
    }
}

/// The samples of the keys whose codes are filed in `filed`.
pub open spec fn samples_of<T: InputKey>(filed: Map<u32, AnalogInputValue>) -> Map<T, int> {
    Map::new(|k: T| filed.contains_key(k.index()), |k: T| filed[k.index()]@)
}

proof fn lemma_samples_of_insert<T: InputKey>(
    filed: Map<u32, AnalogInputValue>,
    k: T,
    v: AnalogInputValue,
)
    ensures
        samples_of::<T>(filed.insert(k.index(), v)) == samples_of::<T>(filed).insert(k, v@),
{
    assert forall|j: T| j.index() == k.index() implies j == k by {
        T::index_is_injective(j, k);
    }
    assert(samples_of::<T>(filed.insert(k.index(), v)) =~= samples_of::<T>(filed).insert(k, v@));
}

proof fn lemma_samples_of_empty<T: InputKey>()
    ensures
        samples_of::<T>(Map::<u32, AnalogInputValue>::empty()) == Map::<T, int>::empty(),
{
    assert(samples_of::<T>(Map::<u32, AnalogInputValue>::empty()) =~= Map::<T, int>::empty());
}

/// Container for analog inputs.
#[derive(Debug)]
pub struct AnalogInput<T> {
    inputs: HashMap<u32, AnalogInputValue>,
    just_activated: HashSet<u32>,
    just_deactivated: HashSet<u32>,
    deadzone: Deadzone,
    just_activated_digital: HashSet<u32>,
    just_deactivated_digital: HashSet<u32>,
    digital_deadzone: Deadzone,
    key: PhantomData<T>,
}

impl<T: InputKey> View for AnalogInput<T> {
    type V = AnalogState<T>;

    closed spec fn view(&self) -> AnalogState<T> {
        AnalogState {
            values: samples_of(self.inputs@),
            just_activated: keys_of(self.just_activated@),
            just_deactivated: keys_of(self.just_deactivated@),
            deadzone: self.deadzone@,
            just_activated_digital: keys_of(self.just_activated_digital@),
            just_deactivated_digital: keys_of(self.just_deactivated_digital@),
            digital_deadzone: self.digital_deadzone@,
        }
    }
}

/// Magnitude of a sample.
fn magnitude_of(raw: i32) -> (m: i32)
    requires
        is_sample(raw as int),
    ensures
        m == magnitude(raw as int),
        0 <= m <= ANALOG_MAX,
{
    if raw < 0 {
        -raw
    } else {
        raw
    }
}

/// Remaps a sample that reaches the deadzone.
fn remap_sample(raw: i32, deadzone: i32) -> (out: i32)
    requires
        is_sample(raw as int),
        is_threshold(deadzone as int),
        reaches(raw as int, deadzone as int),
    ensures
        out == remap(raw as int, deadzone as int),
        is_sample(out as int),
{
    if deadzone >= ANALOG_MAX {
        return 0;
    }
    let excess: i64 = (magnitude_of(raw) - deadzone) as i64;
    let span: i64 = (ANALOG_MAX - deadzone) as i64;
    let full: i64 = ANALOG_MAX as i64;
    assert(0 <= excess * full <= span * full <= full * full) by (nonlinear_arith)
        requires
            0 <= excess <= span <= full,
    ;
    let stretched: i64 = excess * full / span;
    assert(0 <= stretched <= full) by (nonlinear_arith)
        requires
            0 <= excess * full <= span * full,
            span > 0,
            stretched == (excess * full) / (span as int),
    ;
    if raw < 0 {
        assert(sign(raw as int) * (stretched as int) == -stretched) by (nonlinear_arith)
            requires
                sign(raw as int) == -1,
        ;
        -(stretched as i32)
    } else {
        assert(sign(raw as int) * (stretched as int) == stretched) by (nonlinear_arith)
            requires
                sign(raw as int) == 1,
        ;
        stretched as i32
    }
}

impl<T: InputKey> AnalogInput<T> {
    /// Gets the value of an analog input.
    ///
    /// Returns zero if the input is within the analog deadzone, or if it has
    /// not been read yet.
    pub fn value(&self, input: T) -> (out: i32)
        ensures
            out == self@.value(input),
            is_sample(out as int),
    {
        let code: u32 = input.code();
        let deadzone: i32 = self.deadzone.get();
        match self.inputs.get(&code) {
            Some(stored) => {
                let raw: i32 = stored.get();
                if magnitude_of(raw) >= deadzone {
                    remap_sample(raw, deadzone)
                } else {
                    0
                }
            },
            None => 0,
        }
    }

    /// Checks if an analog input just left the analog deadzone.
    pub fn just_activated(&self, input: T) -> (edge: Option<i32>)
        ensures
            match edge {
                Some(out) => self@.just_activated.contains(input) && out == self@.value(input),
                None => !self@.just_activated.contains(input),
            },
    {
        let code: u32 = input.code();
        if self.just_activated.contains(&code) {
            Some(self.value(input))
        } else {
            None
        }
    }

    /// Checks if an analog input just entered the analog deadzone.
    pub fn just_deactivated(&self, input: T) -> (edge: bool)
        ensures
            edge == self@.just_deactivated.contains(input),
    {
        let code: u32 = input.code();
        self.just_deactivated.contains(&code)
    }

    /// Converts an analog input to a digital value.
    ///
    /// Returns either `ANALOG_MIN` or `ANALOG_MAX` when a nonzero input is
    /// outside the digital deadzone, and zero otherwise.
    pub fn digital_value(&self, input: T) -> (out: i32)
        ensures
            out == self@.digital_value(input),
            out == ANALOG_MIN || out == 0 || out == ANALOG_MAX,
    {
        let code: u32 = input.code();
        let threshold: i32 = self.digital_deadzone.get();
        match self.inputs.get(&code) {
            Some(stored) => {
                let raw: i32 = stored.get();
                if magnitude_of(raw) >= threshold {
                    if raw < 0 {
                        ANALOG_MIN
                    } else if raw > 0 {
                        ANALOG_MAX
                    } else {
                        0
                    }
                } else {
                    0
                }
            },
            None => 0,
        }
    }

    /// Checks if an analog input just left the digital deadzone.
    pub fn just_activated_digital(&self, input: T) -> (edge: Option<i32>)
        ensures
            match edge {
                Some(out) => self@.just_activated_digital.contains(input) && out
                    == self@.digital_value(input),
                None => !self@.just_activated_digital.contains(input),
            },
    {
        let code: u32 = input.code();
        if self.just_activated_digital.contains(&code) {
            Some(self.digital_value(input))
        } else {
            None
        }
    }

    /// Checks if an analog input just entered the digital deadzone.
    pub fn just_deactivated_digital(&self, input: T) -> (edge: bool)
        ensures
            edge == self@.just_deactivated_digital.contains(input),
    {
        let code: u32 = input.code();
        self.just_deactivated_digital.contains(&code)
    }

    /// Stores a sample of `input` and records which thresholds it crossed.
    pub fn set(&mut self, input: T, value: AnalogInputValue)
        ensures
            final(self)@ == old(self)@.set(input, value@),
    {
        let code: u32 = input.code();
        let old_value: Option<AnalogInputValue> = self.inputs.insert(code, value);
        let new_raw: i32 = value.get();
        let new_size: i32 = magnitude_of(new_raw);
        let deadzone: i32 = self.deadzone.get();
        let digital_deadzone: i32 = self.digital_deadzone.get();
        proof {
            lemma_samples_of_insert::<T>(old(self).inputs@, input, value);
            lemma_keys_of_insert::<T>(old(self).just_activated@, input);
            lemma_keys_of_remove::<T>(old(self).just_activated@, input);
            lemma_keys_of_insert::<T>(old(self).just_deactivated@, input);
            lemma_keys_of_remove::<T>(old(self).just_deactivated@, input);
            lemma_keys_of_insert::<T>(old(self).just_activated_digital@, input);
            lemma_keys_of_remove::<T>(old(self).just_activated_digital@, input);
            lemma_keys_of_insert::<T>(old(self).just_deactivated_digital@, input);
            lemma_keys_of_remove::<T>(old(self).just_deactivated_digital@, input);
        }
        match old_value {
            Some(old_sample) => {
                let old_raw: i32 = old_sample.get();
                let old_size: i32 = magnitude_of(old_raw);
                let flipped: bool = (new_raw < 0) != (old_raw < 0);
                if new_size < deadzone {
                    self.just_activated.remove(&code);
                    if old_size >= deadzone {
                        self.just_deactivated.insert(code);
                    }
                } else {
                    self.just_deactivated.remove(&code);
                    if old_size < deadzone || flipped {
                        self.just_activated.insert(code);
                    }
                }
                if new_size < digital_deadzone {
                    self.just_activated_digital.remove(&code);
                    if old_size >= digital_deadzone {
                        self.just_deactivated_digital.insert(code);
                    }
                } else {
                    self.just_deactivated_digital.remove(&code);
                    if old_size < digital_deadzone || flipped {
                        self.just_activated_digital.insert(code);
                    }
                }
            },
            None => {
                if new_size >= deadzone {
                    self.just_activated.insert(code);
                    self.just_deactivated.remove(&code);
                }
                if new_size >= digital_deadzone {
                    self.just_activated_digital.insert(code);
                    self.just_deactivated_digital.remove(&code);
                }
            },
        }
    }

    /// Starts a new frame: forgets every edge, keeps samples and thresholds.
    pub fn update(&mut self)
        ensures
            final(self)@ == old(self)@.update(),
    {
        self.just_activated.clear();
        self.just_deactivated.clear();
        self.just_activated_digital.clear();
        self.just_deactivated_digital.clear();
        proof {
            lemma_keys_of_empty::<T>();
        }
    }

    /// Replaces the analog deadzone. Edges already recorded stay as they are.
    pub fn set_deadzone(&mut self, deadzone: Deadzone)
        ensures
            final(self)@ == old(self)@.with_deadzone(deadzone@),
    {
        self.deadzone = deadzone;
    }

    /// Replaces the digital deadzone. Edges already recorded stay as they are.
    pub fn set_digital_deadzone(&mut self, deadzone: Deadzone)
        ensures
            final(self)@ == old(self)@.with_digital_deadzone(deadzone@),
    {
        self.digital_deadzone = deadzone;
    }
}

impl<T: InputKey> Default for AnalogInput<T> {
    fn default() -> (fresh: Self)
        ensures
            fresh@ == AnalogState::<T>::initial(),
    {
        proof {
            lemma_keys_of_empty::<T>();
            lemma_samples_of_empty::<T>();
        }
        AnalogInput {
            inputs: HashMap::new(),
            just_activated: HashSet::new(),
            just_deactivated: HashSet::new(),
            deadzone: Deadzone(DEFAULT_DEADZONE),
            just_activated_digital: HashSet::new(),
            just_deactivated_digital: HashSet::new(),
            digital_deadzone: Deadzone(DEFAULT_DEADZONE_DIGITAL),
            key: PhantomData,
        }
    }
}

/// A digitized sample takes one of three values, and is zero below the
/// threshold.
pub proof fn lemma_digitize_is_ternary(raw: int, threshold: int)
    ensures
        digitize(raw, threshold) == ANALOG_MIN || digitize(raw, threshold) == 0 || digitize(
            raw,
            threshold,
        ) == ANALOG_MAX,
        !reaches(raw, threshold) ==> digitize(raw, threshold) == 0,
{
}

/// A sample that reaches the digital deadzone and is not at rest digitizes
/// to full deflection toward its own side, never to a value in between.
pub proof fn lemma_digitize_reached_is_full(raw: int, threshold: int)
    requires
        reaches(raw, threshold),
        raw != 0,
    ensures
        digitize(raw, threshold) == sign(raw) * ANALOG_MAX,
{
}

/// A sample that sits exactly on the deadzone remaps to zero.
pub proof fn lemma_remap_at_deadzone(raw: int, deadzone: int)
    requires
        magnitude(raw) == deadzone,
    ensures
        reaches(raw, deadzone),
        remap(raw, deadzone) == 0,
{
    if deadzone < ANALOG_MAX {
        assert((0 * ANALOG_MAX) / (ANALOG_MAX - deadzone) == 0) by (nonlinear_arith)
            requires
                ANALOG_MAX - deadzone > 0,
        ;
    }
}

/// Full deflection remaps to full deflection, whatever the deadzone below it.
pub proof fn lemma_remap_full_deflection(raw: int, deadzone: int)
    requires
        magnitude(raw) == ANALOG_MAX,
        is_threshold(deadzone),
        deadzone < ANALOG_MAX,
    ensures
        remap(raw, deadzone) == sign(raw) * ANALOG_MAX,
{
    let span = ANALOG_MAX - deadzone;
    assert((span * ANALOG_MAX) / span == ANALOG_MAX) by (nonlinear_arith)
        requires
            span > 0,
    ;
}

/// A remapped sample lies in range, on the side of the sample.
pub proof fn lemma_remap_in_range(raw: int, deadzone: int)
    requires
        is_sample(raw),
        is_threshold(deadzone),
        reaches(raw, deadzone),
    ensures
        is_sample(remap(raw, deadzone)),
        raw >= 0 ==> remap(raw, deadzone) >= 0,
        raw < 0 ==> remap(raw, deadzone) <= 0,
{
    if deadzone < ANALOG_MAX {
        let excess = magnitude(raw) - deadzone;
        let span = ANALOG_MAX - deadzone;
        let full = ANALOG_MAX as int;
        assert(0 <= (excess * full) / span <= full) by (nonlinear_arith)
            requires
                0 <= excess <= span,
                span > 0,
                full >= 0,
        ;
    }
}

/// A larger magnitude never remaps to a smaller one.
pub proof fn lemma_remap_is_monotonic(low: int, high: int, deadzone: int)
    requires
        is_threshold(deadzone),
        deadzone <= low <= high <= ANALOG_MAX,
    ensures
        remap(low, deadzone) <= remap(high, deadzone),
{
    if deadzone < ANALOG_MAX {
        let span = ANALOG_MAX - deadzone;
        let full = ANALOG_MAX as int;
        let a = (low - deadzone) * full;
        let b = (high - deadzone) * full;
        assert(a <= b) by (nonlinear_arith)
            requires
                a == (low - deadzone) * full,
                b == (high - deadzone) * full,
                low <= high,
                full >= 0,
        ;
        vstd::arithmetic::div_mod::lemma_div_is_ordered(a, b, span);
    }
}

/// A new container is consistent.
pub proof fn lemma_initial_is_consistent<T>()
    ensures
        AnalogState::<T>::initial().consistent(),
{
}

/// Samples, frame starts and new thresholds keep a consistent state
/// consistent.
pub proof fn lemma_consistent_is_kept<T>(state: AnalogState<T>, key: T, new: int, threshold: int)
    requires
        state.consistent(),
    ensures
        state.set(key, new).consistent(),
        state.update().consistent(),
        state.with_deadzone(threshold).consistent(),
        state.with_digital_deadzone(threshold).consistent(),
{
}

/// After a frame start no edge is left, samples and thresholds are as
/// before, and a second frame start with nothing in between changes nothing
/// more.
pub proof fn lemma_update_is_idempotent<T>(state: AnalogState<T>)
    ensures
        state.update().just_activated == Set::<T>::empty(),
        state.update().just_deactivated == Set::<T>::empty(),
        state.update().just_activated_digital == Set::<T>::empty(),
        state.update().just_deactivated_digital == Set::<T>::empty(),
        state.update().values == state.values,
        state.update().deadzone == state.deadzone,
        state.update().digital_deadzone == state.digital_deadzone,
        state.update().update() == state.update(),
{
}

/// What is read back for a key right after it was sampled depends on the
/// sample and the thresholds alone.
pub proof fn lemma_set_then_read<T>(state: AnalogState<T>, key: T, new: int)
    ensures
        state.set(key, new).sample(key) == Some(new),
        state.set(key, new).value(key) == if reaches(new, state.deadzone) {
            remap(new, state.deadzone)
        } else {
            0
        },
        state.set(key, new).digital_value(key) == digitize(new, state.digital_deadzone),
{
}

/// A sample of one key leaves every other key as it was.
pub proof fn lemma_set_leaves_other_keys<T>(state: AnalogState<T>, key: T, new: int, other: T)
    requires
        other != key,
    ensures
        state.set(key, new).sample(other) == state.sample(other),
        state.set(key, new).value(other) == state.value(other),
        state.set(key, new).digital_value(other) == state.digital_value(other),
        state.set(key, new).just_activated.contains(other) == state.just_activated.contains(
            other,
        ),
        state.set(key, new).just_deactivated.contains(other) == state.just_deactivated.contains(
            other,
        ),
        state.set(key, new).just_activated_digital.contains(other)
            == state.just_activated_digital.contains(other),
        state.set(key, new).just_deactivated_digital.contains(other)
            == state.just_deactivated_digital.contains(other),
{
}

/// The first sample of a key signals an activation exactly when it reaches
/// the threshold, and never a deactivation.
pub proof fn lemma_first_sample<T>(state: AnalogState<T>, key: T, new: int)
    requires
        state.consistent(),
        state.sample(key) is None,
    ensures
        state.set(key, new).just_activated.contains(key) == reaches(new, state.deadzone),
        state.set(key, new).just_activated_digital.contains(key) == reaches(
            new,
            state.digital_deadzone,
        ),
        !state.set(key, new).just_deactivated.contains(key),
        !state.set(key, new).just_deactivated_digital.contains(key),
{
}

/// A sample that reaches the threshold after one that did not signals an
/// activation, and withdraws a deactivation signalled earlier in the frame.
pub proof fn lemma_rising_sample<T>(state: AnalogState<T>, key: T, last: int, new: int)
    requires
        state.sample(key) == Some(last),
    ensures
        !reaches(last, state.deadzone) && reaches(new, state.deadzone) ==> state.set(
            key,
            new,
        ).just_activated.contains(key) && !state.set(key, new).just_deactivated.contains(key),
        !reaches(last, state.digital_deadzone) && reaches(new, state.digital_deadzone)
            ==> state.set(key, new).just_activated_digital.contains(key) && !state.set(
            key,
            new,
        ).just_deactivated_digital.contains(key),
{
}

/// A sample below the threshold after one that reached it signals a
/// deactivation, withdraws an activation signalled earlier in the frame, and
/// reads as zero.
pub proof fn lemma_falling_sample<T>(state: AnalogState<T>, key: T, last: int, new: int)
    requires
        state.sample(key) == Some(last),
    ensures
        reaches(last, state.deadzone) && !reaches(new, state.deadzone) ==> {
            &&& state.set(key, new).just_deactivated.contains(key)
            &&& !state.set(key, new).just_activated.contains(key)
            &&& state.set(key, new).value(key) == 0
        },
        reaches(last, state.digital_deadzone) && !reaches(new, state.digital_deadzone) ==> {
            &&& state.set(key, new).just_deactivated_digital.contains(key)
            &&& !state.set(key, new).just_activated_digital.contains(key)
            &&& state.set(key, new).digital_value(key) == 0
        },
{
}

/// A sample that reaches the threshold on the other side of zero than the
/// one before it signals an activation, though the key never read as
/// inactive in between.
pub proof fn lemma_sign_flip_activates<T>(state: AnalogState<T>, key: T, last: int, new: int)
    requires
        state.sample(key) == Some(last),
        sign(last) != sign(new),
    ensures
        reaches(new, state.deadzone) ==> state.set(key, new).just_activated.contains(key),
        reaches(new, state.digital_deadzone) ==> state.set(
            key,
            new,
        ).just_activated_digital.contains(key),
{
}

/// A sample that stays on its side of zero and on its side of the threshold
/// signals nothing new for that threshold.
pub proof fn lemma_steady_sample<T>(state: AnalogState<T>, key: T, last: int, new: int)
    requires
        state.sample(key) == Some(last),
        sign(last) == sign(new),
    ensures
        reaches(last, state.deadzone) && reaches(new, state.deadzone) ==> state.set(
            key,
            new,
        ).just_activated.contains(key) == state.just_activated.contains(key),
        !reaches(last, state.deadzone) && !reaches(new, state.deadzone) ==> state.set(
            key,
            new,
        ).just_deactivated.contains(key) == state.just_deactivated.contains(key),
        reaches(last, state.digital_deadzone) && reaches(new, state.digital_deadzone)
            ==> state.set(key, new).just_activated_digital.contains(key)
            == state.just_activated_digital.contains(key),
        !reaches(last, state.digital_deadzone) && !reaches(new, state.digital_deadzone)
            ==> state.set(key, new).just_deactivated_digital.contains(key)
            == state.just_deactivated_digital.contains(key),
{
}

/// A new threshold changes no sample and no edge that is already recorded.
pub proof fn lemma_threshold_is_not_retroactive<T>(state: AnalogState<T>, threshold: int)
    ensures
        state.with_deadzone(threshold).values == state.values,
        state.with_deadzone(threshold).just_activated == state.just_activated,
        state.with_deadzone(threshold).just_deactivated == state.just_deactivated,
        state.with_deadzone(threshold).digital_deadzone == state.digital_deadzone,
        state.with_digital_deadzone(threshold).values == state.values,
        state.with_digital_deadzone(threshold).just_activated_digital
            == state.just_activated_digital,
        state.with_digital_deadzone(threshold).just_deactivated_digital
            == state.just_deactivated_digital,
        state.with_digital_deadzone(threshold).deadzone == state.deadzone,
{
}

} // verus!
