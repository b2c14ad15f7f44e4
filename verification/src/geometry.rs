//! The canonical 15-field state type and its validity law.
//!
//! The state space is fixed: thirteen continuous fields, plus two categorical
//! ones (`DomainWall`, `GaugeCoupling`) that are never flattened to ordered
//! scalars. The continuous fields are IEEE-754 binary64 values held as their
//! bit patterns (`f64::to_bits`), so the library classifies them exactly:
//! a state is valid when every continuous field is finite.
use vstd::prelude::*;

verus! {

/// An IEEE-754 binary64 value, as its bit pattern (`f64::to_bits`).
pub type F64Bits = u64;

/// The 11-bit exponent field of a binary64 value.
pub open spec fn exponent_of(b: F64Bits) -> u64 {
    (b >> 52u64) & 0x7ffu64
}

/// The 52-bit significand field of a binary64 value.
pub open spec fn significand_of(b: F64Bits) -> u64 {
    b & 0xf_ffff_ffff_ffffu64
}

/// Finite: the exponent field is not all ones.
pub open spec fn is_finite_bits(b: F64Bits) -> bool {
    exponent_of(b) != 0x7ff
}

/// NaN: the exponent field is all ones and the significand is not zero.
pub open spec fn is_nan_bits(b: F64Bits) -> bool {
    exponent_of(b) == 0x7ff && significand_of(b) != 0
}

/// `f64::is_finite` on a bit pattern.
pub fn bits_is_finite(b: F64Bits) -> (r: bool)
    ensures
        r == is_finite_bits(b),
{
    (b >> 52u64) & 0x7ffu64 != 0x7ffu64
}

/// `f64::is_nan` on a bit pattern.
pub fn bits_is_nan(b: F64Bits) -> (r: bool)
    ensures
        r == is_nan_bits(b),
{
    (b >> 52u64) & 0x7ffu64 == 0x7ffu64 && b & 0xf_ffff_ffff_ffffu64 != 0
}

/// +0.0
pub const ZERO_BITS: F64Bits = 0x0000_0000_0000_0000;

/// 0.5
pub const HALF_BITS: F64Bits = 0x3fe0_0000_0000_0000;

/// Connection state (field 9): a three-state categorical variable.
#[derive(Debug, Clone, Copy, PartialEq, Eq, Hash, Structural)]
pub enum DomainWall {
    Linked,
    Broken,
    Gradient,
}

impl Default for DomainWall {
    fn default() -> (r: Self)
        ensures
            r == DomainWall::Linked,
    {
        DomainWall::Linked
    }
}

/// Rotation state (field 12): a three-state categorical variable.
#[derive(Debug, Clone, Copy, PartialEq, Eq, Hash, Structural)]
pub enum GaugeCoupling {
    Static,
    Spinning,
    Oscillating,
}

impl Default for GaugeCoupling {
    fn default() -> (r: Self)
        ensures
            r == GaugeCoupling::Static,
    {
        GaugeCoupling::Static
    }
}

/// Error returned when a state holds a non-finite value.
#[derive(Debug)]
pub enum Vector15DError {
    /// The named field is "NaN" or "Infinite".
    NonFinite { field: &'static str, value: String },
}

impl Clone for Vector15DError {
    fn clone(&self) -> (r: Self)
        ensures
            r == *self,
    {
        match self {
            Vector15DError::NonFinite { field, value } => Vector15DError::NonFinite {
                field: *field,
                value: value.clone(),
            },
        }
    }
}

/// Historical error name.
pub type Vector13DError = Vector15DError;

/// 15 fields: amplitude(1) frequency(2) phase(3) coherence(4) entropy(5)
/// composition(6 = truth meter) resonance(7) ozone_buffer(8 = lightness)
/// domain_wall(9 = connection) su2_polarity(10 = hue) torsion(11 = skew)
/// gauge_coupling(12 = rotation) closure(13)
/// magnetic_north(14) magnetic_south(15) — universal polar pre-stress anchors.
///
/// Continuous fields are binary64 bit patterns (see [`F64Bits`]).
#[derive(Debug, Clone, Copy, PartialEq, Eq, Structural)]
pub struct Vector15D {
    pub amplitude: F64Bits,
    pub frequency: F64Bits,
    pub phase: F64Bits,
    pub coherence: F64Bits,
    pub entropy: F64Bits,
    pub composition: F64Bits,
    pub resonance: F64Bits,
    pub ozone_buffer: F64Bits,
    pub domain_wall: DomainWall,
    pub su2_polarity: F64Bits,
    pub torsion: F64Bits,
    pub gauge_coupling: GaugeCoupling,
    pub closure: F64Bits,
    /// Compressed north polar pre-stress. Universal geometry.
    pub magnetic_north: F64Bits,
    /// Compressed south polar pre-stress. Universal geometry.
    pub magnetic_south: F64Bits,
}

/// Historical name — the codec state is Vector15D.
pub type Vector13D = Vector15D;

/// The continuous fields, in declaration order.
pub open spec fn continuous_fields(v: Vector15D) -> Seq<F64Bits> {
    seq![
        v.amplitude,
        v.frequency,
        v.phase,
        v.coherence,
        v.entropy,
        v.composition,
        v.resonance,
        v.ozone_buffer,
        v.su2_polarity,
        v.torsion,
        v.closure,
        v.magnetic_north,
        v.magnetic_south,
    ]
}

/// Names of the continuous fields, in declaration order.
pub open spec fn continuous_field_names() -> Seq<Seq<char>> {
    seq![
        "amplitude"@,
        "frequency"@,
        "phase"@,
        "coherence"@,
        "entropy"@,
        "composition"@,
        "resonance"@,
        "ozone_buffer"@,
        "su2_polarity"@,
        "torsion"@,
        "closure"@,
        "magnetic_north"@,
        "magnetic_south"@,
    ]
}

/// A valid state: every continuous field is finite.
pub open spec fn is_valid_state(v: Vector15D) -> bool {
    forall|i: int| 0 <= i < 13 ==> is_finite_bits(#[trigger] continuous_fields(v)[i])
}

/// The verdict of `validate`: `Ok` for a valid state, else the first
/// non-finite field in declaration order, described as "NaN" or "Infinite".
pub open spec fn validation_verdict(v: Vector15D, r: Result<(), Vector15DError>) -> bool {
    match r {
        Ok(()) => is_valid_state(v),
        Err(Vector15DError::NonFinite { field, value }) => exists|i: int|
            #![trigger continuous_fields(v)[i]]
            0 <= i < 13 && !is_finite_bits(continuous_fields(v)[i]) && (forall|j: int|
                0 <= j < i ==> is_finite_bits(#[trigger] continuous_fields(v)[j])) && field@
                == continuous_field_names()[i] && value@ == (if is_nan_bits(
                continuous_fields(v)[i],
            ) {
                "NaN"@
            } else {
                "Infinite"@
            }),
    }
}

fn check_field(name: &'static str, bits: F64Bits) -> (r: Result<(), Vector15DError>)
    ensures
        match r {
            Ok(()) => is_finite_bits(bits),
            Err(Vector15DError::NonFinite { field, value }) => !is_finite_bits(bits) && field@
                == name@ && value@ == (if is_nan_bits(bits) {
                "NaN"@
            } else {
                "Infinite"@
            }),
        },
{
    if bits_is_finite(bits) {
        Ok(())
    } else {
        let value = if bits_is_nan(bits) {
            String::from_str("NaN")
        } else {
            String::from_str("Infinite")
        };
        Err(Vector15DError::NonFinite { field: name, value })
    }
}

impl Default for Vector15D {
    /// All zeros but `ozone_buffer` 0.5; Linked, Static.
    fn default() -> (v: Self)
        ensures
            v == default_state(),
    {
        Vector15D {
            amplitude: ZERO_BITS,
            frequency: ZERO_BITS,
            phase: ZERO_BITS,
            coherence: ZERO_BITS,
            entropy: ZERO_BITS,
            composition: ZERO_BITS,
            resonance: ZERO_BITS,
            ozone_buffer: HALF_BITS,
            domain_wall: DomainWall::Linked,
            su2_polarity: ZERO_BITS,
            torsion: ZERO_BITS,
            gauge_coupling: GaugeCoupling::Static,
            closure: ZERO_BITS,
            magnetic_north: ZERO_BITS,
            magnetic_south: ZERO_BITS,
        }
    }
}

impl Vector15D {
    /// Validate that all 13 continuous fields are finite (not NaN, not infinite).
    pub fn validate(&self) -> (r: Result<(), Vector15DError>)
        ensures
            validation_verdict(*self, r),
    {
        let ghost f = continuous_fields(*self);
        let ghost n = continuous_field_names();
        check_field("amplitude", self.amplitude)?;
        assert(is_finite_bits(f[0]));
        match check_field("frequency", self.frequency) {
            Ok(()) => {},
            Err(e) => {
                assert(!is_finite_bits(f[1]) && forall|j: int| 0 <= j < 1 ==> is_finite_bits(
                    #[trigger] f[j],
                ));
                return Err(e);
            },
        }
        match check_field("phase", self.phase) {
            Ok(()) => {},
            Err(e) => {
                assert(!is_finite_bits(f[2]) && forall|j: int| 0 <= j < 2 ==> is_finite_bits(
                    #[trigger] f[j],
                ));
                return Err(e);
            },
        }
        match check_field("coherence", self.coherence) {
            Ok(()) => {},
            Err(e) => {
                assert(!is_finite_bits(f[3]) && forall|j: int| 0 <= j < 3 ==> is_finite_bits(
                    #[trigger] f[j],
                ));
                return Err(e);
            },
        }
        match check_field("entropy", self.entropy) {
            Ok(()) => {},
            Err(e) => {
                assert(!is_finite_bits(f[4]) && forall|j: int| 0 <= j < 4 ==> is_finite_bits(
                    #[trigger] f[j],
                ));
                return Err(e);
            },
        }
        match check_field("composition", self.composition) {
            Ok(()) => {},
            Err(e) => {
                assert(!is_finite_bits(f[5]) && forall|j: int| 0 <= j < 5 ==> is_finite_bits(
                    #[trigger] f[j],
                ));
                return Err(e);
            },
        }
        match check_field("resonance", self.resonance) {
            Ok(()) => {},
            Err(e) => {
                assert(!is_finite_bits(f[6]) && forall|j: int| 0 <= j < 6 ==> is_finite_bits(
                    #[trigger] f[j],
                ));
                return Err(e);
            },
        }
        match check_field("ozone_buffer", self.ozone_buffer) {
            Ok(()) => {},
            Err(e) => {
                assert(!is_finite_bits(f[7]) && forall|j: int| 0 <= j < 7 ==> is_finite_bits(
                    #[trigger] f[j],
                ));
                return Err(e);
            },
        }
        match check_field("su2_polarity", self.su2_polarity) {
            Ok(()) => {},
            Err(e) => {
                assert(!is_finite_bits(f[8]) && forall|j: int| 0 <= j < 8 ==> is_finite_bits(
                    #[trigger] f[j],
                ));
                return Err(e);
            },
        }
        match check_field("torsion", self.torsion) {
            Ok(()) => {},
            Err(e) => {
                assert(!is_finite_bits(f[9]) && forall|j: int| 0 <= j < 9 ==> is_finite_bits(
                    #[trigger] f[j],
                ));
                return Err(e);
            },
        }
        match check_field("closure", self.closure) {
            Ok(()) => {},
            Err(e) => {
                assert(!is_finite_bits(f[10]) && forall|j: int| 0 <= j < 10 ==> is_finite_bits(
                    #[trigger] f[j],
                ));
                return Err(e);
            },
        }
        match check_field("magnetic_north", self.magnetic_north) {
            Ok(()) => {},
            Err(e) => {
                assert(!is_finite_bits(f[11]) && forall|j: int| 0 <= j < 11 ==> is_finite_bits(
                    #[trigger] f[j],
                ));
                return Err(e);
            },
        }
        match check_field("magnetic_south", self.magnetic_south) {
            Ok(()) => {},
            Err(e) => {
                assert(!is_finite_bits(f[12]) && forall|j: int| 0 <= j < 12 ==> is_finite_bits(
                    #[trigger] f[j],
                ));
                return Err(e);
            },
        }
        assert(forall|j: int| 0 <= j < 13 ==> is_finite_bits(#[trigger] f[j]));
        Ok(())
    }
}


impl Vector15D {
    /// Checked constructor: the thirteen classic fields, with both magnetic
    /// poles at zero. Returns the state when it is valid, else the verdict of
    /// [`Vector15D::validate`] on it.
    pub fn try_new(
        amplitude: F64Bits,
        frequency: F64Bits,
        phase: F64Bits,
        coherence: F64Bits,
        entropy: F64Bits,
        composition: F64Bits,
        resonance: F64Bits,
        ozone_buffer: F64Bits,
        domain_wall: DomainWall,
        su2_polarity: F64Bits,
        torsion: F64Bits,
        gauge_coupling: GaugeCoupling,
        closure: F64Bits,
    ) -> (r: Result<Self, Vector15DError>)
        ensures
            ({
                let v = (Vector15D {
                    amplitude,
                    frequency,
                    phase,
                    coherence,
                    entropy,
                    composition,
                    resonance,
                    ozone_buffer,
                    domain_wall,
                    su2_polarity,
                    torsion,
                    gauge_coupling,
                    closure,
                    magnetic_north: ZERO_BITS,
                    magnetic_south: ZERO_BITS,
                });
                match r {
                    Ok(w) => w == v && is_valid_state(v),
                    Err(e) => validation_verdict(v, Err(e)),
                }
            }),
    {
        Self::try_new_15(
            amplitude,
            frequency,
            phase,
            coherence,
            entropy,
            composition,
            resonance,
            ozone_buffer,
            domain_wall,
            su2_polarity,
            torsion,
            gauge_coupling,
            closure,
            ZERO_BITS,
            ZERO_BITS,
        )
    }

    /// Checked constructor over all fifteen fields, magnetic poles included.
    pub fn try_new_15(
        amplitude: F64Bits,
        frequency: F64Bits,
        phase: F64Bits,
        coherence: F64Bits,
        entropy: F64Bits,
        composition: F64Bits,
        resonance: F64Bits,
        ozone_buffer: F64Bits,
        domain_wall: DomainWall,
        su2_polarity: F64Bits,
        torsion: F64Bits,
        gauge_coupling: GaugeCoupling,
        closure: F64Bits,
        magnetic_north: F64Bits,
        magnetic_south: F64Bits,
    ) -> (r: Result<Self, Vector15DError>)
        ensures
            ({
                let v = (Vector15D {
                    amplitude,
                    frequency,
                    phase,
                    coherence,
                    entropy,
                    composition,
                    resonance,
                    ozone_buffer,
                    domain_wall,
                    su2_polarity,
                    torsion,
                    gauge_coupling,
                    closure,
                    magnetic_north,
                    magnetic_south,
                });
                match r {
                    Ok(w) => w == v && is_valid_state(v),
                    Err(e) => validation_verdict(v, Err(e)),
                }
            }),
    {
        let v = Vector15D {
            amplitude,
            frequency,
            phase,
            coherence,
            entropy,
            composition,
            resonance,
            ozone_buffer,
            domain_wall,
            su2_polarity,
            torsion,
            gauge_coupling,
            closure,
            magnetic_north,
            magnetic_south,
        };
        match v.validate() {
            Ok(()) => Ok(v),
            Err(e) => Err(e),
        }
    }
}

/// The first observed baseline (averaged over the first recording).
pub open spec fn n1_state() -> Vector15D {
    Vector15D {
        amplitude: 0x3fe7_0a3d_70a3_d70a,  // 0.72
        frequency: 0x3ff0_0000_0000_0000,  // 1.0
        phase: 0x4066_8000_0000_0000,  // 180.0
        coherence: 0x3fe1_9999_9999_999a,  // 0.55
        entropy: 0x3fb4_7ae1_47ae_147b,  // 0.08
        composition: 0x3fe8_f5c2_8f5c_28f6,  // 0.78
        resonance: 0x3fdc_cccc_cccc_cccd,  // 0.45
        ozone_buffer: 0x3fd9_9999_9999_999a,  // 0.40
        domain_wall: DomainWall::Linked,
        su2_polarity: 0x4074_b666_6666_6666,  // 331.4
        torsion: 0xc049_0000_0000_0000,  // -50.0
        gauge_coupling: GaugeCoupling::Spinning,
        closure: 0x3fe3_3333_3333_3333,  // 0.6
        magnetic_north: ZERO_BITS,
        magnetic_south: ZERO_BITS,
    }
}

/// The second observed baseline (averaged over the second recording).
pub open spec fn n2_state() -> Vector15D {
    Vector15D {
        amplitude: 0x3fe4_cccc_cccc_cccd,  // 0.65
        frequency: 0x3fe2_3d70_a3d7_0a3d,  // 0.57
        phase: 0x4069_0000_0000_0000,  // 200.0
        coherence: 0x3fe3_d70a_3d70_a3d7,  // 0.62
        entropy: 0x3f9e_b851_eb85_1eb8,  // 0.03
        composition: 0x3feb_3333_3333_3333,  // 0.85
        resonance: 0x3fe2_8f5c_28f5_c28f,  // 0.58
        ozone_buffer: 0x3fd3_d70a_3d70_a3d7,  // 0.31
        domain_wall: DomainWall::Linked,
        su2_polarity: 0x4074_0000_0000_0000,  // 320.0
        torsion: 0xc014_0000_0000_0000,  // -5.0
        gauge_coupling: GaugeCoupling::Oscillating,
        closure: 0x3fe8_0000_0000_0000,  // 0.75
        magnetic_north: ZERO_BITS,
        magnetic_south: ZERO_BITS,
    }
}

/// Observed n=1 baseline (post-dress, post-cycle): a living reference state.
pub fn observed_n1() -> (r: Vec<Vector15D>)
    ensures
        r@ == seq![n1_state()],
{
    let v = Vector15D {
        amplitude: 0x3fe7_0a3d_70a3_d70a,
        frequency: 0x3ff0_0000_0000_0000,
        phase: 0x4066_8000_0000_0000,
        coherence: 0x3fe1_9999_9999_999a,
        entropy: 0x3fb4_7ae1_47ae_147b,
        composition: 0x3fe8_f5c2_8f5c_28f6,
        resonance: 0x3fdc_cccc_cccc_cccd,
        ozone_buffer: 0x3fd9_9999_9999_999a,
        domain_wall: DomainWall::Linked,
        su2_polarity: 0x4074_b666_6666_6666,
        torsion: 0xc049_0000_0000_0000,
        gauge_coupling: GaugeCoupling::Spinning,
        closure: 0x3fe3_3333_3333_3333,
        magnetic_north: ZERO_BITS,
        magnetic_south: ZERO_BITS,
    };
    let mut out: Vec<Vector15D> = Vec::new();
    out.push(v);
    out
}

/// Observed n=2 baseline (in shower): a living reference state.
pub fn observed_n2() -> (r: Vec<Vector15D>)
    ensures
        r@ == seq![n2_state()],
{
    let v = Vector15D {
        amplitude: 0x3fe4_cccc_cccc_cccd,
        frequency: 0x3fe2_3d70_a3d7_0a3d,
        phase: 0x4069_0000_0000_0000,
        coherence: 0x3fe3_d70a_3d70_a3d7,
        entropy: 0x3f9e_b851_eb85_1eb8,
        composition: 0x3feb_3333_3333_3333,
        resonance: 0x3fe2_8f5c_28f5_c28f,
        ozone_buffer: 0x3fd3_d70a_3d70_a3d7,
        domain_wall: DomainWall::Linked,
        su2_polarity: 0x4074_0000_0000_0000,
        torsion: 0xc014_0000_0000_0000,
        gauge_coupling: GaugeCoupling::Oscillating,
        closure: 0x3fe8_0000_0000_0000,
        magnetic_north: ZERO_BITS,
        magnetic_south: ZERO_BITS,
    };
    let mut out: Vec<Vector15D> = Vec::new();
    out.push(v);
    out
}

/// The observed baselines and the default state are all valid: every
/// continuous field of each is finite, so `validate` accepts them.
pub proof fn law_reference_states_are_valid()
    ensures
        is_valid_state(n1_state()),
        is_valid_state(n2_state()),
        is_valid_state(default_state()),
{
    assert(is_finite_bits(0x3fe7_0a3d_70a3_d70a) && is_finite_bits(0x3ff0_0000_0000_0000)
        && is_finite_bits(0x4066_8000_0000_0000) && is_finite_bits(0x3fe1_9999_9999_999a)
        && is_finite_bits(0x3fb4_7ae1_47ae_147b) && is_finite_bits(0x3fe8_f5c2_8f5c_28f6)
        && is_finite_bits(0x3fdc_cccc_cccc_cccd) && is_finite_bits(0x3fd9_9999_9999_999a)
        && is_finite_bits(0x4074_b666_6666_6666) && is_finite_bits(0xc049_0000_0000_0000)
        && is_finite_bits(0x3fe3_3333_3333_3333) && is_finite_bits(0x3fe4_cccc_cccc_cccd)
        && is_finite_bits(0x3fe2_3d70_a3d7_0a3d) && is_finite_bits(0x4069_0000_0000_0000)
        && is_finite_bits(0x3fe3_d70a_3d70_a3d7) && is_finite_bits(0x3f9e_b851_eb85_1eb8)
        && is_finite_bits(0x3feb_3333_3333_3333) && is_finite_bits(0x3fe2_8f5c_28f5_c28f)
        && is_finite_bits(0x3fd3_d70a_3d70_a3d7) && is_finite_bits(0x4074_0000_0000_0000)
        && is_finite_bits(0xc014_0000_0000_0000) && is_finite_bits(0x3fe8_0000_0000_0000)
        && is_finite_bits(ZERO_BITS) && is_finite_bits(HALF_BITS)) by (bit_vector);
    assert forall|i: int| 0 <= i < 13 implies is_finite_bits(
        #[trigger] continuous_fields(n1_state())[i],
    ) by {}
    assert forall|i: int| 0 <= i < 13 implies is_finite_bits(
        #[trigger] continuous_fields(n2_state())[i],
    ) by {}
    assert forall|i: int| 0 <= i < 13 implies is_finite_bits(
        #[trigger] continuous_fields(default_state())[i],
    ) by {}
}

/// The state `Vector15D::default()` returns.
pub open spec fn default_state() -> Vector15D {
    Vector15D {
        amplitude: ZERO_BITS,
        frequency: ZERO_BITS,
        phase: ZERO_BITS,
        coherence: ZERO_BITS,
        entropy: ZERO_BITS,
        composition: ZERO_BITS,
        resonance: ZERO_BITS,
        ozone_buffer: HALF_BITS,
        domain_wall: DomainWall::Linked,
        su2_polarity: ZERO_BITS,
        torsion: ZERO_BITS,
        gauge_coupling: GaugeCoupling::Static,
        closure: ZERO_BITS,
        magnetic_north: ZERO_BITS,
        magnetic_south: ZERO_BITS,
    }
}

/// The glyph weight class of a raw weight (the amplitude scaled to 0..900 and
/// rounded): 100, 300, 400, 500, 700 or 900.
pub open spec fn weight_class(w: int) -> i32 {
    if w < 150 {
        100
    } else if w < 300 {
        300
    } else if w < 450 {
        400
    } else if w < 600 {
        500
    } else if w < 800 {
        700
    } else {
        900
    }
}

/// Snap a raw glyph weight to its weight class.
pub fn glyph_weight_class(w: i32) -> (r: i32)
    ensures
        r == weight_class(w as int),
{
    if w < 150 {
        100
    } else if w < 300 {
        300
    } else if w < 450 {
        400
    } else if w < 600 {
        500
    } else if w < 800 {
        700
    } else {
        900
    }
}

/// The weight classes are bands of the raw weight: below 150 → 100,
/// [150, 300) → 300, [300, 450) → 400, [450, 600) → 500, [600, 800) → 700,
/// from 800 on → 900; a heavier raw weight never gets a lighter class.
pub proof fn law_weight_classes_are_bands(w: int, v: int)
    ensures
        w < 150 ==> weight_class(w) == 100,
        150 <= w < 300 ==> weight_class(w) == 300,
        300 <= w < 450 ==> weight_class(w) == 400,
        450 <= w < 600 ==> weight_class(w) == 500,
        600 <= w < 800 ==> weight_class(w) == 700,
        800 <= w ==> weight_class(w) == 900,
        w <= v ==> weight_class(w) <= weight_class(v),
{
}

} // verus!
