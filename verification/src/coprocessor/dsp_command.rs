//! The DSP-family command set: decoding, operand counts, latencies and execution.
use vstd::prelude::*;

use super::dsp_math::{
    Matrix3, DspVariant, build_memory_dump, column, denormalize_fp, dot3, dsp_inverse,
    spec_denormalize, spec_dot3, spec_dsp_inverse, spec_memory_dump, spec_transform_objective,
    spec_transform_subjective, spec_vector_distance, spec_vector_radius, spec_vector_range,
    vector_distance, vector_radius, vector_range, zero_matrix,
};
use super::fixed::{
    q15, q15_mul, sat_add, sat_sub, saturating_add16, saturating_sub16, wrap_neg, wrapping_neg16,
};
use super::trig::TrigTable;

verus! {

/// Commands understood by the DSP model.
#[derive(Debug, Clone, Copy, PartialEq, Eq, Structural)]
pub enum DspCommand {
    /// Memory self-test.
    MemoryTest,
    /// Data-ROM dump.
    MemoryDump,
    /// Memory size query.
    MemorySize,
    /// Q15 multiply.
    Multiply,
    /// Q15 multiply plus one.
    Multiply2,
    /// Floating reciprocal.
    Inverse,
    /// Attitude matrix A.
    AttitudeA,
    /// Attitude matrix B.
    AttitudeB,
    /// Attitude matrix C.
    AttitudeC,
    /// Objective transform through matrix A.
    ObjectiveA,
    /// Objective transform through matrix B.
    ObjectiveB,
    /// Objective transform through matrix C.
    ObjectiveC,
    /// Subjective transform through matrix A.
    SubjectiveA,
    /// Subjective transform through matrix B.
    SubjectiveB,
    /// Subjective transform through matrix C.
    SubjectiveC,
    /// Forward scalar through matrix A.
    ScalarA,
    /// Forward scalar through matrix B.
    ScalarB,
    /// Forward scalar through matrix C.
    ScalarC,
    /// Attitude update from angular rates.
    Gyrate,
    /// Sine and cosine components of a length.
    Triangle,
    /// Squared vector length, doubled.
    Radius,
    /// Distance from a sphere.
    Range,
    /// Distance from a sphere, biased by one.
    Range2,
    /// Vector length.
    Distance,
    /// Two-dimensional rotation.
    Rotate,
    /// Three-axis rotation.
    Polar,
    /// Halt the DSP.
    Freeze,
    /// An opcode without a model.
    Unknown(u16),
}

/// The three attitude matrices shared between commands.
#[derive(Debug, Clone, Copy, PartialEq, Eq)]
pub struct DspSharedState {
    /// Matrix A.
    pub matrix_a: Matrix3,
    /// Matrix B.
    pub matrix_b: Matrix3,
    /// Matrix C.
    pub matrix_c: Matrix3,
}

/// Shared state with every matrix zero.
pub open spec fn zero_shared() -> DspSharedState {
    DspSharedState { matrix_a: zero_matrix(), matrix_b: zero_matrix(), matrix_c: zero_matrix() }
}

impl Default for DspSharedState {
    fn default() -> (s: Self)
        ensures
            s == zero_shared(),
    {
        let z = Matrix3 { r0: (0, 0, 0), r1: (0, 0, 0), r2: (0, 0, 0) };
        DspSharedState { matrix_a: z, matrix_b: z, matrix_c: z }
    }
}

/// Command decoded from an opcode word.
pub open spec fn spec_from_opcode(opcode: u16) -> DspCommand {
    if opcode == 0x000F {
        DspCommand::MemoryTest
    } else if opcode == 0x001F {
        DspCommand::MemoryDump
    } else if opcode == 0x002F {
        DspCommand::MemorySize
    } else if opcode == 0x0000 {
        DspCommand::Multiply
    } else if opcode == 0x0020 {
        DspCommand::Multiply2
    } else if opcode == 0x0010 || opcode == 0x0030 {
        DspCommand::Inverse
    } else if opcode == 0x0001 || opcode == 0x0005 || opcode == 0x0031 || opcode == 0x0035 {
        DspCommand::AttitudeA
    } else if opcode == 0x0011 || opcode == 0x0015 {
        DspCommand::AttitudeB
    } else if opcode == 0x0021 || opcode == 0x0025 {
        DspCommand::AttitudeC
    } else if opcode == 0x000D || opcode == 0x003D {
        DspCommand::ObjectiveA
    } else if opcode == 0x001D {
        DspCommand::ObjectiveB
    } else if opcode == 0x002D {
        DspCommand::ObjectiveC
    } else if opcode == 0x0003 || opcode == 0x0033 {
        DspCommand::SubjectiveA
    } else if opcode == 0x0013 {
        DspCommand::SubjectiveB
    } else if opcode == 0x0023 {
        DspCommand::SubjectiveC
    } else if opcode == 0x000B || opcode == 0x003B {
        DspCommand::ScalarA
    } else if opcode == 0x001B {
        DspCommand::ScalarB
    } else if opcode == 0x002B {
        DspCommand::ScalarC
    } else if opcode == 0x0014 || opcode == 0x0034 {
        DspCommand::Gyrate
    } else if opcode == 0x0004 || opcode == 0x0024 {
        DspCommand::Triangle
    } else if opcode == 0x0008 {
        DspCommand::Radius
    } else if opcode == 0x0018 {
        DspCommand::Range
    } else if opcode == 0x0038 {
        DspCommand::Range2
    } else if opcode == 0x0028 {
        DspCommand::Distance
    } else if opcode == 0x000C || opcode == 0x002C {
        DspCommand::Rotate
    } else if opcode == 0x001C || opcode == 0x003C {
        DspCommand::Polar
    } else if opcode == 0x001A || opcode == 0x002A || opcode == 0x003A {
        DspCommand::Freeze
    } else {
        DspCommand::Unknown(opcode)
    }
}

/// Number of operand words a command collects before it runs.
pub open spec fn spec_operand_count(c: DspCommand) -> nat {
    match c {
        DspCommand::Freeze | DspCommand::Unknown(_) => 0,
        DspCommand::MemoryTest | DspCommand::MemoryDump | DspCommand::MemorySize => 1,
        DspCommand::AttitudeA | DspCommand::AttitudeB | DspCommand::AttitudeC => 4,
        DspCommand::ObjectiveA | DspCommand::ObjectiveB | DspCommand::ObjectiveC
        | DspCommand::SubjectiveA | DspCommand::SubjectiveB | DspCommand::SubjectiveC
        | DspCommand::ScalarA | DspCommand::ScalarB | DspCommand::ScalarC => 3,
        DspCommand::Gyrate | DspCommand::Polar => 6,
        DspCommand::Multiply | DspCommand::Multiply2 | DspCommand::Inverse | DspCommand::Triangle => 2,
        DspCommand::Radius | DspCommand::Distance | DspCommand::Rotate => 3,
        DspCommand::Range | DspCommand::Range2 => 4,
    }
}

/// Master cycles a command keeps the DSP busy.
pub open spec fn spec_latency(c: DspCommand) -> u64 {
    match c {
        DspCommand::MemoryDump => 48,
        DspCommand::AttitudeA | DspCommand::AttitudeB | DspCommand::AttitudeC => 18,
        DspCommand::ObjectiveA | DspCommand::ObjectiveB | DspCommand::ObjectiveC
        | DspCommand::SubjectiveA | DspCommand::SubjectiveB | DspCommand::SubjectiveC
        | DspCommand::ScalarA | DspCommand::ScalarB | DspCommand::ScalarC | DspCommand::Gyrate => 18,
        DspCommand::Polar => 24,
        DspCommand::Rotate | DspCommand::Distance | DspCommand::Inverse => 18,
        DspCommand::Radius | DspCommand::Range | DspCommand::Range2 | DspCommand::Triangle => 12,
        DspCommand::Multiply | DspCommand::Multiply2 => 6,
        DspCommand::Freeze => 2,
        DspCommand::MemoryTest | DspCommand::MemorySize => 4,
        DspCommand::Unknown(_) => 0,
    }
}

/// Whether a DSP revision implements a command.
pub open spec fn spec_supported_by(c: DspCommand, variant: DspVariant) -> bool {
    match variant {
        DspVariant::Dsp1 | DspVariant::Dsp1B | DspVariant::Unknown => true,
        DspVariant::Dsp2 => c is MemoryTest || c is MemoryDump || c is MemorySize || c is Multiply2
            || c is AttitudeC || c is ObjectiveC || c is SubjectiveC || c is ScalarC || c is Triangle
            || c is Distance || c is Rotate || c is Polar || c is Freeze,
        DspVariant::Dsp3 => c is MemoryTest || c is MemoryDump || c is Freeze,
        DspVariant::Dsp4 => c is MemoryTest || c is MemoryDump || c is Freeze || c is Distance || c is Rotate,
    }
}

/// Canonical opcode of a command.
pub open spec fn spec_opcode_hint(c: DspCommand) -> u16 {
    match c {
        DspCommand::MemoryTest => 0x000F,
        DspCommand::MemoryDump => 0x001F,
        DspCommand::MemorySize => 0x002F,
        DspCommand::Multiply => 0x0000,
        DspCommand::Multiply2 => 0x0020,
        DspCommand::Inverse => 0x0010,
        DspCommand::AttitudeA => 0x0001,
        DspCommand::AttitudeB => 0x0011,
        DspCommand::AttitudeC => 0x0021,
        DspCommand::ObjectiveA => 0x000D,
        DspCommand::ObjectiveB => 0x001D,
        DspCommand::ObjectiveC => 0x002D,
        DspCommand::SubjectiveA => 0x0003,
        DspCommand::SubjectiveB => 0x0013,
        DspCommand::SubjectiveC => 0x0023,
        DspCommand::ScalarA => 0x000B,
        DspCommand::ScalarB => 0x001B,
        DspCommand::ScalarC => 0x002B,
        DspCommand::Gyrate => 0x0014,
        DspCommand::Triangle => 0x0004,
        DspCommand::Radius => 0x0008,
        DspCommand::Range => 0x0018,
        DspCommand::Range2 => 0x0038,
        DspCommand::Distance => 0x0028,
        DspCommand::Rotate => 0x000C,
        DspCommand::Polar => 0x001C,
        DspCommand::Freeze => 0x001A,
        DspCommand::Unknown(value) => value,
    }
}

/// Word a revision answers an unsupported command with: a revision tag plus the opcode's low
/// byte.
pub open spec fn spec_unsupported_code(variant: DspVariant, opcode: u16) -> i16 {
    let tag: int = match variant {
        DspVariant::Dsp1 => 0x1000,
        DspVariant::Dsp1B => 0x1B00,
        DspVariant::Dsp2 => 0x2D00,
        DspVariant::Dsp3 => 0x3D00,
        DspVariant::Dsp4 => 0x4D00,
        DspVariant::Unknown => 0x7F00,
    };
    (tag + opcode as int % 256) as i16
}

/// Attitude matrix for a scale and three rotation angles.
pub open spec fn spec_attitude_matrix(s: i16, rz: i16, ry: i16, rx: i16, trig: TrigTable) -> Matrix3 {
    let sin_rz = trig.spec_sin(rz);
    let cos_rz = trig.spec_cos(rz);
    let sin_ry = trig.spec_sin(ry);
    let cos_ry = trig.spec_cos(ry);
    let sin_rx = trig.spec_sin(rx);
    let cos_rx = trig.spec_cos(rx);
    Matrix3 {
        r0: (
            q15(q15(s, cos_rz), cos_ry),
            sat_add(q15(q15(s, sin_rz), cos_rx), q15(q15(q15(s, cos_rz), sin_rx), sin_ry)),
            sat_sub(q15(q15(s, sin_rz), sin_rx), q15(q15(q15(s, cos_rz), cos_rx), sin_ry)),
        ),
        r1: (
            wrap_neg(q15(q15(s, sin_rz), cos_ry)),
            sat_sub(q15(q15(s, cos_rz), cos_rx), q15(q15(q15(s, sin_rz), sin_rx), sin_ry)),
            sat_add(q15(q15(s, cos_rz), sin_rx), q15(q15(q15(s, sin_rz), cos_rx), sin_ry)),
        ),
        r2: (q15(s, sin_ry), wrap_neg(q15(q15(s, sin_rx), cos_ry)), q15(q15(s, cos_rx), cos_ry)),
    }
}

/// Attitude update from angular rates.
pub open spec fn spec_gyrate(ops: Seq<i16>, trig: TrigTable) -> Seq<i16> {
    let (az, ax, ay, u, f, l) = (ops[0], ops[1], ops[2], ops[3], ops[4], ops[5]);
    let sin_ay = trig.spec_sin(ay);
    let cos_ay = trig.spec_cos(ay);
    let cos_ax = trig.spec_cos(ax);
    let sin_ax = trig.spec_sin(ax);
    let inv = spec_dsp_inverse(cos_ax, 0);
    let sec_ax = spec_denormalize(inv.0, inv.1);
    seq![
        sat_add(az, q15(sec_ax, sat_sub(q15(u, cos_ay), q15(f, sin_ay)))),
        sat_add(ax, sat_add(q15(u, sin_ay), q15(f, cos_ay))),
        sat_sub(sat_add(ay, l), q15(q15(sec_ax, sin_ax), sat_add(q15(u, cos_ay), q15(f, sin_ay)))),
    ]
}

/// Three-axis rotation of a vector.
pub open spec fn spec_polar(ops: Seq<i16>, trig: TrigTable) -> Seq<i16> {
    let (az, ay, ax, x0, y0, z0) = (ops[0], ops[1], ops[2], ops[3], ops[4], ops[5]);
    let x1 = sat_add(q15(y0, trig.spec_sin(az)), q15(x0, trig.spec_cos(az)));
    let y1 = sat_sub(q15(y0, trig.spec_cos(az)), q15(x0, trig.spec_sin(az)));
    let z2 = sat_add(q15(x1, trig.spec_sin(ay)), q15(z0, trig.spec_cos(ay)));
    let x2 = sat_sub(q15(x1, trig.spec_cos(ay)), q15(z0, trig.spec_sin(ay)));
    let y3 = sat_add(q15(z2, trig.spec_sin(ax)), q15(y1, trig.spec_cos(ax)));
    let z3 = sat_sub(q15(z2, trig.spec_cos(ax)), q15(y1, trig.spec_sin(ax)));
    seq![x2, y3, z3]
}

/// 32-bit saturating doubling.
pub open spec fn double_sat(r: i32) -> i32 {
    if 2 * r > i32::MAX { i32::MAX } else if 2 * r < i32::MIN { i32::MIN } else { (2 * r) as i32 }
}

/// Results and shared state after a command runs on its operands.
pub open spec fn spec_execute(
    c: DspCommand,
    ops: Seq<i16>,
    variant: DspVariant,
    shared: DspSharedState,
    trig: TrigTable,
) -> (Seq<i16>, DspSharedState) {
    if !spec_supported_by(c, variant) {
        (seq![spec_unsupported_code(variant, spec_opcode_hint(c))], shared)
    } else {
        match c {
            DspCommand::MemoryTest => (seq![0i16], shared),
            DspCommand::MemoryDump => (spec_memory_dump(variant, if ops.len() > 0 { ops[0] } else { 0 }), shared),
            DspCommand::MemorySize => (seq![0x0100i16], shared),
            DspCommand::Multiply => (seq![q15(ops[0], ops[1])], shared),
            DspCommand::Multiply2 => (seq![sat_add(q15(ops[0], ops[1]), 1)], shared),
            DspCommand::Inverse => {
                let r = spec_dsp_inverse(ops[0], ops[1]);
                (seq![r.0, r.1], shared)
            },
            DspCommand::AttitudeA => (seq![], DspSharedState {
                matrix_a: spec_attitude_matrix(ops[0], ops[1], ops[2], ops[3], trig),
                ..shared
            }),
            DspCommand::AttitudeB => (seq![], DspSharedState {
                matrix_b: spec_attitude_matrix(ops[0], ops[1], ops[2], ops[3], trig),
                ..shared
            }),
            DspCommand::AttitudeC => (seq![], DspSharedState {
                matrix_c: spec_attitude_matrix(ops[0], ops[1], ops[2], ops[3], trig),
                ..shared
            }),
            DspCommand::ObjectiveA => (spec_transform_objective(shared.matrix_a, ops[0], ops[1], ops[2]), shared),
            DspCommand::ObjectiveB => (spec_transform_objective(shared.matrix_b, ops[0], ops[1], ops[2]), shared),
            DspCommand::ObjectiveC => (spec_transform_objective(shared.matrix_c, ops[0], ops[1], ops[2]), shared),
            DspCommand::SubjectiveA => (spec_transform_subjective(shared.matrix_a, ops[0], ops[1], ops[2]), shared),
            DspCommand::SubjectiveB => (spec_transform_subjective(shared.matrix_b, ops[0], ops[1], ops[2]), shared),
            DspCommand::SubjectiveC => (spec_transform_subjective(shared.matrix_c, ops[0], ops[1], ops[2]), shared),
            DspCommand::ScalarA => (seq![spec_dot3(column(shared.matrix_a, 0), (ops[0], ops[1], ops[2]))], shared),
            DspCommand::ScalarB => (seq![spec_dot3(column(shared.matrix_b, 0), (ops[0], ops[1], ops[2]))], shared),
            DspCommand::ScalarC => (seq![spec_dot3(column(shared.matrix_c, 0), (ops[0], ops[1], ops[2]))], shared),
            DspCommand::Gyrate => (spec_gyrate(ops, trig), shared),
            DspCommand::Triangle => (seq![
                q15(trig.spec_sin(ops[0]), ops[1]),
                q15(trig.spec_cos(ops[0]), ops[1]),
            ], shared),
            DspCommand::Radius => {
                let r = double_sat(spec_vector_radius(ops[0], ops[1], ops[2]));
                (seq![r as i16, (r as int / 65536) as i16], shared)
            },
            DspCommand::Range => (seq![spec_vector_range(ops[0], ops[1], ops[2], ops[3], 0)], shared),
            DspCommand::Range2 => (seq![spec_vector_range(ops[0], ops[1], ops[2], ops[3], 1)], shared),
            DspCommand::Distance => (seq![choose|d: i16| spec_vector_distance(ops[0], ops[1], ops[2], d)], shared),
            DspCommand::Rotate => {
                let sin = trig.spec_sin(ops[0]);
                let cos = trig.spec_cos(ops[0]);
                (seq![
                    sat_add(q15(ops[2], sin), q15(ops[1], cos)),
                    sat_sub(q15(ops[2], cos), q15(ops[1], sin)),
                ], shared)
            },
            DspCommand::Polar => (spec_polar(ops, trig), shared),
            DspCommand::Freeze => (seq![], shared),
            DspCommand::Unknown(opcode) => (seq![opcode as i16], shared),
        }
    }
}

impl DspCommand {
    /// Decode an opcode word.
    pub fn from_opcode(opcode: u16) -> (c: Self)
        ensures
            c == spec_from_opcode(opcode),
    {
        match opcode {
            0x000F => DspCommand::MemoryTest,
            0x001F => DspCommand::MemoryDump,
            0x002F => DspCommand::MemorySize,
            0x0000 => DspCommand::Multiply,
            0x0020 => DspCommand::Multiply2,
            0x0010 | 0x0030 => DspCommand::Inverse,
            0x0001 | 0x0005 | 0x0031 | 0x0035 => DspCommand::AttitudeA,
            0x0011 | 0x0015 => DspCommand::AttitudeB,
            0x0021 | 0x0025 => DspCommand::AttitudeC,
            0x000D | 0x003D => DspCommand::ObjectiveA,
            0x001D => DspCommand::ObjectiveB,
            0x002D => DspCommand::ObjectiveC,
            0x0003 | 0x0033 => DspCommand::SubjectiveA,
            0x0013 => DspCommand::SubjectiveB,
            0x0023 => DspCommand::SubjectiveC,
            0x000B | 0x003B => DspCommand::ScalarA,
            0x001B => DspCommand::ScalarB,
            0x002B => DspCommand::ScalarC,
            0x0014 | 0x0034 => DspCommand::Gyrate,
            0x0004 | 0x0024 => DspCommand::Triangle,
            0x0008 => DspCommand::Radius,
            0x0018 => DspCommand::Range,
            0x0038 => DspCommand::Range2,
            0x0028 => DspCommand::Distance,
            0x000C | 0x002C => DspCommand::Rotate,
            0x001C | 0x003C => DspCommand::Polar,
            0x001A | 0x002A | 0x003A => DspCommand::Freeze,
            value => DspCommand::Unknown(value),
        }
    }

    /// Number of operand words the command collects before it runs.
    pub fn operand_count(self) -> (n: usize)
        ensures
            n == spec_operand_count(self),
    {
        match self {
            DspCommand::Freeze | DspCommand::Unknown(_) => 0,
            DspCommand::MemoryTest | DspCommand::MemoryDump | DspCommand::MemorySize => 1,
            DspCommand::AttitudeA | DspCommand::AttitudeB | DspCommand::AttitudeC => 4,
            DspCommand::ObjectiveA | DspCommand::ObjectiveB | DspCommand::ObjectiveC
            | DspCommand::SubjectiveA | DspCommand::SubjectiveB | DspCommand::SubjectiveC
            | DspCommand::ScalarA | DspCommand::ScalarB | DspCommand::ScalarC => 3,
            DspCommand::Gyrate | DspCommand::Polar => 6,
            DspCommand::Multiply | DspCommand::Multiply2 | DspCommand::Inverse | DspCommand::Triangle => 2,
            DspCommand::Radius | DspCommand::Distance | DspCommand::Rotate => 3,
            DspCommand::Range | DspCommand::Range2 => 4,
        }
    }

    /// Whether the command halts the DSP.
    pub fn is_freeze(self) -> (r: bool)
        ensures
            r == self is Freeze,
    {
        match self {
            DspCommand::Freeze => true,
            _ => false,
        }
    }

    /// Master cycles the command keeps the DSP busy.
    pub fn latency_cycles(self, variant: DspVariant) -> (n: u64)
        ensures
            n == spec_latency(self),
    {
        let _ = variant;
        match self {
            DspCommand::MemoryDump => 48,
            DspCommand::AttitudeA | DspCommand::AttitudeB | DspCommand::AttitudeC => 18,
            DspCommand::ObjectiveA | DspCommand::ObjectiveB | DspCommand::ObjectiveC
            | DspCommand::SubjectiveA | DspCommand::SubjectiveB | DspCommand::SubjectiveC
            | DspCommand::ScalarA | DspCommand::ScalarB | DspCommand::ScalarC | DspCommand::Gyrate => 18,
            DspCommand::Polar => 24,
            DspCommand::Rotate | DspCommand::Distance | DspCommand::Inverse => 18,
            DspCommand::Radius | DspCommand::Range | DspCommand::Range2 | DspCommand::Triangle => 12,
            DspCommand::Multiply | DspCommand::Multiply2 => 6,
            DspCommand::Freeze => 2,
            DspCommand::MemoryTest | DspCommand::MemorySize => 4,
            DspCommand::Unknown(_) => 0,
        }
    }

    /// Whether a DSP revision implements the command.
    pub fn supported_by(self, variant: DspVariant) -> (r: bool)
        ensures
            r == spec_supported_by(self, variant),
    {
        match variant {
            DspVariant::Dsp1 | DspVariant::Dsp1B | DspVariant::Unknown => true,
            DspVariant::Dsp2 => match self {
                DspCommand::MemoryTest | DspCommand::MemoryDump | DspCommand::MemorySize
                | DspCommand::Multiply2 | DspCommand::AttitudeC | DspCommand::ObjectiveC
                | DspCommand::SubjectiveC | DspCommand::ScalarC | DspCommand::Triangle
                | DspCommand::Distance | DspCommand::Rotate | DspCommand::Polar | DspCommand::Freeze => true,
                _ => false,
            },
            DspVariant::Dsp3 => match self {
                DspCommand::MemoryTest | DspCommand::MemoryDump | DspCommand::Freeze => true,
                _ => false,
            },
            DspVariant::Dsp4 => match self {
                DspCommand::MemoryTest | DspCommand::MemoryDump | DspCommand::Freeze
                | DspCommand::Distance | DspCommand::Rotate => true,
                _ => false,
            },
        }
    }

    /// Canonical opcode of the command.
    pub fn opcode_hint(self) -> (op: u16)
        ensures
            op == spec_opcode_hint(self),
    {
        match self {
            DspCommand::MemoryTest => 0x000F,
            DspCommand::MemoryDump => 0x001F,
            DspCommand::MemorySize => 0x002F,
            DspCommand::Multiply => 0x0000,
            DspCommand::Multiply2 => 0x0020,
            DspCommand::Inverse => 0x0010,
            DspCommand::AttitudeA => 0x0001,
            DspCommand::AttitudeB => 0x0011,
            DspCommand::AttitudeC => 0x0021,
            DspCommand::ObjectiveA => 0x000D,
            DspCommand::ObjectiveB => 0x001D,
            DspCommand::ObjectiveC => 0x002D,
            DspCommand::SubjectiveA => 0x0003,
            DspCommand::SubjectiveB => 0x0013,
            DspCommand::SubjectiveC => 0x0023,
            DspCommand::ScalarA => 0x000B,
            DspCommand::ScalarB => 0x001B,
            DspCommand::ScalarC => 0x002B,
            DspCommand::Gyrate => 0x0014,
            DspCommand::Triangle => 0x0004,
            DspCommand::Radius => 0x0008,
            DspCommand::Range => 0x0018,
            DspCommand::Range2 => 0x0038,
            DspCommand::Distance => 0x0028,
            DspCommand::Rotate => 0x000C,
            DspCommand::Polar => 0x001C,
            DspCommand::Freeze => 0x001A,
            DspCommand::Unknown(value) => value,
        }
    }
}

fn unsupported_variant_code(variant: DspVariant, opcode: u16) -> (w: i16)
    ensures
        w == spec_unsupported_code(variant, opcode),
{
    let tag: u16 = match variant {
        DspVariant::Dsp1 => 0x1000,
        DspVariant::Dsp1B => 0x1B00,
        DspVariant::Dsp2 => 0x2D00,
        DspVariant::Dsp3 => 0x3D00,
        DspVariant::Dsp4 => 0x4D00,
        DspVariant::Unknown => 0x7F00,
    };
    (tag + opcode % 256) as i16
}

/// Attitude matrix for a scale and three rotation angles.
pub fn build_attitude_matrix(s: i16, rz: i16, ry: i16, rx: i16, trig: &TrigTable) -> (m: Matrix3)
    ensures
        m == spec_attitude_matrix(s, rz, ry, rx, *trig),
{
    let sin_rz = trig.sin(rz);
    let cos_rz = trig.cos(rz);
    let sin_ry = trig.sin(ry);
    let cos_ry = trig.cos(ry);
    let sin_rx = trig.sin(rx);
    let cos_rx = trig.cos(rx);
    let s_cz = q15_mul(s, cos_rz);
    let s_sz = q15_mul(s, sin_rz);
    Matrix3 {
        r0: (
            q15_mul(s_cz, cos_ry),
            saturating_add16(q15_mul(s_sz, cos_rx), q15_mul(q15_mul(s_cz, sin_rx), sin_ry)),
            saturating_sub16(q15_mul(s_sz, sin_rx), q15_mul(q15_mul(s_cz, cos_rx), sin_ry)),
        ),
        r1: (
            wrapping_neg16(q15_mul(s_sz, cos_ry)),
            saturating_sub16(q15_mul(s_cz, cos_rx), q15_mul(q15_mul(s_sz, sin_rx), sin_ry)),
            saturating_add16(q15_mul(s_cz, sin_rx), q15_mul(q15_mul(s_sz, cos_rx), sin_ry)),
        ),
        r2: (
            q15_mul(s, sin_ry),
            wrapping_neg16(q15_mul(q15_mul(s, sin_rx), cos_ry)),
            q15_mul(q15_mul(s, cos_rx), cos_ry),
        ),
    }
}

fn transform_objective(m: &Matrix3, x: i16, y: i16, z: i16) -> (r: Vec<i16>)
    ensures
        r@ == spec_transform_objective(*m, x, y, z),
{
    let v = vec![
        dot3((m.r0.0, m.r1.0, m.r2.0), (x, y, z)),
        dot3((m.r0.1, m.r1.1, m.r2.1), (x, y, z)),
        dot3((m.r0.2, m.r1.2, m.r2.2), (x, y, z)),
    ];
    assert(v@ =~= spec_transform_objective(*m, x, y, z));
    v
}

fn transform_subjective(m: &Matrix3, f: i16, l: i16, u: i16) -> (r: Vec<i16>)
    ensures
        r@ == spec_transform_subjective(*m, f, l, u),
{
    let v = vec![dot3(m.r0, (f, l, u)), dot3(m.r1, (f, l, u)), dot3(m.r2, (f, l, u))];
    assert(v@ =~= spec_transform_subjective(*m, f, l, u));
    v
}

fn scalar_forward(m: &Matrix3, x: i16, y: i16, z: i16) -> (r: Vec<i16>)
    ensures
        r@ == seq![spec_dot3(column(*m, 0), (x, y, z))],
{
    let v = vec![dot3((m.r0.0, m.r1.0, m.r2.0), (x, y, z))];
    assert(v@ =~= seq![spec_dot3(column(*m, 0), (x, y, z))]);
    v
}

fn gyrate(ops: &[i16], trig: &TrigTable) -> (r: Vec<i16>)
    requires
        ops@.len() >= 6,
    ensures
        r@ == spec_gyrate(ops@, *trig),
{
    let az = ops[0];
    let ax = ops[1];
    let ay = ops[2];
    let u = ops[3];
    let f = ops[4];
    let l = ops[5];
    let sin_ay = trig.sin(ay);
    let cos_ay = trig.cos(ay);
    let cos_ax = trig.cos(ax);
    let sin_ax = trig.sin(ax);
    let (sec_coefficient, sec_exponent) = dsp_inverse(cos_ax, 0);
    let sec_ax = denormalize_fp(sec_coefficient, sec_exponent);
    let rz = saturating_add16(az, q15_mul(sec_ax, saturating_sub16(q15_mul(u, cos_ay), q15_mul(f, sin_ay))));
    let rx = saturating_add16(ax, saturating_add16(q15_mul(u, sin_ay), q15_mul(f, cos_ay)));
    let ry = saturating_sub16(
        saturating_add16(ay, l),
        q15_mul(q15_mul(sec_ax, sin_ax), saturating_add16(q15_mul(u, cos_ay), q15_mul(f, sin_ay))),
    );
    let v = vec![rz, rx, ry];
    assert(v@ =~= spec_gyrate(ops@, *trig));
    v
}

fn polar(ops: &[i16], trig: &TrigTable) -> (r: Vec<i16>)
    requires
        ops@.len() >= 6,
    ensures
        r@ == spec_polar(ops@, *trig),
{
    let az = ops[0];
    let ay = ops[1];
    let ax = ops[2];
    let x0 = ops[3];
    let y0 = ops[4];
    let z0 = ops[5];
    let sin_az = trig.sin(az);
    let cos_az = trig.cos(az);
    let x1 = saturating_add16(q15_mul(y0, sin_az), q15_mul(x0, cos_az));
    let y1 = saturating_sub16(q15_mul(y0, cos_az), q15_mul(x0, sin_az));
    let sin_ay = trig.sin(ay);
    let cos_ay = trig.cos(ay);
    let z2 = saturating_add16(q15_mul(x1, sin_ay), q15_mul(z0, cos_ay));
    let x2 = saturating_sub16(q15_mul(x1, cos_ay), q15_mul(z0, sin_ay));
    let sin_ax = trig.sin(ax);
    let cos_ax = trig.cos(ax);
    let y3 = saturating_add16(q15_mul(z2, sin_ax), q15_mul(y1, cos_ax));
    let z3 = saturating_sub16(q15_mul(z2, cos_ax), q15_mul(y1, sin_ax));
    let v = vec![x2, y3, z3];
    assert(v@ =~= spec_polar(ops@, *trig));
    v
}

impl DspCommand {
    /// Run the command on its operands, updating the shared matrices.
    pub fn execute(self, ops: &[i16], variant: DspVariant, shared: &mut DspSharedState, trig: &TrigTable) -> (r: Vec<i16>)
        requires
            ops@.len() >= spec_operand_count(self),
        ensures
            (r@, *final(shared)) == spec_execute(self, ops@, variant, *old(shared), *trig),
    {
        if !self.supported_by(variant) {
            return vec![unsupported_variant_code(variant, self.opcode_hint())];
        }
        match self {
            DspCommand::MemoryTest => vec![0],
            DspCommand::MemoryDump => build_memory_dump(variant, if ops.len() > 0 { ops[0] } else { 0 }),
            DspCommand::MemorySize => vec![0x0100],
            DspCommand::Multiply => vec![q15_mul(ops[0], ops[1])],
            DspCommand::Multiply2 => vec![saturating_add16(q15_mul(ops[0], ops[1]), 1)],
            DspCommand::Inverse => {
                let (coefficient, exponent) = dsp_inverse(ops[0], ops[1]);
                vec![coefficient, exponent]
            },
            DspCommand::AttitudeA => {
                shared.matrix_a = build_attitude_matrix(ops[0], ops[1], ops[2], ops[3], trig);
                Vec::new()
            },
            DspCommand::AttitudeB => {
                shared.matrix_b = build_attitude_matrix(ops[0], ops[1], ops[2], ops[3], trig);
                Vec::new()
            },
            DspCommand::AttitudeC => {
                shared.matrix_c = build_attitude_matrix(ops[0], ops[1], ops[2], ops[3], trig);
                Vec::new()
            },
            DspCommand::ObjectiveA => transform_objective(&shared.matrix_a, ops[0], ops[1], ops[2]),
            DspCommand::ObjectiveB => transform_objective(&shared.matrix_b, ops[0], ops[1], ops[2]),
            DspCommand::ObjectiveC => transform_objective(&shared.matrix_c, ops[0], ops[1], ops[2]),
            DspCommand::SubjectiveA => transform_subjective(&shared.matrix_a, ops[0], ops[1], ops[2]),
            DspCommand::SubjectiveB => transform_subjective(&shared.matrix_b, ops[0], ops[1], ops[2]),
            DspCommand::SubjectiveC => transform_subjective(&shared.matrix_c, ops[0], ops[1], ops[2]),
            DspCommand::ScalarA => scalar_forward(&shared.matrix_a, ops[0], ops[1], ops[2]),
            DspCommand::ScalarB => scalar_forward(&shared.matrix_b, ops[0], ops[1], ops[2]),
            DspCommand::ScalarC => scalar_forward(&shared.matrix_c, ops[0], ops[1], ops[2]),
            DspCommand::Gyrate => gyrate(ops, trig),
            DspCommand::Triangle => {
                let sin = trig.sin(ops[0]);
                let cos = trig.cos(ops[0]);
                vec![q15_mul(sin, ops[1]), q15_mul(cos, ops[1])]
            },
            DspCommand::Radius => {
                let squares = vector_radius(ops[0], ops[1], ops[2]);
                let radius: i32 = if squares > 0x3FFF_FFFF {
                    i32::MAX
                } else if squares < -0x4000_0000 {
                    i32::MIN
                } else {
                    squares * 2
                };
                let high: i32 = radius >> 16i32;
                assert(high == radius / 65536) by (bit_vector)
                    requires
                        high == radius >> 16i32,
                ;
                vec![radius as i16, high as i16]
            },
            DspCommand::Range => vec![vector_range(ops[0], ops[1], ops[2], ops[3], 0)],
            DspCommand::Range2 => vec![vector_range(ops[0], ops[1], ops[2], ops[3], 1)],
            DspCommand::Distance => {
                let d = vector_distance(ops[0], ops[1], ops[2]);
                proof {
                    lemma_distance_unique(ops@[0], ops@[1], ops@[2], d);
                }
                vec![d]
            },
            DspCommand::Rotate => {
                let sin = trig.sin(ops[0]);
                let cos = trig.cos(ops[0]);
                let x = saturating_add16(q15_mul(ops[2], sin), q15_mul(ops[1], cos));
                let y = saturating_sub16(q15_mul(ops[2], cos), q15_mul(ops[1], sin));
                vec![x, y]
            },
            DspCommand::Polar => polar(ops, trig),
            DspCommand::Freeze => Vec::new(),
            DspCommand::Unknown(opcode) => vec![opcode as i16],
        }
    }
}

pub proof fn lemma_distance_unique(x: i16, y: i16, z: i16, d: i16)
    requires
        spec_vector_distance(x, y, z, d),
    ensures
        (choose|e: i16| spec_vector_distance(x, y, z, e)) == d,
{
    let e = choose|e: i16| spec_vector_distance(x, y, z, e);
    let r = spec_vector_radius(x, y, z);
    if r >= 0 {
        let n = choose|n: int| super::fixed::is_rounded_sqrt(r as int, n) && d == super::fixed::clamp15(n);
        let m = choose|m: int| super::fixed::is_rounded_sqrt(r as int, m) && e == super::fixed::clamp15(m);
        super::fixed::lemma_rounded_sqrt_unique(r as int, n, m);
    }
}

} // verus!
