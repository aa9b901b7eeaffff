use vstd::prelude::*;
use vstd::string::StringExecFns;
use crate::numtext::{
    dec_rep, int_rep, is_digit_char, format_u32, format_i32, parse_u32, parse_i32,
    lemma_dec_rep_props, lemma_dec_rep_injective, lemma_int_rep_injective,
};
use crate::text::{
    comma_free, all_comma_free, join_comma, pieces_view, split_commas, lemma_join_comma_push,
    lemma_join_comma_injective,
};

verus! {

// The fixed-field telemetry record. A snapshot crosses the wire as
// twenty-six decimal fields joined by commas, in the fixed order below.
// Fields that the vehicle measures as binary32 readings travel as their raw
// bit patterns, so every field round-trips with numeric identity, not
// approximately.

/// The latest-known vehicle snapshot. Replaced wholesale on every decode;
/// never merged field by field.
#[derive(Clone, Copy, PartialEq, Eq, Structural, Debug)]
pub struct VehicleState {
    pub elapsed_time_bits: u32,
    pub acc_x_bits: u32,
    pub acc_y_bits: u32,
    pub acc_z_bits: u32,
    pub gyro_x_bits: u32,
    pub gyro_y_bits: u32,
    pub gyro_z_bits: u32,
    pub mag_x_bits: u32,
    pub mag_y_bits: u32,
    pub mag_z_bits: u32,
    pub altitude_bits: u32,
    pub temp_bits: u32,
    pub yaw: i32,
    pub pitch: i32,
    pub roll: i32,
    pub rc_throttle: i32,
    pub rc_yaw: i32,
    pub rc_pitch: i32,
    pub rc_roll: i32,
    pub front_right: i32,
    pub back_right: i32,
    pub back_left: i32,
    pub front_left: i32,
    pub kp_r_bits: u32,
    pub ki_r_bits: u32,
    pub kd_r_bits: u32,
}

/// How many fields a record has on the wire.
pub const RECORD_FIELDS: usize = 26;

impl VehicleState {
    /// The all-zero snapshot shown before any telemetry arrives.
    pub fn zeroed() -> (r: VehicleState)
        ensures
            r == VehicleState::spec_zeroed(),
    {
        VehicleState {
            elapsed_time_bits: 0,
            acc_x_bits: 0,
            acc_y_bits: 0,
            acc_z_bits: 0,
            gyro_x_bits: 0,
            gyro_y_bits: 0,
            gyro_z_bits: 0,
            mag_x_bits: 0,
            mag_y_bits: 0,
            mag_z_bits: 0,
            altitude_bits: 0,
            temp_bits: 0,
            yaw: 0,
            pitch: 0,
            roll: 0,
            rc_throttle: 0,
            rc_yaw: 0,
            rc_pitch: 0,
            rc_roll: 0,
            front_right: 0,
            back_right: 0,
            back_left: 0,
            front_left: 0,
            kp_r_bits: 0,
            ki_r_bits: 0,
            kd_r_bits: 0,
        }
    }

    pub open spec fn spec_zeroed() -> VehicleState {
        VehicleState {
            elapsed_time_bits: 0,
            acc_x_bits: 0,
            acc_y_bits: 0,
            acc_z_bits: 0,
            gyro_x_bits: 0,
            gyro_y_bits: 0,
            gyro_z_bits: 0,
            mag_x_bits: 0,
            mag_y_bits: 0,
            mag_z_bits: 0,
            altitude_bits: 0,
            temp_bits: 0,
            yaw: 0,
            pitch: 0,
            roll: 0,
            rc_throttle: 0,
            rc_yaw: 0,
            rc_pitch: 0,
            rc_roll: 0,
            front_right: 0,
            back_right: 0,
            back_left: 0,
            front_left: 0,
            kp_r_bits: 0,
            ki_r_bits: 0,
            kd_r_bits: 0,
        }
    }
}

/// The decimal text of each field, in wire order.
pub open spec fn field_reps(st: VehicleState) -> Seq<Seq<char>> {
    seq![
        dec_rep(st.elapsed_time_bits as nat),
        dec_rep(st.acc_x_bits as nat),
        dec_rep(st.acc_y_bits as nat),
        dec_rep(st.acc_z_bits as nat),
        dec_rep(st.gyro_x_bits as nat),
        dec_rep(st.gyro_y_bits as nat),
        dec_rep(st.gyro_z_bits as nat),
        dec_rep(st.mag_x_bits as nat),
        dec_rep(st.mag_y_bits as nat),
        dec_rep(st.mag_z_bits as nat),
        dec_rep(st.altitude_bits as nat),
        dec_rep(st.temp_bits as nat),
        int_rep(st.yaw as int),
        int_rep(st.pitch as int),
        int_rep(st.roll as int),
        int_rep(st.rc_throttle as int),
        int_rep(st.rc_yaw as int),
        int_rep(st.rc_pitch as int),
        int_rep(st.rc_roll as int),
        int_rep(st.front_right as int),
        int_rep(st.back_right as int),
        int_rep(st.back_left as int),
        int_rep(st.front_left as int),
        dec_rep(st.kp_r_bits as nat),
        dec_rep(st.ki_r_bits as nat),
        dec_rep(st.kd_r_bits as nat),
    ]
}

/// The full wire text of a snapshot.
pub open spec fn record_text(st: VehicleState) -> Seq<char> {
    join_comma(field_reps(st))
}

/// Unsigned decimal text never holds a comma.
pub proof fn lemma_dec_rep_comma_free(n: nat)
    ensures
        comma_free(dec_rep(n)),
{
    lemma_dec_rep_props(n);
    assert forall|i: int| 0 <= i < dec_rep(n).len() implies dec_rep(n)[i] != ',' by {
        assert(is_digit_char(dec_rep(n)[i]));
    }
}

/// Signed decimal text never holds a comma.
pub proof fn lemma_int_rep_comma_free(v: int)
    ensures
        comma_free(int_rep(v)),
{
    if v >= 0 {
        lemma_dec_rep_comma_free(v as nat);
    } else {
        lemma_dec_rep_comma_free((-v) as nat);
        assert forall|i: int| 0 <= i < int_rep(v).len() implies int_rep(v)[i] != ',' by {
            if i > 0 {
                assert(int_rep(v)[i] == dec_rep((-v) as nat)[i - 1]);
            }
        }
    }
}

/// No field of a record holds the field separator.
pub proof fn lemma_field_reps_comma_free(st: VehicleState)
    ensures
        all_comma_free(field_reps(st)),
        field_reps(st).len() == RECORD_FIELDS,
{
    let fs = field_reps(st);
    assert forall|i: int| 0 <= i < fs.len() implies comma_free(#[trigger] fs[i]) by {
        lemma_dec_rep_comma_free(st.elapsed_time_bits as nat);
        lemma_dec_rep_comma_free(st.acc_x_bits as nat);
        lemma_dec_rep_comma_free(st.acc_y_bits as nat);
        lemma_dec_rep_comma_free(st.acc_z_bits as nat);
        lemma_dec_rep_comma_free(st.gyro_x_bits as nat);
        lemma_dec_rep_comma_free(st.gyro_y_bits as nat);
        lemma_dec_rep_comma_free(st.gyro_z_bits as nat);
        lemma_dec_rep_comma_free(st.mag_x_bits as nat);
        lemma_dec_rep_comma_free(st.mag_y_bits as nat);
        lemma_dec_rep_comma_free(st.mag_z_bits as nat);
        lemma_dec_rep_comma_free(st.altitude_bits as nat);
        lemma_dec_rep_comma_free(st.temp_bits as nat);
        lemma_int_rep_comma_free(st.yaw as int);
        lemma_int_rep_comma_free(st.pitch as int);
        lemma_int_rep_comma_free(st.roll as int);
        lemma_int_rep_comma_free(st.rc_throttle as int);
        lemma_int_rep_comma_free(st.rc_yaw as int);
        lemma_int_rep_comma_free(st.rc_pitch as int);
        lemma_int_rep_comma_free(st.rc_roll as int);
        lemma_int_rep_comma_free(st.front_right as int);
        lemma_int_rep_comma_free(st.back_right as int);
        lemma_int_rep_comma_free(st.back_left as int);
        lemma_int_rep_comma_free(st.front_left as int);
        lemma_dec_rep_comma_free(st.kp_r_bits as nat);
        lemma_dec_rep_comma_free(st.ki_r_bits as nat);
        lemma_dec_rep_comma_free(st.kd_r_bits as nat);
    }
}

/// Two snapshots with the same wire text are the same snapshot; the record
/// layout loses nothing.
pub proof fn lemma_record_text_injective(s1: VehicleState, s2: VehicleState)
    requires
        record_text(s1) == record_text(s2),
    ensures
        s1 == s2,
{
    lemma_field_reps_comma_free(s1);
    lemma_field_reps_comma_free(s2);
    lemma_join_comma_injective(field_reps(s1), field_reps(s2));
    let f1 = field_reps(s1);
    let f2 = field_reps(s2);
    lemma_dec_rep_injective(s1.elapsed_time_bits as nat, s2.elapsed_time_bits as nat);
    lemma_dec_rep_injective(s1.acc_x_bits as nat, s2.acc_x_bits as nat);
    lemma_dec_rep_injective(s1.acc_y_bits as nat, s2.acc_y_bits as nat);
    lemma_dec_rep_injective(s1.acc_z_bits as nat, s2.acc_z_bits as nat);
    lemma_dec_rep_injective(s1.gyro_x_bits as nat, s2.gyro_x_bits as nat);
    lemma_dec_rep_injective(s1.gyro_y_bits as nat, s2.gyro_y_bits as nat);
    lemma_dec_rep_injective(s1.gyro_z_bits as nat, s2.gyro_z_bits as nat);
    lemma_dec_rep_injective(s1.mag_x_bits as nat, s2.mag_x_bits as nat);
    lemma_dec_rep_injective(s1.mag_y_bits as nat, s2.mag_y_bits as nat);
    lemma_dec_rep_injective(s1.mag_z_bits as nat, s2.mag_z_bits as nat);
    lemma_dec_rep_injective(s1.altitude_bits as nat, s2.altitude_bits as nat);
    lemma_dec_rep_injective(s1.temp_bits as nat, s2.temp_bits as nat);
    lemma_int_rep_injective(s1.yaw as int, s2.yaw as int);
    lemma_int_rep_injective(s1.pitch as int, s2.pitch as int);
    lemma_int_rep_injective(s1.roll as int, s2.roll as int);
    lemma_int_rep_injective(s1.rc_throttle as int, s2.rc_throttle as int);
    lemma_int_rep_injective(s1.rc_yaw as int, s2.rc_yaw as int);
    lemma_int_rep_injective(s1.rc_pitch as int, s2.rc_pitch as int);
    lemma_int_rep_injective(s1.rc_roll as int, s2.rc_roll as int);
    lemma_int_rep_injective(s1.front_right as int, s2.front_right as int);
    lemma_int_rep_injective(s1.back_right as int, s2.back_right as int);
    lemma_int_rep_injective(s1.back_left as int, s2.back_left as int);
    lemma_int_rep_injective(s1.front_left as int, s2.front_left as int);
    lemma_dec_rep_injective(s1.kp_r_bits as nat, s2.kp_r_bits as nat);
    lemma_dec_rep_injective(s1.ki_r_bits as nat, s2.ki_r_bits as nat);
    lemma_dec_rep_injective(s1.kd_r_bits as nat, s2.kd_r_bits as nat);
}

/// Every unsigned slot of a record's field list is the text of some `u32`.
proof fn lemma_field_rep_is_u32(st: VehicleState, k: int)
    requires
        0 <= k < 12 || 23 <= k < 26,
    ensures
        exists|n: u32| field_reps(st)[k] == dec_rep(n as nat),
{
    if k == 0 {
        assert(field_reps(st)[k] == dec_rep(st.elapsed_time_bits as nat));
    } else if k == 1 {
        assert(field_reps(st)[k] == dec_rep(st.acc_x_bits as nat));
    } else if k == 2 {
        assert(field_reps(st)[k] == dec_rep(st.acc_y_bits as nat));
    } else if k == 3 {
        assert(field_reps(st)[k] == dec_rep(st.acc_z_bits as nat));
    } else if k == 4 {
        assert(field_reps(st)[k] == dec_rep(st.gyro_x_bits as nat));
    } else if k == 5 {
        assert(field_reps(st)[k] == dec_rep(st.gyro_y_bits as nat));
    } else if k == 6 {
        assert(field_reps(st)[k] == dec_rep(st.gyro_z_bits as nat));
    } else if k == 7 {
        assert(field_reps(st)[k] == dec_rep(st.mag_x_bits as nat));
    } else if k == 8 {
        assert(field_reps(st)[k] == dec_rep(st.mag_y_bits as nat));
    } else if k == 9 {
        assert(field_reps(st)[k] == dec_rep(st.mag_z_bits as nat));
    } else if k == 10 {
        assert(field_reps(st)[k] == dec_rep(st.altitude_bits as nat));
    } else if k == 11 {
        assert(field_reps(st)[k] == dec_rep(st.temp_bits as nat));
    } else if k == 23 {
        assert(field_reps(st)[k] == dec_rep(st.kp_r_bits as nat));
    } else if k == 24 {
        assert(field_reps(st)[k] == dec_rep(st.ki_r_bits as nat));
    } else {
        assert(field_reps(st)[k] == dec_rep(st.kd_r_bits as nat));
    }
}

/// Every signed slot of a record's field list is the text of some `i32`.
proof fn lemma_field_rep_is_i32(st: VehicleState, k: int)
    requires
        12 <= k < 23,
    ensures
        exists|n: i32| field_reps(st)[k] == int_rep(n as int),
{
    if k == 12 {
        assert(field_reps(st)[k] == int_rep(st.yaw as int));
    } else if k == 13 {
        assert(field_reps(st)[k] == int_rep(st.pitch as int));
    } else if k == 14 {
        assert(field_reps(st)[k] == int_rep(st.roll as int));
    } else if k == 15 {
        assert(field_reps(st)[k] == int_rep(st.rc_throttle as int));
    } else if k == 16 {
        assert(field_reps(st)[k] == int_rep(st.rc_yaw as int));
    } else if k == 17 {
        assert(field_reps(st)[k] == int_rep(st.rc_pitch as int));
    } else if k == 18 {
        assert(field_reps(st)[k] == int_rep(st.rc_roll as int));
    } else if k == 19 {
        assert(field_reps(st)[k] == int_rep(st.front_right as int));
    } else if k == 20 {
        assert(field_reps(st)[k] == int_rep(st.back_right as int));
    } else if k == 21 {
        assert(field_reps(st)[k] == int_rep(st.back_left as int));
    } else {
        assert(field_reps(st)[k] == int_rep(st.front_left as int));
    }
}

/// Joins ready-made field texts with commas.
fn join_with_commas(pieces: &Vec<String>) -> (r: String)
    requires
        pieces@.len() >= 1,
    ensures
        r@ == join_comma(pieces_view(pieces@)),
{
    let mut out: String = pieces[0].clone();
    let mut i: usize = 1;
    proof {
        assert(pieces_view(pieces@.subrange(0, 1)) =~= seq![pieces@[0]@]);
    }
    while i < pieces.len()
        invariant
            1 <= i <= pieces@.len(),
            out@ == join_comma(pieces_view(pieces@.subrange(0, i as int))),
        decreases pieces@.len() - i,
    {
        proof {
            reveal_strlit(",");
            let pv = pieces_view(pieces@.subrange(0, i as int));
            lemma_join_comma_push(pv, pieces@[i as int]@);
            assert(pieces_view(pieces@.subrange(0, i as int + 1)) =~= pv.push(pieces@[i as int]@));
        }
        out.append(",");
        out.append(pieces[i].as_str());
        i = i + 1;
    }
    proof {
        assert(pieces@.subrange(0, pieces@.len() as int) =~= pieces@);
    }
    out
}

/// Prints a snapshot as its record wire text.
pub fn serialize_record(st: &VehicleState) -> (r: String)
    ensures
        r@ == record_text(*st),
{
    let mut fields: Vec<String> = Vec::new();
    fields.push(format_u32(st.elapsed_time_bits));
    fields.push(format_u32(st.acc_x_bits));
    fields.push(format_u32(st.acc_y_bits));
    fields.push(format_u32(st.acc_z_bits));
    fields.push(format_u32(st.gyro_x_bits));
    fields.push(format_u32(st.gyro_y_bits));
    fields.push(format_u32(st.gyro_z_bits));
    fields.push(format_u32(st.mag_x_bits));
    fields.push(format_u32(st.mag_y_bits));
    fields.push(format_u32(st.mag_z_bits));
    fields.push(format_u32(st.altitude_bits));
    fields.push(format_u32(st.temp_bits));
    fields.push(format_i32(st.yaw));
    fields.push(format_i32(st.pitch));
    fields.push(format_i32(st.roll));
    fields.push(format_i32(st.rc_throttle));
    fields.push(format_i32(st.rc_yaw));
    fields.push(format_i32(st.rc_pitch));
    fields.push(format_i32(st.rc_roll));
    fields.push(format_i32(st.front_right));
    fields.push(format_i32(st.back_right));
    fields.push(format_i32(st.back_left));
    fields.push(format_i32(st.front_left));
    fields.push(format_u32(st.kp_r_bits));
    fields.push(format_u32(st.ki_r_bits));
    fields.push(format_u32(st.kd_r_bits));
    proof {
        assert(pieces_view(fields@) =~= field_reps(*st));
    }
    join_with_commas(&fields)
}

/// Reads a range of comma-split pieces as unsigned fields. On failure, some
/// piece in the range is no unsigned field text at all.
pub(crate) fn parse_u32_fields(parts: &Vec<String>, from: usize, to: usize) -> (r: Option<
    Vec<u32>,
>)
    requires
        from <= to <= parts@.len(),
    ensures
        r matches Some(v) ==> v@.len() == to - from && forall|k: int|
            0 <= k < v@.len() ==> parts@[from + k]@ == dec_rep(#[trigger] v@[k] as nat),
        r is None ==> exists|k: int|
            #![trigger parts@[k]]
            from <= k < to && (forall|n: u32| parts@[k]@ != dec_rep(n as nat)),
{
    let mut v: Vec<u32> = Vec::new();
    let mut i: usize = from;
    while i < to
        invariant
            from <= i <= to <= parts@.len(),
            v@.len() == i - from,
            forall|k: int| 0 <= k < v@.len() ==> parts@[from + k]@ == dec_rep(#[trigger] v@[k] as nat),
        decreases to - i,
    {
        match parse_u32(parts[i].as_str()) {
            Some(n) => {
                v.push(n);
            },
            None => {
                proof {
                    assert(forall|n: u32| parts@[i as int]@ != dec_rep(n as nat));
                }
                return None;
            },
        }
        i = i + 1;
    }
    Some(v)
}

/// Reads a range of comma-split pieces as signed fields.
fn parse_i32_fields(parts: &Vec<String>, from: usize, to: usize) -> (r: Option<Vec<i32>>)
    requires
        from <= to <= parts@.len(),
    ensures
        r matches Some(v) ==> v@.len() == to - from && forall|k: int|
            0 <= k < v@.len() ==> parts@[from + k]@ == int_rep(#[trigger] v@[k] as int),
        r is None ==> exists|k: int|
            #![trigger parts@[k]]
            from <= k < to && (forall|n: i32| parts@[k]@ != int_rep(n as int)),
{
    let mut v: Vec<i32> = Vec::new();
    let mut i: usize = from;
    while i < to
        invariant
            from <= i <= to <= parts@.len(),
            v@.len() == i - from,
            forall|k: int| 0 <= k < v@.len() ==> parts@[from + k]@ == int_rep(#[trigger] v@[k] as int),
        decreases to - i,
    {
        match parse_i32(parts[i].as_str()) {
            Some(n) => {
                v.push(n);
            },
            None => {
                proof {
                    assert(forall|n: i32| parts@[i as int]@ != int_rep(n as int));
                }
                return None;
            },
        }
        i = i + 1;
    }
    Some(v)
}

/// Reads record wire text back into a snapshot; strict inverse of
/// `serialize_record`. Returns `Some` exactly on the wire text of some
/// snapshot, and then returns that snapshot.
pub fn parse_record(s: &str) -> (r: Option<VehicleState>)
    ensures
        r matches Some(st) ==> s@ == record_text(st),
        forall|st: VehicleState| s@ == record_text(st) ==> r == Some(st),
{
    let parts = split_commas(s);
    let ghost pv = pieces_view(parts@);
    proof {
        assert forall|st: VehicleState| s@ == record_text(st) implies pv == field_reps(st) by {
            lemma_field_reps_comma_free(st);
            lemma_join_comma_injective(pv, field_reps(st));
        }
    }
    if parts.len() != RECORD_FIELDS {
        return None;
    }
    let ua = match parse_u32_fields(&parts, 0, 12) {
        Some(v) => v,
        None => {
            proof {
                let k = choose|k: int|
                    #![trigger parts@[k]]
                    0 <= k < 12 && (forall|n: u32| parts@[k]@ != dec_rep(n as nat));
                assert forall|st: VehicleState| s@ != record_text(st) by {
                    if s@ == record_text(st) {
                        lemma_field_rep_is_u32(st, k);
                    }
                }
            }
            return None;
        },
    };
    let sa = match parse_i32_fields(&parts, 12, 23) {
        Some(v) => v,
        None => {
            proof {
                let k = choose|k: int|
                    #![trigger parts@[k]]
                    12 <= k < 23 && (forall|n: i32| parts@[k]@ != int_rep(n as int));
                assert forall|st: VehicleState| s@ != record_text(st) by {
                    if s@ == record_text(st) {
                        lemma_field_rep_is_i32(st, k);
                    }
                }
            }
            return None;
        },
    };
    let ub = match parse_u32_fields(&parts, 23, 26) {
        Some(v) => v,
        None => {
            proof {
                let k = choose|k: int|
                    #![trigger parts@[k]]
                    23 <= k < 26 && (forall|n: u32| parts@[k]@ != dec_rep(n as nat));
                assert forall|st: VehicleState| s@ != record_text(st) by {
                    if s@ == record_text(st) {
                        lemma_field_rep_is_u32(st, k);
                    }
                }
            }
            return None;
        },
    };
    let st = VehicleState {
        elapsed_time_bits: ua[0],
        acc_x_bits: ua[1],
        acc_y_bits: ua[2],
        acc_z_bits: ua[3],
        gyro_x_bits: ua[4],
        gyro_y_bits: ua[5],
        gyro_z_bits: ua[6],
        mag_x_bits: ua[7],
        mag_y_bits: ua[8],
        mag_z_bits: ua[9],
        altitude_bits: ua[10],
        temp_bits: ua[11],
        yaw: sa[0],
        pitch: sa[1],
        roll: sa[2],
        rc_throttle: sa[3],
        rc_yaw: sa[4],
        rc_pitch: sa[5],
        rc_roll: sa[6],
        front_right: sa[7],
        back_right: sa[8],
        back_left: sa[9],
        front_left: sa[10],
        kp_r_bits: ub[0],
        ki_r_bits: ub[1],
        kd_r_bits: ub[2],
    };
    proof {
        assert(field_reps(st) =~= pv);
        assert(s@ == record_text(st));
        assert forall|st2: VehicleState| s@ == record_text(st2) implies Some(st) == Some(st2) by {
            lemma_record_text_injective(st, st2);
        }
    }
    Some(st)
}

} // verus!
