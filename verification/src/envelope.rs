use vstd::prelude::*;
use vstd::string::StrSliceExecFns;
use vstd::string::StringExecFns;
use crate::numtext::{dec_rep, format_u32, lemma_dec_rep_props, lemma_dec_rep_injective};
use crate::text::{
    comma_free, all_comma_free, char_free, join_comma, pieces_view, split_commas,
    lemma_join_comma_push, lemma_join_comma_injective, lemma_join_comma_first,
    lemma_join_char_free,
};
use crate::telemetry::{VehicleState, record_text, parse_u32_fields, lemma_record_text_injective};

verus! {

// The wire envelope: the auxiliary tag list, one '|' divider, then the
// payload. Tag text is digits and commas only, so the first divider in a
// frame always ends the tag list; the payload is opaque and may hold any
// text, dividers and commas included.

/// One decoded wire frame: the auxiliary tags and the payload text. The
/// codec does not judge whether the payload is a telemetry record or
/// conversational text; that is the link manager's call.
#[derive(Debug)]
pub struct Envelope {
    pub tags: Vec<u32>,
    pub payload: String,
}

/// Why a frame was rejected.
#[derive(Clone, Copy, PartialEq, Eq, Structural, Debug)]
pub enum DecodeError {
    /// The text is not the envelope of any tag list and payload.
    MalformedEnvelope,
}

/// Decimal texts of the tags, in order.
pub open spec fn tag_reps(tags: Seq<u32>) -> Seq<Seq<char>> {
    tags.map_values(|t: u32| dec_rep(t as nat))
}

/// The tag list on the wire: comma-joined decimals, empty text for no tags.
pub open spec fn tags_text(tags: Seq<u32>) -> Seq<char> {
    if tags.len() == 0 {
        Seq::empty()
    } else {
        join_comma(tag_reps(tags))
    }
}

/// The whole envelope frame for given tags and payload.
pub open spec fn envelope_text(tags: Seq<u32>, payload: Seq<char>) -> Seq<char> {
    tags_text(tags) + seq!['|'] + payload
}

/// Tag text never holds the divider.
pub proof fn lemma_tags_text_pipe_free(tags: Seq<u32>)
    ensures
        char_free(tags_text(tags), '|'),
{
    if tags.len() > 0 {
        assert forall|i: int| 0 <= i < tag_reps(tags).len() implies char_free(
            #[trigger] tag_reps(tags)[i],
            '|',
        ) by {
            lemma_dec_rep_props(tags[i] as nat);
        }
        lemma_join_char_free(tag_reps(tags), '|');
    }
}

/// Every tag text piece is comma-free.
proof fn lemma_tag_reps_comma_free(tags: Seq<u32>)
    ensures
        all_comma_free(tag_reps(tags)),
{
    assert forall|i: int| 0 <= i < tag_reps(tags).len() implies comma_free(
        #[trigger] tag_reps(tags)[i],
    ) by {
        lemma_dec_rep_props(tags[i] as nat);
    }
}

/// Two tag lists with the same wire text are the same list.
pub proof fn lemma_tags_text_injective(t1: Seq<u32>, t2: Seq<u32>)
    requires
        tags_text(t1) == tags_text(t2),
    ensures
        t1 == t2,
{
    if t1.len() == 0 || t2.len() == 0 {
        if t1.len() != t2.len() {
            let nonempty = if t1.len() > 0 {
                t1
            } else {
                t2
            };
            lemma_join_comma_first(tag_reps(nonempty));
            lemma_dec_rep_props(nonempty[0] as nat);
            assert(tags_text(nonempty).len() >= 1);
            assert(false);
        }
        assert(t1 =~= t2);
    } else {
        lemma_tag_reps_comma_free(t1);
        lemma_tag_reps_comma_free(t2);
        lemma_join_comma_injective(tag_reps(t1), tag_reps(t2));
        assert forall|i: int| 0 <= i < t1.len() implies t1[i] == t2[i] by {
            assert(tag_reps(t1)[i] == tag_reps(t2)[i]);
            lemma_dec_rep_injective(t1[i] as nat, t2[i] as nat);
        }
        assert(t1 =~= t2);
    }
}

/// A frame determines its tag list and payload: the first divider ends the
/// divider-free tag text, and what follows is the payload verbatim.
pub proof fn lemma_envelope_text_injective(
    t1: Seq<u32>,
    p1: Seq<char>,
    t2: Seq<u32>,
    p2: Seq<char>,
)
    requires
        envelope_text(t1, p1) == envelope_text(t2, p2),
    ensures
        t1 == t2,
        p1 == p2,
{
    lemma_tags_text_pipe_free(t1);
    lemma_tags_text_pipe_free(t2);
    let a = tags_text(t1);
    let b = tags_text(t2);
    let e = envelope_text(t1, p1);
    assert(e[a.len() as int] == '|');
    assert(envelope_text(t2, p2)[b.len() as int] == '|');
    if a.len() < b.len() {
        assert(envelope_text(t2, p2)[a.len() as int] == b[a.len() as int]);
        assert(false);
    }
    if b.len() < a.len() {
        assert(e[b.len() as int] == a[b.len() as int]);
        assert(false);
    }
    assert forall|i: int| 0 <= i < a.len() implies a[i] == b[i] by {
        assert(e[i] == a[i]);
        assert(envelope_text(t2, p2)[i] == b[i]);
    }
    assert(a =~= b);
    lemma_tags_text_injective(t1, t2);
    assert(e.len() == a.len() + 1 + p1.len());
    assert(envelope_text(t2, p2).len() == b.len() + 1 + p2.len());
    assert(p1.len() == p2.len());
    assert forall|i: int| 0 <= i < p1.len() implies p1[i] == p2[i] by {
        assert(e[a.len() as int + 1 + i] == p1[i]);
        assert(envelope_text(t2, p2)[b.len() as int + 1 + i] == p2[i]);
    }
    assert(p1 =~= p2);
}

/// A telemetry frame identifies its tags and its snapshot exactly: no two
/// different (tags, snapshot) pairs share a frame, so decoding an encoded
/// serialized snapshot can only recover the original pair, field for field.
pub proof fn lemma_telemetry_frame_identifies(
    t1: Seq<u32>,
    s1: VehicleState,
    t2: Seq<u32>,
    s2: VehicleState,
)
    requires
        envelope_text(t1, record_text(s1)) == envelope_text(t2, record_text(s2)),
    ensures
        t1 == t2,
        s1 == s2,
{
    lemma_envelope_text_injective(t1, record_text(s1), t2, record_text(s2));
    lemma_record_text_injective(s1, s2);
}

/// Wraps a payload and its tags into one wire frame.
pub fn encode(tags: &Vec<u32>, payload: &str) -> (r: String)
    ensures
        r@ == envelope_text(tags@, payload@),
{
    let mut out = String::new();
    let mut i: usize = 0;
    proof {
        assert(tags@.subrange(0, 0) =~= Seq::<u32>::empty());
        assert(tags_text(tags@.subrange(0, 0)) =~= Seq::<char>::empty());
    }
    while i < tags.len()
        invariant
            0 <= i <= tags@.len(),
            out@ == tags_text(tags@.subrange(0, i as int)),
        decreases tags@.len() - i,
    {
        let piece = format_u32(tags[i]);
        proof {
            reveal_strlit(",");
            let pre = tags@.subrange(0, i as int);
            let pre2 = tags@.subrange(0, i as int + 1);
            assert(tag_reps(pre2) =~= tag_reps(pre).push(dec_rep(tags@[i as int] as nat)));
            if i == 0 {
                assert(tag_reps(pre2).len() == 1);
                assert(join_comma(tag_reps(pre2)) == tag_reps(pre2)[0]);
            } else {
                lemma_join_comma_push(tag_reps(pre), dec_rep(tags@[i as int] as nat));
            }
        }
        if i > 0 {
            out.append(",");
        }
        out.append(piece.as_str());
        proof {
            assert(out@ =~= tags_text(tags@.subrange(0, i as int + 1)));
        }
        i = i + 1;
    }
    proof {
        reveal_strlit("|");
        assert(tags@.subrange(0, tags@.len() as int) =~= tags@);
    }
    out.append("|");
    out.append(payload);
    proof {
        assert(out@ =~= envelope_text(tags@, payload@));
    }
    out
}

/// Reads a tag list back from its wire text; strict inverse of the tag part
/// of `encode`.
fn parse_tags(s: &str) -> (r: Option<Vec<u32>>)
    ensures
        r matches Some(v) ==> s@ == tags_text(v@),
        forall|tags: Seq<u32>| s@ == tags_text(tags) ==> (r matches Some(v) && v@ == tags),
{
    let len = s.unicode_len();
    if len == 0 {
        let v: Vec<u32> = Vec::new();
        proof {
            assert(tags_text(v@) =~= Seq::<char>::empty());
            assert(s@ =~= Seq::<char>::empty());
            assert forall|tags: Seq<u32>| s@ == tags_text(tags) implies v@ == tags by {
                if tags.len() > 0 {
                    lemma_join_comma_first(tag_reps(tags));
                    lemma_dec_rep_props(tags[0] as nat);
                    assert(tags_text(tags).len() >= 1);
                }
                assert(v@ =~= tags);
            }
        }
        return Some(v);
    }
    let parts = split_commas(s);
    let ghost pv = pieces_view(parts@);
    proof {
        assert forall|tags: Seq<u32>| s@ == tags_text(tags) implies pv == tag_reps(tags)
            && tags.len() == parts@.len() by {
            assert(tags.len() > 0);
            lemma_tag_reps_comma_free(tags);
            lemma_join_comma_injective(pv, tag_reps(tags));
        }
    }
    let n = parts.len();
    match parse_u32_fields(&parts, 0, n) {
        Some(v) => {
            proof {
                assert(pv =~= tag_reps(v@));
                assert(v@.len() == parts@.len());
                assert(s@ == tags_text(v@));
                assert forall|tags: Seq<u32>| s@ == tags_text(tags) implies v@ == tags by {
                    lemma_tags_text_injective(v@, tags);
                }
            }
            Some(v)
        },
        None => {
            proof {
                let k = choose|k: int|
                    #![trigger parts@[k]]
                    0 <= k < parts@.len() && (forall|n2: u32| parts@[k]@ != dec_rep(n2 as nat));
                assert forall|tags: Seq<u32>| s@ != tags_text(tags) by {
                    if s@ == tags_text(tags) {
                        assert(pv[k] == tag_reps(tags)[k]);
                        assert(parts@[k]@ == dec_rep(tags[k] as nat));
                    }
                }
            }
            None
        },
    }
}

/// Unwraps one wire frame; strict inverse of `encode`. Returns `Ok` exactly
/// on the frame text of some tag list and payload, and then returns those.
pub fn decode(wire: &str) -> (r: Result<Envelope, DecodeError>)
    ensures
        r matches Ok(env) ==> wire@ == envelope_text(env.tags@, env.payload@),
        forall|tags: Seq<u32>, p: Seq<char>|
            wire@ == envelope_text(tags, p) ==> (r matches Ok(env) && env.tags@ == tags
                && env.payload@ == p),
{
    let len = wire.unicode_len();
    let mut k: usize = 0;
    while k < len && wire.get_char(k) != '|'
        invariant
            0 <= k <= len,
            len == wire@.len(),
            forall|j: int| 0 <= j < k ==> wire@[j] != '|',
        decreases len - k,
    {
        k = k + 1;
    }
    let found = k < len;
    proof {
        assert forall|tags: Seq<u32>, p: Seq<char>|
            wire@ == envelope_text(tags, p) implies found && k as int == tags_text(
            tags,
        ).len() by {
            lemma_tags_text_pipe_free(tags);
            let l = tags_text(tags).len() as int;
            assert(wire@[l] == '|');
            assert(forall|j: int| 0 <= j < l ==> wire@[j] == tags_text(tags)[j]);
            if !found {
                assert(wire@[l] != '|');
                assert(false);
            }
            if (k as int) < l {
                assert(wire@[k as int] == tags_text(tags)[k as int]);
                assert(false);
            }
            if l < k as int {
                assert(wire@[l] != '|');
                assert(false);
            }
        }
    }
    if !found {
        return Err(DecodeError::MalformedEnvelope);
    }
    let left = wire.substring_char(0, k);
    let right = wire.substring_char(k + 1, len);
    proof {
        assert forall|tags: Seq<u32>, p: Seq<char>| wire@ == envelope_text(tags, p) implies left@
            == tags_text(tags) && right@ == p by {
            assert(left@ =~= tags_text(tags));
            assert(right@ =~= p);
        }
    }
    match parse_tags(left) {
        Some(tags) => {
            let payload = String::from_str(right);
            let env = Envelope { tags, payload };
            proof {
                assert(wire@ =~= envelope_text(env.tags@, env.payload@));
            }
            Ok(env)
        },
        None => {
            proof {
                assert forall|tags: Seq<u32>, p: Seq<char>|
                    wire@ != envelope_text(tags, p) by {
                    if wire@ == envelope_text(tags, p) {
                        assert(left@ == tags_text(tags));
                    }
                }
            }
            Err(DecodeError::MalformedEnvelope)
        },
    }
}

} // verus!
