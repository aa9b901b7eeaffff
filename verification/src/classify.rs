use vstd::prelude::*;
use vstd::string::StringExecFns;
use crate::telemetry::{
    VehicleState, record_text, field_reps, parse_record, lemma_field_reps_comma_free,
};
use crate::text::{comma_free, has_comma, lemma_join_comma_first};

verus! {

// The link manager's judgment on a decoded payload: a telemetry record, a
// chat line, or separator-bearing text it does not recognise. The rule is
// the heuristic the protocol lives with: first try the record grammar; what
// fails it counts as chat only when it holds no field separator at all.

/// Whether some snapshot has this payload as its record text.
pub open spec fn is_record_text(p: Seq<char>) -> bool {
    exists|st: VehicleState| p == record_text(st)
}

/// The three destinations of a decoded payload.
#[derive(Debug)]
pub enum Classified {
    /// The payload is the record text of exactly this snapshot.
    Telemetry(VehicleState),
    /// Free text bound for the chat queue, vehicle-originated.
    Chat(String),
    /// Separator-bearing text that is no record: dropped, not queued.
    Unrecognized,
}

/// Routes a payload: the record parse decides first; a payload that is no
/// record goes to chat exactly when it is free of the field separator.
pub fn classify_payload(payload: &str) -> (r: Classified)
    ensures
        r matches Classified::Telemetry(st) ==> payload@ == record_text(st),
        forall|st: VehicleState|
            payload@ == record_text(st) ==> r == Classified::Telemetry(st),
        r matches Classified::Chat(s) ==> s@ == payload@ && comma_free(payload@)
            && !is_record_text(payload@),
        comma_free(payload@) && !is_record_text(payload@) ==> (r matches Classified::Chat(s)
            && s@ == payload@),
        comma_free(payload@) ==> (r matches Classified::Chat(s) && s@ == payload@),
        r is Unrecognized <==> !comma_free(payload@) && !is_record_text(payload@),
{
    proof {
        if comma_free(payload@) {
            lemma_separator_free_is_chat(payload@);
        }
    }
    match parse_record(payload) {
        Some(st) => Classified::Telemetry(st),
        None => {
            if !has_comma(payload) {
                Classified::Chat(String::from_str(payload))
            } else {
                Classified::Unrecognized
            }
        },
    }
}

/// Text without the field separator is never a record: every record text
/// holds the separator right after its first field. So the classifier can
/// only route separator-free text to the chat queue.
pub proof fn lemma_separator_free_is_chat(p: Seq<char>)
    requires
        comma_free(p),
    ensures
        !is_record_text(p),
{
    if is_record_text(p) {
        let st = choose|st: VehicleState| p == record_text(st);
        lemma_field_reps_comma_free(st);
        lemma_join_comma_first(field_reps(st));
        let k = field_reps(st)[0].len() as int;
        assert(record_text(st)[k] == ',');
        assert(p[k] != ',');
        assert(false);
    }
}

} // verus!
