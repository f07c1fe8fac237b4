//! Command interpretation: classify a chat message into one of three
//! intents, drive the codec and the store, and produce the reply text.
//! Every call is stateless; the store handed in carries the file model.
use vstd::prelude::*;

use crate::codec::canon_text;
use crate::codec::parse_spec;
use crate::codec::DustyLocation;
use crate::errors::error_message;
use crate::errors::DustyError;
use crate::state::lemma_record_roundtrip;
use crate::state::load_spec;
use crate::state::record_text;
use crate::state::store_after_load;
use crate::state::DustyState;
use crate::state::StateStore;
use crate::state::StoreView;
use crate::text::lower_seq;
use crate::text::matches_at_ci;
use crate::text::trim_spec;
use crate::text::trim_str;

verus! {

/// The three things a message can mean.
#[derive(Debug)]
pub enum Intent {
    Query,
    Update(String),
    Unknown,
}

/// The fixed query trigger, compared case-insensitively.
pub open spec fn query_phrase() -> Seq<char> {
    "where is dusty?"@
}

/// The fixed update trigger prefix, compared case-insensitively.
pub open spec fn update_prefix() -> Seq<char> {
    "dusty is at "@
}

/// The trimmed message equals the query phrase up to ASCII case.
pub open spec fn is_query(m: Seq<char>) -> bool {
    lower_seq(trim_spec(m)) == query_phrase()
}

/// The trimmed message starts with the update prefix up to ASCII case.
pub open spec fn is_update(m: Seq<char>) -> bool {
    let t = trim_spec(m);
    t.len() >= update_prefix().len() && lower_seq(
        t.subrange(0, update_prefix().len() as int),
    ) == update_prefix()
}

/// What follows the update prefix, trimmed, in its original case.
pub open spec fn update_payload(m: Seq<char>) -> Seq<char> {
    trim_spec(trim_spec(m).skip(update_prefix().len() as int))
}

/// Classify a message: the query phrase wins, then the update prefix,
/// and anything else is unrecognized.
pub fn classify(message: &str) -> (r: Intent)
    ensures
        is_query(message@) ==> r is Query,
        !is_query(message@) && is_update(message@) ==> (r matches Intent::Update(p) && p@
            == update_payload(message@)),
        !is_query(message@) && !is_update(message@) ==> r is Unknown,
{
    let t = trim_str(message);
    let n = t.unicode_len();
    let ok_q = matches_at_ci(t, 0, "where is dusty?");
    let qlen = "where is dusty?".unicode_len();
    if ok_q && n == qlen {
        proof {
            assert(t@.subrange(0, qlen as int) =~= t@);
        }
        return Intent::Query;
    }
    proof {
        if is_query(message@) {
            assert(lower_seq(t@).len() == t@.len());
            assert(n == qlen);
            assert(t@.subrange(0, qlen as int) =~= t@);
            assert(false);
        }
    }
    let ok_u = matches_at_ci(t, 0, "dusty is at ");
    if ok_u {
        let plen = "dusty is at ".unicode_len();
        let rest = t.substring_char(plen, n);
        proof {
            assert(t@.subrange(plen as int, n as int) =~= t@.skip(plen as int));
        }
        let payload = trim_str(rest);
        return Intent::Update(String::from_str(payload));
    }
    Intent::Unknown
}

/// The fixed acknowledgement of a successful update.
pub open spec fn ack_text() -> Seq<char> {
    "Got it!"@
}

/// The fixed reply to an unrecognized message, naming both phrasings.
pub open spec fn help_text() -> Seq<char> {
    "I don't understand that. Please either ask 'Where is Dusty?', or tell me 'Dusty is at P<floor>.<space>' (example: 'Dusty is at P1.303')"@
}

/// The reply when no location was ever recorded: not an error.
pub open spec fn no_location_text() -> Seq<char> {
    "I don't know where Dusty is yet. Tell me with 'Dusty is at P<floor>.<space>'."@
}

/// The reply when the recorded location was explicitly put back.
pub open spec fn confirmed_reply(floor: int, space: nat) -> Seq<char> {
    "Dusty is at *"@ + canon_text(floor, space) + "*"@
}

/// The reply when the recorded location was never confirmed.
pub open spec fn stale_reply(floor: int, space: nat) -> Seq<char> {
    "Someone asked where Dusty is, but hasn't explicitly put it back. *"@ + canon_text(
        floor,
        space,
    ) + "* was its last know location"@
}

/// The store a command leaves behind: a query may create the empty file, a
/// valid update overwrites the record, and everything else - a rejected
/// update above all - changes nothing.
pub open spec fn next_store(m: Seq<char>, v: StoreView) -> StoreView {
    if is_query(m) {
        store_after_load(v)
    } else if is_update(m) {
        match parse_spec(update_payload(m)) {
            Ok(rec) => if v.write_fails {
                v
            } else {
                StoreView { file: Some(record_text(rec.0, rec.1, true)), ..v }
            },
            Err(_) => v,
        }
    } else {
        v
    }
}

/// The reply a command earns, for every message and every store.
pub open spec fn reply_text(m: Seq<char>, v: StoreView) -> Seq<char> {
    if is_query(m) {
        match load_spec(v) {
            Err(e) => error_message(e),
            Ok(None) => no_location_text(),
            Ok(Some(rec)) => if rec.2 {
                confirmed_reply(rec.0, rec.1)
            } else {
                stale_reply(rec.0, rec.1)
            },
        }
    } else if is_update(m) {
        match parse_spec(update_payload(m)) {
            Ok(_) => if v.write_fails {
                error_message(DustyError::FileError)
            } else {
                ack_text()
            },
            Err(e) => error_message(e),
        }
    } else {
        help_text()
    }
}

/// Interpret one chat message against the store: the reply and the new store
/// are exactly what `reply_text` and `next_store` say of the inputs.
pub fn handle_dusty_query(message: &str, store: &mut StateStore) -> (reply: String)
    ensures
        final(store)@ == next_store(message@, old(store)@),
        reply@ == reply_text(message@, old(store)@),
{
    match classify(message) {
        Intent::Query => {
            match store.load() {
                Err(e) => e.message(),
                Ok(None) => String::from_str(
                    "I don't know where Dusty is yet. Tell me with 'Dusty is at P<floor>.<space>'.",
                ),
                Ok(Some(st)) => {
                    let loc_text = st.dusty_location.to_text();
                    if st.parked_back {
                        let mut out = String::from_str("Dusty is at *");
                        out.append(loc_text.as_str());
                        out.append("*");
                        proof {
                            assert(out@ =~= reply_text(message@, old(store)@));
                        }
                        out
                    } else {
                        let mut out = String::from_str(
                            "Someone asked where Dusty is, but hasn't explicitly put it back. *",
                        );
                        out.append(loc_text.as_str());
                        out.append("* was its last know location");
                        proof {
                            assert(out@ =~= reply_text(message@, old(store)@));
                        }
                        out
                    }
                },
            }
        },
        Intent::Update(payload) => {
            match DustyLocation::from_str(payload.as_str()) {
                Ok(loc) => {
                    let st = DustyState { dusty_location: loc, parked_back: true };
                    match store.save(&st) {
                        Ok(_) => {
                            proof {
                                assert(final(store)@ =~= next_store(message@, old(store)@));
                            }
                            String::from_str("Got it!")
                        },
                        Err(e) => e.message(),
                    }
                },
                Err(e) => e.message(),
            }
        },
        Intent::Unknown => String::from_str(
            "I don't understand that. Please either ask 'Where is Dusty?', or tell me 'Dusty is at P<floor>.<space>' (example: 'Dusty is at P1.303')",
        ),
    }
}

/// An update whose payload is rejected leaves the store untouched and
/// replies with that rejection's message.
pub proof fn lemma_rejected_update_keeps_store(m: Seq<char>, v: StoreView)
    requires
        !is_query(m),
        is_update(m),
        parse_spec(update_payload(m)) is Err,
    ensures
        next_store(m, v) == v,
        reply_text(m, v) == error_message(parse_spec(update_payload(m))->Err_0),
{
}

/// An unrecognized message leaves the store untouched and earns the fixed
/// help text.
pub proof fn lemma_unrecognized_keeps_store(m: Seq<char>, v: StoreView)
    requires
        !is_query(m),
        !is_update(m),
    ensures
        next_store(m, v) == v,
        reply_text(m, v) == help_text(),
{
}

/// After an update that was accepted and saved, a query reports the saved
/// location as current and confirmed.
pub proof fn lemma_update_then_query(um: Seq<char>, qm: Seq<char>, v: StoreView)
    requires
        !is_query(um),
        is_update(um),
        parse_spec(update_payload(um)) is Ok,
        !v.write_fails,
        !v.read_fails,
        is_query(qm),
    ensures
        reply_text(qm, next_store(um, v)) == confirmed_reply(
            parse_spec(update_payload(um))->Ok_0.0,
            parse_spec(update_payload(um))->Ok_0.1,
        ),
{
    let rec = parse_spec(update_payload(um))->Ok_0;
    lemma_record_roundtrip(rec.0, rec.1, true);
    let w = next_store(um, v);
    assert(w.file == Some(record_text(rec.0, rec.1, true)));
    assert(record_text(rec.0, rec.1, true).len() > 0) by {
        reveal_strlit("{\"location\":\"");
    }
}

} // verus!
