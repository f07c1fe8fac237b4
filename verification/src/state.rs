//! The persisted state record — a location plus a confirmation flag — with
//! its textual file format, and a model of the persistence file that the
//! surrounding program keeps in step with the disk.
use vstd::prelude::*;

use crate::codec::canon_text;
use crate::codec::parse_spec;
use crate::codec::lemma_canon_chars;
use crate::codec::lemma_location_roundtrip;
use crate::codec::DustyLocation;
use crate::errors::DustyError;
use crate::text::first_where;
use crate::text::lemma_first_where;
use crate::text::matches_at;

verus! {

/// The record that outlives a run: where Dusty is, and whether a user
/// explicitly put it back there (`parked_back` true) or the location is only
/// a stale echo of an earlier report.
#[derive(Debug, Clone, Copy)]
pub struct DustyState {
    pub dusty_location: DustyLocation,
    pub parked_back: bool,
}

pub open spec fn record_prefix() -> Seq<char> {
    "{\"location\":\""@
}

pub open spec fn record_tail_true() -> Seq<char> {
    "\",\"confirmed\":true}"@
}

pub open spec fn record_tail_false() -> Seq<char> {
    "\",\"confirmed\":false}"@
}

/// The file content that records a location and a confirmation flag.
pub open spec fn record_text(floor: int, space: nat, confirmed: bool) -> Seq<char> {
    record_prefix() + canon_text(floor, space) + (if confirmed {
        record_tail_true()
    } else {
        record_tail_false()
    })
}

/// The file content that records a state value.
pub open spec fn state_text(st: DustyState) -> Seq<char> {
    record_text(st.dusty_location.spec_floor(), st.dusty_location.spec_space(), st.parked_back)
}

/// What decoding returns on any file content: the fixed frame must match
/// exactly and the location text must parse in range; anything else is
/// corrupt state.
pub open spec fn decode_spec(s: Seq<char>) -> Result<(int, nat, bool), DustyError> {
    let p = record_prefix();
    if s.len() < p.len() || s.subrange(0, p.len() as int) != p {
        Err(DustyError::CorruptState)
    } else {
        let q = p.len() + first_where(s.skip(p.len() as int), |c: char| c == '"');
        if q >= s.len() {
            Err(DustyError::CorruptState)
        } else {
            match parse_spec(s.subrange(p.len() as int, q)) {
                Err(_) => Err(DustyError::CorruptState),
                Ok((f, sp)) => if s.skip(q) == record_tail_true() {
                    Ok((f, sp, true))
                } else if s.skip(q) == record_tail_false() {
                    Ok((f, sp, false))
                } else {
                    Err(DustyError::CorruptState)
                },
            }
        }
    }
}

impl DustyState {
    /// Serialize the record to its file format.
    pub fn encode(&self) -> (r: String)
        ensures
            r@ == state_text(*self),
    {
        let mut out = String::from_str("{\"location\":\"");
        let loc_text = self.dusty_location.to_text();
        out.append(loc_text.as_str());
        if self.parked_back {
            out.append("\",\"confirmed\":true}");
        } else {
            out.append("\",\"confirmed\":false}");
        }
        proof {
            assert(out@ =~= state_text(*self));
        }
        out
    }

    /// Parse a file content back into a record, exactly as `decode_spec`
    /// says; any deviation from the format is `CorruptState`.
    pub fn decode(t: &str) -> (r: Result<DustyState, DustyError>)
        ensures
            match r {
                Ok(st) => decode_spec(t@) == Ok::<(int, nat, bool), DustyError>(
                    (st.dusty_location.spec_floor(), st.dusty_location.spec_space(), st.parked_back),
                ),
                Err(e) => decode_spec(t@) == Err::<(int, nat, bool), DustyError>(e),
            },
    {
        let n = t.unicode_len();
        if !matches_at(t, 0, "{\"location\":\"") {
            return Err(DustyError::CorruptState);
        }
        let plen = "{\"location\":\"".unicode_len();
        let mut q: usize = plen;
        while q < n && !quote_at(t, q)
            invariant
                plen <= q <= n,
                n == t@.len(),
                forall|k: int| plen <= k < q ==> t@[k] != '"',
            decreases n - q,
        {
            q += 1;
        }
        proof {
            let sk = t@.skip(plen as int);
            assert(forall|k: int| 0 <= k < q - plen ==> sk[k] == t@[k + plen] && sk[k] != '"');
            assert(q < n ==> sk[q - plen] == t@[q as int]);
            lemma_first_where(sk, |c: char| c == '"', q - plen);
        }
        if q == n {
            return Err(DustyError::CorruptState);
        }
        let loc_str = t.substring_char(plen, q);
        let loc = match DustyLocation::from_str(loc_str) {
            Err(_) => {
                return Err(DustyError::CorruptState);
            },
            Ok(l) => l,
        };
        let ok_true = matches_at(t, q, "\",\"confirmed\":true}");
        let fit_true = n - q == "\",\"confirmed\":true}".unicode_len();
        if ok_true && fit_true {
            proof {
                assert(t@.skip(q as int) =~= t@.subrange(q as int, q + record_tail_true().len()));
            }
            return Ok(DustyState { dusty_location: loc, parked_back: true });
        }
        let ok_false = matches_at(t, q, "\",\"confirmed\":false}");
        let fit_false = n - q == "\",\"confirmed\":false}".unicode_len();
        if ok_false && fit_false {
            proof {
                assert(t@.skip(q as int) =~= t@.subrange(q as int, q + record_tail_false().len()));
            }
            return Ok(DustyState { dusty_location: loc, parked_back: false });
        }
        proof {
            if t@.skip(q as int) == record_tail_true() {
                assert(q + record_tail_true().len() == n);
                assert(t@.subrange(q as int, q + record_tail_true().len()) =~= t@.skip(q as int));
                assert(false);
            }
            if t@.skip(q as int) == record_tail_false() {
                assert(q + record_tail_false().len() == n);
                assert(t@.subrange(q as int, q + record_tail_false().len()) =~= t@.skip(q as int));
                assert(false);
            }
        }
        Err(DustyError::CorruptState)
    }
}

/// Whether the character of `s` at `i` is a double quote.
fn quote_at(s: &str, i: usize) -> (r: bool)
    requires
        i < s@.len(),
    ensures
        r == (s@[i as int] == '"'),
{
    s.get_char(i) == '"'
}

/// Round trip: decoding the encoding of any in-range record gives the record
/// back, with no error.
pub proof fn lemma_record_roundtrip(floor: int, space: nat, confirmed: bool)
    requires
        -4 <= floor <= 4,
        space <= 400,
    ensures
        decode_spec(record_text(floor, space, confirmed)) == Ok::<(int, nat, bool), DustyError>(
            (floor, space, confirmed),
        ),
{
    reveal_strlit("\",\"confirmed\":true}");
    reveal_strlit("\",\"confirmed\":false}");
    let p = record_prefix();
    let c = canon_text(floor, space);
    let tail = if confirmed {
        record_tail_true()
    } else {
        record_tail_false()
    };
    let s = record_text(floor, space, confirmed);
    assert(s.len() == p.len() + c.len() + tail.len());
    assert(s.subrange(0, p.len() as int) =~= p);
    lemma_canon_chars(floor, space);
    let sk = s.skip(p.len() as int);
    assert(sk =~= c + tail);
    assert(forall|k: int| 0 <= k < c.len() ==> sk[k] == c[k]);
    assert(forall|k: int| 0 <= k < c.len() ==> sk[k] != '"');
    assert(sk[c.len() as int] == tail[0] && tail[0] == '"');
    lemma_first_where(sk, |ch: char| ch == '"', c.len() as int);
    let q = p.len() + c.len();
    assert(s.subrange(p.len() as int, q as int) =~= c);
    lemma_location_roundtrip(floor, space);
    assert(s.skip(q as int) =~= tail);
    assert(record_tail_true().len() != record_tail_false().len());
}

/// A model of the persistence file and of the two ways access to it can
/// fail.  The surrounding program keeps `file` in step with the disk; tests
/// use it as an in-memory fake.
pub struct StateStore {
    pub file: Option<String>,
    pub read_fails: bool,
    pub write_fails: bool,
}

/// The mathematical content of a store: the file content as a character
/// sequence, plus the two fault flags.
#[verifier::ext_equal]
pub ghost struct StoreView {
    pub file: Option<Seq<char>>,
    pub read_fails: bool,
    pub write_fails: bool,
}

impl View for StateStore {
    type V = StoreView;

    open spec fn view(&self) -> StoreView {
        StoreView {
            file: match self.file {
                Some(t) => Some(t@),
                None => None,
            },
            read_fails: self.read_fails,
            write_fails: self.write_fails,
        }
    }
}

/// What loading returns on any store: a read fault is a `FileError`; a
/// missing or empty file is no state at all, not an error; anything else is
/// decoded.
pub open spec fn load_spec(v: StoreView) -> Result<Option<(int, nat, bool)>, DustyError> {
    if v.read_fails {
        Err(DustyError::FileError)
    } else {
        match v.file {
            None => Ok(None),
            Some(t) => if t.len() == 0 {
                Ok(None)
            } else {
                match decode_spec(t) {
                    Ok(rec) => Ok(Some(rec)),
                    Err(e) => Err(e),
                }
            },
        }
    }
}

/// Loading a missing file creates an empty one; nothing else changes the
/// store.
pub open spec fn store_after_load(v: StoreView) -> StoreView {
    if !v.read_fails && v.file is None {
        StoreView { file: Some(Seq::empty()), ..v }
    } else {
        v
    }
}

impl StateStore {
    /// A store over a missing file with no faults injected.
    pub fn new() -> (r: StateStore)
        ensures
            r@ == (StoreView { file: None, read_fails: false, write_fails: false }),
    {
        StateStore { file: None, read_fails: false, write_fails: false }
    }

    /// Read the persisted record: exactly `load_spec` of the store, creating
    /// an empty file where none exists.
    pub fn load(&mut self) -> (r: Result<Option<DustyState>, DustyError>)
        ensures
            final(self)@ == store_after_load(old(self)@),
            match r {
                Ok(None) => load_spec(old(self)@) == Ok::<Option<(int, nat, bool)>, DustyError>(
                    None,
                ),
                Ok(Some(st)) => load_spec(old(self)@) == Ok::<
                    Option<(int, nat, bool)>,
                    DustyError,
                >(
                    Some(
                        (
                            st.dusty_location.spec_floor(),
                            st.dusty_location.spec_space(),
                            st.parked_back,
                        ),
                    ),
                ),
                Err(e) => load_spec(old(self)@) == Err::<Option<(int, nat, bool)>, DustyError>(e),
            },
    {
        if self.read_fails {
            return Err(DustyError::FileError);
        }
        if self.file.is_none() {
            self.file = Some(String::new());
            proof {
                assert(self@ =~= store_after_load(old(self)@));
            }
            return Ok(None);
        }
        let t = self.file.as_ref().unwrap();
        if t.as_str().unicode_len() == 0 {
            return Ok(None);
        }
        match DustyState::decode(t.as_str()) {
            Ok(st) => Ok(Some(st)),
            Err(e) => Err(e),
        }
    }

    /// Overwrite the file with the record of `state`; a write fault is a
    /// `FileError` and leaves the file as it was.
    pub fn save(&mut self, state: &DustyState) -> (r: Result<(), DustyError>)
        ensures
            old(self)@.write_fails ==> r == Err::<(), DustyError>(DustyError::FileError)
                && final(self)@ == old(self)@,
            !old(self)@.write_fails ==> r == Ok::<(), DustyError>(()) && final(self)@ == (StoreView {
                file: Some(state_text(*state)),
                ..old(self)@
            }),
    {
        if self.write_fails {
            return Err(DustyError::FileError);
        }
        self.file = Some(state.encode());
        proof {
            assert(self@ =~= (StoreView { file: Some(state_text(*state)), ..old(self)@ }));
        }
        Ok(())
    }
}

} // verus!
