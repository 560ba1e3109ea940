//! The checkpoint log: one text record per line, `<public-hex>,<secret-hex>`.
//!
//! Encoding, decoding and recovery of the best recorded keypair are verified
//! against an exact grammar; a proof at the end shows that a record appended
//! for an improving keypair is what a fresh recovery returns.

use vstd::prelude::*;

use crate::hexcode::{
    hex_decode_bytes, hex_encode_bytes, lemma_hex_round_trip, spec_hex_decode, spec_hex_encode,
    valid_hex,
};
use crate::keypair::{
    is_valid_public_key, public_key_valid, secret_key_valid, spec_metric, Keypair,
};

verus! {

/// The byte that separates the two hex fields of a record.
pub const SEPARATOR: u8 = 44;

/// Why a checkpoint log failed to recover.  Every variant is fatal at
/// startup: the process must not proceed with an unverifiable history.
#[derive(Clone, Copy, Debug, PartialEq, Eq, Structural)]
pub enum RecoveryError {
    /// A record has no separator between its two fields.
    MissingSeparator,
    /// A record field is not a valid hex string.
    InvalidHex,
    /// A record's decoded bytes are not a valid keypair encoding.
    InvalidKey,
}

/// Index of the first separator in a line, if any.
pub open spec fn find_separator(s: Seq<u8>) -> Option<int>
    decreases s.len(),
{
    if s.len() == 0 {
        None
    } else if s[0] == SEPARATOR {
        Some(0)
    } else {
        match find_separator(s.drop_first()) {
            Some(i) => Some(i + 1),
            None => None,
        }
    }
}

/// If a position holds the first separator of the line, `find_separator`
/// returns it.
pub proof fn lemma_find_separator_at(s: Seq<u8>, i: int)
    requires
        0 <= i < s.len(),
        s[i] == SEPARATOR,
        forall|j: int| 0 <= j < i ==> s[j] != SEPARATOR,
    ensures
        find_separator(s) == Some(i),
    decreases i,
{
    if i > 0 {
        lemma_find_separator_at(s.drop_first(), i - 1);
    }
}

/// A line without a separator has none found.
pub proof fn lemma_find_separator_none(s: Seq<u8>)
    requires
        forall|j: int| 0 <= j < s.len() ==> s[j] != SEPARATOR,
    ensures
        find_separator(s) is None,
    decreases s.len(),
{
    if s.len() > 0 {
        lemma_find_separator_none(s.drop_first());
    }
}

/// The keypair bytes a record line stands for, when the line is well formed:
/// two valid hex fields around the first separator, decoding to a 32-byte
/// valid public key and a 32-byte secret key.
pub open spec fn spec_parse_record(line: Seq<u8>) -> Option<(Seq<u8>, Seq<u8>)> {
    match find_separator(line) {
        None => None,
        Some(i) => {
            let ph = line.subrange(0, i);
            let sh = line.subrange(i + 1, line.len() as int);
            if valid_hex(ph) && valid_hex(sh) {
                let pb = spec_hex_decode(ph);
                let sb = spec_hex_decode(sh);
                if pb.len() == 32 && is_valid_public_key(pb) && sb.len() == 32 {
                    Some((pb, sb))
                } else {
                    None
                }
            } else {
                None
            }
        },
    }
}

/// The error a malformed record line is rejected with.
pub open spec fn spec_record_error(line: Seq<u8>) -> RecoveryError
    recommends
        spec_parse_record(line) is None,
{
    match find_separator(line) {
        None => RecoveryError::MissingSeparator,
        Some(i) => {
            if valid_hex(line.subrange(0, i)) && valid_hex(line.subrange(i + 1, line.len() as int)) {
                RecoveryError::InvalidKey
            } else {
                RecoveryError::InvalidHex
            }
        },
    }
}

/// The record line a keypair is written as.
pub open spec fn spec_encode_record(p: Keypair) -> Seq<u8> {
    spec_hex_encode(p.public@) + seq![SEPARATOR] + spec_hex_encode(p.secret@)
}

/// Encodes a keypair as one record line: public hex, separator, secret hex.
pub fn encode_record(p: &Keypair) -> (r: Vec<u8>)
    ensures
        r@ == spec_encode_record(*p),
{
    let mut out = hex_encode_bytes(&p.public);
    out.push(SEPARATOR);
    let sh = hex_encode_bytes(&p.secret);
    let mut i: usize = 0;
    while i < sh.len()
        invariant
            i <= sh@.len(),
            sh@ == spec_hex_encode(p.secret@),
            out@ == spec_hex_encode(p.public@) + seq![SEPARATOR] + sh@.take(i as int),
        decreases sh@.len() - i,
    {
        out.push(sh[i]);
        proof {
            assert(sh@.take(i + 1) =~= sh@.take(i as int).push(sh@[i as int]));
        }
        i += 1;
    }
    proof {
        assert(sh@.take(sh@.len() as int) =~= sh@);
        assert(out@ =~= spec_encode_record(*p));
    }
    out
}

/// Finds the first separator of a line, as `find_separator` does.
fn find_separator_index(line: &Vec<u8>) -> (r: Option<usize>)
    ensures
        r matches Some(i) ==> i < line@.len() && find_separator(line@) == Some(i as int),
        r is None ==> find_separator(line@) is None,
{
    let mut i: usize = 0;
    while i < line.len()
        invariant
            i <= line@.len(),
            forall|j: int| 0 <= j < i ==> line@[j] != SEPARATOR,
        decreases line@.len() - i,
    {
        if line[i] == SEPARATOR {
            proof {
                lemma_find_separator_at(line@, i as int);
            }
            return Some(i);
        }
        i += 1;
    }
    proof {
        lemma_find_separator_none(line@);
    }
    None
}

/// Copies `line[start..end]` into a fresh vector.
fn copy_range(line: &Vec<u8>, start: usize, end: usize) -> (r: Vec<u8>)
    requires
        start <= end <= line@.len(),
    ensures
        r@ == line@.subrange(start as int, end as int),
{
    let mut out: Vec<u8> = Vec::new();
    let mut i: usize = start;
    while i < end
        invariant
            start <= i <= end <= line@.len(),
            out@ == line@.subrange(start as int, i as int),
        decreases end - i,
    {
        out.push(line[i]);
        proof {
            assert(line@.subrange(start as int, i + 1) =~= line@.subrange(
                start as int,
                i as int,
            ).push(line@[i as int]));
        }
        i += 1;
    }
    out
}

/// Decodes one record line into a keypair, accepting exactly the well-formed
/// lines and naming, for each malformed one, what is wrong with it.
pub fn decode_record(line: &Vec<u8>) -> (r: Result<Keypair, RecoveryError>)
    ensures
        r is Ok <==> spec_parse_record(line@) is Some,
        r matches Ok(p) ==> spec_parse_record(line@) == Some((p.public@, p.secret@)) && p.wf(),
        r matches Err(e) ==> e == spec_record_error(line@),
{
    let sep = match find_separator_index(line) {
        Some(i) => i,
        None => {
            return Err(RecoveryError::MissingSeparator);
        },
    };
    let n = line.len();
    let ph = copy_range(line, 0, sep);
    let sh = copy_range(line, sep + 1, n);
    let pb = match hex_decode_bytes(&ph) {
        Ok(v) => v,
        Err(_) => {
            return Err(RecoveryError::InvalidHex);
        },
    };
    let sb = match hex_decode_bytes(&sh) {
        Ok(v) => v,
        Err(_) => {
            return Err(RecoveryError::InvalidHex);
        },
    };
    if !public_key_valid(&pb) {
        return Err(RecoveryError::InvalidKey);
    }
    if !secret_key_valid(&sb) {
        return Err(RecoveryError::InvalidKey);
    }
    Ok(Keypair { public: pb, secret: sb })
}

/// The views of the lines of a log.
pub open spec fn lines_view(lines: Seq<Vec<u8>>) -> Seq<Seq<u8>> {
    lines.map_values(|l: Vec<u8>| l@)
}

/// Every line of the log parses as a record.
pub open spec fn all_records_ok(lines: Seq<Seq<u8>>) -> bool {
    forall|i: int| 0 <= i < lines.len() ==> spec_parse_record(lines[i]) is Some
}

/// The metric of a parsed record line.
pub open spec fn record_metric(line: Seq<u8>) -> u64
    recommends
        spec_parse_record(line) is Some,
{
    spec_metric((spec_parse_record(line)->0).0)
}

/// The keypair bytes recovery returns for a log whose lines all parse: those
/// of the record with the maximum metric, the last such record on ties.
pub open spec fn spec_best(lines: Seq<Seq<u8>>) -> Option<(Seq<u8>, Seq<u8>)>
    recommends
        all_records_ok(lines),
    decreases lines.len(),
{
    if lines.len() == 0 {
        None
    } else {
        let prev = spec_best(lines.drop_last());
        match (prev, spec_parse_record(lines.last())) {
            (None, cur) => cur,
            (Some(b), None) => Some(b),
            (Some(b), Some(c)) => if spec_metric(c.0) >= spec_metric(b.0) {
                Some(c)
            } else {
                Some(b)
            },
        }
    }
}

/// Reads every record of the log and returns the keypair with the maximum
/// metric, or nothing for an empty log.  One malformed record fails the
/// whole recovery with its error: nothing is skipped silently.
pub fn recover_best(lines: &Vec<Vec<u8>>) -> (r: Result<Option<Keypair>, RecoveryError>)
    ensures
        r is Ok <==> all_records_ok(lines_view(lines@)),
        r matches Ok(o) ==> (o is Some <==> lines@.len() > 0),
        r matches Ok(o) ==> (o matches Some(p) ==> p.wf() && spec_best(lines_view(lines@))
            == Some((p.public@, p.secret@))),
        r matches Err(e) ==> exists|i: int|
            0 <= i < lines@.len() && spec_parse_record(#[trigger] lines_view(lines@)[i]) is None
                && e == spec_record_error(lines_view(lines@)[i]) && (forall|j: int|
                0 <= j < i ==> spec_parse_record(#[trigger] lines_view(lines@)[j]) is Some),
{
    let mut best: Option<Keypair> = None;
    let mut best_m: u64 = 0;
    let mut i: usize = 0;
    while i < lines.len()
        invariant
            i <= lines@.len(),
            forall|j: int| 0 <= j < i ==> spec_parse_record(
                #[trigger] lines_view(lines@)[j],
            ) is Some,
            best is Some <==> i > 0,
            best matches Some(p) ==> p.wf() && best_m == spec_metric(p.public@) && spec_best(
                lines_view(lines@).take(i as int),
            ) == Some((p.public@, p.secret@)),
        decreases lines@.len() - i,
    {
        let p = match decode_record(&lines[i]) {
            Ok(p) => p,
            Err(e) => {
                proof {
                    assert(lines_view(lines@)[i as int] == lines@[i as int]@);
                    assert(spec_parse_record(lines_view(lines@)[i as int]) is None);
                }
                return Err(e);
            },
        };
        let m = p.metric();
        let replace: bool = match &best {
            None => true,
            Some(_) => m >= best_m,
        };
        proof {
            assert(lines_view(lines@).take(i as int + 1).drop_last() =~= lines_view(
                lines@,
            ).take(i as int));
            assert(lines_view(lines@).take(i as int + 1).last() == lines_view(lines@)[i as int]);
        }
        if replace {
            best = Some(p);
            best_m = m;
        }
        i += 1;
    }
    proof {
        assert(lines_view(lines@).take(lines@.len() as int) =~= lines_view(lines@));
    }
    Ok(best)
}

/// The best of a non-empty, fully parsing log is one of its records.
pub proof fn lemma_spec_best_is_a_record(lines: Seq<Seq<u8>>)
    requires
        all_records_ok(lines),
        lines.len() > 0,
    ensures
        spec_best(lines) is Some,
        exists|i: int| 0 <= i < lines.len() && spec_parse_record(#[trigger] lines[i])
            == spec_best(lines),
    decreases lines.len(),
{
    if lines.len() == 1 {
        assert(spec_parse_record(lines[0]) == spec_best(lines));
    } else {
        lemma_spec_best_is_a_record(lines.drop_last());
        if spec_best(lines) == spec_parse_record(lines.last()) {
            assert(spec_parse_record(lines[lines.len() - 1]) == spec_best(lines));
        } else {
            let i = choose|i: int|
                0 <= i < lines.drop_last().len() && spec_parse_record(#[trigger] lines.drop_last()[i])
                    == spec_best(lines.drop_last());
            assert(spec_parse_record(lines[i]) == spec_best(lines));
        }
    }
}

/// Recovery correctness: the recovered best of a non-empty, fully parsing
/// log carries the maximum metric over all its records.
pub proof fn lemma_spec_best_is_maximal(lines: Seq<Seq<u8>>)
    requires
        all_records_ok(lines),
        lines.len() > 0,
    ensures
        spec_best(lines) is Some,
        forall|i: int| 0 <= i < lines.len() ==> record_metric(#[trigger] lines[i]) <= spec_metric(
            (spec_best(lines)->0).0,
        ),
    decreases lines.len(),
{
    if lines.len() > 1 {
        lemma_spec_best_is_maximal(lines.drop_last());
        assert forall|i: int| 0 <= i < lines.len() implies record_metric(#[trigger] lines[i])
            <= spec_metric((spec_best(lines)->0).0) by {
            if i < lines.len() - 1 {
                assert(lines.drop_last()[i] == lines[i]);
            }
        }
    }
}

/// Durability before broadcast: once the controller has appended the record
/// of an improving keypair — one whose metric lies strictly above that of
/// every record already in the log — a fresh recovery of the log returns
/// exactly that keypair.  A crash right after the append therefore loses
/// nothing.
pub proof fn lemma_append_then_recover(lines: Seq<Seq<u8>>, p: Keypair)
    requires
        all_records_ok(lines),
        p.wf(),
        forall|i: int| 0 <= i < lines.len() ==> record_metric(#[trigger] lines[i]) < spec_metric(
            p.public@,
        ),
    ensures
        all_records_ok(lines.push(spec_encode_record(p))),
        spec_best(lines.push(spec_encode_record(p))) == Some((p.public@, p.secret@)),
{
    lemma_record_round_trip(p);
    let grown = lines.push(spec_encode_record(p));
    assert(grown.drop_last() =~= lines);
    assert(grown.last() == spec_encode_record(p));
    assert forall|i: int| 0 <= i < grown.len() implies spec_parse_record(
        #[trigger] grown[i],
    ) is Some by {
        if i < lines.len() {
            assert(grown[i] == lines[i]);
        }
    }
    if lines.len() > 0 {
        lemma_spec_best_is_a_record(lines);
        let i = choose|i: int|
            0 <= i < lines.len() && spec_parse_record(#[trigger] lines[i]) == spec_best(lines);
        assert(record_metric(lines[i]) < spec_metric(p.public@));
    }
}

/// A record line decodes back to exactly the keypair it was written for.
pub proof fn lemma_record_round_trip(p: Keypair)
    requires
        p.wf(),
    ensures
        spec_parse_record(spec_encode_record(p)) == Some((p.public@, p.secret@)),
{
    let ph = spec_hex_encode(p.public@);
    let sh = spec_hex_encode(p.secret@);
    let e = spec_encode_record(p);
    lemma_hex_round_trip(p.public@);
    lemma_hex_round_trip(p.secret@);
    let k = ph.len() as int;
    assert forall|j: int| 0 <= j < k implies e[j] != SEPARATOR by {
        assert(e[j] == ph[j]);
        assert(crate::hexcode::is_hex_digit(ph[j]));
    }
    assert(e[k] == SEPARATOR);
    lemma_find_separator_at(e, k);
    assert(e.subrange(0, k) =~= ph);
    assert(e.subrange(k + 1, e.len() as int) =~= sh);
}

} // verus!
