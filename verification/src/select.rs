//! Codec selector: pick the best available codec from a ranked preference
//! list over a parsed capability listing.
//!
//! Selection is two-phase on purpose: the full listing is scanned first and
//! the last matching record is remembered per candidate name, then the
//! candidate list is walked in priority order. Listing order must never leak
//! into selection order; only the caller-supplied candidate order ranks.

use vstd::prelude::*;

use crate::capability::{CapRecord, FFMPEGSupport};

verus! {

/// Which capability a selection requires of a record.
#[derive(Clone, Copy, Debug, PartialEq, Eq, Structural)]
pub enum CodecFilter {
    Encode,
    Decode,
}

/// Whether a record satisfies the capability filter.
pub open spec fn satisfies(rec: CapRecord, filter: CodecFilter) -> bool {
    match filter {
        CodecFilter::Encode => rec.encode,
        CodecFilter::Decode => rec.decode,
    }
}

/// The record remembered for one candidate name after the full scan: the
/// last record whose alias set holds the name and which satisfies the
/// filter, or `None` when no record matches.
pub open spec fn found_for(recs: Seq<CapRecord>, name: Seq<char>, filter: CodecFilter) -> Option<
    CapRecord,
>
    decreases recs.len(),
{
    if recs.len() == 0 {
        None
    } else if recs.last().names.contains(name) && satisfies(recs.last(), filter) {
        Some(recs.last())
    } else {
        found_for(recs.drop_last(), name, filter)
    }
}

/// The canonical name selected for a candidate list: walk the candidates in
/// priority order and take the first one the scan remembered a record for.
pub open spec fn select_spec(
    recs: Seq<CapRecord>,
    candidates: Seq<Seq<char>>,
    filter: CodecFilter,
) -> Option<Seq<char>>
    decreases candidates.len(),
{
    if candidates.len() == 0 {
        None
    } else {
        match found_for(recs, candidates.first(), filter) {
            Some(rec) => Some(rec.names.first()),
            None => select_spec(recs, candidates.drop_first(), filter),
        }
    }
}

/// The models of a sequence of capability records.
pub open spec fn views_of(codecs: Seq<FFMPEGSupport>) -> Seq<CapRecord> {
    codecs.map_values(|c: FFMPEGSupport| c@)
}

/// Whether a record satisfies the capability filter, on the executable
/// record type.
pub fn satisfies_record(rec: &FFMPEGSupport, filter: CodecFilter) -> (r: bool)
    ensures
        r == satisfies(rec@, filter),
{
    match filter {
        CodecFilter::Encode => rec.encode(),
        CodecFilter::Decode => rec.decode(),
    }
}

/// Index of the last record matching `name` under `filter`, over the whole
/// listing.
fn scan_candidate(codecs: &Vec<FFMPEGSupport>, name: &str, filter: CodecFilter) -> (r: Option<
    usize,
>)
    ensures
        (match r {
            Some(idx) => idx < codecs@.len() && found_for(views_of(codecs@), name@, filter)
                == Some(codecs@[idx as int]@),
            None => found_for(views_of(codecs@), name@, filter) is None,
        }),
{
    let ghost recs = views_of(codecs@);
    let n = codecs.len();
    let mut best: Option<usize> = None;
    let mut i: usize = 0;
    while i < n
        invariant
            i <= n,
            n == codecs@.len(),
            recs == views_of(codecs@),
            recs.len() == n,
            (match best {
                Some(idx) => idx < i && found_for(recs.take(i as int), name@, filter) == Some(
                    codecs@[idx as int]@,
                ),
                None => found_for(recs.take(i as int), name@, filter) is None,
            }),
        decreases n - i,
    {
        proof {
            assert(recs.take(i + 1).drop_last() =~= recs.take(i as int));
            assert(recs.take(i + 1).last() == recs[i as int]);
            assert(recs[i as int] == codecs@[i as int]@);
        }
        if codecs[i].has_name(name) && satisfies_record(&codecs[i], filter) {
            best = Some(i);
        }
        i += 1;
    }
    proof {
        assert(recs.take(n as int) =~= recs);
    }
    best
}

/// Select the canonical name of the best available codec: scan the whole
/// listing once, remembering per candidate name the last record whose alias
/// set holds it and which satisfies the filter, then walk the candidate list
/// in priority order and return the first name a record was remembered for.
/// `None` reports that no candidate matched.
pub fn find_codec(
    codecs: &Vec<FFMPEGSupport>,
    candidates: &Vec<String>,
    filter: CodecFilter,
) -> (r: Option<String>)
    requires
        forall|i: int| 0 <= i < codecs@.len() ==> (#[trigger] codecs@[i])@.wf(),
    ensures
        (match r {
            Some(name) => select_spec(views_of(codecs@), candidates.deep_view(), filter) == Some(
                name@,
            ),
            None => select_spec(views_of(codecs@), candidates.deep_view(), filter) is None,
        }),
{
    let ghost recs = views_of(codecs@);
    let ghost cands = candidates.deep_view();
    let ncands = candidates.len();
    let mut found: Vec<Option<usize>> = Vec::new();
    let mut q: usize = 0;
    while q < ncands
        invariant
            q <= ncands,
            ncands == candidates@.len(),
            cands == candidates.deep_view(),
            cands.len() == ncands,
            recs == views_of(codecs@),
            found@.len() == q,
            forall|p: int|
                0 <= p < q ==> (match #[trigger] found@[p] {
                    Some(idx) => idx < codecs@.len() && found_for(recs, cands[p], filter) == Some(
                        codecs@[idx as int]@,
                    ),
                    None => found_for(recs, cands[p], filter) is None,
                }),
        decreases ncands - q,
    {
        proof {
            assert(cands[q as int] == candidates@[q as int]@);
        }
        let best = scan_candidate(codecs, candidates[q].as_str(), filter);
        found.push(best);
        q += 1;
    }
    proof {
        assert(cands.skip(0) =~= cands);
    }
    let mut p: usize = 0;
    while p < ncands
        invariant
            p <= ncands,
            ncands == candidates@.len(),
            cands == candidates.deep_view(),
            cands.len() == ncands,
            recs == views_of(codecs@),
            forall|i: int| 0 <= i < codecs@.len() ==> (#[trigger] codecs@[i])@.wf(),
            found@.len() == ncands,
            forall|t: int|
                0 <= t < ncands ==> (match #[trigger] found@[t] {
                    Some(idx) => idx < codecs@.len() && found_for(recs, cands[t], filter) == Some(
                        codecs@[idx as int]@,
                    ),
                    None => found_for(recs, cands[t], filter) is None,
                }),
            select_spec(recs, cands, filter) == select_spec(recs, cands.skip(p as int), filter),
        decreases ncands - p,
    {
        proof {
            assert(cands.skip(p as int).first() == cands[p as int]);
            assert(cands.skip(p as int).drop_first() =~= cands.skip(p + 1));
        }
        match found[p] {
            Some(idx) => {
                let name = codecs[idx].name();
                proof {
                    assert(codecs@[idx as int]@.names.first() == codecs@[idx as int]@.names[0]);
                }
                return Some(name.to_owned());
            },
            None => {},
        }
        p += 1;
    }
    proof {
        assert(cands.skip(ncands as int) =~= Seq::<Seq<char>>::empty());
    }
    None
}

/// Law: over an empty capability set, selection reports absence for every
/// candidate list and every filter.
pub proof fn lemma_select_empty(candidates: Seq<Seq<char>>, filter: CodecFilter)
    ensures
        select_spec(Seq::<CapRecord>::empty(), candidates, filter) is None,
    decreases candidates.len(),
{
    if candidates.len() == 0 {
    } else {
        lemma_select_empty(candidates.drop_first(), filter);
    }
}

} // verus!
