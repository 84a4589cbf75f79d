//! What holds of every conversion.
//!
//! - Every record node is counted in exactly one band
//!   ([`lemma_counts_add_up`]).
//! - Every band carries the date range of the whole document, which is the
//!   earliest and the latest contact date ([`lemma_date_range`]).
//! - Bands have distinct labels and at least one record each
//!   ([`lemma_bands_filled_and_distinct`]).
//! - The station's callsign and locator are taken once
//!   ([`lemma_station_agrees`]), and nothing that a walk has left behind is
//!   taken back ([`lemma_walk_takes_nothing_back`]).
//! - The same document gives the same outcome
//!   ([`lemma_same_document_same_outcome`]).

use crate::bands::{
    bands_filled, grown_from, labels_distinct, lemma_grown_from_twice, lemma_routed,
    lemma_routed_adds_one, lemma_routed_grows, lemma_total_count_stamped, total_count, BandModel,
};
use crate::converter::{converts_to, ConvertError};
use crate::dates::lemma_observed_wf;
use crate::ledger::{
    kept_within_records, lemma_bands_kept_within_records, lemma_children_keep,
    lemma_header_keeps_ledger, lemma_record_children_keep, lemma_walk_keeps, same_ledger,
};
use crate::model::{document_step, fold_nodes, lemma_fold_split, record_step, walked, WalkModel};
use crate::text::parse_unsigned;
use crate::tree::{NodeKind, ParseNode};
use vstd::prelude::*;

verus! {

/// The number of record nodes among the first `count` of `nodes`.
pub open spec fn record_nodes(nodes: Seq<ParseNode>, count: nat) -> nat
    decreases count,
{
    if count == 0 {
        0
    } else {
        record_nodes(nodes, (count - 1) as nat) + if nodes[count - 1].kind == NodeKind::Record {
            1nat
        } else {
            0nat
        }
    }
}

/// After the first `count` children of a document, the bands hold as many
/// records as there were record nodes among those children.
pub proof fn lemma_counts_add_up_so_far(nodes: Seq<ParseNode>, count: nat)
    ensures
        fold_nodes(nodes, count, WalkModel::start(), document_step()) matches Ok(state)
            ==> total_count(state.bands) == record_nodes(nodes, count),
    decreases count,
{
    if count > 0 {
        lemma_counts_add_up_so_far(nodes, (count - 1) as nat);
        if let Ok(before) = fold_nodes(
            nodes,
            (count - 1) as nat,
            WalkModel::start(),
            document_step(),
        ) {
            let node = nodes[count - 1];
            match node.kind {
                NodeKind::Header => {
                    lemma_header_keeps_ledger(before, node);
                },
                NodeKind::Record => {
                    let inv = |state: WalkModel| state.bands == before.bands;
                    lemma_bands_kept_within_records(before.bands);
                    lemma_record_children_keep(inv, before.begin_record(), node);
                    if let Ok(read) = fold_nodes(
                        node.children@,
                        node.children@.len(),
                        before.begin_record(),
                        record_step(),
                    ) {
                        lemma_routed_adds_one(read.bands, read.band_header(), read.record);
                    }
                },
                _ => {},
            }
        }
    }
}

/// Every record node of a document that converts is counted in exactly one
/// band: the counts of the bands add up to the number of record nodes.
pub proof fn lemma_counts_add_up(document: ParseNode)
    ensures
        walked(document) matches Ok(end) ==> total_count(end.finished().bands) == record_nodes(
            document.children@,
            document.children@.len(),
        ),
{
    lemma_counts_add_up_so_far(document.children@, document.children@.len());
    if let Ok(end) = walked(document) {
        lemma_total_count_stamped(end.bands, end.dates.text());
    }
}

/// After a document that converts, the two ends of the date range are
/// what the contact dates of the document make them.
pub proof fn lemma_dates_wf(document: ParseNode)
    ensures
        walked(document) matches Ok(end) ==> end.dates.wf(),
{
    let inv = |state: WalkModel| state.dates.wf();
    assert(kept_within_records(inv)) by {
        reveal(WalkModel::take_station_callsign);
        reveal(WalkModel::take_my_square);
        assert forall|state: WalkModel, value: Seq<char>| inv(state) implies (
        #[trigger] state.take_qso_date(value) matches Ok(next) ==> inv(next)) by {
            reveal(WalkModel::take_qso_date);
            if let Some(date) = parse_unsigned(value, u32::MAX as nat) {
                lemma_observed_wf(state.dates, date as u32, value);
            }
        }
    }
    lemma_walk_keeps(document, inv);
}

/// The date range of a document that converts.
///
/// Every band carries the same range. Without any contact date it is a
/// lone semicolon. With a date before the start of the search for the
/// earliest (99991231), and one after the start of the search for the
/// latest (0), it is the earliest of all dates and the latest of all dates,
/// each in the spelling of the first contact that has it.
pub proof fn lemma_date_range(document: ParseNode)
    ensures
        walked(document) matches Ok(end) ==> {
            let dates = end.dates;
            let bands = end.finished().bands;
            &&& forall|i: int|
                0 <= i < bands.len() ==> (#[trigger] bands[i]).header.tdate == dates.text()
            &&& dates.seen.len() == 0 ==> dates.text() == seq![';']
            &&& !dates.none_early() && !dates.none_late() ==> exists|first: int, last: int|
                #![trigger dates.seen[first], dates.seen[last]]
                dates.earliest_at(first) && dates.latest_at(last) && dates.text()
                    == dates.seen[first].text.push(';') + dates.seen[last].text
        },
{
    lemma_dates_wf(document);
    if let Ok(end) = walked(document) {
        let dates = end.dates;
        if dates.seen.len() == 0 {
            assert(dates.text() =~= seq![';']);
        }
        if !dates.none_early() && !dates.none_late() {
            let first = choose|place: int|
                #![trigger dates.seen[place]]
                dates.earliest_at(place) && dates.min_date == dates.seen[place].value
                    && dates.min_text == dates.seen[place].text;
            let last = choose|place: int|
                #![trigger dates.seen[place]]
                dates.latest_at(place) && dates.max_date == dates.seen[place].value
                    && dates.max_text == dates.seen[place].text;
            assert(dates.earliest_at(first) && dates.latest_at(last) && dates.text()
                == dates.seen[first].text.push(';') + dates.seen[last].text);
        }
    }
}

/// In a document that converts, every band holds as many records as its
/// count says and at least one, and no two bands have the same label.
pub proof fn lemma_bands_filled_and_distinct(document: ParseNode)
    ensures
        walked(document) matches Ok(end) ==> bands_filled(end.finished().bands) && labels_distinct(
            end.finished().bands,
        ),
{
    let inv = |state: WalkModel| bands_filled(state.bands) && labels_distinct(state.bands);
    assert(kept_within_records(inv)) by {
        reveal(WalkModel::take_station_callsign);
        reveal(WalkModel::take_my_square);
        reveal(WalkModel::take_qso_date);
    }
    assert forall|state: WalkModel| inv(state) implies inv(#[trigger] state.end_record()) by {
        lemma_routed(state.bands, state.band_header(), state.record);
    }
    lemma_walk_keeps(document, inv);
}

/// Whether every band has the station's callsign and locator as the walk
/// knows them, or had none yet when it was opened.
pub open spec fn station_agrees(state: WalkModel) -> bool {
    &&& !state.station_callsign.captured ==> state.pcall.len() == 0
    &&& !state.my_square.captured ==> state.pwwlo.len() == 0
    &&& forall|i: int|
        0 <= i < state.bands.len() ==> {
            let header = (#[trigger] state.bands[i]).header;
            &&& header.pcall.len() == 0 || header.pcall == state.pcall
            &&& header.pwwlo.len() == 0 || header.pwwlo == state.pwwlo
        }
    &&& station_settles(state.bands)
}

/// Whether a band has the callsign of every band before it that has one,
/// and so for the locator: bands differ in them only where the earlier band
/// has none.
pub open spec fn station_settles(bands: Seq<BandModel>) -> bool {
    forall|i: int, j: int|
        0 <= i < j < bands.len() ==> {
            let earlier = (#[trigger] bands[i]).header;
            let later = (#[trigger] bands[j]).header;
            &&& earlier.pcall.len() == 0 || later.pcall == earlier.pcall
            &&& earlier.pwwlo.len() == 0 || later.pwwlo == earlier.pwwlo
        }
}

/// The station's callsign and locator are taken once, from the first
/// contact that gives them. In a document that converts, every band has
/// the callsign that the document ends with, or none because the band was
/// opened before the callsign was met; and two bands differ in their
/// callsign only where the earlier one has none. The same holds of the
/// locator.
pub proof fn lemma_station_agrees(document: ParseNode)
    ensures
        walked(document) matches Ok(end) ==> {
            let bands = end.finished().bands;
            &&& forall|i: int|
                0 <= i < bands.len() ==> {
                    let header = (#[trigger] bands[i]).header;
                    &&& header.pcall.len() == 0 || header.pcall == end.pcall
                    &&& header.pwwlo.len() == 0 || header.pwwlo == end.pwwlo
                }
            &&& station_settles(bands)
        },
{
    let inv = |state: WalkModel| station_agrees(state);
    assert(kept_within_records(inv)) by {
        reveal(WalkModel::take_station_callsign);
        reveal(WalkModel::take_my_square);
        reveal(WalkModel::take_qso_date);
        assert forall|a: WalkModel, b: WalkModel| inv(a) && #[trigger] same_ledger(a, b) implies inv(
            b,
        ) by {}
        assert forall|state: WalkModel, value: Seq<char>| inv(state) implies inv(
            #[trigger] state.take_station_callsign(value),
        ) by {
            let next = state.take_station_callsign(value);
            assert forall|i: int| 0 <= i < next.bands.len() implies {
                let header = (#[trigger] next.bands[i]).header;
                &&& header.pcall.len() == 0 || header.pcall == next.pcall
                &&& header.pwwlo.len() == 0 || header.pwwlo == next.pwwlo
            } by {
                assert(next.bands[i] == state.bands[i]);
            }
        }
        assert forall|state: WalkModel, value: Seq<char>| inv(state) implies inv(
            #[trigger] state.take_my_square(value),
        ) by {
            let next = state.take_my_square(value);
            assert forall|i: int| 0 <= i < next.bands.len() implies {
                let header = (#[trigger] next.bands[i]).header;
                &&& header.pcall.len() == 0 || header.pcall == next.pcall
                &&& header.pwwlo.len() == 0 || header.pwwlo == next.pwwlo
            } by {
                assert(next.bands[i] == state.bands[i]);
            }
        }
    }
    assert forall|state: WalkModel| inv(state) implies inv(#[trigger] state.end_record()) by {
        let next = state.end_record();
        assert forall|i: int| 0 <= i < next.bands.len() implies {
            let header = (#[trigger] next.bands[i]).header;
            &&& header.pcall.len() == 0 || header.pcall == next.pcall
            &&& header.pwwlo.len() == 0 || header.pwwlo == next.pwwlo
        } by {
            if i < state.bands.len() {
                assert(next.bands[i].header == state.bands[i].header);
            }
        }
        assert forall|i: int, j: int| 0 <= i < j < next.bands.len() implies {
            let earlier = (#[trigger] next.bands[i]).header;
            let later = (#[trigger] next.bands[j]).header;
            &&& earlier.pcall.len() == 0 || later.pcall == earlier.pcall
            &&& earlier.pwwlo.len() == 0 || later.pwwlo == earlier.pwwlo
        } by {
            assert(next.bands[i].header == state.bands[i].header);
            if j < state.bands.len() {
                assert(next.bands[j].header == state.bands[j].header);
            }
        }
    }
    lemma_walk_keeps(document, inv);
    if let Ok(end) = walked(document) {
        assert(station_agrees(end));
        let bands = end.finished().bands;
        assert forall|i: int| 0 <= i < bands.len() implies (#[trigger] bands[i]).header.pcall
            == end.bands[i].header.pcall && bands[i].header.pwwlo == end.bands[i].header.pwwlo by {
            assert(bands[i] == end.bands[i].with_dates(end.dates.text()));
        }
    }
}

/// Whether `later` keeps what `earlier` has left behind: every band in its
/// place with its records in front, and the station's callsign and locator
/// if they had been taken.
pub open spec fn keeps_what_was_left(later: WalkModel, earlier: WalkModel) -> bool {
    &&& grown_from(later.bands, earlier.bands)
    &&& earlier.station_callsign.captured ==> later.station_callsign.captured && later.pcall
        == earlier.pcall
    &&& earlier.my_square.captured ==> later.my_square.captured && later.pwwlo == earlier.pwwlo
}

/// A walk takes nothing back. Whatever stands after the first `upto`
/// children of a document still stands at its end: the bands keep their
/// places, their headers, and their records in the order of the document;
/// and the station's callsign and locator, once taken, are not taken
/// again.
pub proof fn lemma_walk_takes_nothing_back(document: ParseNode, upto: nat)
    requires
        upto <= document.children@.len(),
    ensures
        fold_nodes(document.children@, upto, WalkModel::start(), document_step()) matches Ok(
            middle,
        ) ==> (walked(document) matches Ok(end) ==> keeps_what_was_left(end, middle)),
{
    let nodes = document.children@;
    if let Ok(middle) = fold_nodes(nodes, upto, WalkModel::start(), document_step()) {
        let inv = |state: WalkModel| keeps_what_was_left(state, middle);
        assert(kept_within_records(inv)) by {
            reveal(WalkModel::take_station_callsign);
            reveal(WalkModel::take_my_square);
            reveal(WalkModel::take_qso_date);
        }
        assert forall|state: WalkModel| inv(state) implies inv(#[trigger] state.end_record()) by {
            lemma_routed_grows(state.bands, state.band_header(), state.record);
            lemma_grown_from_twice(state.end_record().bands, state.bands, middle.bands);
        }
        assert(inv(middle)) by {
            assert forall|i: int| 0 <= i < middle.bands.len() implies {
                let records = (#[trigger] middle.bands[i]).records.qso_records;
                records.take(records.len() as int) == records
            } by {
                let records = middle.bands[i].records.qso_records;
                assert(records.take(records.len() as int) =~= records);
            }
        }
        lemma_children_keep(nodes.skip(upto as int), (nodes.len() - upto) as nat, middle, inv);
        lemma_fold_split(nodes, upto, nodes.len(), WalkModel::start(), document_step());
    }
}

/// Converting the same document twice gives the same outcome: the same
/// text, character by character, or the same error.
pub proof fn lemma_same_document_same_outcome(
    document: ParseNode,
    skip_remarks: bool,
    first: Result<String, ConvertError>,
    second: Result<String, ConvertError>,
)
    requires
        converts_to(document, skip_remarks, first),
        converts_to(document, skip_remarks, second),
    ensures
        match (first, second) {
            (Ok(a), Ok(b)) => a@ == b@,
            (Err(a), Err(b)) => a == b,
            _ => false,
        },
{
}

} // verus!
