//! What a walk leaves behind, and a way to show that something holds of it
//! after every document.
//!
//! The ledger of a walk is what outlasts a record: the bands, the dates,
//! the station's callsign and locator. Three steps write to it while a
//! record is read, and the end of a record hands the record to its band.
//! What these keep, every walk keeps.

use crate::bands::BandModel;
use crate::converter::ConvertError;
use crate::model::{
    block_step, document_step, field_step, fold_nodes, header_field_step, header_step,
    lemma_fold_invariant, record_step, walked, WalkModel,
};
use crate::text::{trimmed, uppercased};
use crate::tree::{NodeKind, ParseNode};
use vstd::prelude::*;

verus! {

/// Whether two states of a walk agree on what a document leaves behind:
/// the bands, the dates, the station's callsign and locator, and whether
/// these two have been taken.
pub open spec fn same_ledger(a: WalkModel, b: WalkModel) -> bool {
    &&& a.bands == b.bands
    &&& a.dates == b.dates
    &&& a.pcall == b.pcall
    &&& a.pwwlo == b.pwwlo
    &&& a.station_callsign.captured == b.station_callsign.captured
    &&& a.my_square.captured == b.my_square.captured
}

/// Whether `inv` speaks of the ledger alone, and is kept by the three
/// steps that write to the ledger while a record is read.
pub open spec fn kept_within_records(inv: spec_fn(WalkModel) -> bool) -> bool {
    &&& forall|a: WalkModel, b: WalkModel| inv(a) && #[trigger] same_ledger(a, b) ==> inv(b)
    &&& forall|state: WalkModel, value: Seq<char>|
        inv(state) ==> inv(#[trigger] state.take_station_callsign(value))
    &&& forall|state: WalkModel, value: Seq<char>|
        inv(state) ==> inv(#[trigger] state.take_my_square(value))
    &&& forall|state: WalkModel, value: Seq<char>|
        inv(state) ==> (#[trigger] state.take_qso_date(value) matches Ok(next) ==> inv(next))
}

/// The steps that take a value for the record alone leave the ledger as it
/// is.
pub proof fn lemma_record_takes_keep_ledger(state: WalkModel, value: Seq<char>)
    ensures
        same_ledger(state, state.take_time(value)),
        same_ledger(state, state.take_band(value)),
        same_ledger(state, state.take_call(value)),
        same_ledger(state, state.take_mode(value)),
        same_ledger(state, state.take_rst_sent(value)),
        state.take_stx(value) matches Ok(next) ==> same_ledger(state, next),
        same_ledger(state, state.take_rst_rcvd(value)),
        state.take_srx(value) matches Ok(next) ==> same_ledger(state, next),
        same_ledger(state, state.take_gridsquare(value)),
{
    reveal(WalkModel::take_time);
    reveal(WalkModel::take_band);
    reveal(WalkModel::take_call);
    reveal(WalkModel::take_mode);
    reveal(WalkModel::take_rst_sent);
    reveal(WalkModel::take_stx);
    reveal(WalkModel::take_rst_rcvd);
    reveal(WalkModel::take_srx);
    reveal(WalkModel::take_gridsquare);
}

/// A value in a record keeps what the three ledger steps keep.
pub proof fn lemma_valued_keeps(inv: spec_fn(WalkModel) -> bool, state: WalkModel, value: Seq<char>)
    requires
        kept_within_records(inv),
        inv(state),
    ensures
        state.valued(value) matches Ok(next) ==> inv(next),
{
    let s1 = state.take_station_callsign(value);
    assert(inv(s1));
    if let Ok(s2) = s1.take_qso_date(value) {
        assert(inv(s2));
        let s3 = s2.take_time(value);
        lemma_record_takes_keep_ledger(s2, value);
        assert(same_ledger(s2, s3));
        let s4 = s3.take_band(value);
        lemma_record_takes_keep_ledger(s3, value);
        assert(same_ledger(s3, s4));
        let s5 = s4.take_call(value);
        lemma_record_takes_keep_ledger(s4, value);
        assert(same_ledger(s4, s5));
        let s6 = s5.take_mode(value);
        lemma_record_takes_keep_ledger(s5, value);
        assert(same_ledger(s5, s6));
        let s7 = s6.take_rst_sent(value);
        lemma_record_takes_keep_ledger(s6, value);
        assert(same_ledger(s6, s7));
        lemma_record_takes_keep_ledger(s7, value);
        if let Ok(s8) = s7.take_stx(value) {
            assert(same_ledger(s7, s8));
            let s9 = s8.take_rst_rcvd(value);
            lemma_record_takes_keep_ledger(s8, value);
            assert(same_ledger(s8, s9));
            lemma_record_takes_keep_ledger(s9, value);
            if let Ok(s10) = s9.take_srx(value) {
                assert(same_ledger(s9, s10));
                let s11 = s10.take_gridsquare(value);
                lemma_record_takes_keep_ledger(s10, value);
                assert(same_ledger(s10, s11));
                assert(inv(s11));
                let s12 = s11.take_my_square(value);
                assert(inv(s12));
                assert(state.valued(value) == Ok::<WalkModel, ConvertError>(s12));
            }
        }
    }
}

/// A child of a field of a record keeps what the three ledger steps keep.
pub proof fn lemma_field_child_keeps(
    inv: spec_fn(WalkModel) -> bool,
    state: WalkModel,
    node: ParseNode,
)
    requires
        kept_within_records(inv),
        inv(state),
    ensures
        state.field_child(node) matches Ok(next) ==> inv(next),
{
    match node.kind {
        NodeKind::FieldName => {
            assert(same_ledger(state, state.named(uppercased(node.text@))));
        },
        NodeKind::DataLength => {
            assert(same_ledger(state, state.measured(node.text@)));
        },
        NodeKind::Data => {
            lemma_valued_keeps(inv, state, trimmed(node.text@));
        },
        _ => {},
    }
}

/// A field of a record keeps what the three ledger steps keep.
pub proof fn lemma_field_keeps(inv: spec_fn(WalkModel) -> bool, state: WalkModel, node: ParseNode)
    requires
        kept_within_records(inv),
        inv(state),
    ensures
        state.field(node) matches Ok(next) ==> inv(next),
{
    assert forall|s: WalkModel, n: ParseNode| inv(s) implies (#[trigger] field_step()(s, n) matches Ok(
        next,
    ) ==> inv(next)) by {
        lemma_field_child_keeps(inv, s, n);
    }
    lemma_fold_invariant(node.children@, node.children@.len(), state, field_step(), inv);
}

/// The children of a record keep what the three ledger steps keep.
pub proof fn lemma_record_children_keep(
    inv: spec_fn(WalkModel) -> bool,
    state: WalkModel,
    node: ParseNode,
)
    requires
        kept_within_records(inv),
        inv(state),
    ensures
        fold_nodes(node.children@, node.children@.len(), state, record_step()) matches Ok(next)
            ==> inv(next),
{
    assert forall|s: WalkModel, n: ParseNode| inv(s) implies (#[trigger] record_step()(s, n) matches Ok(
        next,
    ) ==> inv(next)) by {
        lemma_field_keeps(inv, s, n);
    }
    lemma_fold_invariant(node.children@, node.children@.len(), state, record_step(), inv);
}

/// The header leaves the ledger as it is.
pub proof fn lemma_header_keeps_ledger(state: WalkModel, node: ParseNode)
    ensures
        state.header(node) matches Ok(next) ==> same_ledger(state, next),
{
    let inv = |s: WalkModel| same_ledger(state, s);
    assert forall|s: WalkModel, n: ParseNode| inv(s) implies (#[trigger] header_step()(s, n) matches Ok(
        next,
    ) ==> inv(next)) by {
        let inner = |t: WalkModel| same_ledger(s, t);
        assert forall|t: WalkModel, m: ParseNode| inner(t) implies (#[trigger] block_step()(
            t,
            m,
        ) matches Ok(next) ==> inner(next)) by {}
        lemma_fold_invariant(n.children@, n.children@.len(), s, block_step(), inner);
        assert forall|t: WalkModel, m: ParseNode| inner(t) implies (#[trigger] header_field_step()(
            t,
            m,
        ) matches Ok(next) ==> inner(next)) by {}
        lemma_fold_invariant(n.children@, n.children@.len(), s, header_field_step(), inner);
    }
    lemma_fold_invariant(node.children@, node.children@.len(), state, header_step(), inv);
}

/// What speaks of the ledger alone, holds at the start of a walk over
/// children of a document, and is kept by the three ledger steps and by the
/// end of a record, holds at the end of the walk.
pub proof fn lemma_children_keep(
    nodes: Seq<ParseNode>,
    count: nat,
    start: WalkModel,
    inv: spec_fn(WalkModel) -> bool,
)
    requires
        kept_within_records(inv),
        inv(start),
        forall|state: WalkModel| inv(state) ==> inv(#[trigger] state.end_record()),
    ensures
        fold_nodes(nodes, count, start, document_step()) matches Ok(end) ==> inv(end),
{
    assert forall|s: WalkModel, n: ParseNode| inv(s) implies (#[trigger] document_step()(s, n) matches Ok(
        next,
    ) ==> inv(next)) by {
        match n.kind {
            NodeKind::Header => {
                lemma_header_keeps_ledger(s, n);
            },
            NodeKind::Record => {
                assert(same_ledger(s, s.begin_record()));
                lemma_record_children_keep(inv, s.begin_record(), n);
            },
            _ => {},
        }
    }
    lemma_fold_invariant(nodes, count, start, document_step(), inv);
}

/// What speaks of the ledger alone, holds before the document, and is kept
/// by the three ledger steps and by the end of a record, holds after the
/// document.
pub proof fn lemma_walk_keeps(document: ParseNode, inv: spec_fn(WalkModel) -> bool)
    requires
        kept_within_records(inv),
        inv(WalkModel::start()),
        forall|state: WalkModel| inv(state) ==> inv(#[trigger] state.end_record()),
    ensures
        walked(document) matches Ok(end) ==> inv(end),
{
    lemma_children_keep(document.children@, document.children@.len(), WalkModel::start(), inv);
}

/// While a record is read, the bands stay as they are.
pub proof fn lemma_bands_kept_within_records(bands: Seq<BandModel>)
    ensures
        kept_within_records(|state: WalkModel| state.bands == bands),
{
    reveal(WalkModel::take_station_callsign);
    reveal(WalkModel::take_my_square);
    reveal(WalkModel::take_qso_date);
}

} // verus!
