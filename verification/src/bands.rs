//! How contacts are gathered band by band.

use crate::reg1test::{HeaderModel, RecordModel, RecordsModel};
use vstd::prelude::*;

verus! {

/// One band with its header and its records.
pub struct BandModel {
    pub header: HeaderModel,
    pub records: RecordsModel,
}

impl BandModel {
    /// The band with one more record at its end.
    pub open spec fn with_record(self, record: RecordModel) -> BandModel {
        BandModel { header: self.header, records: self.records.with_record(record) }
    }

    /// The band with another date range in its header.
    pub open spec fn with_dates(self, tdate: Seq<char>) -> BandModel {
        BandModel { header: HeaderModel { tdate, ..self.header }, records: self.records }
    }
}

/// The place of the first band labelled `label`; the number of bands when
/// there is none.
pub open spec fn band_index(bands: Seq<BandModel>, label: Seq<char>) -> nat
    decreases bands.len(),
{
    if bands.len() == 0 {
        0
    } else if bands[0].header.pband == label {
        0
    } else {
        1 + band_index(bands.skip(1), label)
    }
}

/// The bands after a record has been added: to the first band with the
/// label of `header`, or else to a new band at the end that gets `header`.
pub open spec fn routed(bands: Seq<BandModel>, header: HeaderModel, record: RecordModel) -> Seq<
    BandModel,
> {
    let place = band_index(bands, header.pband) as int;
    if place < bands.len() {
        bands.update(place, bands[place].with_record(record))
    } else {
        bands.push(BandModel { header, records: RecordsModel::fresh().with_record(record) })
    }
}

/// The bands with the date range `tdate` in each header.
pub open spec fn stamped(bands: Seq<BandModel>, tdate: Seq<char>) -> Seq<BandModel> {
    Seq::new(bands.len(), |i: int| bands[i].with_dates(tdate))
}

/// The number of records that the bands hold together.
pub open spec fn total_count(bands: Seq<BandModel>) -> nat
    decreases bands.len(),
{
    if bands.len() == 0 {
        0
    } else {
        total_count(bands.drop_last()) + bands.last().records.count
    }
}

/// Whether every band holds as many records as its count says, and at
/// least one.
pub open spec fn bands_filled(bands: Seq<BandModel>) -> bool {
    forall|i: int|
        0 <= i < bands.len() ==> (#[trigger] bands[i]).records.wf() && bands[i].records.count >= 1
}

/// Whether no two bands have the same label.
pub open spec fn labels_distinct(bands: Seq<BandModel>) -> bool {
    forall|i: int, j: int|
        0 <= i < j < bands.len() ==> (#[trigger] bands[i]).header.pband
            != (#[trigger] bands[j]).header.pband
}

/// The first band labelled `label` is the one at `place` when no band before
/// it has that label; without such a band, `place` is the number of bands.
pub proof fn lemma_band_index(bands: Seq<BandModel>, label: Seq<char>, place: int)
    requires
        0 <= place <= bands.len(),
        forall|i: int| 0 <= i < place ==> (#[trigger] bands[i]).header.pband != label,
        place < bands.len() ==> bands[place].header.pband == label,
    ensures
        band_index(bands, label) == place,
    decreases place,
{
    if place > 0 {
        let rest = bands.skip(1);
        assert forall|i: int| 0 <= i < place - 1 implies (#[trigger] rest[i]).header.pband
            != label by {
            assert(rest[i] == bands[i + 1]);
        }
        lemma_band_index(rest, label, place - 1);
    }
}

/// Whether `after` holds every band of `before` in its place, under the
/// same header, and with all its records in front of those that came
/// later.
pub open spec fn grown_from(after: Seq<BandModel>, before: Seq<BandModel>) -> bool {
    &&& before.len() <= after.len()
    &&& forall|i: int|
        0 <= i < before.len() ==> {
            let old_records = (#[trigger] before[i]).records.qso_records;
            let new_records = after[i].records.qso_records;
            &&& after[i].header == before[i].header
            &&& old_records.len() <= new_records.len()
            &&& new_records.take(old_records.len() as int) == old_records
        }
}

/// No band before the place that [`band_index`] gives is labelled `label`,
/// and the band at that place, if there is one, is.
pub proof fn lemma_band_index_shape(bands: Seq<BandModel>, label: Seq<char>)
    ensures
        band_index(bands, label) <= bands.len(),
        forall|i: int|
            0 <= i < band_index(bands, label) ==> (#[trigger] bands[i]).header.pband != label,
        band_index(bands, label) < bands.len() ==> bands[band_index(bands, label) as int].header.pband
            == label,
    decreases bands.len(),
{
    if bands.len() > 0 && bands[0].header.pband != label {
        let rest = bands.skip(1);
        lemma_band_index_shape(rest, label);
        assert forall|i: int| 0 <= i < band_index(bands, label) implies (#[trigger] bands[i]).header.pband
            != label by {
            if i > 0 {
                assert(bands[i] == rest[i - 1]);
            }
        }
        if band_index(bands, label) < bands.len() {
            assert(bands[band_index(bands, label) as int] == rest[band_index(rest, label) as int]);
        }
    }
}

/// A band more adds its count to the total.
pub proof fn lemma_total_count_push(bands: Seq<BandModel>, band: BandModel)
    ensures
        total_count(bands.push(band)) == total_count(bands) + band.records.count,
{
    assert(bands.push(band).drop_last() =~= bands);
}

/// A band put in the place of another changes the total by the difference
/// of their counts.
pub proof fn lemma_total_count_update(bands: Seq<BandModel>, place: int, band: BandModel)
    requires
        0 <= place < bands.len(),
    ensures
        total_count(bands.update(place, band)) == total_count(bands) - bands[place].records.count
            + band.records.count,
    decreases bands.len(),
{
    let changed = bands.update(place, band);
    if place == bands.len() - 1 {
        assert(changed.drop_last() =~= bands.drop_last());
    } else {
        lemma_total_count_update(bands.drop_last(), place, band);
        assert(changed.drop_last() =~= bands.drop_last().update(place, band));
    }
}

/// The date range in the headers has no part in the total.
pub proof fn lemma_total_count_stamped(bands: Seq<BandModel>, tdate: Seq<char>)
    ensures
        total_count(stamped(bands, tdate)) == total_count(bands),
    decreases bands.len(),
{
    if bands.len() > 0 {
        lemma_total_count_stamped(bands.drop_last(), tdate);
        assert(stamped(bands, tdate).drop_last() =~= stamped(bands.drop_last(), tdate));
    }
}

/// A record handed to the bands raises the total by one.
pub proof fn lemma_routed_adds_one(bands: Seq<BandModel>, header: HeaderModel, record: RecordModel)
    ensures
        total_count(routed(bands, header, record)) == total_count(bands) + 1,
{
    let place = band_index(bands, header.pband) as int;
    if place < bands.len() {
        lemma_total_count_update(bands, place, bands[place].with_record(record));
    } else {
        lemma_total_count_push(
            bands,
            BandModel { header, records: RecordsModel::fresh().with_record(record) },
        );
    }
}

/// A record handed to the bands is the last record of the first band with
/// its label, and the bands stay filled and their labels distinct.
pub proof fn lemma_routed(bands: Seq<BandModel>, header: HeaderModel, record: RecordModel)
    requires
        bands_filled(bands),
        labels_distinct(bands),
    ensures
        bands_filled(routed(bands, header, record)),
        labels_distinct(routed(bands, header, record)),
        band_index(routed(bands, header, record), header.pband) == band_index(bands, header.pband),
        band_index(bands, header.pband) < routed(bands, header, record).len(),
        routed(bands, header, record)[band_index(bands, header.pband) as int].header.pband
            == header.pband,
        routed(bands, header, record)[band_index(
            bands,
            header.pband,
        ) as int].records.qso_records.last() == record,
{
    let after = routed(bands, header, record);
    let place = band_index(bands, header.pband) as int;
    lemma_band_index_shape(bands, header.pband);
    assert forall|i: int| 0 <= i < place implies (#[trigger] after[i]).header.pband
        != header.pband by {
        assert(after[i].header == bands[i].header);
    }
    lemma_band_index(after, header.pband, place);
    assert forall|i: int, j: int| 0 <= i < j < after.len() implies (#[trigger] after[i]).header.pband
        != (#[trigger] after[j]).header.pband by {
        if j < bands.len() {
            assert(after[i].header == bands[i].header);
            assert(after[j].header == bands[j].header);
        } else {
            assert(after[i].header == bands[i].header);
        }
    }
    assert forall|i: int| 0 <= i < after.len() implies (#[trigger] after[i]).records.wf()
        && after[i].records.count >= 1 by {
        if i < bands.len() && i != place {
            assert(after[i] == bands[i]);
        }
    }
}

/// A record handed to the bands leaves every band in its place, under its
/// header, and puts no record in front of another.
pub proof fn lemma_routed_grows(bands: Seq<BandModel>, header: HeaderModel, record: RecordModel)
    ensures
        grown_from(routed(bands, header, record), bands),
{
    let after = routed(bands, header, record);
    lemma_band_index_shape(bands, header.pband);
    assert forall|i: int| 0 <= i < bands.len() implies {
        let old_records = (#[trigger] bands[i]).records.qso_records;
        let new_records = after[i].records.qso_records;
        &&& after[i].header == bands[i].header
        &&& old_records.len() <= new_records.len()
        &&& new_records.take(old_records.len() as int) == old_records
    } by {
        let old_records = bands[i].records.qso_records;
        let new_records = after[i].records.qso_records;
        assert(new_records.take(old_records.len() as int) =~= old_records);
    }
}

/// Bands that have grown from bands that had grown before have grown from
/// the first.
pub proof fn lemma_grown_from_twice(
    last: Seq<BandModel>,
    middle: Seq<BandModel>,
    first: Seq<BandModel>,
)
    requires
        grown_from(last, middle),
        grown_from(middle, first),
    ensures
        grown_from(last, first),
{
    assert forall|i: int| 0 <= i < first.len() implies {
        let old_records = (#[trigger] first[i]).records.qso_records;
        let new_records = last[i].records.qso_records;
        &&& last[i].header == first[i].header
        &&& old_records.len() <= new_records.len()
        &&& new_records.take(old_records.len() as int) == old_records
    } by {
        let a = first[i].records.qso_records;
        let b = middle[i].records.qso_records;
        let c = last[i].records.qso_records;
        assert(b.take(a.len() as int) == a);
        assert(c.take(b.len() as int) == b);
        assert(c.take(a.len() as int) =~= b.take(a.len() as int));
    }
}

} // verus!
