//! How a value finds its tag: what the latches of a walk make of a field
//! that has a name, perhaps a length, and a value.

use crate::converter::ConvertError;
use crate::model::{fold_nodes, record_step, WalkModel};
use crate::tags::{record_tag, RecordTag};
use crate::text::{parse_unsigned, trimmed, uppercased};
use crate::tree::{NodeKind, ParseNode};
use crate::utils::FoundCaptured;
use vstd::prelude::*;

verus! {

/// The latch of a record tag.
pub open spec fn latch_of(state: WalkModel, tag: RecordTag) -> FoundCaptured {
    match tag {
        RecordTag::StationCallsign => state.station_callsign,
        RecordTag::QsoDate => state.latches.qso_date,
        RecordTag::TimeOn => state.latches.time,
        RecordTag::Band => state.latches.band,
        RecordTag::Call => state.latches.call,
        RecordTag::Mode => state.latches.mode,
        RecordTag::RstSent => state.latches.rst_sent,
        RecordTag::Stx => state.latches.stx,
        RecordTag::RstRcvd => state.latches.rst_rcvd,
        RecordTag::Srx => state.latches.srx,
        RecordTag::Gridsquare => state.latches.gridsquare,
        RecordTag::MyGridsquare => state.my_square,
    }
}

/// What becomes of the walk when a value is offered to the latch of one
/// tag.
pub open spec fn offered_to(state: WalkModel, tag: RecordTag, value: Seq<char>) -> Result<
    WalkModel,
    ConvertError,
> {
    match tag {
        RecordTag::StationCallsign => Ok(state.take_station_callsign(value)),
        RecordTag::QsoDate => state.take_qso_date(value),
        RecordTag::TimeOn => Ok(state.take_time(value)),
        RecordTag::Band => Ok(state.take_band(value)),
        RecordTag::Call => Ok(state.take_call(value)),
        RecordTag::Mode => Ok(state.take_mode(value)),
        RecordTag::RstSent => Ok(state.take_rst_sent(value)),
        RecordTag::Stx => state.take_stx(value),
        RecordTag::RstRcvd => Ok(state.take_rst_rcvd(value)),
        RecordTag::Srx => state.take_srx(value),
        RecordTag::Gridsquare => Ok(state.take_gridsquare(value)),
        RecordTag::MyGridsquare => Ok(state.take_my_square(value)),
    }
}

/// Whether no latch of a record tag waits for a value: each has seen
/// nothing, or has taken its value.
pub open spec fn settled(state: WalkModel) -> bool {
    forall|tag: RecordTag|
        (#[trigger] latch_of(state, tag)).found == latch_of(state, tag).captured
}

/// Whether a value offered to the latch of `tag` leaves the other latches
/// as they are, and the latch itself not waiting.
pub open spec fn touches_one_latch(state: WalkModel, tag: RecordTag, value: Seq<char>) -> bool {
    offered_to(state, tag, value) matches Ok(next) ==> {
        &&& latch_of(next, tag) == latch_of(state, tag).taken()
        &&& forall|other: RecordTag|
            other != tag ==> #[trigger] latch_of(next, other) == latch_of(state, other)
    }
}

/// Whether a field is made as the grammar makes it: a name, perhaps a
/// length, and a value.
pub open spec fn plain_field(node: ParseNode) -> bool {
    let parts = node.children@;
    ||| parts.len() == 2 && parts[0].kind == NodeKind::FieldName && parts[1].kind == NodeKind::Data
    ||| parts.len() == 3 && parts[0].kind == NodeKind::FieldName && parts[1].kind
        == NodeKind::DataLength && parts[2].kind == NodeKind::Data
}

/// The walk when the name of `tag` and the length of a plain field have
/// been read, and its value is next.
pub open spec fn before_value(state: WalkModel, node: ParseNode, tag: RecordTag) -> WalkModel {
    if node.children@.len() == 3 {
        state.marked(tag).measured(node.children@[1].text@)
    } else {
        state.marked(tag)
    }
}

/// A value offered to a latch that does not wait changes nothing.
pub proof fn lemma_offer_to_idle_latch(state: WalkModel, tag: RecordTag, value: Seq<char>)
    requires
        !latch_of(state, tag).ready(),
    ensures
        offered_to(state, tag, value) == Ok::<WalkModel, ConvertError>(state),
{
    reveal(WalkModel::take_station_callsign);
    reveal(WalkModel::take_my_square);
    reveal(WalkModel::take_qso_date);
    reveal(WalkModel::take_time);
    reveal(WalkModel::take_band);
    reveal(WalkModel::take_call);
    reveal(WalkModel::take_mode);
    reveal(WalkModel::take_rst_sent);
    reveal(WalkModel::take_stx);
    reveal(WalkModel::take_rst_rcvd);
    reveal(WalkModel::take_srx);
    reveal(WalkModel::take_gridsquare);
}

/// A value offered to a latch leaves the other latches as they are, and
/// the latch itself does not wait any more.
pub proof fn lemma_offer_touches_one_latch(state: WalkModel, tag: RecordTag, value: Seq<char>)
    ensures
        touches_one_latch(state, tag, value),
{
    match tag {
        RecordTag::StationCallsign => {
            reveal(WalkModel::take_station_callsign);
            assert(touches_one_latch(state, tag, value));
        },
        RecordTag::QsoDate => {
            reveal(WalkModel::take_qso_date);
            assert(touches_one_latch(state, tag, value));
        },
        RecordTag::TimeOn => {
            reveal(WalkModel::take_time);
            assert(touches_one_latch(state, tag, value));
        },
        RecordTag::Band => {
            reveal(WalkModel::take_band);
            assert(touches_one_latch(state, tag, value));
        },
        RecordTag::Call => {
            reveal(WalkModel::take_call);
            assert(touches_one_latch(state, tag, value));
        },
        RecordTag::Mode => {
            reveal(WalkModel::take_mode);
            assert(touches_one_latch(state, tag, value));
        },
        RecordTag::RstSent => {
            reveal(WalkModel::take_rst_sent);
            assert(touches_one_latch(state, tag, value));
        },
        RecordTag::Stx => {
            reveal(WalkModel::take_stx);
            assert(touches_one_latch(state, tag, value));
        },
        RecordTag::RstRcvd => {
            reveal(WalkModel::take_rst_rcvd);
            assert(touches_one_latch(state, tag, value));
        },
        RecordTag::Srx => {
            reveal(WalkModel::take_srx);
            assert(touches_one_latch(state, tag, value));
        },
        RecordTag::Gridsquare => {
            reveal(WalkModel::take_gridsquare);
            assert(touches_one_latch(state, tag, value));
        },
        RecordTag::MyGridsquare => {
            reveal(WalkModel::take_my_square);
            assert(touches_one_latch(state, tag, value));
        },
    }
}

/// A value in a record, where no latch but that of `tag` waits, is what
/// the value offered to `tag` alone gives: it goes to that tag if its latch
/// waits, and is lost if not.
pub proof fn lemma_value_for_one_tag(state: WalkModel, tag: RecordTag, value: Seq<char>)
    requires
        forall|other: RecordTag| other != tag ==> !(#[trigger] latch_of(state, other)).ready(),
    ensures
        state.valued(value) == offered_to(state, tag, value),
{
    if tag != RecordTag::StationCallsign {
        lemma_offer_to_idle_latch(state, RecordTag::StationCallsign, value);
    }
    if tag != RecordTag::QsoDate {
        lemma_offer_to_idle_latch(state, RecordTag::QsoDate, value);
    }
    if tag != RecordTag::TimeOn {
        lemma_offer_to_idle_latch(state, RecordTag::TimeOn, value);
    }
    if tag != RecordTag::Band {
        lemma_offer_to_idle_latch(state, RecordTag::Band, value);
    }
    if tag != RecordTag::Call {
        lemma_offer_to_idle_latch(state, RecordTag::Call, value);
    }
    if tag != RecordTag::Mode {
        lemma_offer_to_idle_latch(state, RecordTag::Mode, value);
    }
    if tag != RecordTag::RstSent {
        lemma_offer_to_idle_latch(state, RecordTag::RstSent, value);
    }
    if tag != RecordTag::Stx {
        lemma_offer_to_idle_latch(state, RecordTag::Stx, value);
    }
    if tag != RecordTag::RstRcvd {
        lemma_offer_to_idle_latch(state, RecordTag::RstRcvd, value);
    }
    if tag != RecordTag::Srx {
        lemma_offer_to_idle_latch(state, RecordTag::Srx, value);
    }
    if tag != RecordTag::Gridsquare {
        lemma_offer_to_idle_latch(state, RecordTag::Gridsquare, value);
    }
    if tag != RecordTag::MyGridsquare {
        lemma_offer_to_idle_latch(state, RecordTag::MyGridsquare, value);
    }
    lemma_offer_touches_one_latch(state, tag, value);
    if let Ok(after) = offered_to(state, tag, value) {
        assert forall|other: RecordTag| !(#[trigger] latch_of(after, other)).ready() by {
            if other != tag {
                assert(latch_of(after, other) == latch_of(state, other));
            }
        }
        lemma_offer_to_idle_latch(after, RecordTag::StationCallsign, value);
        lemma_offer_to_idle_latch(after, RecordTag::QsoDate, value);
        lemma_offer_to_idle_latch(after, RecordTag::TimeOn, value);
        lemma_offer_to_idle_latch(after, RecordTag::Band, value);
        lemma_offer_to_idle_latch(after, RecordTag::Call, value);
        lemma_offer_to_idle_latch(after, RecordTag::Mode, value);
        lemma_offer_to_idle_latch(after, RecordTag::RstSent, value);
        lemma_offer_to_idle_latch(after, RecordTag::Stx, value);
        lemma_offer_to_idle_latch(after, RecordTag::RstRcvd, value);
        lemma_offer_to_idle_latch(after, RecordTag::Srx, value);
        lemma_offer_to_idle_latch(after, RecordTag::Gridsquare, value);
        lemma_offer_to_idle_latch(after, RecordTag::MyGridsquare, value);
    }
}

/// The name of a tag sets the latch of that tag and no other.
pub proof fn lemma_marked_latches(state: WalkModel, tag: RecordTag)
    ensures
        latch_of(state.marked(tag), tag) == latch_of(state, tag).marked(),
        forall|other: RecordTag|
            other != tag ==> #[trigger] latch_of(state.marked(tag), other) == latch_of(state, other),
        latch_of(state, tag).found ==> state.marked(tag) == state,
{
}

/// A length is announced to every latch, and changes nothing where no
/// latch waits.
pub proof fn lemma_declared_latches(state: WalkModel, len: usize)
    ensures
        forall|tag: RecordTag| #[trigger]
            latch_of(state.declared(len), tag) == latch_of(state, tag).declared(len),
        (forall|tag: RecordTag| !(#[trigger] latch_of(state, tag)).ready()) ==> state.declared(len)
            == state,
{
    assert forall|tag: RecordTag| #[trigger]
        latch_of(state.declared(len), tag) == latch_of(state, tag).declared(len) by {}
    if forall|tag: RecordTag| !(#[trigger] latch_of(state, tag)).ready() {
        assert(!latch_of(state, RecordTag::StationCallsign).ready());
        assert(!latch_of(state, RecordTag::QsoDate).ready());
        assert(!latch_of(state, RecordTag::TimeOn).ready());
        assert(!latch_of(state, RecordTag::Band).ready());
        assert(!latch_of(state, RecordTag::Call).ready());
        assert(!latch_of(state, RecordTag::Mode).ready());
        assert(!latch_of(state, RecordTag::RstSent).ready());
        assert(!latch_of(state, RecordTag::Stx).ready());
        assert(!latch_of(state, RecordTag::RstRcvd).ready());
        assert(!latch_of(state, RecordTag::Srx).ready());
        assert(!latch_of(state, RecordTag::Gridsquare).ready());
        assert(!latch_of(state, RecordTag::MyGridsquare).ready());
        assert(state.latches.declared(len) == state.latches);
    }
}

/// Before the value of a plain field is read, the latch of its tag has
/// seen the name, and the other latches are as they were but for a length.
pub proof fn lemma_before_value(state: WalkModel, node: ParseNode, tag: RecordTag)
    requires
        settled(state),
    ensures
        latch_of(before_value(state, node, tag), tag).found,
        latch_of(before_value(state, node, tag), tag).captured == latch_of(state, tag).captured,
        forall|other: RecordTag|
            other != tag ==> !(#[trigger] latch_of(before_value(state, node, tag), other)).ready(),
        forall|other: RecordTag|
            other != tag ==> (#[trigger] latch_of(before_value(state, node, tag), other)).found
                == latch_of(before_value(state, node, tag), other).captured,
        latch_of(state, tag).captured ==> before_value(state, node, tag) == state,
{
    let marked = state.marked(tag);
    lemma_marked_latches(state, tag);
    assert forall|other: RecordTag| other != tag implies (#[trigger] latch_of(marked, other)).found
        == latch_of(marked, other).captured by {
        assert(latch_of(marked, other) == latch_of(state, other));
        assert(latch_of(state, other).found == latch_of(state, other).captured);
    }
    assert(latch_of(state, tag).found == latch_of(state, tag).captured);
    if node.children@.len() == 3 {
        match parse_unsigned(node.children@[1].text@, usize::MAX as nat) {
            Some(len) => {
                lemma_declared_latches(marked, len as usize);
                let armed = marked.declared(len as usize);
                assert(latch_of(armed, tag) == latch_of(marked, tag).declared(len as usize));
                assert forall|other: RecordTag| other != tag implies !(#[trigger] latch_of(
                    armed,
                    other,
                )).ready() && latch_of(armed, other).found == latch_of(armed, other).captured by {
                    assert(latch_of(armed, other) == latch_of(marked, other).declared(len as usize));
                    assert(latch_of(marked, other).found == latch_of(marked, other).captured);
                }
                if latch_of(state, tag).captured {
                    assert(marked == state);
                    assert forall|any: RecordTag| !(#[trigger] latch_of(state, any)).ready() by {
                        assert(latch_of(state, any).found == latch_of(state, any).captured);
                    }
                }
            },
            None => {},
        }
    }
}

/// What a plain field does where no latch waits: its value, trimmed, goes
/// to the tag that its name stands for in upper case, and to no other. A
/// name that is no record tag, or the tag of a value already taken in this
/// scope, makes the field change nothing. After the field no latch waits.
pub proof fn lemma_plain_field(state: WalkModel, node: ParseNode)
    requires
        settled(state),
        plain_field(node),
    ensures
        state.field(node) == (match record_tag(uppercased(node.children@[0].text@)) {
            Some(tag) => if latch_of(state, tag).captured {
                Ok(state)
            } else {
                offered_to(before_value(state, node, tag), tag, trimmed(node.children@.last().text@))
            },
            None => Ok(state),
        }),
        state.field(node) matches Ok(next) ==> settled(next),
{
    let parts = node.children@;
    let value = trimmed(parts.last().text@);
    assert forall|tag: RecordTag| !(#[trigger] latch_of(state, tag)).ready() by {
        assert(latch_of(state, tag).found == latch_of(state, tag).captured);
    }
    match record_tag(uppercased(parts[0].text@)) {
        Some(tag) => {
            let armed = before_value(state, node, tag);
            lemma_before_value(state, node, tag);
            assert(state.field(node) == armed.valued(value)) by {
                reveal_with_fuel(fold_nodes, 4);
            }
            lemma_value_for_one_tag(armed, tag, value);
            lemma_offer_touches_one_latch(armed, tag, value);
            if latch_of(state, tag).captured {
                lemma_offer_to_idle_latch(state, tag, value);
            } else if let Ok(next) = offered_to(armed, tag, value) {
                assert forall|other: RecordTag|
                    (#[trigger] latch_of(next, other)).found == latch_of(
                        next,
                        other,
                    ).captured by {
                    if other != tag {
                        assert(latch_of(next, other) == latch_of(armed, other));
                    }
                }
            }
        },
        None => {
            if parts.len() == 3 {
                match parse_unsigned(parts[1].text@, usize::MAX as nat) {
                    Some(len) => {
                        lemma_declared_latches(state, len as usize);
                    },
                    None => {},
                }
                assert(state.measured(parts[1].text@) == state);
            }
            assert(state.field(node) == state.valued(value)) by {
                reveal_with_fuel(fold_nodes, 4);
            }
            lemma_value_for_one_tag(state, RecordTag::Call, value);
            lemma_offer_to_idle_latch(state, RecordTag::Call, value);
        },
    }
}

/// The tag that the name of a plain field stands for, if any.
pub open spec fn tag_of_field(node: ParseNode) -> Option<RecordTag> {
    record_tag(uppercased(node.children@[0].text@))
}

/// Whether one of the first `count` of `fields` has the tag `tag`.
pub open spec fn tag_among(fields: Seq<ParseNode>, count: nat, tag: RecordTag) -> bool {
    exists|i: int| 0 <= i < count && #[trigger] tag_of_field(fields[i]) == Some(tag)
}

/// The first field of a tag wins. After plain fields, read from a state in
/// which no latch waits, a tag has taken a value exactly if it had taken
/// one before or one of the fields has the tag; and no latch waits. So a
/// field gives its value to its tag exactly if no field before it in the
/// same scope has the same tag.
pub proof fn lemma_first_field_wins(state: WalkModel, fields: Seq<ParseNode>, count: nat)
    requires
        settled(state),
        count <= fields.len(),
        forall|i: int|
            0 <= i < count ==> (#[trigger] fields[i]).kind == NodeKind::Field && plain_field(
                fields[i],
            ),
    ensures
        fold_nodes(fields, count, state, record_step()) matches Ok(after) ==> {
            &&& settled(after)
            &&& forall|tag: RecordTag|
                (#[trigger] latch_of(after, tag)).captured == (latch_of(state, tag).captured
                    || tag_among(fields, count, tag))
        },
    decreases count,
{
    if count == 0 {
        assert forall|tag: RecordTag| !tag_among(fields, 0, tag) by {}
    } else {
        let fewer = (count - 1) as nat;
        lemma_first_field_wins(state, fields, fewer);
        if let Ok(before) = fold_nodes(fields, fewer, state, record_step()) {
            let node = fields[count - 1];
            assert(node.kind == NodeKind::Field && plain_field(node));
            lemma_plain_field(before, node);
            if let Ok(after) = before.field(node) {
                assert forall|tag: RecordTag|
                    (#[trigger] latch_of(after, tag)).captured == (latch_of(state, tag).captured
                        || tag_among(fields, count, tag)) by {
                    assert(latch_of(before, tag).captured == (latch_of(state, tag).captured
                        || tag_among(fields, fewer, tag)));
                    if tag_among(fields, fewer, tag) {
                        let i = choose|i: int|
                            0 <= i < fewer && #[trigger] tag_of_field(fields[i]) == Some(tag);
                        assert(0 <= i < count && tag_of_field(fields[i]) == Some(tag));
                    }
                    if tag_among(fields, count, tag) && !tag_among(fields, fewer, tag) {
                        let i = choose|i: int|
                            0 <= i < count && #[trigger] tag_of_field(fields[i]) == Some(tag);
                        assert(i == count - 1);
                    }
                    match tag_of_field(node) {
                        Some(named) => {
                            if !latch_of(before, named).captured {
                                let armed = before_value(before, node, named);
                                let value = trimmed(node.children@.last().text@);
                                lemma_before_value(before, node, named);
                                lemma_offer_touches_one_latch(armed, named, value);
                                if tag != named {
                                    assert(latch_of(after, tag) == latch_of(armed, tag));
                                    lemma_latches_before_value(before, node, named, tag);
                                }
                            }
                            if tag == named {
                                assert(tag_of_field(fields[count - 1]) == Some(tag));
                            }
                        },
                        None => {},
                    }
                }
            }
        }
    }
}

/// Before the value of a plain field is read, the latches of the other
/// tags have taken what they had taken.
proof fn lemma_latches_before_value(
    state: WalkModel,
    node: ParseNode,
    tag: RecordTag,
    other: RecordTag,
)
    requires
        other != tag,
    ensures
        latch_of(before_value(state, node, tag), other).captured == latch_of(state, other).captured,
{
    let marked = state.marked(tag);
    lemma_marked_latches(state, tag);
    assert(latch_of(marked, other) == latch_of(state, other));
    if node.children@.len() == 3 {
        match parse_unsigned(node.children@[1].text@, usize::MAX as nat) {
            Some(len) => {
                lemma_declared_latches(marked, len as usize);
                assert(latch_of(marked.declared(len as usize), other) == latch_of(
                    marked,
                    other,
                ).declared(len as usize));
            },
            None => {},
        }
    }
}

} // verus!
