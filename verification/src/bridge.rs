//! The mapping between the foreign list and the owned one, stated over
//! their models: what a foreign pair decodes to, and what an owned pair is
//! encoded as.
use crate::error::Error;
use crate::foreign::{boolean_t, data_type_t, first_hit, NvListModel, NvPairModel, EINVAL};
use crate::list::{ListModel, Uniqueness};
use crate::value::{PairModel, ValueModel};
use std::str::Utf8Error;
use vstd::prelude::*;
use vstd::string::StringSliceAdditionalSpecFns;
use vstd::utf8::{decode_utf8, encode_utf8, valid_utf8};

verus! {

/// The native boolean that a foreign boolean stands for.
pub open spec fn native_bool(b: boolean_t) -> bool {
    b == boolean_t::B_TRUE
}

/// The foreign boolean that stands for a native one.
pub open spec fn foreign_bool(b: bool) -> boolean_t {
    if b {
        boolean_t::B_TRUE
    } else {
        boolean_t::B_FALSE
    }
}

/// The value that a foreign pair holds, or why it holds none.
pub open spec fn decode_value(pair: NvPairModel) -> Result<ValueModel, Error> {
    match pair.tag {
        data_type_t::DATA_TYPE_BOOLEAN => Ok(ValueModel::Boolean),
        data_type_t::DATA_TYPE_BOOLEAN_VALUE => if pair.holds_boolean_value() {
            Ok(ValueModel::BooleanValue(native_bool(pair.value[0])))
        } else {
            Err(Error::ForeignOperationFailed(EINVAL))
        },
        data_type_t::DATA_TYPE_BOOLEAN_ARRAY => if pair.holds_boolean_array() {
            Ok(ValueModel::BooleanValueArray(pair.value.map_values(|b: boolean_t| native_bool(b))))
        } else {
            Err(Error::ForeignOperationFailed(EINVAL))
        },
        tag => Err(Error::UnsupportedType(tag)),
    }
}

/// The owned pair that a foreign pair decodes to, or why it decodes to none.
/// A name that is no text is reported before anything is said of the tag.
pub open spec fn decode_pair(pair: NvPairModel) -> Result<PairModel, Error> {
    if !valid_utf8(pair.name) {
        Err(Error::InvalidName(utf8_failure(pair.name)))
    } else {
        match decode_value(pair) {
            Ok(value) => Ok(PairModel { name: decode_utf8(pair.name), value }),
            Err(e) => Err(e),
        }
    }
}

/// What `std::str::from_utf8` reports of bytes that are no valid UTF-8: up to
/// where they were valid and how long the offending sequence is. It depends on
/// the bytes alone.
pub uninterp spec fn utf8_failure(bytes: Seq<u8>) -> Utf8Error;

/// Reads bytes as text with `std::str::from_utf8`. The contract claims what
/// the standard library documents: the call succeeds exactly on valid UTF-8,
/// and the text it returns is made of the very bytes it was given. Of the
/// error it claims only that the same bytes give the same one.
#[verifier::external_body]
pub(crate) fn text_from_utf8(bytes: &[u8]) -> (r: Result<&str, Utf8Error>)
    ensures
        match r {
            Ok(text) => valid_utf8(bytes@) && text.spec_bytes() == bytes@,
            Err(e) => !valid_utf8(bytes@) && e == utf8_failure(bytes@),
        },
{
    std::str::from_utf8(bytes)
}

/// The owned pair that a decodable foreign pair decodes to.
pub open spec fn decoded(pair: NvPairModel) -> PairModel {
    match decode_pair(pair) {
        Ok(owned) => owned,
        Err(_) => arbitrary(),
    }
}

/// Why an undecodable foreign pair decodes to nothing.
pub open spec fn failure(pair: NvPairModel) -> Error {
    match decode_pair(pair) {
        Ok(_) => arbitrary(),
        Err(e) => e,
    }
}

/// The test that a foreign pair does not decode.
pub open spec fn undecodable() -> spec_fn(NvPairModel) -> bool {
    |p: NvPairModel| decode_pair(p) is Err
}

/// Position of the first pair of the list that does not decode, or the length.
pub open spec fn first_failure(list: NvListModel) -> int {
    first_hit(list.pairs, undecodable(), 0)
}

/// The owned list that a foreign list decodes to: every pair decoded, in the
/// foreign order, under the mode `Unknown`; or, where some pair does not
/// decode, the failure of the first such pair and no list at all.
pub open spec fn decode_list(list: NvListModel) -> Result<ListModel, Error> {
    if first_failure(list) < list.pairs.len() {
        Err(failure(list.pairs[first_failure(list)]))
    } else {
        Ok(
            ListModel {
                uniqueness: Uniqueness::Unknown,
                pairs: list.pairs.map_values(|p: NvPairModel| decoded(p)),
            },
        )
    }
}

/// The foreign payload that carries an owned value.
pub open spec fn encode_payload(value: ValueModel) -> Seq<boolean_t> {
    match value {
        ValueModel::Boolean => Seq::empty(),
        ValueModel::BooleanValue(b) => seq![foreign_bool(b)],
        ValueModel::BooleanValueArray(bs) => bs.map_values(|b: bool| foreign_bool(b)),
    }
}

/// The status of adding an owned pair to a foreign list.
pub open spec fn encode_status(list: NvListModel, pair: PairModel) -> i32 {
    list.add_status(encode_utf8(pair.name), pair.value.data_type(), encode_payload(pair.value))
}

/// The foreign list after adding an owned pair to it.
pub open spec fn encode_pair(list: NvListModel, pair: PairModel) -> NvListModel {
    list.add(encode_utf8(pair.name), pair.value.data_type(), encode_payload(pair.value))
}

/// The foreign list after adding owned pairs to it in order, and the status:
/// zero where every one was added, else the status of the first that was
/// refused, after which nothing more is added and nothing is taken back.
pub open spec fn encode_pairs(list: NvListModel, pairs: Seq<PairModel>) -> (NvListModel, i32)
    decreases pairs.len(),
{
    if pairs.len() == 0 {
        (list, 0)
    } else {
        let (before, status) = encode_pairs(list, pairs.drop_last());
        if status != 0 {
            (before, status)
        } else {
            (encode_pair(before, pairs.last()), encode_status(before, pairs.last()))
        }
    }
}

/// Once a pair has been refused, the pairs behind it change nothing.
pub proof fn lemma_encode_stops(list: NvListModel, pairs: Seq<PairModel>, n: int)
    requires
        0 <= n <= pairs.len(),
        encode_pairs(list, pairs.take(n)).1 != 0,
    ensures
        encode_pairs(list, pairs) == encode_pairs(list, pairs.take(n)),
    decreases pairs.len(),
{
    if n < pairs.len() {
        assert(pairs.drop_last().take(n) == pairs.take(n));
        lemma_encode_stops(list, pairs.drop_last(), n);
    } else {
        assert(pairs.take(n) == pairs);
    }
}

} // verus!
