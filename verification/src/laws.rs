//! What holds between encoding and decoding, and between adding and removing,
//! proved over the models.
use crate::bridge::{
    decode_list, decode_pair, decoded, encode_pairs, encode_payload, first_failure, foreign_bool,
    native_bool, undecodable,
};
use crate::error::Error;
use crate::foreign::{
    boolean_t, built_pair, can_build, clashes, data_type_t, lemma_add_keeps_wf, lemma_first_hit,
    NvListModel, NvPairModel, EINVAL,
};
use crate::list::{same_key, ListModel, Uniqueness};
use crate::value::{PairModel, ValueModel};
use vstd::prelude::*;
use vstd::utf8::{
    decode_utf8_encode_utf8, encode_utf8, encode_utf8_decode_utf8, encode_utf8_valid_utf8, valid_utf8,
};

verus! {

/// The foreign pair that carries an owned pair.
pub open spec fn encoded(pair: PairModel) -> NvPairModel {
    built_pair(encode_utf8(pair.name), pair.value.data_type(), encode_payload(pair.value))
}

/// Whether an owned pair can be carried by a foreign pair at all.
pub open spec fn encodable(pair: PairModel) -> bool {
    can_build(encode_utf8(pair.name), pair.value.data_type(), encode_payload(pair.value))
}

/// The foreign pair that carries an owned pair decodes to that very pair:
/// the same name, the same variant, the same booleans in the same order.
pub proof fn lemma_encoded_pair_decodes(pair: PairModel)
    ensures
        decode_pair(encoded(pair)) == Ok::<PairModel, Error>(pair),
{
    encode_utf8_valid_utf8(pair.name);
    encode_utf8_decode_utf8(pair.name);
    match pair.value {
        ValueModel::Boolean => {},
        ValueModel::BooleanValue(b) => {},
        ValueModel::BooleanValueArray(bs) => {
            assert(bs.map_values(|b: bool| foreign_bool(b)).map_values(|b: boolean_t| native_bool(b))
                =~= bs);
        },
    }
}

/// A foreign list decodes exactly when each of its pairs does, and then pair
/// by pair: the owned list is as long as the foreign one and holds at each
/// position what the foreign pair at that position decodes to.
pub proof fn lemma_decode_list_by_pairs(list: NvListModel)
    ensures
        decode_list(list) is Ok <==> forall|i: int|
            0 <= i < list.pairs.len() ==> decode_pair(#[trigger] list.pairs[i]) is Ok,
        decode_list(list) matches Ok(owned) ==> owned.uniqueness == Uniqueness::Unknown
            && owned.pairs.len() == list.pairs.len() && forall|i: int|
            0 <= i < list.pairs.len() ==> decode_pair(#[trigger] list.pairs[i]) == Ok::<
                PairModel,
                Error,
            >(owned.pairs[i]),
{
    lemma_first_hit(list.pairs, undecodable(), 0);
    if first_failure(list) < list.pairs.len() {
        assert(undecodable()(list.pairs[first_failure(list)]));
    } else {
        assert forall|i: int| 0 <= i < list.pairs.len() implies decode_pair(
            #[trigger] list.pairs[i],
        ) is Ok by {
            assert(!undecodable()(list.pairs[i]));
        }
    }
}

/// Whether a type tag has a value here.
pub open spec fn supported(tag: data_type_t) -> bool {
    ||| tag == data_type_t::DATA_TYPE_BOOLEAN
    ||| tag == data_type_t::DATA_TYPE_BOOLEAN_VALUE
    ||| tag == data_type_t::DATA_TYPE_BOOLEAN_ARRAY
}

/// A foreign list that holds a pair of a tag without a value here never
/// decodes to a list, not even to the pairs before it. Where the pairs before
/// it decode and its name is text, the failure is `UnsupportedType` with that
/// very tag.
pub proof fn theorem_unsupported_tag_fails(list: NvListModel, at: int)
    requires
        0 <= at < list.pairs.len(),
        !supported(list.pairs[at].tag),
    ensures
        decode_list(list) is Err,
        (forall|i: int| 0 <= i < at ==> decode_pair(#[trigger] list.pairs[i]) is Ok) && valid_utf8(
            list.pairs[at].name,
        ) ==> decode_list(list) == Err::<ListModel, Error>(
            Error::UnsupportedType(list.pairs[at].tag),
        ),
{
    lemma_first_hit(list.pairs, undecodable(), 0);
    assert(undecodable()(list.pairs[at]));
    if first_failure(list) < at {
        assert(undecodable()(list.pairs[first_failure(list)]));
    }
}

/// Decoding goes pair by pair: behind a list that decodes, one more pair that
/// decodes gives the decoded list with the decoded pair at its end.
pub proof fn lemma_decode_push(list: NvListModel, owned: ListModel, pair: NvPairModel, last: PairModel)
    requires
        decode_list(list) == Ok::<ListModel, Error>(owned),
        decode_pair(pair) == Ok::<PairModel, Error>(last),
    ensures
        decode_list(NvListModel { pairs: list.pairs.push(pair), ..list }) == Ok::<ListModel, Error>(
            ListModel { uniqueness: Uniqueness::Unknown, pairs: owned.pairs.push(last) },
        ),
{
    let longer = NvListModel { pairs: list.pairs.push(pair), ..list };
    lemma_decode_list_by_pairs(list);
    assert forall|i: int| 0 <= i < longer.pairs.len() implies decode_pair(
        #[trigger] longer.pairs[i],
    ) is Ok by {
        if i < list.pairs.len() {
            assert(longer.pairs[i] == list.pairs[i]);
        }
    }
    lemma_decode_list_by_pairs(longer);
    lemma_first_hit(list.pairs, undecodable(), 0);
    lemma_first_hit(longer.pairs, undecodable(), 0);
    assert(longer.pairs.map_values(|p: NvPairModel| decoded(p)) =~= list.pairs.map_values(
        |p: NvPairModel| decoded(p),
    ).push(last));
}

/// Encoding owned pairs into a foreign list that decodes, where the foreign
/// side refuses none of them, gives a foreign list that decodes to what the
/// first one decoded to, followed by those pairs in their order.
pub proof fn lemma_decode_after_encode(foreign: NvListModel, held: ListModel, pairs: Seq<PairModel>)
    requires
        decode_list(foreign) == Ok::<ListModel, Error>(held),
        encode_pairs(foreign, pairs).1 == 0,
    ensures
        decode_list(encode_pairs(foreign, pairs).0) == Ok::<ListModel, Error>(
            ListModel { uniqueness: Uniqueness::Unknown, pairs: held.pairs + pairs },
        ),
    decreases pairs.len(),
{
    lemma_first_hit(foreign.pairs, undecodable(), 0);
    if pairs.len() == 0 {
        assert(held.pairs + pairs =~= held.pairs);
    } else {
        let front = pairs.drop_last();
        let (before, status) = encode_pairs(foreign, front);
        lemma_decode_after_encode(foreign, held, front);
        lemma_encoded_pair_decodes(pairs.last());
        lemma_decode_push(
            before,
            ListModel { uniqueness: Uniqueness::Unknown, pairs: held.pairs + front },
            encoded(pairs.last()),
            pairs.last(),
        );
        assert((held.pairs + front).push(pairs.last()) =~= held.pairs + pairs);
    }
}

/// Round trip. Encode any owned list into a freshly allocated foreign list
/// of any flags; where the foreign side refuses no pair, decoding what was
/// written gives back the pairs of the owned list: the same names and values,
/// array elements included, in the same order. The mode of the decoded list
/// is `Unknown`, whatever the mode of the first.
pub proof fn theorem_round_trip(list: ListModel, nvflag: u32, flag: int)
    requires
        encode_pairs(NvListModel::empty(nvflag, flag), list.pairs).1 == 0,
    ensures
        decode_list(encode_pairs(NvListModel::empty(nvflag, flag), list.pairs).0) == Ok::<
            ListModel,
            Error,
        >(ListModel { uniqueness: Uniqueness::Unknown, pairs: list.pairs }),
{
    let fresh = NvListModel::empty(nvflag, flag);
    let held = ListModel { uniqueness: Uniqueness::Unknown, pairs: Seq::empty() };
    theorem_empty_decodes_to_empty(nvflag, flag);
    lemma_decode_after_encode(fresh, held, list.pairs);
    assert(held.pairs + list.pairs =~= list.pairs);
}

/// A foreign list without a uniqueness constraint refuses exactly the pairs
/// that no foreign pair can carry: encoding into it succeeds if and only if
/// every pair is encodable, it then adds the carrying pairs in order, and
/// where it fails the status is `EINVAL`.
pub proof fn theorem_encode_without_constraint(foreign: NvListModel, pairs: Seq<PairModel>)
    requires
        foreign.nvflag == 0,
    ensures
        encode_pairs(foreign, pairs).0.nvflag == 0,
        encode_pairs(foreign, pairs).1 == 0 <==> forall|i: int|
            0 <= i < pairs.len() ==> encodable(#[trigger] pairs[i]),
        encode_pairs(foreign, pairs).1 == 0 ==> encode_pairs(foreign, pairs).0.pairs == foreign.pairs
            + pairs.map_values(|p: PairModel| encoded(p)),
        encode_pairs(foreign, pairs).1 != 0 ==> encode_pairs(foreign, pairs).1 == EINVAL,
    decreases pairs.len(),
{
    if pairs.len() == 0 {
        assert(foreign.pairs + pairs.map_values(|p: PairModel| encoded(p)) =~= foreign.pairs);
    } else {
        let front = pairs.drop_last();
        theorem_encode_without_constraint(foreign, front);
        let (before, status) = encode_pairs(foreign, front);
        if status == 0 {
            assert(!before.has_clash(
                encode_utf8(pairs.last().name),
                pairs.last().value.data_type(),
            ));
            if encodable(pairs.last()) {
                assert forall|i: int| 0 <= i < pairs.len() implies encodable(#[trigger] pairs[i]) by {
                    if i < front.len() {
                        assert(front[i] == pairs[i]);
                    }
                }
                assert((foreign.pairs + front.map_values(|p: PairModel| encoded(p))).push(
                    encoded(pairs.last()),
                ) =~= foreign.pairs + pairs.map_values(|p: PairModel| encoded(p)));
            }
        } else {
            let i = choose|i: int| 0 <= i < front.len() && !encodable(#[trigger] front[i]);
            assert(front[i] == pairs[i]);
        }
    }
}

/// An empty foreign list decodes to the empty list of mode `Unknown`.
pub proof fn theorem_empty_decodes_to_empty(nvflag: u32, flag: int)
    ensures
        decode_list(NvListModel::empty(nvflag, flag)) == Ok::<ListModel, Error>(
            ListModel { uniqueness: Uniqueness::Unknown, pairs: Seq::empty() },
        ),
{
    let fresh = NvListModel::empty(nvflag, flag);
    lemma_first_hit(fresh.pairs, undecodable(), 0);
    assert(fresh.pairs.map_values(|p: NvPairModel| decoded(p)) =~= Seq::<PairModel>::empty());
}

/// Encoding into a well-formed foreign list leaves it well formed, refused
/// or not.
pub proof fn theorem_encode_keeps_wf(foreign: NvListModel, pairs: Seq<PairModel>)
    requires
        foreign.wf(),
    ensures
        encode_pairs(foreign, pairs).0.wf(),
    decreases pairs.len(),
{
    if pairs.len() > 0 {
        theorem_encode_keeps_wf(foreign, pairs.drop_last());
        let before = encode_pairs(foreign, pairs.drop_last()).0;
        let last = pairs.last();
        lemma_add_keeps_wf(before, encode_utf8(last.name), last.value.data_type(), encode_payload(last.value));
    }
}

/// Removal undoes addition. Where a list holds no pair of a given name and
/// tag, adding one and then removing by that name and tag finds it and gives
/// the list as it was before; so a list that was empty reports empty again.
pub proof fn theorem_add_then_remove(list: NvListModel, name: Seq<u8>, tag: data_type_t, value: Seq<boolean_t>)
    requires
        list.add_status(name, tag, value) == 0,
        list.find(name, tag) == list.pairs.len(),
    ensures
        list.add(name, tag, value).find(name, tag) < list.add(name, tag, value).pairs.len(),
        list.add(name, tag, value).remove(name, tag) == list,
        list.pairs.len() == 0 ==> list.add(name, tag, value).remove(name, tag).pairs.len() == 0,
{
    let hit = |p: NvPairModel| p.name == name && p.tag == tag;
    let after = list.add(name, tag, value);
    lemma_first_hit(list.pairs, hit, 0);
    lemma_first_hit(after.pairs, hit, 0);
    let at = after.find(name, tag);
    let n = list.pairs.len() as int;
    assert(hit(after.pairs[n]));
    if at < n {
        assert(after.pairs[at] == list.pairs[at]);
        assert(hit(list.pairs[at]));
    }
    assert(at == n);
    assert(after.pairs.remove(at) =~= list.pairs);
}

/// A well-formed foreign list gives the decoder no malformed payload: only a
/// name that is no text, or a tag without a value here, can make decoding fail.
pub proof fn theorem_wf_decode_failures(list: NvListModel)
    requires
        list.wf(),
    ensures
        match decode_list(list) {
            Ok(_) => true,
            Err(Error::InvalidName(_)) => true,
            Err(Error::UnsupportedType(tag)) => !supported(tag),
            Err(_) => false,
        },
{
    lemma_first_hit(list.pairs, undecodable(), 0);
    if first_failure(list) < list.pairs.len() {
        assert(list.pairs[first_failure(list)].wf());
    }
}

/// What a well-formed foreign list keeps apart, its decoded list keeps apart:
/// the decoded pairs respect the mode that the foreign flag encodes. A caller
/// who knows the foreign flag may therefore declare that mode for the decoded
/// list.
pub proof fn theorem_decoded_list_respects_foreign_mode(list: NvListModel, owned: ListModel)
    requires
        list.wf(),
        decode_list(list) == Ok::<ListModel, Error>(owned),
    ensures
        (ListModel { uniqueness: Uniqueness::of_nvflag(list.nvflag), pairs: owned.pairs }).respects_mode(),
{
    let declared = ListModel { uniqueness: Uniqueness::of_nvflag(list.nvflag), pairs: owned.pairs };
    lemma_decode_list_by_pairs(list);
    assert forall|i: int, j: int| 0 <= i < j < declared.pairs.len() implies !same_key(
        declared.uniqueness,
        #[trigger] declared.pairs[i],
        #[trigger] declared.pairs[j],
    ) by {
        let a = list.pairs[i];
        let b = list.pairs[j];
        assert(decode_pair(a) == Ok::<PairModel, Error>(owned.pairs[i]));
        assert(decode_pair(b) == Ok::<PairModel, Error>(owned.pairs[j]));
        assert(!clashes(list.nvflag, a, b.name, b.tag));
        decode_utf8_encode_utf8(a.name);
        decode_utf8_encode_utf8(b.name);
    }
}

} // verus!
