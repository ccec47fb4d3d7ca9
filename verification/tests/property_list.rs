use nvpair::foreign::{
    nvlist_add_boolean, nvlist_add_boolean_array, nvlist_add_boolean_value, nvlist_add_nvpair,
    nvlist_alloc, nvlist_empty, nvlist_free, nvlist_next_nvpair, nvlist_pair, nvpair_build,
    nvpair_name, nvpair_type, nvpair_value_boolean_array, EEXIST, EINVAL, NV_UNIQUE_NAME,
};
use nvpair::value::{to_foreign, to_native};
use nvpair::{boolean_t, data_type_t, nvlist_t, nvpair_t, Error, List, Pair, PairValue, Uniqueness};

fn fresh(nvflag: u32) -> nvlist_t {
    let mut ptr: Option<nvlist_t> = None;
    assert_eq!(nvlist_alloc(&mut ptr, nvflag, 0), 0);
    ptr.unwrap()
}

#[test]
fn from_ffi_one_bool() {
    let mut ptr: Option<nvlist_t> = None;
    assert_eq!(nvlist_alloc(&mut ptr, 0, 0), 0);
    let name1 = "bool1".as_bytes();
    assert_eq!(nvlist_add_boolean_value(ptr.as_mut().unwrap(), name1, boolean_t::B_TRUE), 0);
    let nvlist = List::from_ffi(ptr.as_ref().unwrap()).unwrap();
    assert_eq!(nvlist.pairs().len(), 1);
    let mut l2 = List::new(Uniqueness::Unknown);
    l2.add(Pair("bool1".into(), PairValue::BooleanValue(true)));
    assert_eq!(nvlist, l2);
    nvlist_free(ptr.unwrap());
}

#[test]
fn from_ffi_two_bools() {
    let mut ptr: Option<nvlist_t> = None;
    assert_eq!(nvlist_alloc(&mut ptr, 0, 0), 0);
    let name1 = "bool1".as_bytes();
    let name2 = "bool2".as_bytes();
    assert_eq!(nvlist_add_boolean_value(ptr.as_mut().unwrap(), name1, boolean_t::B_TRUE), 0);
    assert_eq!(nvlist_add_boolean_value(ptr.as_mut().unwrap(), name2, boolean_t::B_FALSE), 0);
    let nvlist = List::from_ffi(ptr.as_ref().unwrap()).unwrap();
    assert_eq!(nvlist.pairs().len(), 2);
    let mut l2 = List::new(Uniqueness::Unknown);
    l2.add(Pair("bool1".into(), PairValue::BooleanValue(true)));
    l2.add(Pair("bool2".into(), PairValue::BooleanValue(false)));
    assert_eq!(nvlist, l2);
    nvlist_free(ptr.unwrap());
}

#[test]
fn from_ffi_bool_array() {
    let mut ptr: Option<nvlist_t> = None;
    assert_eq!(nvlist_alloc(&mut ptr, 0, 0), 0);
    let name = "bool_array".as_bytes();
    let array: [boolean_t; 4] =
        [boolean_t::B_TRUE, boolean_t::B_FALSE, boolean_t::B_FALSE, boolean_t::B_TRUE];
    assert_eq!(nvlist_add_boolean_array(ptr.as_mut().unwrap(), name, &array, 4), 0);
    let pair: Option<usize> = None;
    let next_pair = nvlist_next_nvpair(ptr.as_ref().unwrap(), pair);

    let read = nvpair_value_boolean_array(nvlist_pair(ptr.as_ref().unwrap(), next_pair.unwrap()));
    assert_eq!(read.as_ref().err(), None);
    let (output_slice, n_elem) = read.unwrap();
    assert_eq!(output_slice.len(), n_elem as usize);

    let nvlist = List::from_ffi(ptr.as_ref().unwrap()).unwrap();
    assert_eq!(nvlist.pairs().len(), 1);
    let mut l2 = List::new(Uniqueness::Unknown);
    l2.add(Pair("bool_array".into(), PairValue::BooleanValueArray(vec![true, false, false, true])));
    assert_eq!(nvlist, l2);
    nvlist_free(ptr.unwrap());
}

#[test]
fn empty_foreign_list_decodes_to_no_pairs() {
    let foreign = fresh(0);
    let list = List::from_ffi(&foreign).unwrap();
    assert_eq!(list.len(), 0);
    assert_eq!(list.get(0), None);
    assert!(list.pairs().iter().next().is_none());
    assert_eq!(list.uniqueness(), Uniqueness::Unknown);
    assert_eq!(list, List::new(Uniqueness::Unknown));
}

#[test]
fn decoded_mode_is_unknown_whatever_the_foreign_flag() {
    let foreign = fresh(NV_UNIQUE_NAME);
    let list = List::from_ffi(&foreign).unwrap();
    assert_eq!(list.uniqueness(), Uniqueness::Unknown);
    assert_ne!(list, List::new(Uniqueness::Unconstrained));
    assert_ne!(list, List::new(Uniqueness::Name));
    assert_ne!(list, List::new(Uniqueness::Pair));
}

#[test]
fn flag_decodes_to_boolean() {
    let mut foreign = fresh(0);
    assert_eq!(nvlist_add_boolean(&mut foreign, b"present"), 0);
    let list = List::from_ffi(&foreign).unwrap();
    assert_eq!(list.get(0), Some(&Pair("present".into(), PairValue::Boolean)));
}

#[test]
fn decoded_array_is_a_copy() {
    let mut foreign = fresh(0);
    let array = [boolean_t::B_TRUE, boolean_t::B_FALSE, boolean_t::B_FALSE, boolean_t::B_TRUE];
    assert_eq!(nvlist_add_boolean_array(&mut foreign, b"bool_array", &array, 4), 0);
    let pair = Pair::from_ffi(nvlist_pair(&foreign, 0)).unwrap();
    nvlist_free(foreign);
    assert_eq!(pair, Pair("bool_array".into(), PairValue::BooleanValueArray(vec![true, false, false, true])));
    assert_eq!(pair.name(), "bool_array");
    assert_eq!(pair.value(), &PairValue::BooleanValueArray(vec![true, false, false, true]));
}

#[test]
fn unsupported_tag_fails_the_whole_decode() {
    let mut foreign = fresh(0);
    assert_eq!(nvlist_add_boolean_value(&mut foreign, b"bool1", boolean_t::B_TRUE), 0);
    let other = nvpair_build(b"count", data_type_t::DATA_TYPE_INT16, &[]).unwrap();
    assert_eq!(nvlist_add_nvpair(&mut foreign, &other), 0);
    assert_eq!(nvlist_add_boolean_value(&mut foreign, b"bool2", boolean_t::B_TRUE), 0);
    assert_eq!(
        List::from_ffi(&foreign),
        Err(Error::UnsupportedType(data_type_t::DATA_TYPE_INT16))
    );
    assert_eq!(
        Pair::from_ffi(&other),
        Err(Error::UnsupportedType(data_type_t::DATA_TYPE_INT16))
    );
}

#[test]
fn every_tag_without_a_value_is_unsupported() {
    let tags = [
        data_type_t::DATA_TYPE_UNKNOWN,
        data_type_t::DATA_TYPE_BYTE,
        data_type_t::DATA_TYPE_INT16,
        data_type_t::DATA_TYPE_UINT16,
        data_type_t::DATA_TYPE_INT32,
        data_type_t::DATA_TYPE_UINT32,
        data_type_t::DATA_TYPE_INT64,
        data_type_t::DATA_TYPE_UINT64,
        data_type_t::DATA_TYPE_STRING,
        data_type_t::DATA_TYPE_BYTE_ARRAY,
        data_type_t::DATA_TYPE_INT16_ARRAY,
        data_type_t::DATA_TYPE_UINT16_ARRAY,
        data_type_t::DATA_TYPE_INT32_ARRAY,
        data_type_t::DATA_TYPE_UINT32_ARRAY,
        data_type_t::DATA_TYPE_INT64_ARRAY,
        data_type_t::DATA_TYPE_UINT64_ARRAY,
        data_type_t::DATA_TYPE_STRING_ARRAY,
        data_type_t::DATA_TYPE_HRTIME,
        data_type_t::DATA_TYPE_NVLIST,
        data_type_t::DATA_TYPE_NVLIST_ARRAY,
        data_type_t::DATA_TYPE_INT8,
        data_type_t::DATA_TYPE_UINT8,
        data_type_t::DATA_TYPE_INT8_ARRAY,
        data_type_t::DATA_TYPE_UINT8_ARRAY,
    ];
    for tag in tags {
        let pair = nvpair_build(b"n", tag, &[]).unwrap();
        assert_eq!(Pair::from_ffi(&pair), Err(Error::UnsupportedType(tag)));
    }
}

#[test]
fn name_that_is_no_text_fails_the_whole_decode() {
    let mut foreign = fresh(0);
    assert_eq!(nvlist_add_boolean(&mut foreign, b"fine"), 0);
    assert_eq!(nvlist_add_boolean(&mut foreign, &[0xff, 0xfe]), 0);
    let expected = std::str::from_utf8(&[0xff, 0xfe]).unwrap_err();
    assert_eq!(List::from_ffi(&foreign), Err(Error::InvalidName(expected)));
}

#[test]
fn bad_name_is_reported_before_the_tag() {
    let pair = nvpair_build(&[0xc3], data_type_t::DATA_TYPE_INT16, &[]).unwrap();
    assert!(matches!(Pair::from_ffi(&pair), Err(Error::InvalidName(_))));
}

#[test]
fn first_failure_wins() {
    let mut foreign = fresh(0);
    let other = nvpair_build(b"count", data_type_t::DATA_TYPE_UINT64, &[]).unwrap();
    assert_eq!(nvlist_add_nvpair(&mut foreign, &other), 0);
    assert_eq!(nvlist_add_boolean(&mut foreign, &[0xff]), 0);
    assert_eq!(
        List::from_ffi(&foreign),
        Err(Error::UnsupportedType(data_type_t::DATA_TYPE_UINT64))
    );
}

#[test]
fn names_are_decoded_as_text() {
    let mut foreign = fresh(0);
    assert_eq!(nvlist_add_boolean(&mut foreign, &[0xc3, 0xa9, 0x74, 0xc3, 0xa9]), 0);
    let list = List::from_ffi(&foreign).unwrap();
    assert_eq!(list.get(0).unwrap().name(), "\u{e9}t\u{e9}");
    assert_eq!(list.get(0).unwrap().name().chars().count(), 3);
}

#[test]
fn malformed_pair_is_a_foreign_failure() {
    let hollow = nvpair_t {
        nvp_size: 24,
        nvp_name_sz: 2,
        nvp_reserve: 0,
        nvp_value_elem: 1,
        nvp_type: data_type_t::DATA_TYPE_BOOLEAN_VALUE,
        nvp_name: b"a".to_vec(),
        nvp_value: vec![],
    };
    assert_eq!(Pair::from_ffi(&hollow), Err(Error::ForeignOperationFailed(EINVAL)));
    let miscounted = nvpair_t {
        nvp_size: 32,
        nvp_name_sz: 2,
        nvp_reserve: 0,
        nvp_value_elem: 5,
        nvp_type: data_type_t::DATA_TYPE_BOOLEAN_ARRAY,
        nvp_name: b"a".to_vec(),
        nvp_value: vec![boolean_t::B_TRUE],
    };
    assert_eq!(Pair::from_ffi(&miscounted), Err(Error::ForeignOperationFailed(EINVAL)));
}

#[test]
fn round_trip_keeps_names_values_and_order() {
    let mut list = List::new(Uniqueness::Unknown);
    list.add(Pair("flag".into(), PairValue::Boolean))
        .add(Pair("yes".into(), PairValue::BooleanValue(true)))
        .add(Pair("no".into(), PairValue::BooleanValue(false)))
        .add(Pair("bits".into(), PairValue::BooleanValueArray(vec![true, false, false, true])))
        .add(Pair("none".into(), PairValue::BooleanValueArray(vec![])))
        .add(Pair("yes".into(), PairValue::BooleanValue(false)))
        .add(Pair("\u{e9}t\u{e9}".into(), PairValue::Boolean));
    let mut foreign = fresh(0);
    assert_eq!(list.to_ffi(&mut foreign), Ok(()));
    assert_eq!(List::from_ffi(&foreign), Ok(list));
}

#[test]
fn round_trip_loses_only_the_mode() {
    let mut list = List::new(Uniqueness::Name);
    list.add(Pair("yes".into(), PairValue::BooleanValue(true)));
    let mut foreign = fresh(NV_UNIQUE_NAME);
    assert_eq!(list.to_ffi(&mut foreign), Ok(()));
    let back = List::from_ffi(&foreign).unwrap();
    assert_eq!(back.uniqueness(), Uniqueness::Unknown);
    assert_eq!(back.pairs(), list.pairs());
}

#[test]
fn encode_writes_tag_name_and_payload() {
    let mut foreign = fresh(0);
    let pair = Pair::new("bits".to_string(), PairValue::BooleanValueArray(vec![false, true]));
    assert_eq!(pair.to_ffi(&mut foreign), Ok(()));
    let held = nvlist_pair(&foreign, 0);
    assert_eq!(nvpair_type(held), data_type_t::DATA_TYPE_BOOLEAN_ARRAY);
    assert_eq!(nvpair_name(held), b"bits");
    assert_eq!(
        nvpair_value_boolean_array(held),
        Ok((&[boolean_t::B_FALSE, boolean_t::B_TRUE][..], 2))
    );
    assert_eq!(held.nvp_size, 24 + 8);
}

#[test]
fn encode_stops_at_the_first_refusal_and_takes_nothing_back() {
    let mut list = List::new(Uniqueness::Unconstrained);
    list.add(Pair("a".into(), PairValue::BooleanValue(true)));
    list.add(Pair("a".into(), PairValue::Boolean));
    list.add(Pair("b".into(), PairValue::Boolean));
    let mut foreign = fresh(NV_UNIQUE_NAME);
    assert_eq!(list.to_ffi(&mut foreign), Err(Error::ForeignOperationFailed(EEXIST)));
    let mut expected = List::new(Uniqueness::Unknown);
    expected.add(Pair("a".into(), PairValue::BooleanValue(true)));
    assert_eq!(List::from_ffi(&foreign), Ok(expected));
}

#[test]
fn encode_refuses_a_name_with_a_nul() {
    let mut foreign = fresh(0);
    let pair = Pair::new("a\0b".to_string(), PairValue::Boolean);
    assert_eq!(pair.to_ffi(&mut foreign), Err(Error::ForeignOperationFailed(EINVAL)));
    assert_eq!(nvlist_empty(&foreign), boolean_t::B_TRUE);
}

#[test]
fn add_appends_whatever_the_mode() {
    let mut list = List::new(Uniqueness::Name);
    list.add(Pair("a".into(), PairValue::Boolean)).add(Pair("a".into(), PairValue::Boolean));
    assert_eq!(list.len(), 2);
    assert_eq!(list.uniqueness(), Uniqueness::Name);
    assert_eq!(list.get(1), Some(&Pair("a".into(), PairValue::Boolean)));
    assert_eq!(list.get(2), None);
}

#[test]
fn iteration_can_be_restarted() {
    let mut list = List::new(Uniqueness::Unconstrained);
    list.add(Pair("a".into(), PairValue::Boolean));
    list.add(Pair("b".into(), PairValue::BooleanValue(true)));
    let first: Vec<&Pair> = list.pairs().iter().collect();
    let second: Vec<&Pair> = list.pairs().iter().collect();
    assert_eq!(first, second);
    assert_eq!(first.len(), 2);
    assert_eq!(first[0].name(), "a");
    assert_eq!(first[1].name(), "b");
}

#[test]
fn values_know_their_tags() {
    assert_eq!(PairValue::Boolean.data_type(), data_type_t::DATA_TYPE_BOOLEAN);
    assert_eq!(PairValue::BooleanValue(true).data_type(), data_type_t::DATA_TYPE_BOOLEAN_VALUE);
    assert_eq!(
        PairValue::BooleanValueArray(vec![]).data_type(),
        data_type_t::DATA_TYPE_BOOLEAN_ARRAY
    );
}

#[test]
fn booleans_map_both_ways() {
    assert_eq!(to_native(boolean_t::B_TRUE), true);
    assert_eq!(to_native(boolean_t::B_FALSE), false);
    assert_eq!(to_foreign(true), boolean_t::B_TRUE);
    assert_eq!(to_foreign(false), boolean_t::B_FALSE);
}

#[test]
fn pairs_compare_by_name_and_value() {
    let pair = Pair::new("a".to_string(), PairValue::BooleanValue(true));
    assert_eq!(pair, Pair("a".into(), PairValue::BooleanValue(true)));
    assert_ne!(pair, Pair("b".into(), PairValue::BooleanValue(true)));
    assert_ne!(pair, Pair("a".into(), PairValue::BooleanValue(false)));
    assert_ne!(pair, Pair("a".into(), PairValue::Boolean));
}

#[test]
fn checked_add_refuses_a_held_name_under_name() {
    let mut list = List::new(Uniqueness::Name);
    assert_eq!(list.add_checked(Pair("a".into(), PairValue::Boolean)), Ok(()));
    assert_eq!(
        list.add_checked(Pair("a".into(), PairValue::BooleanValue(true))),
        Err(Error::DuplicateKey)
    );
    assert_eq!(list.add_checked(Pair("b".into(), PairValue::Boolean)), Ok(()));
    assert_eq!(list.len(), 2);
    assert_eq!(list.get(1).unwrap().name(), "b");
}

#[test]
fn checked_add_refuses_a_held_name_and_tag_under_pair() {
    let mut list = List::new(Uniqueness::Pair);
    assert_eq!(list.add_checked(Pair("a".into(), PairValue::Boolean)), Ok(()));
    assert_eq!(list.add_checked(Pair("a".into(), PairValue::BooleanValue(true))), Ok(()));
    assert_eq!(
        list.add_checked(Pair("a".into(), PairValue::BooleanValue(false))),
        Err(Error::DuplicateKey)
    );
    assert_eq!(list.add_checked(Pair("b".into(), PairValue::BooleanValue(false))), Ok(()));
    assert_eq!(list.len(), 3);
}

#[test]
fn checked_add_refuses_nothing_without_a_constraint() {
    for mode in [Uniqueness::Unconstrained, Uniqueness::Unknown] {
        let mut list = List::new(mode);
        assert_eq!(list.add_checked(Pair("a".into(), PairValue::Boolean)), Ok(()));
        assert_eq!(list.add_checked(Pair("a".into(), PairValue::Boolean)), Ok(()));
        assert_eq!(list.len(), 2);
    }
}

#[test]
fn modes_and_foreign_flags() {
    assert_eq!(Uniqueness::from_nvflag(0), Uniqueness::Unconstrained);
    assert_eq!(Uniqueness::from_nvflag(1), Uniqueness::Name);
    assert_eq!(Uniqueness::from_nvflag(2), Uniqueness::Pair);
    assert_eq!(Uniqueness::from_nvflag(3), Uniqueness::Unknown);
    assert_eq!(Uniqueness::Unknown.nvflag(), None);
    assert_eq!(Uniqueness::Unconstrained.nvflag(), Some(0));
    assert_eq!(Uniqueness::Name.nvflag(), Some(1));
    assert_eq!(Uniqueness::Pair.nvflag(), Some(2));
}

#[test]
fn decoded_list_can_be_given_the_foreign_mode() {
    let mut foreign = fresh(NV_UNIQUE_NAME);
    assert_eq!(nvlist_add_boolean(&mut foreign, b"a"), 0);
    let mode = Uniqueness::from_nvflag(nvpair::foreign::nvlist_nvflag(&foreign));
    let list = List::from_ffi(&foreign).unwrap().with_uniqueness(mode);
    let mut expected = List::new(Uniqueness::Name);
    expected.add(Pair("a".into(), PairValue::Boolean));
    assert_eq!(list, expected);
}

#[test]
fn lists_compare_by_mode_and_pairs_in_order() {
    let mut ab = List::new(Uniqueness::Unknown);
    ab.add(Pair("a".into(), PairValue::Boolean)).add(Pair("b".into(), PairValue::Boolean));
    let mut ba = List::new(Uniqueness::Unknown);
    ba.add(Pair("b".into(), PairValue::Boolean)).add(Pair("a".into(), PairValue::Boolean));
    let mut a = List::new(Uniqueness::Unknown);
    a.add(Pair("a".into(), PairValue::Boolean));
    assert_ne!(ab, ba);
    assert_ne!(ab, a);
    assert_eq!(a.with_uniqueness(Uniqueness::Name), {
        let mut other = List::new(Uniqueness::Name);
        other.add(Pair("a".into(), PairValue::Boolean));
        other
    });
    assert_ne!(
        PairValue::BooleanValueArray(vec![true, false]),
        PairValue::BooleanValueArray(vec![true, true])
    );
    assert_ne!(
        PairValue::BooleanValueArray(vec![true]),
        PairValue::BooleanValueArray(vec![true, true])
    );
    assert_ne!(PairValue::BooleanValueArray(vec![true]), PairValue::BooleanValue(true));
}

#[test]
fn name_of_a_pair_as_a_string() {
    let pair = nvpair_build(b"bool1", data_type_t::DATA_TYPE_BOOLEAN, &[]).unwrap();
    assert_eq!(nvpair::value::nvpair_name_to_string(&pair), Ok("bool1".to_string()));
    let bad = nvpair_build(&[0x80], data_type_t::DATA_TYPE_BOOLEAN, &[]).unwrap();
    assert!(matches!(nvpair::value::nvpair_name_to_string(&bad), Err(Error::InvalidName(_))));
}

#[test]
fn owned_name_of_text_or_failure() {
    assert_eq!(nvpair::value::name_from_text(Ok("bool1")), Ok("bool1".to_string()));
    assert_eq!(nvpair::value::name_from_text(Ok("")), Ok(String::new()));
    let failure = std::str::from_utf8(&[0x61, 0xff]).unwrap_err();
    assert_eq!(failure.valid_up_to(), 1);
    assert_eq!(nvpair::value::name_from_text(Err(failure)), Err(Error::InvalidName(failure)));
}

#[test]
fn invalid_name_carries_the_failure_of_its_bytes() {
    let pair = nvpair_build(&[0x61, 0x62, 0xc3], data_type_t::DATA_TYPE_BOOLEAN, &[]).unwrap();
    match Pair::from_ffi(&pair) {
        Err(Error::InvalidName(e)) => {
            assert_eq!(e.valid_up_to(), 2);
            assert_eq!(e.error_len(), None);
        }
        other => panic!("{:?}", other),
    }
}
