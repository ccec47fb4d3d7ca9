//! The values of a property list and the pairs that name them.
use crate::bridge::{
    decode_pair, encode_pair, encode_status, foreign_bool, native_bool, text_from_utf8,
    utf8_failure,
};
use crate::error::Error;
use crate::foreign::{
    boolean_t, data_type_t, nvlist_add_boolean, nvlist_add_boolean_array,
    nvlist_add_boolean_value, nvlist_t, nvpair_name, nvpair_t, nvpair_type,
    nvpair_value_boolean_array, nvpair_value_boolean_value, EINVAL,
};
use std::str::Utf8Error;
use vstd::prelude::*;
use vstd::std_specs::cmp::PartialEqSpecImpl;
use vstd::utf8::{decode_utf8, encode_utf8_decode_utf8, valid_utf8};

verus! {

/// A value of a property list, one variant for each supported type tag.
#[derive(Debug)]
pub enum PairValue {
    /// A flag: that the name is present is the value.
    Boolean,
    /// One boolean.
    BooleanValue(bool),
    /// Booleans in order; the vector's length is the element count.
    BooleanValueArray(Vec<bool>),
}

/// What a value is, mathematically.
pub ghost enum ValueModel {
    Boolean,
    BooleanValue(bool),
    BooleanValueArray(Seq<bool>),
}

impl View for PairValue {
    type V = ValueModel;

    open spec fn view(&self) -> ValueModel {
        match self {
            PairValue::Boolean => ValueModel::Boolean,
            PairValue::BooleanValue(b) => ValueModel::BooleanValue(*b),
            PairValue::BooleanValueArray(v) => ValueModel::BooleanValueArray(v@),
        }
    }
}

impl ValueModel {
    /// The type tag under which the value travels.
    pub open spec fn data_type(self) -> data_type_t {
        match self {
            ValueModel::Boolean => data_type_t::DATA_TYPE_BOOLEAN,
            ValueModel::BooleanValue(_) => data_type_t::DATA_TYPE_BOOLEAN_VALUE,
            ValueModel::BooleanValueArray(_) => data_type_t::DATA_TYPE_BOOLEAN_ARRAY,
        }
    }
}

/// Two values are equal when they are of one variant and hold the same
/// booleans in the same order.
impl PartialEq for PairValue {
    fn eq(&self, other: &Self) -> (r: bool) {
        match (self, other) {
            (PairValue::Boolean, PairValue::Boolean) => true,
            (PairValue::BooleanValue(a), PairValue::BooleanValue(b)) => *a == *b,
            (PairValue::BooleanValueArray(a), PairValue::BooleanValueArray(b)) => {
                if a.len() != b.len() {
                    return false;
                }
                let mut i: usize = 0;
                while i < a.len()
                    invariant
                        i <= a@.len(),
                        a@.len() == b@.len(),
                        self@ == ValueModel::BooleanValueArray(a@),
                        other@ == ValueModel::BooleanValueArray(b@),
                        forall|j: int| 0 <= j < i ==> a@[j] == b@[j],
                    decreases a@.len() - i,
                {
                    if a[i] != b[i] {
                        return false;
                    }
                    i = i + 1;
                }
                assert(a@ =~= b@);
                true
            },
            _ => false,
        }
    }
}

impl PartialEqSpecImpl for PairValue {
    open spec fn obeys_eq_spec() -> bool {
        true
    }

    open spec fn eq_spec(&self, other: &Self) -> bool {
        self@ == other@
    }
}

/// Two pairs are equal when their names and their values are.
impl PartialEq for Pair {
    fn eq(&self, other: &Self) -> (r: bool) {
        self.0 == other.0 && self.1 == other.1
    }
}

impl PartialEqSpecImpl for Pair {
    open spec fn obeys_eq_spec() -> bool {
        true
    }

    open spec fn eq_spec(&self, other: &Self) -> bool {
        self@ == other@
    }
}

impl PairValue {
    /// The type tag under which the value travels.
    pub fn data_type(&self) -> (tag: data_type_t)
        ensures
            tag == self@.data_type(),
    {
        match self {
            PairValue::Boolean => data_type_t::DATA_TYPE_BOOLEAN,
            PairValue::BooleanValue(_) => data_type_t::DATA_TYPE_BOOLEAN_VALUE,
            PairValue::BooleanValueArray(_) => data_type_t::DATA_TYPE_BOOLEAN_ARRAY,
        }
    }
}

/// A name bound to a value.
#[derive(Debug)]
pub struct Pair(pub String, pub PairValue);

/// What a pair is, mathematically.
pub ghost struct PairModel {
    pub name: Seq<char>,
    pub value: ValueModel,
}

impl View for Pair {
    type V = PairModel;

    open spec fn view(&self) -> PairModel {
        PairModel { name: self.0@, value: self.1@ }
    }
}

/// Makes an owned name of what reading a name's bytes as text gave: the text
/// copied into a string of its own, or the failure as `InvalidName`.
pub fn name_from_text(text: Result<&str, Utf8Error>) -> (r: Result<String, Error>)
    ensures
        match text {
            Ok(t) => r is Ok && r.unwrap()@ == t@,
            Err(e) => r == Err::<String, Error>(Error::InvalidName(e)),
        },
{
    match text {
        Ok(n) => Ok(n.to_owned()),
        Err(e) => Err(Error::InvalidName(e)),
    }
}

/// Reads the name of a foreign pair as text, copied into a string of its
/// own. Fails exactly where the name's bytes are not valid UTF-8.
pub fn nvpair_name_to_string(pair: &nvpair_t) -> (r: Result<String, Error>)
    ensures
        match r {
            Ok(name) => valid_utf8(pair@.name) && name@ == decode_utf8(pair@.name),
            Err(e) => !valid_utf8(pair@.name) && e == Error::InvalidName(utf8_failure(pair@.name)),
        },
{
    let name_str = text_from_utf8(nvpair_name(pair));
    proof {
        if name_str is Ok {
            encode_utf8_decode_utf8(name_str.unwrap()@);
        }
    }
    name_from_text(name_str)
}

impl Pair {
    /// Binds a name to a value. Nothing is checked here.
    pub fn new(name: String, value: PairValue) -> (pair: Pair)
        ensures
            pair@ == (PairModel { name: name@, value: value@ }),
    {
        Pair(name, value)
    }

    /// The pair's name.
    pub fn name(&self) -> (name: &str)
        ensures
            name@ == self@.name,
    {
        self.0.as_str()
    }

    /// The pair's value.
    pub fn value(&self) -> (value: &PairValue)
        ensures
            value@ == self@.value,
    {
        &self.1
    }

    /// Decodes one foreign pair into an owned one: the name must be valid
    /// text, the tag one of the supported ones, and the payload is copied.
    pub fn from_ffi(pair: &nvpair_t) -> (r: Result<Pair, Error>)
        ensures
            match r {
                Ok(owned) => decode_pair(pair@) == Ok::<PairModel, Error>(owned@),
                Err(e) => decode_pair(pair@) == Err::<PairModel, Error>(e),
            },
    {
        let data_type = nvpair_type(pair);
        let name = match nvpair_name_to_string(pair) {
            Ok(name) => name,
            Err(e) => {
                return Err(e);
            },
        };
        match data_type {
            data_type_t::DATA_TYPE_BOOLEAN => Ok(Pair(name, PairValue::Boolean)),
            data_type_t::DATA_TYPE_BOOLEAN_VALUE => {
                let mut target_bool: boolean_t = boolean_t::B_FALSE;
                let status = nvpair_value_boolean_value(pair, &mut target_bool);
                if status != 0 {
                    return Err(Error::ForeignOperationFailed(status));
                }
                Ok(Pair(name, PairValue::BooleanValue(to_native(target_bool))))
            },
            data_type_t::DATA_TYPE_BOOLEAN_ARRAY => {
                match nvpair_value_boolean_array(pair) {
                    Err(status) => Err(Error::ForeignOperationFailed(status)),
                    Ok((output_slice, n_elem)) => {
                        let mut output_vec: Vec<bool> = Vec::with_capacity(output_slice.len());
                        let mut i: usize = 0;
                        while i < output_slice.len()
                            invariant
                                i <= output_slice@.len(),
                                output_vec@ == output_slice@.take(i as int).map_values(
                                    |b: boolean_t| native_bool(b),
                                ),
                            decreases output_slice@.len() - i,
                        {
                            output_vec.push(to_native(output_slice[i]));
                            assert(output_slice@.take(i + 1) == output_slice@.take(i as int).push(
                                output_slice@[i as int],
                            ));
                            assert(output_vec@ =~= output_slice@.take(i + 1).map_values(
                                |b: boolean_t| native_bool(b),
                            ));
                            i = i + 1;
                        }
                        assert(output_slice@.take(i as int) == output_slice@);
                        Ok(Pair(name, PairValue::BooleanValueArray(output_vec)))
                    },
                }
            },
            _ => Err(Error::UnsupportedType(data_type)),
        }
    }
}

impl Pair {
    /// Encodes the pair into a foreign list: adds, under the pair's name, a
    /// pair of the tag and payload that carry its value. An array is handed
    /// over with its element count and copied by the foreign side. Where the
    /// foreign side refuses, its status comes back as the error and the
    /// foreign list is as it was.
    pub fn to_ffi(&self, nvlist: &mut nvlist_t) -> (r: Result<(), Error>)
        ensures
            final(nvlist)@ == encode_pair(old(nvlist)@, self@),
            match r {
                Ok(_) => encode_status(old(nvlist)@, self@) == 0,
                Err(e) => encode_status(old(nvlist)@, self@) != 0 && e
                    == Error::ForeignOperationFailed(encode_status(old(nvlist)@, self@)),
            },
            old(nvlist)@.wf() ==> final(nvlist)@.wf(),
    {
        let name = self.0.as_str().as_bytes();
        let status = match &self.1 {
            PairValue::Boolean => nvlist_add_boolean(nvlist, name),
            PairValue::BooleanValue(b) => nvlist_add_boolean_value(nvlist, name, to_foreign(*b)),
            PairValue::BooleanValueArray(bs) => {
                let mut vals: Vec<boolean_t> = Vec::with_capacity(bs.len());
                let mut i: usize = 0;
                while i < bs.len()
                    invariant
                        i <= bs@.len(),
                        vals@ == bs@.take(i as int).map_values(|b: bool| foreign_bool(b)),
                    decreases bs@.len() - i,
                {
                    vals.push(to_foreign(bs[i]));
                    assert(bs@.take(i + 1) == bs@.take(i as int).push(bs@[i as int]));
                    assert(vals@ =~= bs@.take(i + 1).map_values(|b: bool| foreign_bool(b)));
                    i = i + 1;
                }
                assert(bs@.take(i as int) == bs@);
                if vals.len() > 0xffff_ffff {
                    EINVAL
                } else {
                    assert(vals@.take(vals@.len() as int) == vals@);
                    nvlist_add_boolean_array(nvlist, name, vals.as_slice(), vals.len() as u32)
                }
            },
        };
        if status == 0 {
            Ok(())
        } else {
            Err(Error::ForeignOperationFailed(status))
        }
    }
}

/// The foreign boolean that stands for a native one.
pub fn to_foreign(b: bool) -> (r: boolean_t)
    ensures
        r == foreign_bool(b),
{
    if b {
        boolean_t::B_TRUE
    } else {
        boolean_t::B_FALSE
    }
}

/// The native boolean that a foreign boolean stands for.
pub fn to_native(b: boolean_t) -> (r: bool)
    ensures
        r == native_bool(b),
{
    match b {
        boolean_t::B_TRUE => true,
        boolean_t::B_FALSE => false,
    }
}

} // verus!
