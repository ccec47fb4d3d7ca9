//! The foreign name/value list: its tags, the shape of a pair, the list
//! itself and the accessors through which the rest of the crate reaches it.
use vstd::prelude::*;
use vstd::slice::{slice_subrange, slice_to_vec};

verus! {

/// The foreign two-valued boolean, distinct from a native `bool`.
#[derive(Clone, Copy, Debug, PartialEq, Eq, Structural)]
pub enum boolean_t {
    B_FALSE,
    B_TRUE,
}

/// The type tag of a foreign pair.
#[derive(Clone, Copy, Debug, PartialEq, Eq, Structural)]
pub enum data_type_t {
    DATA_TYPE_UNKNOWN,
    DATA_TYPE_BOOLEAN,
    DATA_TYPE_BYTE,
    DATA_TYPE_INT16,
    DATA_TYPE_UINT16,
    DATA_TYPE_INT32,
    DATA_TYPE_UINT32,
    DATA_TYPE_INT64,
    DATA_TYPE_UINT64,
    DATA_TYPE_STRING,
    DATA_TYPE_BYTE_ARRAY,
    DATA_TYPE_INT16_ARRAY,
    DATA_TYPE_UINT16_ARRAY,
    DATA_TYPE_INT32_ARRAY,
    DATA_TYPE_UINT32_ARRAY,
    DATA_TYPE_INT64_ARRAY,
    DATA_TYPE_UINT64_ARRAY,
    DATA_TYPE_STRING_ARRAY,
    DATA_TYPE_HRTIME,
    DATA_TYPE_NVLIST,
    DATA_TYPE_NVLIST_ARRAY,
    DATA_TYPE_BOOLEAN_VALUE,
    DATA_TYPE_INT8,
    DATA_TYPE_UINT8,
    DATA_TYPE_BOOLEAN_ARRAY,
    DATA_TYPE_INT8_ARRAY,
    DATA_TYPE_UINT8_ARRAY,
}

impl boolean_t {
    /// The number that stands for the boolean at the foreign boundary.
    pub open spec fn code_of(self) -> int {
        match self {
            boolean_t::B_FALSE => 0,
            boolean_t::B_TRUE => 1,
        }
    }

    /// The number that stands for the boolean at the foreign boundary.
    pub fn code(self) -> (code: i32)
        ensures
            code == self.code_of(),
    {
        match self {
            boolean_t::B_FALSE => 0,
            boolean_t::B_TRUE => 1,
        }
    }

    /// The boolean that a number stands for, if it stands for one.
    pub fn from_code(code: i32) -> (b: Option<boolean_t>)
        ensures
            match b {
                Some(b) => b.code_of() == code,
                None => code != 0 && code != 1,
            },
    {
        match code {
            0 => Some(boolean_t::B_FALSE),
            1 => Some(boolean_t::B_TRUE),
            _ => None,
        }
    }
}

impl data_type_t {
    /// The number that stands for the tag in a pair's header: the tags are
    /// numbered from zero in the order of their declaration.
    pub open spec fn code_of(self) -> int {
        match self {
            data_type_t::DATA_TYPE_UNKNOWN => 0,
            data_type_t::DATA_TYPE_BOOLEAN => 1,
            data_type_t::DATA_TYPE_BYTE => 2,
            data_type_t::DATA_TYPE_INT16 => 3,
            data_type_t::DATA_TYPE_UINT16 => 4,
            data_type_t::DATA_TYPE_INT32 => 5,
            data_type_t::DATA_TYPE_UINT32 => 6,
            data_type_t::DATA_TYPE_INT64 => 7,
            data_type_t::DATA_TYPE_UINT64 => 8,
            data_type_t::DATA_TYPE_STRING => 9,
            data_type_t::DATA_TYPE_BYTE_ARRAY => 10,
            data_type_t::DATA_TYPE_INT16_ARRAY => 11,
            data_type_t::DATA_TYPE_UINT16_ARRAY => 12,
            data_type_t::DATA_TYPE_INT32_ARRAY => 13,
            data_type_t::DATA_TYPE_UINT32_ARRAY => 14,
            data_type_t::DATA_TYPE_INT64_ARRAY => 15,
            data_type_t::DATA_TYPE_UINT64_ARRAY => 16,
            data_type_t::DATA_TYPE_STRING_ARRAY => 17,
            data_type_t::DATA_TYPE_HRTIME => 18,
            data_type_t::DATA_TYPE_NVLIST => 19,
            data_type_t::DATA_TYPE_NVLIST_ARRAY => 20,
            data_type_t::DATA_TYPE_BOOLEAN_VALUE => 21,
            data_type_t::DATA_TYPE_INT8 => 22,
            data_type_t::DATA_TYPE_UINT8 => 23,
            data_type_t::DATA_TYPE_BOOLEAN_ARRAY => 24,
            data_type_t::DATA_TYPE_INT8_ARRAY => 25,
            data_type_t::DATA_TYPE_UINT8_ARRAY => 26,
        }
    }

    /// The tag's printable name.
    pub open spec fn name_of(self) -> Seq<char> {
        match self {
            data_type_t::DATA_TYPE_UNKNOWN => "DATA_TYPE_UNKNOWN"@,
            data_type_t::DATA_TYPE_BOOLEAN => "DATA_TYPE_BOOLEAN"@,
            data_type_t::DATA_TYPE_BYTE => "DATA_TYPE_BYTE"@,
            data_type_t::DATA_TYPE_INT16 => "DATA_TYPE_INT16"@,
            data_type_t::DATA_TYPE_UINT16 => "DATA_TYPE_UINT16"@,
            data_type_t::DATA_TYPE_INT32 => "DATA_TYPE_INT32"@,
            data_type_t::DATA_TYPE_UINT32 => "DATA_TYPE_UINT32"@,
            data_type_t::DATA_TYPE_INT64 => "DATA_TYPE_INT64"@,
            data_type_t::DATA_TYPE_UINT64 => "DATA_TYPE_UINT64"@,
            data_type_t::DATA_TYPE_STRING => "DATA_TYPE_STRING"@,
            data_type_t::DATA_TYPE_BYTE_ARRAY => "DATA_TYPE_BYTE_ARRAY"@,
            data_type_t::DATA_TYPE_INT16_ARRAY => "DATA_TYPE_INT16_ARRAY"@,
            data_type_t::DATA_TYPE_UINT16_ARRAY => "DATA_TYPE_UINT16_ARRAY"@,
            data_type_t::DATA_TYPE_INT32_ARRAY => "DATA_TYPE_INT32_ARRAY"@,
            data_type_t::DATA_TYPE_UINT32_ARRAY => "DATA_TYPE_UINT32_ARRAY"@,
            data_type_t::DATA_TYPE_INT64_ARRAY => "DATA_TYPE_INT64_ARRAY"@,
            data_type_t::DATA_TYPE_UINT64_ARRAY => "DATA_TYPE_UINT64_ARRAY"@,
            data_type_t::DATA_TYPE_STRING_ARRAY => "DATA_TYPE_STRING_ARRAY"@,
            data_type_t::DATA_TYPE_HRTIME => "DATA_TYPE_HRTIME"@,
            data_type_t::DATA_TYPE_NVLIST => "DATA_TYPE_NVLIST"@,
            data_type_t::DATA_TYPE_NVLIST_ARRAY => "DATA_TYPE_NVLIST_ARRAY"@,
            data_type_t::DATA_TYPE_BOOLEAN_VALUE => "DATA_TYPE_BOOLEAN_VALUE"@,
            data_type_t::DATA_TYPE_INT8 => "DATA_TYPE_INT8"@,
            data_type_t::DATA_TYPE_UINT8 => "DATA_TYPE_UINT8"@,
            data_type_t::DATA_TYPE_BOOLEAN_ARRAY => "DATA_TYPE_BOOLEAN_ARRAY"@,
            data_type_t::DATA_TYPE_INT8_ARRAY => "DATA_TYPE_INT8_ARRAY"@,
            data_type_t::DATA_TYPE_UINT8_ARRAY => "DATA_TYPE_UINT8_ARRAY"@,
        }
    }

    /// The number that stands for the tag in a pair's header.
    pub fn code(self) -> (code: i32)
        ensures
            code == self.code_of(),
    {
        match self {
            data_type_t::DATA_TYPE_UNKNOWN => 0,
            data_type_t::DATA_TYPE_BOOLEAN => 1,
            data_type_t::DATA_TYPE_BYTE => 2,
            data_type_t::DATA_TYPE_INT16 => 3,
            data_type_t::DATA_TYPE_UINT16 => 4,
            data_type_t::DATA_TYPE_INT32 => 5,
            data_type_t::DATA_TYPE_UINT32 => 6,
            data_type_t::DATA_TYPE_INT64 => 7,
            data_type_t::DATA_TYPE_UINT64 => 8,
            data_type_t::DATA_TYPE_STRING => 9,
            data_type_t::DATA_TYPE_BYTE_ARRAY => 10,
            data_type_t::DATA_TYPE_INT16_ARRAY => 11,
            data_type_t::DATA_TYPE_UINT16_ARRAY => 12,
            data_type_t::DATA_TYPE_INT32_ARRAY => 13,
            data_type_t::DATA_TYPE_UINT32_ARRAY => 14,
            data_type_t::DATA_TYPE_INT64_ARRAY => 15,
            data_type_t::DATA_TYPE_UINT64_ARRAY => 16,
            data_type_t::DATA_TYPE_STRING_ARRAY => 17,
            data_type_t::DATA_TYPE_HRTIME => 18,
            data_type_t::DATA_TYPE_NVLIST => 19,
            data_type_t::DATA_TYPE_NVLIST_ARRAY => 20,
            data_type_t::DATA_TYPE_BOOLEAN_VALUE => 21,
            data_type_t::DATA_TYPE_INT8 => 22,
            data_type_t::DATA_TYPE_UINT8 => 23,
            data_type_t::DATA_TYPE_BOOLEAN_ARRAY => 24,
            data_type_t::DATA_TYPE_INT8_ARRAY => 25,
            data_type_t::DATA_TYPE_UINT8_ARRAY => 26,
        }
    }

    /// The tag that a number stands for, if it stands for one.
    pub fn from_code(code: i32) -> (tag: Option<data_type_t>)
        ensures
            match tag {
                Some(tag) => tag.code_of() == code,
                None => code < 0 || code > 26,
            },
    {
        match code {
            0 => Some(data_type_t::DATA_TYPE_UNKNOWN),
            1 => Some(data_type_t::DATA_TYPE_BOOLEAN),
            2 => Some(data_type_t::DATA_TYPE_BYTE),
            3 => Some(data_type_t::DATA_TYPE_INT16),
            4 => Some(data_type_t::DATA_TYPE_UINT16),
            5 => Some(data_type_t::DATA_TYPE_INT32),
            6 => Some(data_type_t::DATA_TYPE_UINT32),
            7 => Some(data_type_t::DATA_TYPE_INT64),
            8 => Some(data_type_t::DATA_TYPE_UINT64),
            9 => Some(data_type_t::DATA_TYPE_STRING),
            10 => Some(data_type_t::DATA_TYPE_BYTE_ARRAY),
            11 => Some(data_type_t::DATA_TYPE_INT16_ARRAY),
            12 => Some(data_type_t::DATA_TYPE_UINT16_ARRAY),
            13 => Some(data_type_t::DATA_TYPE_INT32_ARRAY),
            14 => Some(data_type_t::DATA_TYPE_UINT32_ARRAY),
            15 => Some(data_type_t::DATA_TYPE_INT64_ARRAY),
            16 => Some(data_type_t::DATA_TYPE_UINT64_ARRAY),
            17 => Some(data_type_t::DATA_TYPE_STRING_ARRAY),
            18 => Some(data_type_t::DATA_TYPE_HRTIME),
            19 => Some(data_type_t::DATA_TYPE_NVLIST),
            20 => Some(data_type_t::DATA_TYPE_NVLIST_ARRAY),
            21 => Some(data_type_t::DATA_TYPE_BOOLEAN_VALUE),
            22 => Some(data_type_t::DATA_TYPE_INT8),
            23 => Some(data_type_t::DATA_TYPE_UINT8),
            24 => Some(data_type_t::DATA_TYPE_BOOLEAN_ARRAY),
            25 => Some(data_type_t::DATA_TYPE_INT8_ARRAY),
            26 => Some(data_type_t::DATA_TYPE_UINT8_ARRAY),
            _ => None,
        }
    }

    /// The tag's printable name, for diagnostics.
    pub fn name(self) -> (name: &'static str)
        ensures
            name@ == self.name_of(),
    {
        match self {
            data_type_t::DATA_TYPE_UNKNOWN => "DATA_TYPE_UNKNOWN",
            data_type_t::DATA_TYPE_BOOLEAN => "DATA_TYPE_BOOLEAN",
            data_type_t::DATA_TYPE_BYTE => "DATA_TYPE_BYTE",
            data_type_t::DATA_TYPE_INT16 => "DATA_TYPE_INT16",
            data_type_t::DATA_TYPE_UINT16 => "DATA_TYPE_UINT16",
            data_type_t::DATA_TYPE_INT32 => "DATA_TYPE_INT32",
            data_type_t::DATA_TYPE_UINT32 => "DATA_TYPE_UINT32",
            data_type_t::DATA_TYPE_INT64 => "DATA_TYPE_INT64",
            data_type_t::DATA_TYPE_UINT64 => "DATA_TYPE_UINT64",
            data_type_t::DATA_TYPE_STRING => "DATA_TYPE_STRING",
            data_type_t::DATA_TYPE_BYTE_ARRAY => "DATA_TYPE_BYTE_ARRAY",
            data_type_t::DATA_TYPE_INT16_ARRAY => "DATA_TYPE_INT16_ARRAY",
            data_type_t::DATA_TYPE_UINT16_ARRAY => "DATA_TYPE_UINT16_ARRAY",
            data_type_t::DATA_TYPE_INT32_ARRAY => "DATA_TYPE_INT32_ARRAY",
            data_type_t::DATA_TYPE_UINT32_ARRAY => "DATA_TYPE_UINT32_ARRAY",
            data_type_t::DATA_TYPE_INT64_ARRAY => "DATA_TYPE_INT64_ARRAY",
            data_type_t::DATA_TYPE_UINT64_ARRAY => "DATA_TYPE_UINT64_ARRAY",
            data_type_t::DATA_TYPE_STRING_ARRAY => "DATA_TYPE_STRING_ARRAY",
            data_type_t::DATA_TYPE_HRTIME => "DATA_TYPE_HRTIME",
            data_type_t::DATA_TYPE_NVLIST => "DATA_TYPE_NVLIST",
            data_type_t::DATA_TYPE_NVLIST_ARRAY => "DATA_TYPE_NVLIST_ARRAY",
            data_type_t::DATA_TYPE_BOOLEAN_VALUE => "DATA_TYPE_BOOLEAN_VALUE",
            data_type_t::DATA_TYPE_INT8 => "DATA_TYPE_INT8",
            data_type_t::DATA_TYPE_UINT8 => "DATA_TYPE_UINT8",
            data_type_t::DATA_TYPE_BOOLEAN_ARRAY => "DATA_TYPE_BOOLEAN_ARRAY",
            data_type_t::DATA_TYPE_INT8_ARRAY => "DATA_TYPE_INT8_ARRAY",
            data_type_t::DATA_TYPE_UINT8_ARRAY => "DATA_TYPE_UINT8_ARRAY",
        }
    }
}

/// Uniqueness flag of a list in which no two pairs share a name.
pub const NV_UNIQUE_NAME: u32 = 1;

/// Uniqueness flag of a list in which no two pairs share both name and tag.
pub const NV_UNIQUE_NAME_TYPE: u32 = 2;

/// Version stamped on every list that `nvlist_alloc` makes.
pub const NV_VERSION: i32 = 0;

/// Status: an argument was malformed, or did not fit the pair it was read from.
pub const EINVAL: i32 = 22;

/// Status: the list's uniqueness flag forbids the pair.
pub const EEXIST: i32 = 17;

/// Status: no pair of that name and tag.
pub const ENOENT: i32 = 2;

/// Bytes taken by the fixed header of a pair.
pub const NVPAIR_HEADER_SIZE: i32 = 16;

/// Bytes taken by one foreign boolean.
pub const BOOLEAN_SIZE: i32 = 4;

/// One foreign pair: the header, the name's bytes (without the closing NUL)
/// and the payload. Only boolean payloads are held; a pair of any other tag
/// carries its header and name alone.
#[derive(Debug, PartialEq)]
pub struct nvpair_t {
    /// Size of the whole pair in bytes.
    pub nvp_size: i32,
    /// Length of the name, the closing NUL included.
    pub nvp_name_sz: i16,
    /// Not used.
    pub nvp_reserve: i16,
    /// Number of elements of the payload.
    pub nvp_value_elem: i32,
    /// Type tag of the payload.
    pub nvp_type: data_type_t,
    /// The name's bytes.
    pub nvp_name: Vec<u8>,
    /// The payload.
    pub nvp_value: Vec<boolean_t>,
}

/// What a foreign pair is, mathematically.
pub ghost struct NvPairModel {
    pub size: int,
    pub name_sz: int,
    pub value_elem: int,
    pub tag: data_type_t,
    pub name: Seq<u8>,
    pub value: Seq<boolean_t>,
}

impl View for nvpair_t {
    type V = NvPairModel;

    open spec fn view(&self) -> NvPairModel {
        NvPairModel {
            size: self.nvp_size as int,
            name_sz: self.nvp_name_sz as int,
            value_elem: self.nvp_value_elem as int,
            tag: self.nvp_type,
            name: self.nvp_name@,
            value: self.nvp_value@,
        }
    }
}

/// `n` rounded up to the next multiple of eight.
pub open spec fn nv_align(n: int) -> int {
    (n + 7) / 8 * 8
}

/// Size in bytes of a pair whose name takes `name_sz` bytes and whose payload
/// takes `data_sz` bytes: header and name, then payload, each padded to eight.
pub open spec fn nvp_size_calc(name_sz: int, data_sz: int) -> int {
    nv_align(NVPAIR_HEADER_SIZE as int + name_sz) + nv_align(data_sz)
}

/// Whether a payload of booleans has the shape that the tag asks for: none for
/// the flag, one for the scalar, any number for the array. Under every other
/// tag no payload is held.
pub open spec fn payload_fits(tag: data_type_t, value: Seq<boolean_t>) -> bool {
    match tag {
        data_type_t::DATA_TYPE_BOOLEAN_VALUE => value.len() == 1,
        data_type_t::DATA_TYPE_BOOLEAN_ARRAY => true,
        _ => value.len() == 0,
    }
}

/// Whether a pair can be made of these parts: the name is a C string short
/// enough for the header, the payload fits the tag, and the size fits its field.
pub open spec fn can_build(name: Seq<u8>, tag: data_type_t, value: Seq<boolean_t>) -> bool {
    &&& !name.contains(0u8)
    &&& name.len() + 1 <= i16::MAX
    &&& payload_fits(tag, value)
    &&& nvp_size_calc(name.len() + 1 as int, BOOLEAN_SIZE as int * value.len()) <= i32::MAX
}

/// The pair made of these parts.
pub open spec fn built_pair(name: Seq<u8>, tag: data_type_t, value: Seq<boolean_t>) -> NvPairModel {
    NvPairModel {
        size: nvp_size_calc(name.len() + 1 as int, BOOLEAN_SIZE as int * value.len()),
        name_sz: name.len() + 1 as int,
        value_elem: value.len() as int,
        tag,
        name,
        value,
    }
}

impl NvPairModel {
    /// A pair is well formed when its header says what its name and payload are.
    pub open spec fn wf(self) -> bool {
        &&& can_build(self.name, self.tag, self.value)
        &&& self == built_pair(self.name, self.tag, self.value)
    }
}

/// Whether the byte string holds a NUL.
pub fn has_nul(name: &[u8]) -> (b: bool)
    ensures
        b == name@.contains(0u8),
{
    let mut i: usize = 0;
    while i < name.len()
        invariant
            i <= name@.len(),
            forall|j: int| 0 <= j < i ==> name@[j] != 0u8,
        decreases name@.len() - i,
    {
        if name[i] == 0u8 {
            return true;
        }
        i = i + 1;
    }
    false
}

/// Whether two byte strings are the same.
pub fn same_bytes(a: &[u8], b: &[u8]) -> (r: bool)
    ensures
        r == (a@ == b@),
{
    if a.len() != b.len() {
        return false;
    }
    let mut i: usize = 0;
    while i < a.len()
        invariant
            i <= a@.len(),
            a@.len() == b@.len(),
            forall|j: int| 0 <= j < i ==> a@[j] == b@[j],
        decreases a@.len() - i,
    {
        if a[i] != b[i] {
            return false;
        }
        i = i + 1;
    }
    assert(a@ =~= b@);
    true
}

/// Makes a pair of a name, a tag and a payload, computing its header.
/// Fails with `EINVAL` exactly when the parts cannot make a pair.
pub fn nvpair_build(name: &[u8], data_type: data_type_t, vals: &[boolean_t]) -> (r: Result<
    nvpair_t,
    i32,
>)
    ensures
        match r {
            Ok(pair) => can_build(name@, data_type, vals@) && pair@ == built_pair(
                name@,
                data_type,
                vals@,
            ) && pair.nvp_reserve == 0,
            Err(status) => !can_build(name@, data_type, vals@) && status == EINVAL,
        },
{
    if has_nul(name) || name.len() >= 32767 {
        return Err(EINVAL);
    }
    let fits = match data_type {
        data_type_t::DATA_TYPE_BOOLEAN_VALUE => vals.len() == 1,
        data_type_t::DATA_TYPE_BOOLEAN_ARRAY => true,
        _ => vals.len() == 0,
    };
    if !fits || vals.len() > 0x2000_0000 {
        return Err(EINVAL);
    }
    let name_sz: u64 = name.len() as u64 + 1;
    let data_sz: u64 = BOOLEAN_SIZE as u64 * (vals.len() as u64);
    let size: u64 = (NVPAIR_HEADER_SIZE as u64 + name_sz + 7) / 8 * 8 + (data_sz + 7) / 8 * 8;
    if size > 0x7fff_ffff {
        return Err(EINVAL);
    }
    Ok(
        nvpair_t {
            nvp_size: size as i32,
            nvp_name_sz: name_sz as i16,
            nvp_reserve: 0,
            nvp_value_elem: vals.len() as i32,
            nvp_type: data_type,
            nvp_name: slice_to_vec(name),
            nvp_value: slice_to_vec(vals),
        },
    )
}


/// A foreign list: a version, the uniqueness flag, the creation flags and,
/// out of the caller's sight, the pairs in the order in which they were added.
#[derive(Debug)]
pub struct nvlist_t {
    nvl_version: i32,
    nvl_nvflag: u32,
    nvl_flag: i32,
    nvl_pairs: Vec<nvpair_t>,
}

/// What a foreign list is, mathematically.
pub ghost struct NvListModel {
    pub version: int,
    pub nvflag: u32,
    pub flag: int,
    pub pairs: Seq<NvPairModel>,
}

impl View for nvlist_t {
    type V = NvListModel;

    closed spec fn view(&self) -> NvListModel {
        NvListModel {
            version: self.nvl_version as int,
            nvflag: self.nvl_nvflag,
            flag: self.nvl_flag as int,
            pairs: self.nvl_pairs@.map_values(|p: nvpair_t| p@),
        }
    }
}

/// Whether a pair that is already in a list of this flag forbids another of
/// the given name and tag.
pub open spec fn clashes(nvflag: u32, held: NvPairModel, name: Seq<u8>, tag: data_type_t) -> bool {
    ||| nvflag == NV_UNIQUE_NAME && held.name == name
    ||| nvflag == NV_UNIQUE_NAME_TYPE && held.name == name && held.tag == tag
}

/// The first position at or after `from` whose pair satisfies `hit`, or the
/// length where there is none.
pub open spec fn first_hit(pairs: Seq<NvPairModel>, hit: spec_fn(NvPairModel) -> bool, from: int) -> int
    decreases pairs.len() - from,
{
    if from < 0 || from >= pairs.len() {
        pairs.len() as int
    } else if hit(pairs[from]) {
        from
    } else {
        first_hit(pairs, hit, from + 1)
    }
}

/// What `first_hit` finds is the first hit: nothing before it is one, and it
/// is one unless it is the length.
pub proof fn lemma_first_hit(pairs: Seq<NvPairModel>, hit: spec_fn(NvPairModel) -> bool, from: int)
    requires
        0 <= from <= pairs.len(),
    ensures
        from <= first_hit(pairs, hit, from) <= pairs.len(),
        first_hit(pairs, hit, from) < pairs.len() ==> hit(pairs[first_hit(pairs, hit, from)]),
        forall|j: int| from <= j < first_hit(pairs, hit, from) ==> !hit(#[trigger] pairs[j]),
    decreases pairs.len() - from,
{
    if from < pairs.len() && !hit(pairs[from]) {
        lemma_first_hit(pairs, hit, from + 1);
    }
}

impl NvListModel {
    /// The empty list of the given flags.
    pub open spec fn empty(nvflag: u32, flag: int) -> NvListModel {
        NvListModel { version: NV_VERSION as int, nvflag, flag, pairs: Seq::empty() }
    }

    /// A list is well formed when its flag is one of the three modes, each of
    /// its pairs is well formed, and no two of its pairs clash under its flag.
    pub open spec fn wf(self) -> bool {
        &&& self.nvflag <= NV_UNIQUE_NAME_TYPE
        &&& forall|i: int| 0 <= i < self.pairs.len() ==> (#[trigger] self.pairs[i]).wf()
        &&& forall|i: int, j: int|
            0 <= i < j < self.pairs.len() ==> !clashes(
                self.nvflag,
                #[trigger] self.pairs[i],
                (#[trigger] self.pairs[j]).name,
                self.pairs[j].tag,
            )
    }

    /// Whether some pair of the list forbids another of the given name and tag.
    pub open spec fn has_clash(self, name: Seq<u8>, tag: data_type_t) -> bool {
        exists|i: int| 0 <= i < self.pairs.len() && clashes(self.nvflag, #[trigger] self.pairs[i], name, tag)
    }

    /// The status of adding a pair of these parts: `EINVAL` where they make no
    /// pair, `EEXIST` where the list's flag forbids it, else zero.
    pub open spec fn add_status(self, name: Seq<u8>, tag: data_type_t, value: Seq<boolean_t>) -> i32 {
        if !can_build(name, tag, value) {
            EINVAL
        } else if self.has_clash(name, tag) {
            EEXIST
        } else {
            0
        }
    }

    /// The list after adding a pair of these parts: on status zero the pair
    /// stands at the end, otherwise nothing has changed.
    pub open spec fn add(self, name: Seq<u8>, tag: data_type_t, value: Seq<boolean_t>) -> NvListModel {
        if self.add_status(name, tag, value) == 0 {
            NvListModel { pairs: self.pairs.push(built_pair(name, tag, value)), ..self }
        } else {
            self
        }
    }

    /// Position of the first pair of the given name and tag, or the length.
    pub open spec fn find(self, name: Seq<u8>, tag: data_type_t) -> int {
        first_hit(self.pairs, |p: NvPairModel| p.name == name && p.tag == tag, 0)
    }

    /// Position of the first pair of the given name, or the length.
    pub open spec fn find_name(self, name: Seq<u8>) -> int {
        first_hit(self.pairs, |p: NvPairModel| p.name == name, 0)
    }

    /// The list after removing the first pair of the given name and tag, if
    /// there is one.
    pub open spec fn remove(self, name: Seq<u8>, tag: data_type_t) -> NvListModel {
        if self.find(name, tag) < self.pairs.len() {
            NvListModel { pairs: self.pairs.remove(self.find(name, tag)), ..self }
        } else {
            self
        }
    }

    /// The position that follows a cursor: the first one after "before the
    /// first", the next one after a pair, none after the last.
    pub open spec fn next(self, prev: Option<int>) -> Option<int> {
        let at = match prev {
            None => 0,
            Some(seen) => seen + 1,
        };
        if at < self.pairs.len() {
            Some(at)
        } else {
            None
        }
    }
}

/// A cursor's position as a number.
pub open spec fn position_of(cursor: Option<usize>) -> Option<int> {
    match cursor {
        None => None,
        Some(at) => Some(at as int),
    }
}

impl nvlist_t {
    /// Position of the first pair of the given name and, where one is given,
    /// tag; the length where there is none.
    fn position(&self, name: &[u8], data_type: Option<data_type_t>) -> (at: usize)
        ensures
            at <= self.nvl_pairs@.len(),
            self@.pairs.len() == self.nvl_pairs@.len(),
            data_type is Some ==> at == self@.find(name@, data_type.unwrap()),
            data_type is None ==> at == self@.find_name(name@),
    {
        let ghost hit = if data_type is Some {
            |p: NvPairModel| p.name == name@ && p.tag == data_type.unwrap()
        } else {
            |p: NvPairModel| p.name == name@
        };
        let mut i: usize = 0;
        while i < self.nvl_pairs.len()
            invariant
                i <= self.nvl_pairs@.len(),
                self@.pairs.len() == self.nvl_pairs@.len(),
                first_hit(self@.pairs, hit, 0) == first_hit(self@.pairs, hit, i as int),
                data_type is Some ==> hit == (|p: NvPairModel|
                    p.name == name@ && p.tag == data_type.unwrap()),
                data_type is None ==> hit == (|p: NvPairModel| p.name == name@),
            decreases self.nvl_pairs@.len() - i,
        {
            let pair = &self.nvl_pairs[i];
            assert(self@.pairs[i as int] == pair@);
            let named = same_bytes(pair.nvp_name.as_slice(), name);
            let tagged = match data_type {
                Some(t) => pair.nvp_type == t,
                None => true,
            };
            if named && tagged {
                return i;
            }
            i = i + 1;
        }
        i
    }
}


impl NvPairModel {
    /// Whether the pair holds one boolean under the scalar's tag.
    pub open spec fn holds_boolean_value(self) -> bool {
        self.tag == data_type_t::DATA_TYPE_BOOLEAN_VALUE && self.value.len() == 1
    }

    /// Whether the pair holds, under the array's tag, as many booleans as its
    /// header counts.
    pub open spec fn holds_boolean_array(self) -> bool {
        self.tag == data_type_t::DATA_TYPE_BOOLEAN_ARRAY && self.value_elem == self.value.len()
    }
}

impl NvListModel {
    /// Whether some pair of the list has the given name.
    pub open spec fn has_name(self, name: Seq<u8>) -> bool {
        exists|i: int| 0 <= i < self.pairs.len() && (#[trigger] self.pairs[i]).name == name
    }
}

/// Adding to a well-formed list leaves it well formed.
pub proof fn lemma_add_keeps_wf(list: NvListModel, name: Seq<u8>, tag: data_type_t, value: Seq<boolean_t>)
    requires
        list.wf(),
    ensures
        list.add(name, tag, value).wf(),
{
    let after = list.add(name, tag, value);
    if list.add_status(name, tag, value) == 0 {
        let n = list.pairs.len() as int;
        assert forall|i: int| 0 <= i < after.pairs.len() implies (#[trigger] after.pairs[i]).wf() by {
            if i < n {
                assert(after.pairs[i] == list.pairs[i]);
            }
        }
        assert forall|i: int, j: int| 0 <= i < j < after.pairs.len() implies !clashes(
            after.nvflag,
            #[trigger] after.pairs[i],
            (#[trigger] after.pairs[j]).name,
            after.pairs[j].tag,
        ) by {
            assert(after.pairs[i] == list.pairs[i]);
            if j < n {
                assert(after.pairs[j] == list.pairs[j]);
            }
        }
    }
}

/// Removing from a well-formed list leaves it well formed.
pub proof fn lemma_remove_keeps_wf(list: NvListModel, name: Seq<u8>, tag: data_type_t)
    requires
        list.wf(),
    ensures
        list.remove(name, tag).wf(),
{
    let after = list.remove(name, tag);
    let at = list.find(name, tag);
    lemma_first_hit(list.pairs, |p: NvPairModel| p.name == name && p.tag == tag, 0);
    if at < list.pairs.len() {
        assert forall|i: int| 0 <= i < after.pairs.len() implies (#[trigger] after.pairs[i]).wf() by {
            if i < at {
                assert(after.pairs[i] == list.pairs[i]);
            } else {
                assert(after.pairs[i] == list.pairs[i + 1]);
            }
        }
        assert forall|i: int, j: int| 0 <= i < j < after.pairs.len() implies !clashes(
            after.nvflag,
            #[trigger] after.pairs[i],
            (#[trigger] after.pairs[j]).name,
            after.pairs[j].tag,
        ) by {
            let oi = if i < at { i } else { i + 1 };
            let oj = if j < at { j } else { j + 1 };
            assert(after.pairs[i] == list.pairs[oi]);
            assert(after.pairs[j] == list.pairs[oj]);
        }
    }
}

impl nvlist_t {
    /// Whether some pair of the list forbids another of the given name and tag.
    fn forbids(&self, name: &[u8], data_type: data_type_t) -> (b: bool)
        ensures
            b == self@.has_clash(name@, data_type),
    {
        if self.nvl_nvflag != NV_UNIQUE_NAME && self.nvl_nvflag != NV_UNIQUE_NAME_TYPE {
            return false;
        }
        let mut i: usize = 0;
        while i < self.nvl_pairs.len()
            invariant
                i <= self.nvl_pairs@.len(),
                self@.pairs.len() == self.nvl_pairs@.len(),
                self.nvl_nvflag == NV_UNIQUE_NAME || self.nvl_nvflag == NV_UNIQUE_NAME_TYPE,
                forall|j: int| 0 <= j < i ==> !clashes(self@.nvflag, #[trigger] self@.pairs[j], name@, data_type),
            decreases self.nvl_pairs@.len() - i,
        {
            let pair = &self.nvl_pairs[i];
            assert(self@.pairs[i as int] == pair@);
            if same_bytes(pair.nvp_name.as_slice(), name) && (self.nvl_nvflag == NV_UNIQUE_NAME
                || pair.nvp_type == data_type) {
                assert(clashes(self@.nvflag, self@.pairs[i as int], name@, data_type));
                return true;
            }
            i = i + 1;
        }
        false
    }

    /// Adds a pair made of the given parts; every `nvlist_add_*` ends here.
    fn add_common(&mut self, name: &[u8], data_type: data_type_t, vals: &[boolean_t]) -> (status: i32)
        ensures
            status == old(self)@.add_status(name@, data_type, vals@),
            final(self)@ == old(self)@.add(name@, data_type, vals@),
    {
        match nvpair_build(name, data_type, vals) {
            Err(status) => status,
            Ok(pair) => {
                if self.forbids(name, data_type) {
                    EEXIST
                } else {
                    self.nvl_pairs.push(pair);
                    assert(self@.pairs =~= old(self)@.pairs.push(pair@));
                    0
                }
            },
        }
    }
}

/// Allocates an empty list with the given uniqueness flag and creation flags
/// and stores it in `target`. Fails with `EINVAL`, leaving `target` as it
/// was, where the flag is none of the three modes.
pub fn nvlist_alloc(target: &mut Option<nvlist_t>, nvflag: u32, flag: i32) -> (status: i32)
    ensures
        nvflag <= NV_UNIQUE_NAME_TYPE ==> status == 0 && final(target).is_some()
            && final(target).unwrap()@ == NvListModel::empty(nvflag, flag as int)
            && final(target).unwrap()@.wf(),
        nvflag > NV_UNIQUE_NAME_TYPE ==> status == EINVAL && *final(target) == *old(target),
{
    if nvflag > NV_UNIQUE_NAME_TYPE {
        return EINVAL;
    }
    let list = nvlist_t { nvl_version: NV_VERSION, nvl_nvflag: nvflag, nvl_flag: flag, nvl_pairs: Vec::new() };
    assert(list@.pairs =~= Seq::empty());
    *target = Some(list);
    0
}

/// Releases a list and every pair in it.
pub fn nvlist_free(list: nvlist_t) {
}

/// Whether the list holds no pair.
pub fn nvlist_empty(list: &nvlist_t) -> (b: boolean_t)
    ensures
        b == if list@.pairs.len() == 0 {
            boolean_t::B_TRUE
        } else {
            boolean_t::B_FALSE
        },
{
    if list.nvl_pairs.len() == 0 {
        boolean_t::B_TRUE
    } else {
        boolean_t::B_FALSE
    }
}

/// Whether the list holds a pair of the given name, whatever its tag.
pub fn nvlist_exists(list: &nvlist_t, name: &[u8]) -> (b: boolean_t)
    ensures
        b == if list@.has_name(name@) {
            boolean_t::B_TRUE
        } else {
            boolean_t::B_FALSE
        },
{
    let at = list.position(name, None);
    proof {
        lemma_first_hit(list@.pairs, |p: NvPairModel| p.name == name@, 0);
    }
    if at < list.nvl_pairs.len() {
        boolean_t::B_TRUE
    } else {
        boolean_t::B_FALSE
    }
}

/// Removes the first pair of the given name and tag. Fails with `ENOENT`,
/// changing nothing, where there is none.
pub fn nvlist_remove(list: &mut nvlist_t, name: &[u8], data_type: data_type_t) -> (status: i32)
    ensures
        status == if old(list)@.find(name@, data_type) < old(list)@.pairs.len() {
            0
        } else {
            ENOENT
        },
        final(list)@ == old(list)@.remove(name@, data_type),
        old(list)@.wf() ==> final(list)@.wf(),
{
    proof {
        if list@.wf() {
            lemma_remove_keeps_wf(list@, name@, data_type);
        }
    }
    let at = list.position(name, Some(data_type));
    if at < list.nvl_pairs.len() {
        list.nvl_pairs.remove(at);
        assert(list@.pairs =~= old(list)@.pairs.remove(at as int));
        0
    } else {
        ENOENT
    }
}

/// Advances a cursor: given the position of the pair last seen, or `None`
/// before the first, returns the position of the pair that follows, or `None`
/// after the last. A position is good only as long as the list is not
/// changed: one that no longer lies in the list must not be handed in.
pub fn nvlist_next_nvpair(list: &nvlist_t, pair: Option<usize>) -> (next: Option<usize>)
    requires
        pair is Some ==> pair.unwrap() < list@.pairs.len(),
    ensures
        position_of(next) == list@.next(position_of(pair)),
{
    assert(list@.pairs.len() == list.nvl_pairs@.len());
    match pair {
        None => if list.nvl_pairs.len() > 0 {
            Some(0)
        } else {
            None
        },
        Some(at) => {
            let len = list.nvl_pairs.len();
            if at + 1 < len {
                Some(at + 1)
            } else {
                None
            }
        },
    }
}

/// The pair at a position that `nvlist_next_nvpair` returned.
pub fn nvlist_pair(list: &nvlist_t, at: usize) -> (pair: &nvpair_t)
    requires
        at < list@.pairs.len(),
    ensures
        pair@ == list@.pairs[at as int],
{
    &list.nvl_pairs[at]
}

/// The uniqueness flag that the list was allocated with.
pub fn nvlist_nvflag(list: &nvlist_t) -> (nvflag: u32)
    ensures
        nvflag == list@.nvflag,
{
    list.nvl_nvflag
}

/// The bytes of a pair's name.
pub fn nvpair_name(pair: &nvpair_t) -> (name: &[u8])
    ensures
        name@ == pair@.name,
{
    pair.nvp_name.as_slice()
}

/// A pair's type tag.
pub fn nvpair_type(pair: &nvpair_t) -> (data_type: data_type_t)
    ensures
        data_type == pair@.tag,
{
    pair.nvp_type
}

/// Adds a copy of a pair: its name, tag and payload, under a header computed
/// anew. Fails with `EINVAL` where these make no pair and with `EEXIST` where
/// the list's flag forbids it; the list is then unchanged.
pub fn nvlist_add_nvpair(list: &mut nvlist_t, pair: &nvpair_t) -> (status: i32)
    ensures
        status == old(list)@.add_status(pair@.name, pair@.tag, pair@.value),
        final(list)@ == old(list)@.add(pair@.name, pair@.tag, pair@.value),
        old(list)@.wf() ==> final(list)@.wf(),
{
    proof {
        if list@.wf() {
            lemma_add_keeps_wf(list@, pair@.name, pair@.tag, pair@.value);
        }
    }
    list.add_common(pair.nvp_name.as_slice(), pair.nvp_type, pair.nvp_value.as_slice())
}

/// Adds a flag: a pair without a payload, whose presence is its value.
pub fn nvlist_add_boolean(list: &mut nvlist_t, name: &[u8]) -> (status: i32)
    ensures
        status == old(list)@.add_status(name@, data_type_t::DATA_TYPE_BOOLEAN, Seq::empty()),
        final(list)@ == old(list)@.add(name@, data_type_t::DATA_TYPE_BOOLEAN, Seq::empty()),
        old(list)@.wf() ==> final(list)@.wf(),
{
    proof {
        if list@.wf() {
            lemma_add_keeps_wf(list@, name@, data_type_t::DATA_TYPE_BOOLEAN, Seq::empty());
        }
    }
    let vals: Vec<boolean_t> = Vec::new();
    assert(vals@ =~= Seq::empty());
    list.add_common(name, data_type_t::DATA_TYPE_BOOLEAN, vals.as_slice())
}

/// Status zero where the list holds a flag of the given name, else `ENOENT`.
pub fn nvlist_lookup_boolean(list: &nvlist_t, name: &[u8]) -> (status: i32)
    ensures
        status == if list@.find(name@, data_type_t::DATA_TYPE_BOOLEAN) < list@.pairs.len() {
            0
        } else {
            ENOENT
        },
{
    let at = list.position(name, Some(data_type_t::DATA_TYPE_BOOLEAN));
    if at < list.nvl_pairs.len() {
        0
    } else {
        ENOENT
    }
}

/// Adds a boolean scalar.
pub fn nvlist_add_boolean_value(list: &mut nvlist_t, name: &[u8], val: boolean_t) -> (status: i32)
    ensures
        status == old(list)@.add_status(name@, data_type_t::DATA_TYPE_BOOLEAN_VALUE, seq![val]),
        final(list)@ == old(list)@.add(name@, data_type_t::DATA_TYPE_BOOLEAN_VALUE, seq![val]),
        old(list)@.wf() ==> final(list)@.wf(),
{
    proof {
        if list@.wf() {
            lemma_add_keeps_wf(list@, name@, data_type_t::DATA_TYPE_BOOLEAN_VALUE, seq![val]);
        }
    }
    let mut vals: Vec<boolean_t> = Vec::new();
    vals.push(val);
    assert(vals@ =~= seq![val]);
    list.add_common(name, data_type_t::DATA_TYPE_BOOLEAN_VALUE, vals.as_slice())
}

/// Reads the scalar of the first boolean-scalar pair of the given name into
/// `val`. Fails with `ENOENT` where there is none, with `EINVAL` where the
/// pair does not hold one boolean; `val` is then unchanged.
pub fn nvlist_lookup_boolean_value(list: &nvlist_t, name: &[u8], val: &mut boolean_t) -> (status: i32)
    ensures
        ({
            let at = list@.find(name@, data_type_t::DATA_TYPE_BOOLEAN_VALUE);
            if at >= list@.pairs.len() {
                status == ENOENT && *final(val) == *old(val)
            } else if list@.pairs[at].value.len() == 1 {
                status == 0 && *final(val) == list@.pairs[at].value[0]
            } else {
                status == EINVAL && *final(val) == *old(val)
            }
        }),
        list@.wf() ==> status != EINVAL,
{
    proof {
        lemma_first_hit(
            list@.pairs,
            |p: NvPairModel| p.name == name@ && p.tag == data_type_t::DATA_TYPE_BOOLEAN_VALUE,
            0,
        );
    }
    let at = list.position(name, Some(data_type_t::DATA_TYPE_BOOLEAN_VALUE));
    if at < list.nvl_pairs.len() {
        let pair = &list.nvl_pairs[at];
        assert(list@.pairs[at as int] == pair@);
        nvpair_value_boolean_value(pair, val)
    } else {
        ENOENT
    }
}

/// Reads a pair's boolean scalar into `val`. Fails with `EINVAL`, leaving
/// `val` as it was, where the pair does not hold one boolean under the
/// scalar's tag.
pub fn nvpair_value_boolean_value(pair: &nvpair_t, val: &mut boolean_t) -> (status: i32)
    ensures
        pair@.holds_boolean_value() ==> status == 0 && *final(val) == pair@.value[0],
        !pair@.holds_boolean_value() ==> status == EINVAL && *final(val) == *old(val),
{
    match pair.nvp_type {
        data_type_t::DATA_TYPE_BOOLEAN_VALUE => {
            if pair.nvp_value.len() == 1 {
                *val = pair.nvp_value[0];
                0
            } else {
                EINVAL
            }
        },
        _ => EINVAL,
    }
}

/// Adds a boolean array of the first `nr_elem` elements of `vals`, which are
/// copied. Fails with `EINVAL` where `vals` holds fewer.
pub fn nvlist_add_boolean_array(list: &mut nvlist_t, name: &[u8], vals: &[boolean_t], nr_elem: u32) -> (status: i32)
    ensures
        nr_elem > vals@.len() ==> status == EINVAL && final(list)@ == old(list)@,
        nr_elem <= vals@.len() ==> status == old(list)@.add_status(
            name@,
            data_type_t::DATA_TYPE_BOOLEAN_ARRAY,
            vals@.take(nr_elem as int),
        ) && final(list)@ == old(list)@.add(
            name@,
            data_type_t::DATA_TYPE_BOOLEAN_ARRAY,
            vals@.take(nr_elem as int),
        ),
        old(list)@.wf() ==> final(list)@.wf(),
{
    if nr_elem as usize > vals.len() {
        return EINVAL;
    }
    proof {
        if list@.wf() {
            lemma_add_keeps_wf(list@, name@, data_type_t::DATA_TYPE_BOOLEAN_ARRAY, vals@.take(nr_elem as int));
        }
    }
    list.add_common(name, data_type_t::DATA_TYPE_BOOLEAN_ARRAY, slice_subrange(vals, 0, nr_elem as usize))
}

/// Lends a pair's boolean array and its element count. The array stays the
/// pair's: the borrow ends before the list can change. Fails with `EINVAL`
/// where the pair does not hold, under the array's tag, as many booleans as
/// its header counts.
pub fn nvpair_value_boolean_array(pair: &nvpair_t) -> (r: Result<(&[boolean_t], u32), i32>)
    ensures
        match r {
            Ok((vals, nr_elem)) => pair@.holds_boolean_array() && vals@ == pair@.value && nr_elem
                == pair@.value.len(),
            Err(status) => !pair@.holds_boolean_array() && status == EINVAL,
        },
{
    match pair.nvp_type {
        data_type_t::DATA_TYPE_BOOLEAN_ARRAY => {
            if pair.nvp_value_elem >= 0 && pair.nvp_value_elem as usize == pair.nvp_value.len() {
                Ok((pair.nvp_value.as_slice(), pair.nvp_value_elem as u32))
            } else {
                Err(EINVAL)
            }
        },
        _ => Err(EINVAL),
    }
}

} // verus!
