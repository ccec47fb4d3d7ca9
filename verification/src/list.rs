//! The owned property list.
use crate::bridge::{
    decode_list, decode_pair, decoded, encode_pairs, lemma_encode_stops, undecodable,
};
use crate::error::Error;
use crate::foreign::{
    lemma_first_hit, nvlist_next_nvpair, nvlist_pair, nvlist_t, NvPairModel, NV_UNIQUE_NAME,
    NV_UNIQUE_NAME_TYPE,
};
use crate::value::{Pair, PairModel};
use vstd::prelude::*;
use vstd::std_specs::cmp::PartialEqSpecImpl;

verus! {

/// Which pairs of a list may stand side by side.
#[derive(Clone, Copy, Debug, PartialEq, Eq, Structural)]
pub enum Uniqueness {
    /// Nobody has looked: the list was read from a foreign one whose own
    /// flag was not carried over. This does not say that there is no constraint.
    Unknown,
    /// No constraint: any pairs, duplicates too.
    Unconstrained,
    /// No two pairs of one name.
    Name,
    /// No two pairs of one name and one type tag.
    Pair,
}

impl Uniqueness {
    /// The mode that a foreign uniqueness flag encodes; `Unknown` for a flag
    /// that encodes none.
    pub open spec fn of_nvflag(nvflag: u32) -> Uniqueness {
        if nvflag == 0 {
            Uniqueness::Unconstrained
        } else if nvflag == NV_UNIQUE_NAME {
            Uniqueness::Name
        } else if nvflag == NV_UNIQUE_NAME_TYPE {
            Uniqueness::Pair
        } else {
            Uniqueness::Unknown
        }
    }

    /// The mode that a foreign uniqueness flag encodes; `Unknown` for a flag
    /// that encodes none.
    pub fn from_nvflag(nvflag: u32) -> (u: Uniqueness)
        ensures
            u == Uniqueness::of_nvflag(nvflag),
    {
        if nvflag == 0 {
            Uniqueness::Unconstrained
        } else if nvflag == NV_UNIQUE_NAME {
            Uniqueness::Name
        } else if nvflag == NV_UNIQUE_NAME_TYPE {
            Uniqueness::Pair
        } else {
            Uniqueness::Unknown
        }
    }

    /// The foreign uniqueness flag that encodes the mode. `Unknown` has none:
    /// it is not taken for "no constraint".
    pub fn nvflag(self) -> (nvflag: Option<u32>)
        ensures
            nvflag == match self {
                Uniqueness::Unknown => None::<u32>,
                Uniqueness::Unconstrained => Some(0u32),
                Uniqueness::Name => Some(NV_UNIQUE_NAME),
                Uniqueness::Pair => Some(NV_UNIQUE_NAME_TYPE),
            },
    {
        match self {
            Uniqueness::Unknown => None,
            Uniqueness::Unconstrained => Some(0),
            Uniqueness::Name => Some(NV_UNIQUE_NAME),
            Uniqueness::Pair => Some(NV_UNIQUE_NAME_TYPE),
        }
    }
}

/// An ordered collection of pairs under a declared uniqueness mode. The order
/// of insertion is kept: it is the order of iteration and of encoding.
#[derive(Debug)]
pub struct List {
    uniqueness: Uniqueness,
    pairs: Vec<Pair>,
}

/// What a list is, mathematically.
pub ghost struct ListModel {
    pub uniqueness: Uniqueness,
    pub pairs: Seq<PairModel>,
}

impl View for List {
    type V = ListModel;

    closed spec fn view(&self) -> ListModel {
        ListModel { uniqueness: self.uniqueness, pairs: self.pairs@.map_values(|p: Pair| p@) }
    }
}

/// Whether two pairs may not stand in one list of the given mode: under
/// `Name` when they share the name, under `Pair` when they share name and
/// type tag, otherwise never.
pub open spec fn same_key(mode: Uniqueness, a: PairModel, b: PairModel) -> bool {
    match mode {
        Uniqueness::Name => a.name == b.name,
        Uniqueness::Pair => a.name == b.name && a.value.data_type() == b.value.data_type(),
        _ => false,
    }
}

impl ListModel {
    /// Whether the list keeps what its mode declares: no two of its pairs
    /// share a key.
    pub open spec fn respects_mode(self) -> bool {
        forall|i: int, j: int|
            0 <= i < j < self.pairs.len() ==> !same_key(
                self.uniqueness,
                #[trigger] self.pairs[i],
                #[trigger] self.pairs[j],
            )
    }

    /// Whether some pair of the list shares its key with the given one.
    pub open spec fn holds_key_of(self, pair: PairModel) -> bool {
        exists|i: int|
            0 <= i < self.pairs.len() && same_key(self.uniqueness, #[trigger] self.pairs[i], pair)
    }
}

/// Two lists are equal when their modes are and they hold equal pairs in the
/// same order.
impl PartialEq for List {
    fn eq(&self, other: &Self) -> (r: bool) {
        assert(self@.pairs.len() == self.pairs@.len() && other@.pairs.len() == other.pairs@.len());
        if !(self.uniqueness == other.uniqueness) || self.pairs.len() != other.pairs.len() {
            return false;
        }
        let mut i: usize = 0;
        while i < self.pairs.len()
            invariant
                i <= self.pairs@.len(),
                self.pairs@.len() == other.pairs@.len(),
                self.uniqueness == other.uniqueness,
                forall|j: int| 0 <= j < i ==> self.pairs@[j]@ == other.pairs@[j]@,
            decreases self.pairs@.len() - i,
        {
            if self.pairs[i] != other.pairs[i] {
                assert(self@.pairs[i as int] != other@.pairs[i as int]);
                return false;
            }
            i = i + 1;
        }
        assert(self@.pairs =~= other@.pairs);
        true
    }
}

impl PartialEqSpecImpl for List {
    open spec fn obeys_eq_spec() -> bool {
        true
    }

    open spec fn eq_spec(&self, other: &Self) -> bool {
        self@ == other@
    }
}

impl List {
    /// An empty list of the given mode.
    pub fn new(u: Uniqueness) -> (list: List)
        ensures
            list@ == (ListModel { uniqueness: u, pairs: Seq::empty() }),
    {
        let list = List { uniqueness: u, pairs: Vec::new() };
        assert(list@.pairs =~= Seq::empty());
        list
    }

    /// Appends a pair, whatever the list's mode, and hands the list back so
    /// that calls can be chained.
    pub fn add(&mut self, pair: Pair) -> (list: &mut List)
        ensures
            list@ == (ListModel { uniqueness: old(self)@.uniqueness, pairs: old(self)@.pairs.push(pair@) }),
            *final(self) == *final(list),
    {
        self.pairs.push(pair);
        assert(self@.pairs =~= old(self)@.pairs.push(pair@));
        self
    }

    /// Appends a pair unless the list's mode forbids it: under `Name` a pair
    /// whose name the list already holds, under `Pair` one whose name and
    /// type tag it already holds, is refused as a duplicate key and the list
    /// stays as it was. Under `Unconstrained` and `Unknown` nothing is refused.
    pub fn add_checked(&mut self, pair: Pair) -> (r: Result<(), Error>)
        ensures
            old(self)@.holds_key_of(pair@) ==> r == Err::<(), Error>(Error::DuplicateKey) && final(self)@
                == old(self)@,
            !old(self)@.holds_key_of(pair@) ==> r is Ok && final(self)@ == (ListModel {
                uniqueness: old(self)@.uniqueness,
                pairs: old(self)@.pairs.push(pair@),
            }),
            old(self)@.respects_mode() ==> final(self)@.respects_mode(),
    {
        let by_name = match self.uniqueness {
            Uniqueness::Name => true,
            Uniqueness::Pair => false,
            _ => {
                self.add(pair);
                return Ok(());
            },
        };
        let mut i: usize = 0;
        while i < self.pairs.len()
            invariant
                i <= self.pairs@.len(),
                self@.pairs.len() == self.pairs@.len(),
                *self == *old(self),
                by_name ==> self.uniqueness == Uniqueness::Name,
                !by_name ==> self.uniqueness == Uniqueness::Pair,
                forall|j: int| 0 <= j < i ==> !same_key(self@.uniqueness, #[trigger] self@.pairs[j], pair@),
            decreases self.pairs@.len() - i,
        {
            let held = &self.pairs[i];
            assert(self@.pairs[i as int] == held@);
            if held.0 == pair.0 && (by_name || held.1.data_type() == pair.1.data_type()) {
                assert(same_key(self@.uniqueness, self@.pairs[i as int], pair@));
                return Err(Error::DuplicateKey);
            }
            i = i + 1;
        }
        self.add(pair);
        Ok(())
    }

    /// The same pairs under another declared mode: for the caller who knows
    /// the mode of the foreign list that the pairs were decoded from.
    pub fn with_uniqueness(self, u: Uniqueness) -> (list: List)
        ensures
            list@ == (ListModel { uniqueness: u, pairs: self@.pairs }),
    {
        List { uniqueness: u, pairs: self.pairs }
    }

    /// Decodes a foreign list: walks it with a cursor from before the first
    /// pair to behind the last, decodes each pair and collects them in the
    /// foreign order. The first pair that does not decode ends the walk with
    /// its error, and nothing of what was collected is returned.
    pub fn from_ffi(nvlist: &nvlist_t) -> (r: Result<List, Error>)
        ensures
            match r {
                Ok(list) => decode_list(nvlist@) == Ok::<ListModel, Error>(list@),
                Err(e) => decode_list(nvlist@) == Err::<ListModel, Error>(e),
            },
    {
        let mut pairs: Vec<Pair> = Vec::new();
        let mut prev: Option<usize> = None;
        let ghost mut done: int = 0;
        loop
            invariant
                0 <= done <= nvlist@.pairs.len(),
                prev is None ==> done == 0,
                prev is Some ==> done == prev.unwrap() + 1,
                pairs@.len() == done,
                forall|j: int|
                    0 <= j < done ==> decode_pair(#[trigger] nvlist@.pairs[j]) == Ok::<
                        PairModel,
                        Error,
                    >(pairs@[j]@),
            ensures
                done == nvlist@.pairs.len(),
            decreases nvlist@.pairs.len() - done,
        {
            let pair = nvlist_next_nvpair(nvlist, prev);
            match pair {
                None => {
                    break ;
                },
                Some(at) => {
                    match Pair::from_ffi(nvlist_pair(nvlist, at)) {
                        Ok(owned) => {
                            pairs.push(owned);
                        },
                        Err(e) => {
                            proof {
                                lemma_first_hit(nvlist@.pairs, undecodable(), 0);
                            }
                            return Err(e);
                        },
                    }
                },
            }
            prev = pair;
            proof {
                done = done + 1;
            }
        }
        let list = List { uniqueness: Uniqueness::Unknown, pairs };
        proof {
            lemma_first_hit(nvlist@.pairs, undecodable(), 0);
            assert(list@.pairs =~= nvlist@.pairs.map_values(|p: NvPairModel| decoded(p)));
        }
        Ok(list)
    }

    /// Encodes the list into a foreign list: adds its pairs one by one in the
    /// order of insertion. The first pair that the foreign side refuses ends
    /// the call with that status; the pairs added before it stay in the
    /// foreign list, which is not rolled back.
    pub fn to_ffi(&self, nvlist: &mut nvlist_t) -> (r: Result<(), Error>)
        ensures
            final(nvlist)@ == encode_pairs(old(nvlist)@, self@.pairs).0,
            match r {
                Ok(_) => encode_pairs(old(nvlist)@, self@.pairs).1 == 0,
                Err(e) => encode_pairs(old(nvlist)@, self@.pairs).1 != 0 && e
                    == Error::ForeignOperationFailed(encode_pairs(old(nvlist)@, self@.pairs).1),
            },
            old(nvlist)@.wf() ==> final(nvlist)@.wf(),
    {
        let ghost start = nvlist@;
        let mut i: usize = 0;
        while i < self.pairs.len()
            invariant
                i <= self.pairs@.len(),
                self@.pairs.len() == self.pairs@.len(),
                start == old(nvlist)@,
                encode_pairs(start, self@.pairs.take(i as int)) == (nvlist@, 0i32),
                start.wf() ==> nvlist@.wf(),
            decreases self.pairs@.len() - i,
        {
            let ghost before = nvlist@;
            let ghost upto = self@.pairs.take(i + 1);
            assert(upto.drop_last() == self@.pairs.take(i as int));
            assert(upto.last() == self.pairs@[i as int]@);
            match self.pairs[i].to_ffi(nvlist) {
                Ok(_) => {},
                Err(e) => {
                    proof {
                        lemma_encode_stops(start, self@.pairs, i + 1);
                    }
                    return Err(e);
                },
            }
            i = i + 1;
        }
        assert(self@.pairs.take(i as int) == self@.pairs);
        Ok(())
    }

    /// The list's declared mode.
    pub fn uniqueness(&self) -> (u: Uniqueness)
        ensures
            u == self@.uniqueness,
    {
        self.uniqueness
    }

    /// The number of pairs.
    pub fn len(&self) -> (n: usize)
        ensures
            n == self@.pairs.len(),
    {
        self.pairs.len()
    }

    /// The pair at a position, counted from zero in the order of insertion,
    /// or `None` behind the last.
    pub fn get(&self, at: usize) -> (pair: Option<&Pair>)
        ensures
            at < self@.pairs.len() ==> pair is Some && pair.unwrap()@ == self@.pairs[at as int],
            at >= self@.pairs.len() ==> pair is None,
    {
        if at < self.pairs.len() {
            Some(&self.pairs[at])
        } else {
            None
        }
    }

    /// The pairs in the order of insertion. The list is not consumed: asking
    /// again gives the same pairs.
    pub fn pairs(&self) -> (pairs: &[Pair])
        ensures
            pairs@.map_values(|p: Pair| p@) == self@.pairs,
    {
        self.pairs.as_slice()
    }
}

} // verus!
