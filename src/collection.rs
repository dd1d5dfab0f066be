//! Fetched collections: each is read out of the current envelope and ordered
//! by id, as `String` orders text.
use vstd::prelude::*;
use crate::envelope::{current_outcome, BridgeResponseV2};
use crate::error::HueError;
use crate::resource::{Device, Room, Scene, SmartScene, Zone};

verus! {

/// A record identified by its `id`.
pub trait Identified {
    spec fn id_view(&self) -> Seq<char>;

    fn id(&self) -> (r: &String)
        ensures
            r@ == self.id_view(),
    ;
}

impl Identified for Device {
    open spec fn id_view(&self) -> Seq<char> {
        self.id@
    }

    fn id(&self) -> (r: &String) {
        &self.id
    }
}

impl Identified for Room {
    open spec fn id_view(&self) -> Seq<char> {
        self.id@
    }

    fn id(&self) -> (r: &String) {
        &self.id
    }
}

impl Identified for Zone {
    open spec fn id_view(&self) -> Seq<char> {
        self.id@
    }

    fn id(&self) -> (r: &String) {
        &self.id
    }
}

impl Identified for Scene {
    open spec fn id_view(&self) -> Seq<char> {
        self.id@
    }

    fn id(&self) -> (r: &String) {
        &self.id
    }
}

impl Identified for SmartScene {
    open spec fn id_view(&self) -> Seq<char> {
        self.id@
    }

    fn id(&self) -> (r: &String) {
        &self.id
    }
}

/// `a` comes before `b` in lexicographic order of characters, which is the
/// order of their UTF-8 bytes.
pub open spec fn text_less(a: Seq<char>, b: Seq<char>) -> bool
    decreases a.len(),
{
    if a.len() == 0 {
        b.len() > 0
    } else if b.len() == 0 {
        false
    } else if a[0] != b[0] {
        (a[0] as u32) < (b[0] as u32)
    } else {
        text_less(a.drop_first(), b.drop_first())
    }
}

/// No record comes after a later one by id.
pub open spec fn sorted_by_id<T: Identified>(s: Seq<T>) -> bool {
    forall|i: int, j: int| 0 <= i < j < s.len() ==> !text_less(#[trigger] s[j].id_view(), #[trigger] s[i].id_view())
}

/// Relies on slice::sort_by, with `String::cmp` on the ids: the records are
/// rearranged, none added or lost, into ascending order of id, which for
/// `String` is lexicographic.
#[verifier::external_body]
fn sort_by_id<T: Identified>(v: &mut Vec<T>)
    ensures
        final(v)@.to_multiset() == old(v)@.to_multiset(),
        sorted_by_id(final(v)@),
{
    v.sort_by(|a, b| a.id().cmp(b.id()))
}

/// A fetched collection: the data of the envelope, ordered by id, or the
/// error the envelope carries.
pub fn collection_from_envelope<T: Identified>(resp: BridgeResponseV2<T>) -> (r: Result<Vec<T>, HueError>)
    ensures
        resp.errors@.len() > 0 ==> current_outcome(resp, r),
        resp.errors@.len() == 0 ==> (r matches Ok(v) && v@.to_multiset() == resp.data@.to_multiset()
            && sorted_by_id(v@)),
{
    match resp.get() {
        Ok(mut data) => {
            sort_by_id(&mut data);
            Ok(data)
        },
        Err(e) => Err(e),
    }
}

/// A record's id with its position in the list it came from; it stands for a
/// record that this library does not hold itself, such as a light.
#[derive(Debug, Clone)]
pub struct IndexedId {
    pub id: String,
    pub index: usize,
}

impl Identified for IndexedId {
    open spec fn id_view(&self) -> Seq<char> {
        self.id@
    }

    fn id(&self) -> (r: &String) {
        &self.id
    }
}

/// The ids of a list, each with its position.
pub open spec fn indexed_ids(ids: Seq<String>) -> Seq<IndexedId> {
    Seq::new(ids.len(), |i: int| IndexedId { id: ids[i], index: i as usize })
}

/// The order by id of a list of ids: each id with its position, sorted by id,
/// so that a caller can put the records the ids belong to in that order.
pub fn order_by_id(ids: &Vec<String>) -> (r: Vec<IndexedId>)
    ensures
        r@.to_multiset() == indexed_ids(ids@).to_multiset(),
        sorted_by_id(r@),
{
    let mut keys: Vec<IndexedId> = Vec::new();
    let mut i: usize = 0;
    while i < ids.len()
        invariant
            i <= ids.len(),
            keys@ == indexed_ids(ids@).subrange(0, i as int),
        decreases ids.len() - i,
    {
        keys.push(IndexedId { id: ids[i].clone(), index: i });
        assert(keys@ =~= indexed_ids(ids@).subrange(0, i + 1));
        i = i + 1;
    }
    assert(keys@ =~= indexed_ids(ids@));
    sort_by_id(&mut keys);
    keys
}

} // verus!
