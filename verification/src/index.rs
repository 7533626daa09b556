//! The parent-keyed index: for each parent file reference number, the records
//! of its children in the order in which they were inserted.

use std::collections::HashMap;
use vstd::prelude::*;
use crate::record::{views, FileRecord, FileRecordView};

verus! {

broadcast use vstd::std_specs::hash::group_hash_axioms;

/// Maps a parent file reference number to its child records, oldest first.
/// It only grows: there is no update and no removal.
pub struct ParentChildIndex {
    lists: HashMap<u64, Vec<FileRecord>>,
    nothing: Vec<FileRecord>,
}

/// The list under `parent` in a map of child lists; empty where there is none.
pub open spec fn children_in(
    lists: Map<u64, Seq<FileRecordView>>,
    parent: u64,
) -> Seq<FileRecordView> {
    if lists.contains_key(parent) {
        lists[parent]
    } else {
        Seq::empty()
    }
}

/// A map of child lists after `record` has been added to its parent's list.
pub open spec fn with_record(
    lists: Map<u64, Seq<FileRecordView>>,
    record: FileRecordView,
) -> Map<u64, Seq<FileRecordView>> {
    lists.insert(
        record.parent_file_reference_number,
        children_in(lists, record.parent_file_reference_number).push(record),
    )
}

/// A map of child lists after `records` have been added one by one, first to
/// last.
pub open spec fn with_records(
    lists: Map<u64, Seq<FileRecordView>>,
    records: Seq<FileRecordView>,
) -> Map<u64, Seq<FileRecordView>>
    decreases records.len(),
{
    if records.len() == 0 {
        lists
    } else {
        with_record(with_records(lists, records.drop_last()), records.last())
    }
}

impl View for ParentChildIndex {
    type V = Map<u64, Seq<FileRecordView>>;

    closed spec fn view(&self) -> Map<u64, Seq<FileRecordView>> {
        Map::new(|k: u64| self.lists@.contains_key(k), |k: u64| views(self.lists@[k]@))
    }
}

impl ParentChildIndex {
    /// Well-formedness: a list exists only once it has a record.
    pub closed spec fn wf(&self) -> bool {
        &&& self.nothing@.len() == 0
        &&& forall|k: u64| #[trigger] self.lists@.contains_key(k) ==> self.lists@[k]@.len() > 0
    }

    /// The child list of `parent`, empty where it has none.
    pub open spec fn children_spec(&self, parent: u64) -> Seq<FileRecordView> {
        children_in(self@, parent)
    }

    /// An index without records.
    pub fn new() -> (index: ParentChildIndex)
        ensures
            index.wf(),
            index@ == Map::<u64, Seq<FileRecordView>>::empty(),
    {
        let index = ParentChildIndex { lists: HashMap::new(), nothing: Vec::new() };
        assert(index@ =~= Map::<u64, Seq<FileRecordView>>::empty());
        index
    }

    /// Appends `record` to the list of its parent, which is created by the
    /// first record under that parent. Every other list stays as it was.
    pub fn insert(&mut self, record: FileRecord)
        requires
            old(self).wf(),
        ensures
            final(self).wf(),
            final(self)@ == with_record(old(self)@, record@),
    {
        let parent: u64 = record.parent_file_reference_number;
        let mut list: Vec<FileRecord> = match self.lists.remove(&parent) {
            Some(list) => list,
            None => Vec::new(),
        };
        let ghost was = list@;
        list.push(record);
        self.lists.insert(parent, list);
        proof {
            assert(views(was.push(record)) =~= views(was).push(record@));
            assert(views(Seq::<FileRecord>::empty()) =~= Seq::<FileRecordView>::empty());
            assert(self@ =~= with_record(old(self)@, record@));
        }
    }

    /// The children of `parent` in insertion order. A parent without
    /// children has the empty list.
    pub fn children(&self, parent: u64) -> (list: &Vec<FileRecord>)
        requires
            self.wf(),
        ensures
            views(list@) == self.children_spec(parent),
    {
        match self.lists.get(&parent) {
            Some(list) => list,
            None => {
                proof {
                    assert(views(self.nothing@) =~= Seq::<FileRecordView>::empty());
                }
                &self.nothing
            },
        }
    }

    /// Whether any record has `parent` as its parent.
    pub fn has_children(&self, parent: u64) -> (b: bool)
        requires
            self.wf(),
        ensures
            b == self@.contains_key(parent),
            b == (self.children_spec(parent).len() > 0),
    {
        self.lists.contains_key(&parent)
    }
}

/// Inserts `records` into `index`, first to last.
pub fn insert_all(index: &mut ParentChildIndex, records: Vec<FileRecord>)
    requires
        old(index).wf(),
    ensures
        final(index).wf(),
        final(index)@ == with_records(old(index)@, views(records@)),
{
    let ghost all = records@;
    let ghost start = index@;
    for record in it: records.into_iter()
        invariant
            it.seq() == all,
            index.wf(),
            index@ == with_records(start, views(all.take(it.index() as int))),
    {
        proof {
            let done = it.index() as int;
            assert(views(all.take(done + 1)).drop_last() =~= views(all.take(done)));
            assert(views(all.take(done + 1)).last() == all[done]@);
        }
        index.insert(record);
    }
    proof {
        assert(all.take(all.len() as int) =~= all);
    }
}

/// The records among `records` whose parent is `parent`, in their order.
pub open spec fn children_among(records: Seq<FileRecordView>, parent: u64) -> Seq<FileRecordView>
    decreases records.len(),
{
    if records.len() == 0 {
        Seq::empty()
    } else {
        let earlier = children_among(records.drop_last(), parent);
        if records.last().parent_file_reference_number == parent {
            earlier.push(records.last())
        } else {
            earlier
        }
    }
}

/// Insertion keeps the order of enumeration under every parent: after
/// `records` have been inserted, the list of a parent is what it was,
/// followed by those of `records` that name it as their parent, in the order
/// in which they came.
pub proof fn lemma_children_in_insertion_order(
    lists: Map<u64, Seq<FileRecordView>>,
    records: Seq<FileRecordView>,
    parent: u64,
)
    ensures
        children_in(with_records(lists, records), parent) == children_in(lists, parent)
            + children_among(records, parent),
    decreases records.len(),
{
    if records.len() == 0 {
        assert(children_in(lists, parent) + Seq::<FileRecordView>::empty() =~= children_in(
            lists,
            parent,
        ));
    } else {
        lemma_children_in_insertion_order(lists, records.drop_last(), parent);
        let before = children_in(lists, parent);
        let earlier = children_among(records.drop_last(), parent);
        assert((before + earlier).push(records.last()) =~= before + earlier.push(records.last()));
    }
}

/// Inserting one run of records and then another is inserting the two runs
/// joined.
pub proof fn lemma_with_records_joined(
    lists: Map<u64, Seq<FileRecordView>>,
    first: Seq<FileRecordView>,
    second: Seq<FileRecordView>,
)
    ensures
        with_records(with_records(lists, first), second) == with_records(lists, first + second),
    decreases second.len(),
{
    if second.len() == 0 {
        assert(first + second =~= first);
    } else {
        lemma_with_records_joined(lists, first, second.drop_last());
        assert((first + second).drop_last() =~= first + second.drop_last());
        assert((first + second).last() == second.last());
    }
}

} // verus!
