//! The state table: from application name, compared without regard to ASCII
//! case, to the status that the application stands for.

use vstd::prelude::*;
use vstd::hash_map::StringHashMap;
use crate::text::{lowercase, same_ignoring_case, lemma_lowercase_idempotent};

verus! {

/// One row of the configuration: the executable's file name and the status
/// reported while that executable has the focus.
#[derive(Debug, Clone, PartialEq, Eq)]
pub struct StatusRecord {
    pub name: String,
    pub description: String,
}

/// What a `StatusRecord` holds, as plain text.
pub struct RecordView {
    pub name: Seq<char>,
    pub description: Seq<char>,
}

impl View for StatusRecord {
    type V = RecordView;

    open spec fn view(&self) -> RecordView {
        RecordView { name: self.name@, description: self.description@ }
    }
}

impl DeepView for StatusRecord {
    type V = RecordView;

    open spec fn deep_view(&self) -> RecordView {
        self@
    }
}

/// The table that a sequence of records builds: each record in turn is
/// entered under its folded name, so a later record replaces an earlier one
/// with the same folded name.
pub open spec fn table_of(records: Seq<RecordView>) -> Map<Seq<char>, Seq<char>>
    decreases records.len(),
{
    if records.len() == 0 {
        Map::empty()
    } else {
        table_of(records.drop_last()).insert(
            lowercase(records.last().name),
            records.last().description,
        )
    }
}

/// What a table answers for a name: the entry under the folded name.
pub open spec fn lookup_in(table: Map<Seq<char>, Seq<char>>, name: Seq<char>) -> Option<Seq<char>> {
    if table.contains_key(lowercase(name)) {
        Some(table[lowercase(name)])
    } else {
        None
    }
}

/// Whether every key of the table is its own folded form.
pub open spec fn keys_folded(table: Map<Seq<char>, Seq<char>>) -> bool {
    forall|key: Seq<char>| #[trigger] table.contains_key(key) ==> lowercase(key) == key
}

/// The name-to-status mapping, fixed once built. Keys are folded names.
pub struct StateTable {
    entries: StringHashMap<String>,
}

impl View for StateTable {
    type V = Map<Seq<char>, Seq<char>>;

    closed spec fn view(&self) -> Map<Seq<char>, Seq<char>> {
        self.entries@.map_values(|description: String| description@)
    }
}

impl StateTable {
    #[verifier::type_invariant]
    closed spec fn keys_are_folded(&self) -> bool {
        keys_folded(self@) && self@.dom().finite()
    }

    /// Builds the table from the records in their order; of records whose
    /// names differ in case only, the last one stays.
    pub fn from_records(records: &[StatusRecord]) -> (table: StateTable)
        ensures
            table@ == table_of(records.deep_view()),
    {
        let mut entries: StringHashMap<String> = StringHashMap::new();
        let ghost all = records.deep_view();
        let mut i: usize = 0;
        while i < records.len()
            invariant
                i <= records.len(),
                all == records.deep_view(),
                entries@.map_values(|description: String| description@) =~= table_of(all.take(i as int)),
                entries@.dom().finite(),
            decreases records.len() - i,
        {
            let key = records[i].name.as_str().to_ascii_lowercase();
            let description = records[i].description.clone();
            proof {
                assert(all.take(i + 1).drop_last() =~= all.take(i as int));
                assert(all.take(i + 1).last() == records[i as int]@);
            }
            entries.insert(key, description);
            i += 1;
        }
        proof {
            assert(all.take(records.len() as int) =~= all);
            lemma_table_keys_folded(all);
        }
        StateTable { entries }
    }

    /// The status for `name`, whatever the case of its ASCII letters; none
    /// when the table has no entry for it.
    pub fn lookup(&self, name: &str) -> (found: Option<&String>)
        ensures
            match found {
                Some(description) => lookup_in(self@, name@) == Some(description@),
                None => lookup_in(self@, name@).is_none(),
            },
    {
        let key = name.to_ascii_lowercase();
        self.entries.get(key.as_str())
    }

    /// The number of distinct folded names in the table.
    pub fn len(&self) -> (n: usize)
        ensures
            n == self@.len(),
    {
        proof {
            assert(self@.dom() =~= self.entries@.dom());
        }
        self.entries.len()
    }

    /// Whether the table has no entry at all.
    pub fn is_empty(&self) -> (empty: bool)
        ensures
            empty == (self@.len() == 0),
    {
        self.len() == 0
    }
}

/// Every key of a built table is a folded name.
pub proof fn lemma_table_keys_folded(records: Seq<RecordView>)
    ensures
        keys_folded(table_of(records)),
        table_of(records).dom().finite(),
    decreases records.len(),
{
    if records.len() > 0 {
        lemma_table_keys_folded(records.drop_last());
        lemma_lowercase_idempotent(records.last().name);
    }
}

/// A lookup does not see the case of ASCII letters: two names that are case
/// variants of each other get the same answer from any table.
pub proof fn lemma_lookup_ignores_case(
    table: Map<Seq<char>, Seq<char>>,
    name: Seq<char>,
    variant: Seq<char>,
)
    requires
        same_ignoring_case(name, variant),
    ensures
        lookup_in(table, name) == lookup_in(table, variant),
{
}

/// A built table answers for a name exactly when some record carries a case
/// variant of that name.
pub proof fn lemma_found_iff_recorded(records: Seq<RecordView>, name: Seq<char>)
    ensures
        lookup_in(table_of(records), name).is_some() <==> exists|i: int|
            0 <= i < records.len() && same_ignoring_case(name, #[trigger] records[i].name),
    decreases records.len(),
{
    if records.len() > 0 {
        let front = records.drop_last();
        lemma_found_iff_recorded(front, name);
        if same_ignoring_case(name, records.last().name) {
            assert(same_ignoring_case(name, records[records.len() - 1].name));
        } else if lookup_in(table_of(front), name).is_some() {
            let i = choose|i: int|
                0 <= i < front.len() && same_ignoring_case(name, #[trigger] front[i].name);
            assert(same_ignoring_case(name, records[i].name));
        } else {
            assert forall|i: int| 0 <= i < records.len() implies !same_ignoring_case(
                name,
                #[trigger] records[i].name,
            ) by {
                if i < front.len() {
                    assert(front[i] == records[i]);
                }
            }
        }
    }
}

/// Last record wins: the answer for a name is the description of the last
/// record that carries a case variant of it.
pub proof fn lemma_last_record_wins(records: Seq<RecordView>, last: int, name: Seq<char>)
    requires
        0 <= last < records.len(),
        same_ignoring_case(name, records[last].name),
        forall|later: int|
            last < later < records.len() ==> !same_ignoring_case(
                name,
                #[trigger] records[later].name,
            ),
    ensures
        lookup_in(table_of(records), name) == Some(records[last].description),
    decreases records.len(),
{
    if last < records.len() - 1 {
        let front = records.drop_last();
        assert(!same_ignoring_case(name, records[records.len() - 1].name));
        assert(front[last] == records[last]);
        assert forall|later: int| last < later < front.len() implies !same_ignoring_case(
            name,
            #[trigger] front[later].name,
        ) by {
            assert(front[later] == records[later]);
        }
        lemma_last_record_wins(front, last, name);
    }
}

/// Records whose names differ in case only leave exactly one entry, which
/// holds the description of the last of them.
pub proof fn lemma_case_variants_share_one_entry(records: Seq<RecordView>)
    requires
        records.len() > 0,
        forall|i: int|
            0 <= i < records.len() ==> same_ignoring_case(
                #[trigger] records[i].name,
                records[0].name,
            ),
    ensures
        table_of(records).len() == 1,
        table_of(records) == Map::<Seq<char>, Seq<char>>::empty().insert(
            lowercase(records[0].name),
            records.last().description,
        ),
    decreases records.len(),
{
    let key = lowercase(records[0].name);
    let front = records.drop_last();
    assert(same_ignoring_case(records[records.len() - 1].name, records[0].name));
    let only = Map::<Seq<char>, Seq<char>>::empty().insert(key, records.last().description);
    if front.len() > 0 {
        assert(front[0] == records[0]);
        assert forall|i: int| 0 <= i < front.len() implies same_ignoring_case(
            #[trigger] front[i].name,
            front[0].name,
        ) by {
            assert(front[i] == records[i]);
        }
        lemma_case_variants_share_one_entry(front);
    } else {
        assert(table_of(front) == Map::<Seq<char>, Seq<char>>::empty());
    }
    assert(table_of(records) == table_of(front).insert(key, records.last().description));
    assert(table_of(records) =~= only);
    assert(only.dom() =~= Set::<Seq<char>>::empty().insert(key));
}

} // verus!
