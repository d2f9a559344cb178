//! The parts of a contract: groups with their members and ledger rows with
//! their metadata, kept in vectors in the order of their creation. The
//! spec functions here say which state such parts stand for and when they
//! fit together; the lemmas relate changes of the vectors to changes of
//! that state.

use crate::records::{optional_text, EntryView, Group, GroupView, Transaction};
use crate::state::{has_row, records_of, row_position, without, State};
use crate::text::same_text;
use vstd::prelude::*;

verus! {

/// A group with its identifier and its members, as the contract keeps it
/// and as a store holds it between calls.
#[derive(Clone, Debug, PartialEq, Eq)]
pub struct GroupEntry {
    pub id: String,
    pub group: Group,
    pub members: Vec<String>,
}

/// A ledger row with the metadata attached to it, as the contract keeps it
/// and as a store holds it between calls.
#[derive(Clone, Debug, PartialEq, Eq)]
pub struct LedgerEntry {
    pub id: String,
    pub record: Transaction,
    pub metadata: Option<String>,
}

/// The characters of each string of a sequence.
pub open spec fn texts(v: Seq<String>) -> Seq<Seq<char>> {
    v.map_values(|s: String| s@)
}

/// A group with this identifier is among `groups`.
pub open spec fn has_group(groups: Seq<GroupEntry>, id: Seq<char>) -> bool {
    exists|i: int| 0 <= i < groups.len() && groups[i].id@ == id
}

/// Where the group with this identifier stands among `groups`.
pub open spec fn group_at(groups: Seq<GroupEntry>, id: Seq<char>) -> int {
    choose|i: int| 0 <= i < groups.len() && groups[i].id@ == id
}

/// The groups by identifier.
pub open spec fn groups_view(groups: Seq<GroupEntry>) -> Map<Seq<char>, GroupView> {
    Map::new(
        |id: Seq<char>| has_group(groups, id),
        |id: Seq<char>| groups[group_at(groups, id)].group@,
    )
}

/// The members of each group, by the group's identifier.
pub open spec fn members_view(groups: Seq<GroupEntry>) -> Map<Seq<char>, Seq<Seq<char>>> {
    Map::new(
        |id: Seq<char>| has_group(groups, id),
        |id: Seq<char>| texts(groups[group_at(groups, id)].members@),
    )
}

/// A row without its metadata.
pub open spec fn row_view(e: LedgerEntry) -> EntryView {
    EntryView { id: e.id@, record: e.record@ }
}

/// The rows of the ledger, without their metadata.
pub open spec fn ledger_view(ledger: Seq<LedgerEntry>) -> Seq<EntryView> {
    ledger.map_values(|e: LedgerEntry| row_view(e))
}

/// A row with this identifier carries metadata.
pub open spec fn has_metadata(ledger: Seq<LedgerEntry>, id: Seq<char>) -> bool {
    exists|i: int| 0 <= i < ledger.len() && ledger[i].id@ == id && ledger[i].metadata is Some
}

/// Where the row with this identifier stands in `ledger`.
pub open spec fn row_at(ledger: Seq<LedgerEntry>, id: Seq<char>) -> int {
    choose|i: int| 0 <= i < ledger.len() && ledger[i].id@ == id
}

/// The metadata by identifier.
pub open spec fn metadata_view(ledger: Seq<LedgerEntry>) -> Map<Seq<char>, Seq<char>> {
    Map::new(
        |id: Seq<char>| has_metadata(ledger, id),
        |id: Seq<char>| ledger[row_at(ledger, id)].metadata.unwrap()@,
    )
}

/// No two groups have the same identifier.
pub open spec fn distinct_groups(groups: Seq<GroupEntry>) -> bool {
    forall|i: int, j: int| 0 <= i < j < groups.len() ==> groups[i].id@ != groups[j].id@
}

/// No two rows have the same identifier.
pub open spec fn distinct_rows(ledger: Seq<LedgerEntry>) -> bool {
    forall|i: int, j: int| 0 <= i < j < ledger.len() ==> ledger[i].id@ != ledger[j].id@
}

/// The parts of a contract fit together: identifiers are unique, nobody is
/// listed twice in a group, and every row belongs to a group that is there.
pub open spec fn sound(groups: Seq<GroupEntry>, ledger: Seq<LedgerEntry>) -> bool {
    &&& distinct_groups(groups)
    &&& forall|i: int|
        0 <= i < groups.len() ==> (#[trigger] texts(groups[i].members@)).no_duplicates()
    &&& distinct_rows(ledger)
    &&& forall|i: int|
        0 <= i < ledger.len() ==> has_group(groups, #[trigger] ledger[i].record.group_id@)
}

/// The state that the parts of a contract stand for.
pub open spec fn state_of(
    owner: Seq<char>,
    agent_suffix: Seq<char>,
    groups: Seq<GroupEntry>,
    ledger: Seq<LedgerEntry>,
) -> State {
    State {
        owner,
        agent_suffix,
        groups: groups_view(groups),
        members: members_view(groups),
        ledger: ledger_view(ledger),
        metadata: metadata_view(ledger),
    }
}

/// With unique identifiers, the group at `i` is the one that its identifier
/// finds, in the vector and in both maps.
pub(crate) proof fn lemma_group_lookup(groups: Seq<GroupEntry>, i: int)
    requires
        0 <= i < groups.len(),
        distinct_groups(groups),
    ensures
        has_group(groups, groups[i].id@),
        group_at(groups, groups[i].id@) == i,
        groups_view(groups).contains_key(groups[i].id@),
        groups_view(groups)[groups[i].id@] == groups[i].group@,
        members_view(groups).contains_key(groups[i].id@),
        members_view(groups)[groups[i].id@] == texts(groups[i].members@),
{
    let j = group_at(groups, groups[i].id@);
    assert(0 <= j < groups.len() && groups[j].id@ == groups[i].id@);
    if j < i {
        assert(groups[j].id@ != groups[i].id@);
    } else if i < j {
        assert(groups[i].id@ != groups[j].id@);
    }
}

/// With unique identifiers, the row at `i` is the one that its identifier
/// finds, and it decides whether the identifier has metadata.
pub(crate) proof fn lemma_row_lookup(ledger: Seq<LedgerEntry>, i: int)
    requires
        0 <= i < ledger.len(),
        distinct_rows(ledger),
    ensures
        row_at(ledger, ledger[i].id@) == i,
        has_row(ledger_view(ledger), ledger[i].id@),
        row_position(ledger_view(ledger), ledger[i].id@) == i,
        ledger[i].metadata is Some ==> metadata_view(ledger).contains_key(ledger[i].id@)
            && metadata_view(ledger)[ledger[i].id@] == ledger[i].metadata.unwrap()@,
        ledger[i].metadata is None ==> !metadata_view(ledger).contains_key(ledger[i].id@),
{
    let j = row_at(ledger, ledger[i].id@);
    assert(0 <= j < ledger.len() && ledger[j].id@ == ledger[i].id@);
    if j < i {
        assert(ledger[j].id@ != ledger[i].id@);
    } else if i < j {
        assert(ledger[i].id@ != ledger[j].id@);
    }
    let rows = ledger_view(ledger);
    assert(rows[i].id == ledger[i].id@);
    let p = row_position(rows, ledger[i].id@);
    assert(0 <= p < rows.len() && rows[p].id == ledger[i].id@);
    if p < i {
        assert(ledger[p].id@ != ledger[i].id@);
    } else if i < p {
        assert(ledger[i].id@ != ledger[p].id@);
    }
    if ledger[i].metadata is None {
        if has_metadata(ledger, ledger[i].id@) {
            let k = choose|k: int|
                0 <= k < ledger.len() && ledger[k].id@ == ledger[i].id@ && ledger[k].metadata is Some;
            if k < i {
                assert(ledger[k].id@ != ledger[i].id@);
            } else if i < k {
                assert(ledger[i].id@ != ledger[k].id@);
            }
        }
    }
}

/// A group pushed under a new identifier is an insertion into both maps.
pub(crate) proof fn lemma_groups_pushed(before: Seq<GroupEntry>, after: Seq<GroupEntry>, e: GroupEntry)
    requires
        distinct_groups(before),
        !has_group(before, e.id@),
        after == before.push(e),
    ensures
        distinct_groups(after),
        groups_view(after) == groups_view(before).insert(e.id@, e.group@),
        members_view(after) == members_view(before).insert(e.id@, texts(e.members@)),
        forall|id: Seq<char>| has_group(before, id) ==> has_group(after, id),
{
    assert forall|id: Seq<char>| has_group(after, id) <==> (has_group(before, id) || id == e.id@) by {
        if has_group(before, id) {
            let k = group_at(before, id);
            assert(after[k].id@ == id);
        }
        if id == e.id@ {
            assert(after[before.len() as int].id@ == id);
        }
    }
    assert forall|id: Seq<char>| has_group(before, id) implies after[group_at(after, id)]
        == before[group_at(before, id)] by {
        let k = group_at(before, id);
        lemma_group_lookup(before, k);
        assert(after[k] == before[k]);
        lemma_group_lookup(after, k);
    }
    lemma_group_lookup(after, before.len() as int);
    assert(groups_view(after) =~= groups_view(before).insert(e.id@, e.group@));
    assert(members_view(after) =~= members_view(before).insert(e.id@, texts(e.members@)));
}

/// A change of the group at `i` that keeps its identifier is an insertion
/// under that identifier into both maps.
pub(crate) proof fn lemma_groups_updated(before: Seq<GroupEntry>, after: Seq<GroupEntry>, i: int)
    requires
        distinct_groups(before),
        0 <= i < before.len(),
        after.len() == before.len(),
        after[i].id@ == before[i].id@,
        forall|k: int| 0 <= k < before.len() && k != i ==> after[k] == before[k],
    ensures
        distinct_groups(after),
        groups_view(after) == groups_view(before).insert(before[i].id@, after[i].group@),
        members_view(after) == members_view(before).insert(
            before[i].id@,
            texts(after[i].members@),
        ),
        forall|id: Seq<char>| has_group(before, id) <==> has_group(after, id),
{
    assert forall|k: int| 0 <= k < before.len() implies after[k].id@ == before[k].id@ by {}
    assert forall|id: Seq<char>| has_group(before, id) <==> has_group(after, id) by {
        if has_group(before, id) {
            let k = group_at(before, id);
            assert(after[k].id@ == id);
        }
        if has_group(after, id) {
            let k = group_at(after, id);
            assert(before[k].id@ == id);
        }
    }
    assert forall|id: Seq<char>| has_group(before, id) implies group_at(after, id) == group_at(
        before,
        id,
    ) by {
        let k = group_at(before, id);
        lemma_group_lookup(before, k);
        assert(after[k].id@ == id);
        lemma_group_lookup(after, k);
    }
    lemma_group_lookup(before, i);
    lemma_group_lookup(after, i);
    assert(groups_view(after) =~= groups_view(before).insert(before[i].id@, after[i].group@));
    assert(members_view(after) =~= members_view(before).insert(
        before[i].id@,
        texts(after[i].members@),
    ));
}

/// A row pushed under a new identifier and without metadata extends the
/// ledger and leaves the metadata as it is.
pub(crate) proof fn lemma_rows_pushed(before: Seq<LedgerEntry>, after: Seq<LedgerEntry>, e: LedgerEntry)
    requires
        distinct_rows(before),
        !has_row(ledger_view(before), e.id@),
        e.metadata is None,
        after == before.push(e),
    ensures
        distinct_rows(after),
        ledger_view(after) == ledger_view(before).push(row_view(e)),
        metadata_view(after) == metadata_view(before),
{
    assert forall|k: int| 0 <= k < before.len() implies before[k].id@ != e.id@ by {
        assert(ledger_view(before)[k].id == before[k].id@);
    }
    assert(ledger_view(after) =~= ledger_view(before).push(row_view(e)));
    assert forall|id: Seq<char>| has_metadata(after, id) <==> has_metadata(before, id) by {
        if has_metadata(before, id) {
            let k = choose|k: int|
                0 <= k < before.len() && before[k].id@ == id && before[k].metadata is Some;
            assert(after[k] == before[k]);
        }
        if has_metadata(after, id) {
            let k = choose|k: int|
                0 <= k < after.len() && after[k].id@ == id && after[k].metadata is Some;
            assert(after[k] == before[k]);
        }
    }
    assert forall|id: Seq<char>| has_metadata(before, id) implies after[row_at(after, id)]
        == before[row_at(before, id)] by {
        let k = choose|k: int|
            0 <= k < before.len() && before[k].id@ == id && before[k].metadata is Some;
        lemma_row_lookup(before, k);
        assert(after[k] == before[k]);
        lemma_row_lookup(after, k);
    }
    assert(metadata_view(after) =~= metadata_view(before));
}

/// A change of the row at `i` that keeps its identifier changes that row
/// of the ledger only, and the metadata of that identifier only.
pub(crate) proof fn lemma_rows_updated(before: Seq<LedgerEntry>, after: Seq<LedgerEntry>, i: int)
    requires
        distinct_rows(before),
        0 <= i < before.len(),
        after.len() == before.len(),
        after[i].id@ == before[i].id@,
        forall|k: int| 0 <= k < before.len() && k != i ==> after[k] == before[k],
    ensures
        distinct_rows(after),
        ledger_view(after) == ledger_view(before).update(i, row_view(after[i])),
        after[i].metadata is Some ==> metadata_view(after) == metadata_view(before).insert(
            before[i].id@,
            after[i].metadata.unwrap()@,
        ),
        optional_text(after[i].metadata) == optional_text(before[i].metadata) ==> metadata_view(
            after,
        ) == metadata_view(before),
{
    assert forall|k: int| 0 <= k < before.len() implies after[k].id@ == before[k].id@ by {}
    assert(ledger_view(after) =~= ledger_view(before).update(i, row_view(after[i])));
    lemma_row_lookup(before, i);
    lemma_row_lookup(after, i);
    assert forall|id: Seq<char>| id != before[i].id@ implies (has_metadata(after, id)
        <==> has_metadata(before, id)) by {
        if has_metadata(before, id) {
            let k = choose|k: int|
                0 <= k < before.len() && before[k].id@ == id && before[k].metadata is Some;
            assert(after[k] == before[k]);
        }
        if has_metadata(after, id) {
            let k = choose|k: int|
                0 <= k < after.len() && after[k].id@ == id && after[k].metadata is Some;
            assert(after[k] == before[k]);
        }
    }
    assert forall|id: Seq<char>| id != before[i].id@ && has_metadata(before, id) implies after[row_at(
        after,
        id,
    )] == before[row_at(before, id)] by {
        let k = choose|k: int|
            0 <= k < before.len() && before[k].id@ == id && before[k].metadata is Some;
        lemma_row_lookup(before, k);
        assert(after[k] == before[k]);
        lemma_row_lookup(after, k);
    }
    if after[i].metadata is Some {
        assert(metadata_view(after) =~= metadata_view(before).insert(
            before[i].id@,
            after[i].metadata.unwrap()@,
        ));
    }
    if optional_text(after[i].metadata) == optional_text(before[i].metadata) {
        assert(metadata_view(after) =~= metadata_view(before));
    }
}

/// The records of a prefix are a prefix of the records.
pub(crate) proof fn lemma_records_prefix(ledger: Seq<EntryView>, group_id: Seq<char>, i: int)
    requires
        0 <= i < ledger.len(),
    ensures
        records_of(ledger.take(i + 1), group_id) == if ledger[i].record.group_id == group_id {
            records_of(ledger.take(i), group_id).push(ledger[i].record)
        } else {
            records_of(ledger.take(i), group_id)
        },
        records_of(ledger.take(i + 1), group_id).len() <= records_of(ledger, group_id).len(),
    decreases ledger.len() - i,
{
    assert(ledger.take(i + 1).drop_last() =~= ledger.take(i));
    if i + 1 < ledger.len() {
        lemma_records_prefix(ledger, group_id, i + 1);
    } else {
        assert(ledger.take(i + 1) =~= ledger);
    }
}

/// The place of `user_id` among `members`, if it is there.
pub(crate) fn find_member(members: &Vec<String>, user_id: &String) -> (r: Option<usize>)
    ensures
        match r {
            Some(p) => p < members@.len() && members@[p as int]@ == user_id@ && texts(
                members@,
            ).contains(user_id@),
            None => !texts(members@).contains(user_id@),
        },
{
    let mut p: usize = 0;
    while p < members.len()
        invariant
            p <= members@.len(),
            forall|k: int| 0 <= k < p ==> members@[k]@ != user_id@,
        decreases members@.len() - p,
    {
        if same_text(&members[p], user_id) {
            assert(texts(members@)[p as int] == user_id@);
            return Some(p);
        }
        p = p + 1;
    }
    assert forall|k: int| 0 <= k < texts(members@).len() implies texts(members@)[k] != user_id@ by {
        assert(members@[k]@ != user_id@);
    }
    None
}

/// Taking out the member at `p` is taking out that user, and leaves no
/// user twice.
pub(crate) proof fn lemma_member_removed(before: Seq<String>, after: Seq<String>, p: int)
    requires
        0 <= p < before.len(),
        texts(before).no_duplicates(),
        after == before.remove(p),
    ensures
        texts(after) == without(texts(before), before[p]@),
        texts(after).no_duplicates(),
        !texts(after).contains(before[p]@),
{
    let names = texts(before);
    assert(names[p] == before[p]@);
    let q = names.index_of(before[p]@);
    assert(q == p);
    assert(texts(after) =~= names.remove(p));
    assert forall|a: int, b: int|
        0 <= a < texts(after).len() && 0 <= b < texts(after).len() && a != b implies texts(
        after,
    )[a] != texts(after)[b] by {
        let a0 = if a < p { a } else { a + 1 };
        let b0 = if b < p { b } else { b + 1 };
        assert(texts(after)[a] == names[a0]);
        assert(texts(after)[b] == names[b0]);
    }
    assert forall|a: int| 0 <= a < texts(after).len() implies texts(after)[a] != before[p]@ by {
        let a0 = if a < p { a } else { a + 1 };
        assert(texts(after)[a] == names[a0]);
    }
}

/// Pushing a user who is no member leaves no user twice.
pub(crate) proof fn lemma_member_pushed(before: Seq<String>, after: Seq<String>, user: String)
    requires
        texts(before).no_duplicates(),
        !texts(before).contains(user@),
        after == before.push(user),
    ensures
        texts(after) == texts(before).push(user@),
        texts(after).no_duplicates(),
{
    assert(texts(after) =~= texts(before).push(user@));
    assert forall|a: int, b: int|
        0 <= a < texts(after).len() && 0 <= b < texts(after).len() && a != b implies texts(
        after,
    )[a] != texts(after)[b] by {
        if a < before.len() {
            assert(texts(before)[a] == texts(after)[a]);
        }
        if b < before.len() {
            assert(texts(before)[b] == texts(after)[b]);
        }
    }
}

/// A copy of each string.
pub fn duplicate_texts(v: &Vec<String>) -> (r: Vec<String>)
    ensures
        texts(r@) == texts(v@),
{
    let mut r: Vec<String> = Vec::new();
    let mut i: usize = 0;
    while i < v.len()
        invariant
            i <= v@.len(),
            r@.len() == i,
            forall|k: int| 0 <= k < i ==> r@[k]@ == v@[k]@,
        decreases v@.len() - i,
    {
        r.push(v[i].clone());
        i = i + 1;
    }
    assert(texts(r@) =~= texts(v@));
    r
}

/// Whether no string occurs twice.
pub fn all_distinct(v: &Vec<String>) -> (r: bool)
    ensures
        r == texts(v@).no_duplicates(),
{
    let mut i: usize = 0;
    while i < v.len()
        invariant
            i <= v@.len(),
            forall|a: int, b: int| 0 <= a < i && a < b < v@.len() ==> v@[a]@ != v@[b]@,
        decreases v@.len() - i,
    {
        let mut j: usize = i + 1;
        while j < v.len()
            invariant
                i < j <= v@.len(),
                forall|b: int| i < b < j ==> v@[i as int]@ != v@[b]@,
            decreases v@.len() - j,
        {
            if same_text(&v[i], &v[j]) {
                assert(texts(v@)[i as int] == texts(v@)[j as int]);
                return false;
            }
            j = j + 1;
        }
        i = i + 1;
    }
    assert forall|a: int, b: int|
        0 <= a < texts(v@).len() && 0 <= b < texts(v@).len() && a != b implies texts(v@)[a]
        != texts(v@)[b] by {
        if a < b {
            assert(v@[a]@ != v@[b]@);
        } else {
            assert(v@[b]@ != v@[a]@);
        }
    }
    true
}

/// The identifiers of the groups, in their order.
fn group_ids(groups: &Vec<GroupEntry>) -> (r: Vec<String>)
    ensures
        r@.len() == groups@.len(),
        forall|k: int| 0 <= k < groups@.len() ==> r@[k]@ == groups@[k].id@,
{
    let mut r: Vec<String> = Vec::new();
    let mut i: usize = 0;
    while i < groups.len()
        invariant
            i <= groups@.len(),
            r@.len() == i,
            forall|k: int| 0 <= k < i ==> r@[k]@ == groups@[k].id@,
        decreases groups@.len() - i,
    {
        r.push(groups[i].id.clone());
        i = i + 1;
    }
    r
}

/// The identifiers of the rows, in their order.
fn row_ids(ledger: &Vec<LedgerEntry>) -> (r: Vec<String>)
    ensures
        r@.len() == ledger@.len(),
        forall|k: int| 0 <= k < ledger@.len() ==> r@[k]@ == ledger@[k].id@,
{
    let mut r: Vec<String> = Vec::new();
    let mut i: usize = 0;
    while i < ledger.len()
        invariant
            i <= ledger@.len(),
            r@.len() == i,
            forall|k: int| 0 <= k < i ==> r@[k]@ == ledger@[k].id@,
        decreases ledger@.len() - i,
    {
        r.push(ledger[i].id.clone());
        i = i + 1;
    }
    r
}

/// Whether one of `ids` is `id`.
fn among(ids: &Vec<String>, id: &String) -> (r: bool)
    ensures
        r == texts(ids@).contains(id@),
{
    find_member(ids, id).is_some()
}

/// Whether the parts of a contract fit together.
pub fn check_sound(groups: &Vec<GroupEntry>, ledger: &Vec<LedgerEntry>) -> (r: bool)
    ensures
        r == sound(groups@, ledger@),
{
    let ids = group_ids(groups);
    proof {
        if texts(ids@).no_duplicates() {
            assert forall|a: int, b: int| 0 <= a < b < groups@.len() implies groups@[a].id@
                != groups@[b].id@ by {
                assert(texts(ids@)[a] != texts(ids@)[b]);
            }
        } else {
            let (a, b) = choose|a: int, b: int|
                0 <= a < texts(ids@).len() && 0 <= b < texts(ids@).len() && a != b && texts(
                    ids@,
                )[a] == texts(ids@)[b];
            assert(groups@[a].id@ == groups@[b].id@);
        }
    }
    if !all_distinct(&ids) {
        return false;
    }
    let mut i: usize = 0;
    while i < groups.len()
        invariant
            i <= groups@.len(),
            forall|k: int| 0 <= k < i ==> (#[trigger] texts(groups@[k].members@)).no_duplicates(),
        decreases groups@.len() - i,
    {
        if !all_distinct(&groups[i].members) {
            return false;
        }
        i = i + 1;
    }
    let rows = row_ids(ledger);
    proof {
        if texts(rows@).no_duplicates() {
            assert forall|a: int, b: int| 0 <= a < b < ledger@.len() implies ledger@[a].id@
                != ledger@[b].id@ by {
                assert(texts(rows@)[a] != texts(rows@)[b]);
            }
        } else {
            let (a, b) = choose|a: int, b: int|
                0 <= a < texts(rows@).len() && 0 <= b < texts(rows@).len() && a != b && texts(
                    rows@,
                )[a] == texts(rows@)[b];
            assert(ledger@[a].id@ == ledger@[b].id@);
        }
    }
    if !all_distinct(&rows) {
        return false;
    }
    let mut j: usize = 0;
    while j < ledger.len()
        invariant
            j <= ledger@.len(),
            ids@.len() == groups@.len(),
            forall|k: int| 0 <= k < groups@.len() ==> ids@[k]@ == groups@[k].id@,
            forall|k: int| 0 <= k < j ==> has_group(groups@, #[trigger] ledger@[k].record.group_id@),
        decreases ledger@.len() - j,
    {
        proof {
            let wanted = ledger@[j as int].record.group_id@;
            if texts(ids@).contains(wanted) {
                let k = texts(ids@).index_of(wanted);
                assert(groups@[k].id@ == wanted);
            }
            if has_group(groups@, wanted) {
                let k = group_at(groups@, wanted);
                assert(texts(ids@)[k] == wanted);
            }
        }
        if !among(&ids, &ledger[j].record.group_id) {
            return false;
        }
        j = j + 1;
    }
    true
}

} // verus!
