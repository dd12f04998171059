//! The index of trajectories: one record to a session, in the order of the session names.

use vstd::prelude::*;
use vstd::string::*;
use crate::trajectory::TrajectoryIndexRecord;

verus! {

/// Whether a text comes before another, character by character.
pub open spec fn precedes(a: Seq<char>, b: Seq<char>) -> bool
    decreases a.len(),
{
    if b.len() == 0 {
        false
    } else if a.len() == 0 {
        true
    } else if a[0] == b[0] {
        precedes(a.drop_first(), b.drop_first())
    } else {
        (a[0] as int) < (b[0] as int)
    }
}

/// Whether a text comes before another.
pub fn comes_before(a: &str, b: &str) -> (r: bool)
    ensures
        r == precedes(a@, b@),
{
    let m: usize = a.unicode_len();
    let n: usize = b.unicode_len();
    let mut i: usize = 0;
    assert(a@.skip(0) =~= a@);
    assert(b@.skip(0) =~= b@);
    while i < m && i < n
        invariant
            i <= m,
            i <= n,
            m == a@.len(),
            n == b@.len(),
            precedes(a@, b@) == precedes(a@.skip(i as int), b@.skip(i as int)),
        decreases m - i,
    {
        let x: char = a.get_char(i);
        let y: char = b.get_char(i);
        assert(a@.skip(i as int)[0] == x);
        assert(b@.skip(i as int)[0] == y);
        if x != y {
            return (x as u32) < (y as u32);
        }
        assert(a@.skip(i as int).drop_first() =~= a@.skip(i + 1));
        assert(b@.skip(i as int).drop_first() =~= b@.skip(i + 1));
        i = i + 1;
    }
    i < n
}

/// No text comes before itself.
pub proof fn law_precedes_irreflexive(a: Seq<char>)
    ensures
        !precedes(a, a),
    decreases a.len(),
{
    if a.len() > 0 {
        law_precedes_irreflexive(a.drop_first());
    }
}

/// Of three texts in a row the first comes before the last.
pub proof fn law_precedes_transitive(a: Seq<char>, b: Seq<char>, c: Seq<char>)
    requires
        precedes(a, b),
        precedes(b, c),
    ensures
        precedes(a, c),
    decreases a.len(),
{
    if a.len() > 0 && a[0] == b[0] && b[0] == c[0] {
        law_precedes_transitive(a.drop_first(), b.drop_first(), c.drop_first());
    }
}

/// Of two different texts one comes before the other.
pub proof fn law_precedes_total(a: Seq<char>, b: Seq<char>)
    ensures
        a == b || precedes(a, b) || precedes(b, a),
    decreases a.len(),
{
    if a.len() == 0 {
        if b.len() == 0 {
            assert(a =~= b);
        }
    } else if b.len() > 0 && a[0] == b[0] {
        law_precedes_total(a.drop_first(), b.drop_first());
        if a.drop_first() == b.drop_first() {
            assert(a =~= seq![a[0]] + a.drop_first());
            assert(b =~= seq![b[0]] + b.drop_first());
        }
    }
}

/// Whether every session has one record, in the order of the session names.
pub open spec fn in_order(records: Seq<TrajectoryIndexRecord>) -> bool {
    forall|i: int, j: int|
        0 <= i < j < records.len() ==> precedes(
            (#[trigger] records[i]).session_id@,
            (#[trigger] records[j]).session_id@,
        )
}

/// An index with the record of a session put in its place, instead of the one that was there.
pub open spec fn inserted(
    records: Seq<TrajectoryIndexRecord>,
    record: TrajectoryIndexRecord,
) -> Seq<TrajectoryIndexRecord>
    decreases records.len(),
{
    if records.len() == 0 {
        seq![record]
    } else if precedes(records[0].session_id@, record.session_id@) {
        seq![records[0]] + inserted(records.drop_first(), record)
    } else if records[0].session_id@ == record.session_id@ {
        seq![record] + records.drop_first()
    } else {
        seq![record] + records
    }
}

/// The index that some records make, later ones replacing earlier ones of the same session.
pub open spec fn index_of(records: Seq<TrajectoryIndexRecord>) -> Seq<TrajectoryIndexRecord>
    decreases records.len(),
{
    if records.len() == 0 {
        Seq::empty()
    } else {
        inserted(index_of(records.drop_last()), records.last())
    }
}

/// The record of a session, if there is one.
pub open spec fn found(records: Seq<TrajectoryIndexRecord>, session_id: Seq<char>) -> Option<
    TrajectoryIndexRecord,
>
    decreases records.len(),
{
    if records.len() == 0 {
        None
    } else if records[0].session_id@ == session_id {
        Some(records[0])
    } else {
        found(records.drop_first(), session_id)
    }
}

/// Where a record goes: past the first `k` records.
proof fn lemma_inserted_at(
    records: Seq<TrajectoryIndexRecord>,
    record: TrajectoryIndexRecord,
    k: int,
)
    requires
        0 <= k <= records.len(),
        forall|i: int|
            0 <= i < k ==> precedes((#[trigger] records[i]).session_id@, record.session_id@),
        k < records.len() ==> !precedes(records[k].session_id@, record.session_id@),
    ensures
        inserted(records, record) == if k < records.len() && records[k].session_id@
            == record.session_id@ {
            records.update(k, record)
        } else {
            records.insert(k, record)
        },
    decreases k,
{
    if k == 0 {
        if records.len() > 0 {
            assert(seq![record] + records.drop_first() =~= records.update(0, record));
        }
        assert(seq![record] + records =~= records.insert(0, record));
        assert(records.len() == 0 ==> seq![record] =~= records.insert(0, record));
    } else {
        let rest = records.drop_first();
        assert(precedes(records[0].session_id@, record.session_id@));
        assert forall|i: int| 0 <= i < k - 1 implies precedes(
            (#[trigger] rest[i]).session_id@,
            record.session_id@,
        ) by {
            assert(rest[i] == records[i + 1]);
        }
        lemma_inserted_at(rest, record, k - 1);
        if k < records.len() && records[k].session_id@ == record.session_id@ {
            assert(seq![records[0]] + rest.update(k - 1, record) =~= records.update(k, record));
        } else {
            assert(seq![records[0]] + rest.insert(k - 1, record) =~= records.insert(k, record));
        }
    }
}

fn insert(records: &mut Vec<TrajectoryIndexRecord>, record: TrajectoryIndexRecord)
    ensures
        final(records)@ == inserted(old(records)@, record),
{
    let len: usize = records.len();
    let mut k: usize = 0;
    while k < len && comes_before(records[k].session_id.as_str(), record.session_id.as_str())
        invariant
            k <= len,
            len == records@.len(),
            records@ == old(records)@,
            forall|i: int|
                0 <= i < k ==> precedes((#[trigger] records@[i]).session_id@, record.session_id@),
        decreases len - k,
    {
        k = k + 1;
    }
    proof {
        lemma_inserted_at(records@, record, k as int);
    }
    let replaces: bool = if k < len {
        records[k].session_id == record.session_id
    } else {
        false
    };
    if replaces {
        records.set(k, record);
    } else {
        records.insert(k, record);
    }
}

/// Puts the record of a session into an index that was read: one record to a session, the last
/// one read, and this one for its own.
pub fn upsert_trajectory_index(
    existing: Vec<TrajectoryIndexRecord>,
    record: TrajectoryIndexRecord,
) -> (r: Vec<TrajectoryIndexRecord>)
    ensures
        r@ == inserted(index_of(existing@), record),
{
    let mut rest: Vec<TrajectoryIndexRecord> = existing;
    let mut index: Vec<TrajectoryIndexRecord> = Vec::new();
    let mut i: usize = 0;
    let len: usize = rest.len();
    assert(rest@ =~= existing@.skip(0));
    while i < len
        invariant
            i <= len,
            len == existing@.len(),
            rest@ == existing@.skip(i as int),
            index@ == index_of(existing@.take(i as int)),
        decreases len - i,
    {
        let next: TrajectoryIndexRecord = rest.remove(0);
        insert(&mut index, next);
        i = i + 1;
        assert(existing@.take(i as int).drop_last() =~= existing@.take(i - 1));
        assert(rest@ =~= existing@.skip(i as int));
    }
    assert(existing@.take(i as int) =~= existing@);
    insert(&mut index, record);
    index
}

proof fn lemma_inserted_sessions(
    records: Seq<TrajectoryIndexRecord>,
    record: TrajectoryIndexRecord,
)
    ensures
        inserted(records, record).len() > 0,
        forall|i: int|
            0 <= i < inserted(records, record).len() ==> (#[trigger] inserted(
                records,
                record,
            )[i]).session_id@ == record.session_id@ || exists|j: int|
                0 <= j < records.len() && inserted(records, record)[i] == records[j],
    decreases records.len(),
{
    if records.len() > 0 && precedes(records[0].session_id@, record.session_id@) {
        let rest = records.drop_first();
        lemma_inserted_sessions(rest, record);
        let all = inserted(records, record);
        assert forall|i: int| 0 <= i < all.len() implies (#[trigger] all[i]).session_id@
            == record.session_id@ || exists|j: int|
            0 <= j < records.len() && all[i] == records[j] by {
            if i == 0 {
                assert(all[0] == records[0]);
            } else {
                assert(all[i] == inserted(rest, record)[i - 1]);
                if all[i].session_id@ != record.session_id@ {
                    let j = choose|j: int| 0 <= j < rest.len() && all[i] == rest[j];
                    assert(records[j + 1] == all[i]);
                }
            }
        }
    } else if records.len() > 0 && records[0].session_id@ == record.session_id@ {
        let all = inserted(records, record);
        assert forall|i: int| 0 <= i < all.len() implies (#[trigger] all[i]).session_id@
            == record.session_id@ || exists|j: int|
            0 <= j < records.len() && all[i] == records[j] by {
            if i > 0 {
                assert(all[i] == records[i]);
            }
        }
    } else if records.len() > 0 {
        let all = inserted(records, record);
        assert forall|i: int| 0 <= i < all.len() implies (#[trigger] all[i]).session_id@
            == record.session_id@ || exists|j: int|
            0 <= j < records.len() && all[i] == records[j] by {
            if i > 0 {
                assert(all[i] == records[i - 1]);
            }
        }
    }
}

/// Putting a record into an index in order keeps it in order, one record to a session.
pub proof fn law_insert_keeps_order(
    records: Seq<TrajectoryIndexRecord>,
    record: TrajectoryIndexRecord,
)
    requires
        in_order(records),
    ensures
        in_order(inserted(records, record)),
    decreases records.len(),
{
    let all = inserted(records, record);
    let name = record.session_id@;
    if records.len() > 0 {
        let first = records[0];
        let rest = records.drop_first();
        assert(in_order(rest)) by {
            assert forall|i: int, j: int| 0 <= i < j < rest.len() implies precedes(
                (#[trigger] rest[i]).session_id@,
                (#[trigger] rest[j]).session_id@,
            ) by {
                assert(rest[i] == records[i + 1] && rest[j] == records[j + 1]);
            }
        }
        law_precedes_total(first.session_id@, name);
        if precedes(first.session_id@, name) {
            law_insert_keeps_order(rest, record);
            lemma_inserted_sessions(rest, record);
            assert forall|i: int, j: int| 0 <= i < j < all.len() implies precedes(
                (#[trigger] all[i]).session_id@,
                (#[trigger] all[j]).session_id@,
            ) by {
                assert(all[j] == inserted(rest, record)[j - 1]);
                if i == 0 {
                    if all[j].session_id@ != name {
                        let k = choose|k: int| 0 <= k < rest.len() && all[j] == rest[k];
                        assert(records[k + 1] == all[j]);
                    }
                } else {
                    assert(all[i] == inserted(rest, record)[i - 1]);
                }
            }
        } else if first.session_id@ == name {
            assert forall|i: int, j: int| 0 <= i < j < all.len() implies precedes(
                (#[trigger] all[i]).session_id@,
                (#[trigger] all[j]).session_id@,
            ) by {
                assert(all[j] == records[j]);
                assert(i > 0 ==> all[i] == records[i]);
                assert(precedes(records[i].session_id@, records[j].session_id@));
            }
        } else {
            assert forall|i: int, j: int| 0 <= i < j < all.len() implies precedes(
                (#[trigger] all[i]).session_id@,
                (#[trigger] all[j]).session_id@,
            ) by {
                assert(all[j] == records[j - 1]);
                if i == 0 {
                    if j > 1 {
                        assert(precedes(records[0].session_id@, records[j - 1].session_id@));
                        law_precedes_transitive(name, first.session_id@, all[j].session_id@);
                    }
                } else {
                    assert(all[i] == records[i - 1]);
                }
            }
        }
    }
}

/// Whatever was read, the index made of it is in order, one record to a session.
pub proof fn law_index_in_order(records: Seq<TrajectoryIndexRecord>)
    ensures
        in_order(index_of(records)),
    decreases records.len(),
{
    if records.len() > 0 {
        law_index_in_order(records.drop_last());
        law_insert_keeps_order(index_of(records.drop_last()), records.last());
    }
}

/// What an index holds after a record was put into it: that record for its session, and for
/// every other session what it held before.
pub proof fn law_insert_finds(
    records: Seq<TrajectoryIndexRecord>,
    record: TrajectoryIndexRecord,
    session_id: Seq<char>,
)
    requires
        in_order(records),
    ensures
        found(inserted(records, record), session_id) == if session_id == record.session_id@ {
            Some(record)
        } else {
            found(records, session_id)
        },
    decreases records.len(),
{
    let all = inserted(records, record);
    let name = record.session_id@;
    if records.len() == 0 {
        assert(all.drop_first() =~= Seq::<TrajectoryIndexRecord>::empty());
        assert(found(all.drop_first(), session_id) is None);
    } else {
        let rest = records.drop_first();
        if precedes(records[0].session_id@, name) {
            assert(in_order(rest)) by {
                assert forall|i: int, j: int| 0 <= i < j < rest.len() implies precedes(
                    (#[trigger] rest[i]).session_id@,
                    (#[trigger] rest[j]).session_id@,
                ) by {
                    assert(rest[i] == records[i + 1] && rest[j] == records[j + 1]);
                }
            }
            law_insert_finds(rest, record, session_id);
            law_precedes_irreflexive(name);
            assert(all.drop_first() =~= inserted(rest, record));
        } else if records[0].session_id@ == name {
            assert(all.drop_first() =~= rest);
        } else {
            assert(all.drop_first() =~= records);
        }
    }
}

proof fn lemma_insert_last(records: Seq<TrajectoryIndexRecord>, record: TrajectoryIndexRecord)
    requires
        in_order(records.push(record)),
    ensures
        inserted(records, record) == records.push(record),
{
    let all = records.push(record);
    assert forall|i: int| 0 <= i < records.len() implies precedes(
        (#[trigger] records[i]).session_id@,
        record.session_id@,
    ) by {
        assert(all[i] == records[i]);
        assert(all[records.len() as int] == record);
    }
    lemma_inserted_at(records, record, records.len() as int);
    assert(records.insert(records.len() as int, record) =~= all);
}

/// Reading an index in order changes nothing in it.
pub proof fn law_index_of_index(records: Seq<TrajectoryIndexRecord>)
    requires
        in_order(records),
    ensures
        index_of(records) == records,
    decreases records.len(),
{
    if records.len() > 0 {
        let fewer = records.drop_last();
        assert(in_order(fewer)) by {
            assert forall|i: int, j: int| 0 <= i < j < fewer.len() implies precedes(
                (#[trigger] fewer[i]).session_id@,
                (#[trigger] fewer[j]).session_id@,
            ) by {
                assert(fewer[i] == records[i] && fewer[j] == records[j]);
            }
        }
        law_index_of_index(fewer);
        assert(fewer.push(records.last()) =~= records);
        lemma_insert_last(fewer, records.last());
    } else {
        assert(records =~= Seq::<TrajectoryIndexRecord>::empty());
    }
}

proof fn lemma_insert_twice(
    records: Seq<TrajectoryIndexRecord>,
    first: TrajectoryIndexRecord,
    second: TrajectoryIndexRecord,
)
    requires
        first.session_id@ == second.session_id@,
    ensures
        inserted(inserted(records, first), second) == inserted(records, second),
    decreases records.len(),
{
    let name = second.session_id@;
    law_precedes_irreflexive(name);
    let once = inserted(records, first);
    if records.len() == 0 {
        assert(seq![second] + once.drop_first() =~= seq![second]);
    } else {
        let rest = records.drop_first();
        if precedes(records[0].session_id@, name) {
            lemma_insert_twice(rest, first, second);
            assert(once.drop_first() =~= inserted(rest, first));
        } else if records[0].session_id@ == name {
            assert(once.drop_first() =~= rest);
        } else {
            assert(once.drop_first() =~= records);
        }
    }
}

/// Upserting is idempotent by session: of two records of one session that are put into an index
/// one after the other, only the second leaves a trace.
pub proof fn law_upsert_idempotent(
    existing: Seq<TrajectoryIndexRecord>,
    first: TrajectoryIndexRecord,
    second: TrajectoryIndexRecord,
)
    requires
        first.session_id@ == second.session_id@,
    ensures
        inserted(index_of(inserted(index_of(existing), first)), second) == inserted(
            index_of(existing),
            second,
        ),
{
    law_index_in_order(existing);
    law_insert_keeps_order(index_of(existing), first);
    law_index_of_index(inserted(index_of(existing), first));
    lemma_insert_twice(index_of(existing), first, second);
}

} // verus!
