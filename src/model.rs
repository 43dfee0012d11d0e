//! A model of the log directory by rows, as a state that each submission
//! advances, and the laws that the rotation scheme keeps in it.
//!
//! The model counts rows, not bytes. It is linked to the code through the
//! decisions they share: the model rotates by `rotates`, the test that
//! `should_rotate` and `rotation_slot` make, into `next_slot_of`, the slot
//! that `next_slot` picks, under `slot_file_name_of`, the name that
//! `slot_file_name` writes, and starts a file with a header by
//! `wants_header`, as `plan_writes` does. That a file's bytes count as the
//! rows the model gives them rests on the csv crate reading back what it
//! wrote, which nothing here states: the laws hold of the model, and of the
//! files as far as that holds.
use vstd::prelude::*;
use crate::layout::{lemma_slot_name_round_trip, max_slot, next_slot_of, slot_file_name_of};
use crate::record::{wants_header, RecordView};

verus! {

/// The log files' contents, as rows.
pub struct LogModel {
    /// The per-day files, by directory name.
    pub daily: Map<Seq<char>, Seq<RecordView>>,
    /// The aggregate file.
    pub all: Seq<RecordView>,
    /// The hot file (empty: no such file).
    pub hot: Seq<RecordView>,
    /// The rotated files, by slot.
    pub rotated: Map<nat, Seq<RecordView>>,
    /// The file names in the rotation directory, oldest first.
    pub names: Seq<Seq<char>>,
}

/// One call of submit: the record and the day directory it goes to.
pub struct Submission {
    pub record: RecordView,
    pub day: Seq<char>,
}

/// Whether the hot file, holding `rows_before` rows before an append, is
/// retired after it: once the count after the append reaches the cap.
pub open spec fn rotates(rows_before: nat, cap: nat) -> bool {
    rows_before + 1 >= cap
}

pub open spec fn day_rows(m: LogModel, day: Seq<char>) -> Seq<RecordView> {
    if m.daily.contains_key(day) {
        m.daily[day]
    } else {
        Seq::empty()
    }
}

/// The state after one submission with row cap `cap`.
pub open spec fn submitted(m: LogModel, s: Submission, cap: nat) -> LogModel {
    let hot = m.hot.push(s.record);
    let daily = m.daily.insert(s.day, day_rows(m, s.day).push(s.record));
    if rotates(m.hot.len(), cap) {
        let slot = next_slot_of(m.names);
        LogModel {
            daily,
            all: m.all.push(s.record),
            hot: Seq::empty(),
            rotated: m.rotated.insert(slot, hot),
            names: m.names.push(slot_file_name_of(slot)),
        }
    } else {
        LogModel { daily, all: m.all.push(s.record), hot, rotated: m.rotated, names: m.names }
    }
}

/// The state after a run of submissions, in order.
pub open spec fn run(m: LogModel, subs: Seq<Submission>, cap: nat) -> LogModel
    decreases subs.len(),
{
    if subs.len() == 0 {
        m
    } else {
        submitted(run(m, subs.drop_last(), cap), subs.last(), cap)
    }
}

/// The state after removing every rotated file and the hot file.
pub open spec fn cleared(m: LogModel) -> LogModel {
    LogModel { daily: m.daily, all: m.all, hot: Seq::empty(), rotated: Map::empty(), names: Seq::empty() }
}

pub open spec fn records(subs: Seq<Submission>) -> Seq<RecordView> {
    subs.map_values(|s: Submission| s.record)
}

/// The records of the submissions made on `day`, in order.
pub open spec fn records_on(subs: Seq<Submission>, day: Seq<char>) -> Seq<RecordView>
    decreases subs.len(),
{
    if subs.len() == 0 {
        Seq::empty()
    } else {
        records_on(subs.drop_last(), day) + if subs.last().day == day {
            seq![subs.last().record]
        } else {
            Seq::empty()
        }
    }
}

/// Every submission adds exactly one row, its own, at the end of the
/// aggregate file and of the file of its day; the other days' files stay.
pub proof fn lemma_one_row_per_submission(m: LogModel, subs: Seq<Submission>, cap: nat)
    ensures
        run(m, subs, cap).all == m.all + records(subs),
        forall|d: Seq<char>| #[trigger] day_rows(run(m, subs, cap), d) == day_rows(m, d) + records_on(subs, d),
    decreases subs.len(),
{
    if subs.len() == 0 {
        assert(m.all + records(subs) =~= m.all);
        assert forall|d: Seq<char>| #[trigger] day_rows(run(m, subs, cap), d) == day_rows(m, d) + records_on(subs, d) by {
            assert(day_rows(m, d) + records_on(subs, d) =~= day_rows(m, d));
        }
    } else {
        let p = subs.drop_last();
        lemma_one_row_per_submission(m, p, cap);
        assert(records(subs) =~= records(p).push(subs.last().record));
        assert(m.all + records(subs) =~= (m.all + records(p)).push(subs.last().record));
        assert forall|d: Seq<char>| #[trigger] day_rows(run(m, subs, cap), d) == day_rows(m, d) + records_on(subs, d) by {
            assert(day_rows(run(m, p, cap), d) == day_rows(m, d) + records_on(p, d));
            if subs.last().day == d {
                assert(day_rows(m, d) + records_on(subs, d) =~= (day_rows(m, d) + records_on(p, d)).push(subs.last().record));
            } else {
                assert(day_rows(m, d) + records_on(subs, d) =~= day_rows(m, d) + records_on(p, d));
            }
        }
    }
}

/// Before the cap is reached the hot file only grows.
proof fn lemma_fill(m: LogModel, subs: Seq<Submission>, cap: nat)
    requires
        m.hot.len() == 0,
        subs.len() < cap,
    ensures
        run(m, subs, cap).hot == records(subs),
        run(m, subs, cap).rotated == m.rotated,
        run(m, subs, cap).names == m.names,
    decreases subs.len(),
{
    if subs.len() > 0 {
        let p = subs.drop_last();
        lemma_fill(m, p, cap);
        assert(records(subs) =~= records(p).push(subs.last().record));
    }
}

/// From an empty hot file, `cap` submissions fill it and retire it into
/// the next slot, leaving no hot file.
pub proof fn lemma_one_cycle(m: LogModel, subs: Seq<Submission>, cap: nat)
    requires
        cap >= 1,
        m.hot.len() == 0,
        subs.len() == cap,
    ensures
        run(m, subs, cap).hot.len() == 0,
        run(m, subs, cap).rotated == m.rotated.insert(next_slot_of(m.names), records(subs)),
        run(m, subs, cap).names == m.names.push(slot_file_name_of(next_slot_of(m.names))),
{
    let p = subs.drop_last();
    lemma_fill(m, p, cap);
    assert(records(subs) =~= records(p).push(subs.last().record));
}

/// With row cap `cap` and no numbered file yet, the first `cap` submissions
/// end up in slot 1, and the next `cap` in slot 2, slot 1 staying as it was.
pub proof fn lemma_rotation_slots(m: LogModel, subs: Seq<Submission>, cap: nat)
    requires
        cap >= 1,
        m.hot.len() == 0,
        max_slot(m.names) == 0,
        subs.len() == 2 * cap,
    ensures
        ({
            let m1 = run(m, subs.subrange(0, cap as int), cap);
            let m2 = run(m1, subs.subrange(cap as int, 2 * cap as int), cap);
            &&& m1.hot.len() == 0
            &&& m1.rotated == m.rotated.insert(1, records(subs.subrange(0, cap as int)))
            &&& m2.hot.len() == 0
            &&& m2.rotated == m1.rotated.insert(2, records(subs.subrange(cap as int, 2 * cap as int)))
            &&& m2.rotated[1] == m1.rotated[1]
        }),
{
    let m1 = run(m, subs.subrange(0, cap as int), cap);
    lemma_one_cycle(m, subs.subrange(0, cap as int), cap);
    lemma_slot_name_round_trip(1);
    assert(m1.names.drop_last() =~= m.names);
    assert(max_slot(m1.names) == 1);
    lemma_one_cycle(m1, subs.subrange(cap as int, 2 * cap as int), cap);
}

/// After every rotated file and the hot file are removed, the next
/// submission starts a hot file from empty, with a header: it holds that
/// one row, or, with a cap of 1, is retired at once into slot 1.
pub proof fn lemma_clear_then_submit(m: LogModel, s: Submission, cap: nat)
    ensures
        wants_header(cleared(m).hot.len()),
        cap >= 2 ==> submitted(cleared(m), s, cap).hot == seq![s.record],
        cap <= 1 ==> submitted(cleared(m), s, cap).hot.len() == 0
            && submitted(cleared(m), s, cap).rotated == Map::<nat, Seq<RecordView>>::empty().insert(1, seq![s.record]),
{
    assert(Seq::<RecordView>::empty().push(s.record) =~= seq![s.record]);
}

/// The `j`-th run of `cap` submissions.
pub open spec fn chunk(subs: Seq<Submission>, j: nat, cap: nat) -> Seq<Submission> {
    subs.subrange((j * cap) as int, ((j + 1) * cap) as int)
}

proof fn lemma_run_concat(m: LogModel, a: Seq<Submission>, b: Seq<Submission>, cap: nat)
    ensures
        run(m, a + b, cap) == run(run(m, a, cap), b, cap),
    decreases b.len(),
{
    if b.len() == 0 {
        assert(a + b =~= a);
    } else {
        assert((a + b).drop_last() =~= a + b.drop_last());
        lemma_run_concat(m, a, b.drop_last(), cap);
    }
}

proof fn lemma_chunk_of_prefix(subs: Seq<Submission>, j: nat, km: nat, cap: nat)
    requires
        j < km,
        subs.len() >= km * cap,
    ensures
        chunk(subs.subrange(0, (km * cap) as int), j, cap) == chunk(subs, j, cap),
{
    assert((j + 1) * cap <= km * cap) by (nonlinear_arith)
        requires j < km;
    assert(j * cap <= (j + 1) * cap) by (nonlinear_arith);
    assert(chunk(subs.subrange(0, (km * cap) as int), j, cap) =~= chunk(subs, j, cap));
}

proof fn lemma_split_last_chunk(subs: Seq<Submission>, km: nat, cap: nat)
    requires
        subs.len() == (km + 1) * cap,
    ensures
        subs.subrange(0, (km * cap) as int) + chunk(subs, km, cap) == subs,
        chunk(subs, km, cap).len() == cap,
        subs.subrange(0, (km * cap) as int).len() == km * cap,
{
    assert(km * cap + cap == (km + 1) * cap) by (nonlinear_arith);
    assert(subs.subrange(0, (km * cap) as int) + chunk(subs, km, cap) =~= subs);
}

/// From an empty hot file, `k * cap` submissions fill `k` fresh slots in
/// turn, `cap` rows each, one past the largest slot in use before, and
/// leave every other slot as it was.
pub proof fn lemma_rotation_cycles(m: LogModel, subs: Seq<Submission>, cap: nat, k: nat)
    requires
        cap >= 1,
        m.hot.len() == 0,
        subs.len() == k * cap,
        max_slot(m.names) + k <= usize::MAX,
    ensures
        ({
            let r = run(m, subs, cap);
            let base = max_slot(m.names);
            &&& r.hot.len() == 0
            &&& max_slot(r.names) == base + k
            &&& forall|j: nat| j < k ==> #[trigger] r.rotated.contains_key(base + 1 + j)
                && r.rotated[base + 1 + j] == records(chunk(subs, j, cap))
            &&& forall|s: nat| (s <= base || s > base + k) ==> (#[trigger] r.rotated.contains_key(s)
                == m.rotated.contains_key(s) && (m.rotated.contains_key(s) ==> r.rotated[s] == m.rotated[s]))
        }),
    decreases k,
{
    let base = max_slot(m.names);
    if k == 0 {
        assert(k * cap == 0) by (nonlinear_arith)
            requires k == 0;
        assert(subs =~= Seq::<Submission>::empty());
    } else {
        let km = (k - 1) as nat;
        lemma_split_last_chunk(subs, km, cap);
        let a = subs.subrange(0, (km * cap) as int);
        let b = chunk(subs, km, cap);
        lemma_rotation_cycles(m, a, cap, km);
        let ma = run(m, a, cap);
        lemma_run_concat(m, a, b, cap);
        lemma_one_cycle(ma, b, cap);
        lemma_slot_name_round_trip(base + k);
        let r = run(m, subs, cap);
        assert(r.names.drop_last() =~= ma.names);
        assert(r.names.last() == slot_file_name_of(base + k));
        assert(max_slot(ma.names) == base + km);
        assert(max_slot(r.names) == base + k);
        assert(r.hot.len() == 0);
        assert forall|j: nat| j < k implies #[trigger] r.rotated.contains_key(base + 1 + j)
            && r.rotated[base + 1 + j] == records(chunk(subs, j, cap)) by {
            if j < km {
                lemma_chunk_of_prefix(subs, j, km, cap);
                assert(ma.rotated.contains_key(base + 1 + j));
                assert(ma.rotated[base + 1 + j] == records(chunk(a, j, cap)));
            }
        }
        assert forall|s: nat| (s <= base || s > base + k) implies (#[trigger] r.rotated.contains_key(s)
            == m.rotated.contains_key(s) && (m.rotated.contains_key(s) ==> r.rotated[s]
            == m.rotated[s])) by {
            assert(ma.rotated.contains_key(s) == m.rotated.contains_key(s));
            if m.rotated.contains_key(s) {
                assert(ma.rotated[s] == m.rotated[s]);
            }
        }
    }
}

} // verus!
