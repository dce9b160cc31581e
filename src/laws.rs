//! Properties of the snapshot that hold for every telegram.
use vstd::prelude::*;

use crate::decimal::Decimal;
use crate::report::{
    assigned, delta, entry, is_aggregate_slot, last_assigned, slot, snapshot, snapshot_upto,
    tariff_of_octets, total, Aggregate, FieldObject, Line, Measurement, FIELD_COUNT,
};

verus! {

/// Both objects set the same direct field.
pub open spec fn same_target(a: FieldObject, b: FieldObject) -> bool {
    &&& assigned(a) is Some
    &&& assigned(b) is Some
    &&& slot(assigned(a).unwrap()) == slot(assigned(b).unwrap())
}

/// `objs` with the objects at `i` and `i + 1` exchanged.
pub open spec fn swap_adjacent(objs: Seq<FieldObject>, i: int) -> Seq<FieldObject> {
    objs.update(i, objs[i + 1]).update(i + 1, objs[i])
}

proof fn lemma_swap_drop_last(objs: Seq<FieldObject>, i: int)
    requires
        0 <= i,
        i + 2 < objs.len(),
    ensures
        swap_adjacent(objs, i).drop_last() == swap_adjacent(objs.drop_last(), i),
        swap_adjacent(objs, i).last() == objs.last(),
{
    assert(swap_adjacent(objs, i).drop_last() =~= swap_adjacent(objs.drop_last(), i));
}

proof fn lemma_swap_at_end(objs: Seq<FieldObject>)
    requires
        objs.len() >= 2,
    ensures
        ({
            let n = objs.len() as int;
            let sw = swap_adjacent(objs, n - 2);
            &&& sw.last() == objs[n - 2]
            &&& sw.drop_last().last() == objs[n - 1]
            &&& sw.drop_last().drop_last() == objs.drop_last().drop_last()
            &&& objs.drop_last().last() == objs[n - 2]
        }),
{
    let n = objs.len() as int;
    assert(swap_adjacent(objs, n - 2).drop_last().drop_last() =~= objs.drop_last().drop_last());
}

/// A running total does not depend on the order of the objects: exchanging
/// any two neighbours leaves it as it was.
pub proof fn lemma_total_swap(objs: Seq<FieldObject>, i: int, a: Aggregate)
    requires
        0 <= i,
        i + 1 < objs.len(),
    ensures
        total(swap_adjacent(objs, i), a) == total(objs, a),
    decreases objs.len(),
{
    let sw = swap_adjacent(objs, i);
    if i + 2 < objs.len() {
        lemma_swap_drop_last(objs, i);
        lemma_total_swap(objs.drop_last(), i, a);
    } else {
        lemma_swap_at_end(objs);
        assert(total(sw.drop_last(), a) == total(sw.drop_last().drop_last(), a) + delta(
            sw.drop_last().last(),
            a,
        ));
        assert(total(objs.drop_last(), a) == total(objs.drop_last().drop_last(), a) + delta(
            objs.drop_last().last(),
            a,
        ));
    }
    assert(total(sw, a) == total(sw.drop_last(), a) + delta(sw.last(), a));
}

/// Exchanging two neighbours that do not set the same direct field leaves
/// the value of every direct field as it was.
pub proof fn lemma_last_assigned_swap(objs: Seq<FieldObject>, i: int, k: nat)
    requires
        0 <= i,
        i + 1 < objs.len(),
        !same_target(objs[i], objs[i + 1]),
    ensures
        last_assigned(swap_adjacent(objs, i), k) == last_assigned(objs, k),
    decreases objs.len(),
{
    let sw = swap_adjacent(objs, i);
    if i + 2 < objs.len() {
        lemma_swap_drop_last(objs, i);
        assert(objs.drop_last()[i] == objs[i] && objs.drop_last()[i + 1] == objs[i + 1]);
        lemma_last_assigned_swap(objs.drop_last(), i, k);
    } else {
        lemma_swap_at_end(objs);
        let n = objs.len() as int;
        assert(last_assigned(sw.drop_last(), k) == match assigned(sw.drop_last().last()) {
            Some(m) if slot(m) == k => Some(m),
            _ => last_assigned(sw.drop_last().drop_last(), k),
        });
        assert(last_assigned(objs.drop_last(), k) == match assigned(objs.drop_last().last()) {
            Some(m) if slot(m) == k => Some(m),
            _ => last_assigned(objs.drop_last().drop_last(), k),
        });
        assert(objs.last() == objs[n - 1]);
    }
}

/// Two telegrams whose direct fields and totals agree have the same entries.
proof fn lemma_snapshot_upto_agree(o1: Seq<FieldObject>, o2: Seq<FieldObject>, n: nat)
    requires
        forall|k: nat| last_assigned(o1, k) == last_assigned(o2, k),
        forall|a: Aggregate| total(o1, a) == total(o2, a),
    ensures
        snapshot_upto(o1, n) == snapshot_upto(o2, n),
    decreases n,
{
    if n > 0 {
        lemma_snapshot_upto_agree(o1, o2, (n - 1) as nat);
        assert(total(o1, Aggregate::Draw) == total(o2, Aggregate::Draw));
        assert(total(o1, Aggregate::Positive) == total(o2, Aggregate::Positive));
        assert(total(o1, Aggregate::Negative) == total(o2, Aggregate::Negative));
        assert(last_assigned(o1, (n - 1) as nat) == last_assigned(o2, (n - 1) as nat));
        assert(entry(o1, (n - 1) as nat) == entry(o2, (n - 1) as nat));
    }
}

/// Re-ordering does not change a snapshot: exchanging two neighbouring
/// objects leaves every field as it was, unless both set the same direct
/// field (then the later one wins). In particular objects of the power lines,
/// and a power-delivered object next to a power-received one, may stand in
/// any order.
pub proof fn lemma_reorder_keeps_snapshot(objs: Seq<FieldObject>, i: int)
    requires
        0 <= i,
        i + 1 < objs.len(),
        !same_target(objs[i], objs[i + 1]),
    ensures
        snapshot(swap_adjacent(objs, i)) == snapshot(objs),
{
    assert forall|k: nat| last_assigned(swap_adjacent(objs, i), k) == last_assigned(objs, k) by {
        lemma_last_assigned_swap(objs, i, k);
    }
    assert forall|a: Aggregate| total(swap_adjacent(objs, i), a) == total(objs, a) by {
        lemma_total_swap(objs, i, a);
    }
    lemma_snapshot_upto_agree(swap_adjacent(objs, i), objs, FIELD_COUNT as nat);
}

/// The field a direct slot holds stands in that slot, and no object sets an
/// aggregate slot.
pub proof fn lemma_last_assigned_slot(objs: Seq<FieldObject>, k: nat)
    ensures
        last_assigned(objs, k) is Some ==> slot(last_assigned(objs, k).unwrap()) == k
            && !is_aggregate_slot(k) && k < FIELD_COUNT,
    decreases objs.len(),
{
    if objs.len() > 0 {
        lemma_last_assigned_slot(objs.drop_last(), k);
    }
}

/// No tariff indicator names a tariff, so the active tariff is never set.
proof fn lemma_no_tariff_assigned(objs: Seq<FieldObject>)
    requires
        forall|i: int|
            0 <= i < objs.len() ==> match #[trigger] objs[i] {
                FieldObject::TariffIndicator(octets) => tariff_of_octets(octets@) is None,
                _ => true,
            },
    ensures
        last_assigned(objs, 0) is None,
    decreases objs.len(),
{
    if objs.len() > 0 {
        assert forall|i: int| 0 <= i < objs.drop_last().len() implies match #[trigger] objs.drop_last()[i] {
            FieldObject::TariffIndicator(octets) => tariff_of_octets(octets@) is None,
            _ => true,
        } by {
            assert(objs.drop_last()[i] == objs[i]);
        }
        lemma_no_tariff_assigned(objs.drop_last());
        assert(objs[objs.len() - 1] == objs.last());
    }
}

/// The slots of the first `n` entries rise strictly, stay below `n`, and a
/// slot below `n` appears exactly where it is an aggregate or its field was
/// set.
proof fn lemma_snapshot_upto_slots(objs: Seq<FieldObject>, n: nat)
    requires
        n <= FIELD_COUNT,
    ensures
        forall|j: int|
            0 <= j < snapshot_upto(objs, n).len() ==> slot(#[trigger] snapshot_upto(objs, n)[j])
                < n,
        forall|j1: int, j2: int|
            0 <= j1 < j2 < snapshot_upto(objs, n).len() ==> slot(
                #[trigger] snapshot_upto(objs, n)[j1],
            ) < slot(#[trigger] snapshot_upto(objs, n)[j2]),
        forall|k: nat|
            k < n ==> ((exists|j: int|
                0 <= j < snapshot_upto(objs, n).len() && slot(
                    #[trigger] snapshot_upto(objs, n)[j],
                ) == k) <==> (is_aggregate_slot(k) || last_assigned(objs, k) is Some)),
    decreases n,
{
    if n > 0 {
        let m = (n - 1) as nat;
        lemma_snapshot_upto_slots(objs, m);
        lemma_last_assigned_slot(objs, m);
        let prev = snapshot_upto(objs, m);
        let e = entry(objs, m);
        let cur = snapshot_upto(objs, n);
        assert(cur == prev + e);
        assert(forall|j: int| 0 <= j < e.len() ==> slot(#[trigger] e[j]) == m);
        assert forall|j: int| 0 <= j < cur.len() implies slot(#[trigger] cur[j]) < n by {
            if j >= prev.len() {
                assert(cur[j] == e[j - prev.len()]);
            }
        }
        assert forall|j1: int, j2: int|
            0 <= j1 < j2 < cur.len() implies slot(#[trigger] cur[j1]) < slot(
                #[trigger] cur[j2],
            ) by {
            if j2 >= prev.len() {
                assert(cur[j2] == e[j2 - prev.len()]);
                if j1 >= prev.len() {
                    assert(cur[j1] == e[j1 - prev.len()]);
                } else {
                    assert(cur[j1] == prev[j1]);
                }
            } else {
                assert(cur[j1] == prev[j1] && cur[j2] == prev[j2]);
            }
        }
        assert forall|k: nat| k < n implies ((exists|j: int|
            0 <= j < cur.len() && slot(#[trigger] cur[j]) == k) <==> (is_aggregate_slot(k)
            || last_assigned(objs, k) is Some)) by {
            let in_cur = exists|j: int| 0 <= j < cur.len() && slot(#[trigger] cur[j]) == k;
            let in_prev = exists|j: int| 0 <= j < prev.len() && slot(#[trigger] prev[j]) == k;
            if in_cur {
                let j = choose|j: int| 0 <= j < cur.len() && slot(#[trigger] cur[j]) == k;
                if j >= prev.len() {
                    assert(cur[j] == e[j - prev.len()]);
                    assert(k == m);
                } else {
                    assert(cur[j] == prev[j]);
                    assert(in_prev);
                }
            }
            if k < m {
                if in_prev {
                    let j = choose|j: int| 0 <= j < prev.len() && slot(#[trigger] prev[j]) == k;
                    assert(cur[j] == prev[j]);
                }
                assert(in_prev <==> (is_aggregate_slot(k) || last_assigned(objs, k) is Some));
            } else {
                assert(!in_prev);
                if is_aggregate_slot(k) || last_assigned(objs, k) is Some {
                    assert(e.len() == 1);
                    assert(cur[prev.len() as int] == e[0]);
                    assert(slot(cur[prev.len() as int]) == k);
                } else {
                    assert(e.len() == 0);
                }
            }
        }
    }
}

/// A snapshot holds its fields in the fixed canonical order, one per field:
/// each of the three aggregates, and each direct field that the telegram set.
pub proof fn lemma_snapshot_canonical(objs: Seq<FieldObject>)
    ensures
        forall|j1: int, j2: int|
            0 <= j1 < j2 < snapshot(objs).len() ==> slot(#[trigger] snapshot(objs)[j1]) < slot(
                #[trigger] snapshot(objs)[j2],
            ),
        forall|k: nat|
            k < FIELD_COUNT ==> ((exists|j: int|
                0 <= j < snapshot(objs).len() && slot(#[trigger] snapshot(objs)[j]) == k) <==> (
            is_aggregate_slot(k) || last_assigned(objs, k) is Some)),
{
    lemma_snapshot_upto_slots(objs, FIELD_COUNT as nat);
    let s = snapshot_upto(objs, FIELD_COUNT as nat);
    assert forall|k: nat| k < FIELD_COUNT implies ((exists|j: int|
        0 <= j < snapshot(objs).len() && slot(#[trigger] snapshot(objs)[j]) == k) <==> (
    is_aggregate_slot(k) || last_assigned(objs, k) is Some)) by {
        assert((exists|j: int| 0 <= j < s.len() && slot(#[trigger] s[j]) == k) <==> (
        is_aggregate_slot(k) || last_assigned(objs, k) is Some));
        if exists|j: int| 0 <= j < s.len() && slot(#[trigger] s[j]) == k {
            let j = choose|j: int| 0 <= j < s.len() && slot(#[trigger] s[j]) == k;
            assert(slot(snapshot(objs)[j]) == k);
        }
        if exists|j: int| 0 <= j < snapshot(objs).len() && slot(#[trigger] snapshot(objs)[j]) == k {
            let j = choose|j: int| 0 <= j < snapshot(objs).len() && slot(#[trigger] snapshot(objs)[j]) == k;
            assert(slot(s[j]) == k);
        }
    }
}

/// A tariff indicator whose octets sum to neither one nor two sets no tariff:
/// where no indicator of a telegram names a tariff, its snapshot holds none.
pub proof fn lemma_unrecognized_tariff(objs: Seq<FieldObject>)
    requires
        forall|i: int|
            0 <= i < objs.len() ==> match #[trigger] objs[i] {
                FieldObject::TariffIndicator(octets) => tariff_of_octets(octets@) is None,
                _ => true,
            },
    ensures
        forall|j: int| 0 <= j < snapshot(objs).len() ==> !(#[trigger] snapshot(objs)[j] is ActiveTariff),
{
    lemma_no_tariff_assigned(objs);
    lemma_snapshot_upto_slots(objs, FIELD_COUNT as nat);
    let s = snapshot_upto(objs, FIELD_COUNT as nat);
    assert(!is_aggregate_slot(0));
    assert(!(exists|j: int| 0 <= j < s.len() && slot(#[trigger] s[j]) == 0nat));
    assert forall|j: int| 0 <= j < s.len() implies !(#[trigger] s[j] is ActiveTariff) by {
        if s[j] is ActiveTariff {
            assert(slot(s[j]) == 0);
        }
    }
}

/// The sum of the power values of one line for one of the two power totals.
pub open spec fn line_total(objs: Seq<FieldObject>, a: Aggregate, l: Line) -> int
    decreases objs.len(),
{
    if objs.len() == 0 {
        0
    } else {
        line_total(objs.drop_last(), a, l) + match (objs.last(), a) {
            (FieldObject::InstantaneousActivePowerPlus(x, v), Aggregate::Positive) => if x == l {
                v.scaled as int
            } else {
                0
            },
            (FieldObject::InstantaneousActivePowerNeg(x, v), Aggregate::Negative) => if x == l {
                v.scaled as int
            } else {
                0
            },
            _ => 0,
        }
    }
}

/// Whether an object carries a power value of line `l` for the total `a`.
pub open spec fn is_line_value(o: FieldObject, a: Aggregate, l: Line) -> bool {
    match (o, a) {
        (FieldObject::InstantaneousActivePowerPlus(x, _), Aggregate::Positive) => x == l,
        (FieldObject::InstantaneousActivePowerNeg(x, _), Aggregate::Negative) => x == l,
        _ => false,
    }
}

/// Each power total is the sum of the values of the three lines, and a line
/// that does not occur in the telegram adds nothing.
pub proof fn lemma_power_total_by_line(objs: Seq<FieldObject>, a: Aggregate, l: Line)
    requires
        a != Aggregate::Draw,
    ensures
        total(objs, a) == line_total(objs, a, Line::Line1) + line_total(objs, a, Line::Line2)
            + line_total(objs, a, Line::Line3),
        (forall|i: int| 0 <= i < objs.len() ==> !is_line_value(#[trigger] objs[i], a, l))
            ==> line_total(objs, a, l) == 0,
    decreases objs.len(),
{
    if objs.len() > 0 {
        assert forall|i: int| 0 <= i < objs.drop_last().len() implies objs.drop_last()[i] == objs[i] by {}
        lemma_power_total_by_line(objs.drop_last(), a, l);
        assert(objs[objs.len() - 1] == objs.last());
    }
}

/// A total is zero where no object contributes to it.
proof fn lemma_total_zero(objs: Seq<FieldObject>, a: Aggregate)
    requires
        forall|i: int| 0 <= i < objs.len() ==> delta(#[trigger] objs[i], a) == 0,
    ensures
        total(objs, a) == 0,
    decreases objs.len(),
{
    if objs.len() > 0 {
        assert forall|i: int| 0 <= i < objs.drop_last().len() implies delta(
            #[trigger] objs.drop_last()[i],
            a,
        ) == 0 by {
            assert(objs.drop_last()[i] == objs[i]);
        }
        lemma_total_zero(objs.drop_last(), a);
        assert(objs[objs.len() - 1] == objs.last());
    }
}

/// The three aggregates are in every snapshot, each with its total; a total
/// to which no object of the telegram contributes is zero.
pub proof fn lemma_aggregates_present(objs: Seq<FieldObject>)
    ensures
        snapshot(objs).contains(
            Measurement::CurrentElectricityDraw(
                Decimal { scaled: total(objs, Aggregate::Draw) as i128 },
            ),
        ),
        snapshot(objs).contains(
            Measurement::InstantaneousActivePowerPositive(
                Decimal { scaled: total(objs, Aggregate::Positive) as i128 },
            ),
        ),
        snapshot(objs).contains(
            Measurement::InstantaneousActivePowerNegative(
                Decimal { scaled: total(objs, Aggregate::Negative) as i128 },
            ),
        ),
        forall|a: Aggregate|
            (forall|i: int| 0 <= i < objs.len() ==> delta(#[trigger] objs[i], a) == 0) ==> total(
                objs,
                a,
            ) == 0,
{
    let s7 = snapshot_upto(objs, 7);
    assert(snapshot_upto(objs, 8) == s7 + entry(objs, 7));
    assert(snapshot_upto(objs, 9) == snapshot_upto(objs, 8) + entry(objs, 8));
    assert(snapshot_upto(objs, 10) == snapshot_upto(objs, 9) + entry(objs, 9));
    let s = snapshot(objs);
    assert(s == snapshot_upto(objs, 10) + entry(objs, 10));
    assert(s[s7.len() as int] == entry(objs, 7)[0]);
    assert(s[s7.len() as int + 1] == entry(objs, 8)[0]);
    assert(s[s7.len() as int + 2] == entry(objs, 9)[0]);
    assert forall|a: Aggregate|
        (forall|i: int| 0 <= i < objs.len() ==> delta(#[trigger] objs[i], a) == 0) implies total(
        objs,
        a,
    ) == 0 by {
        lemma_total_zero(objs, a);
    }
}

} // verus!
