use vstd::prelude::*;

verus! {

/// Number of snapshots kept in the rolling sensor history.
pub const SENSOR_VALUE_HISTORY_SIZE: usize = 1000;

/// How a sensor's textual value is to be read.
#[derive(Clone, Copy, Debug, PartialEq, Eq, Structural)]
pub enum SensorType {
    Number,
    Text,
}

/// One reading of one sensor.
#[derive(Clone, Debug)]
pub struct SensorValue {
    pub id: String,
    pub value: String,
    pub unit: String,
    pub label: String,
    pub sensor_type: SensorType,
}

impl SensorValue {
    /// A field-by-field copy.
    pub fn duplicate(&self) -> (r: SensorValue)
        ensures
            r == *self,
    {
        SensorValue {
            id: self.id.clone(),
            value: self.value.clone(),
            unit: self.unit.clone(),
            label: self.label.clone(),
            sensor_type: self.sensor_type,
        }
    }
}

/// Strict lexicographic order on character sequences, compared from position `i` on.
pub open spec fn lex_lt_from(a: Seq<char>, b: Seq<char>, i: int) -> bool
    decreases a.len() - i,
{
    if i < 0 || i >= a.len() {
        i >= 0 && b.len() > i
    } else if i >= b.len() {
        false
    } else if a[i] != b[i] {
        (a[i] as u32) < (b[i] as u32)
    } else {
        lex_lt_from(a, b, i + 1)
    }
}

/// Strict lexicographic order on character sequences (the order of `str`'s `cmp`).
pub open spec fn lex_lt(a: Seq<char>, b: Seq<char>) -> bool {
    lex_lt_from(a, b, 0)
}

pub open spec fn label_le(a: SensorValue, b: SensorValue) -> bool {
    !lex_lt(b.label@, a.label@)
}

/// The snapshot is ordered by label.
pub open spec fn sorted_by_label(s: Seq<SensorValue>) -> bool {
    forall|i: int, j: int| 0 <= i < j < s.len() ==> label_le(#[trigger] s[i], #[trigger] s[j])
}

/// No two readings of the snapshot share an id.
pub open spec fn ids_unique(s: Seq<SensorValue>) -> bool {
    forall|i: int, j: int|
        0 <= i < s.len() && 0 <= j < s.len() && i != j ==> (#[trigger] s[i]).id@ != (#[trigger] s[j]).id@
}

proof fn lemma_lex_lt_transitive_from(a: Seq<char>, b: Seq<char>, c: Seq<char>, i: int)
    requires
        0 <= i,
        lex_lt_from(a, b, i),
        lex_lt_from(b, c, i),
    ensures
        lex_lt_from(a, c, i),
    decreases a.len() - i,
{
    if i < a.len() && i < b.len() && i < c.len() && a[i] == b[i] && b[i] == c[i] {
        lemma_lex_lt_transitive_from(a, b, c, i + 1);
    }
}

proof fn lemma_lex_lt_irreflexive_from(a: Seq<char>, i: int)
    requires
        0 <= i,
    ensures
        !lex_lt_from(a, a, i),
    decreases a.len() - i,
{
    if i < a.len() {
        lemma_lex_lt_irreflexive_from(a, i + 1);
    }
}

pub proof fn lemma_lex_lt_irreflexive(a: Seq<char>)
    ensures
        !lex_lt(a, a),
{
    lemma_lex_lt_irreflexive_from(a, 0);
}

pub proof fn lemma_lex_lt_transitive(a: Seq<char>, b: Seq<char>, c: Seq<char>)
    requires
        lex_lt(a, b),
        lex_lt(b, c),
    ensures
        lex_lt(a, c),
{
    lemma_lex_lt_transitive_from(a, b, c, 0);
}

/// Compares two strings character by character.
pub fn str_less(a: &str, b: &str) -> (r: bool)
    ensures
        r == lex_lt(a@, b@),
{
    let la = a.unicode_len();
    let lb = b.unicode_len();
    let mut i: usize = 0;
    while i < la && i < lb
        invariant
            la == a@.len(),
            lb == b@.len(),
            i <= la,
            i <= lb,
            lex_lt(a@, b@) == lex_lt_from(a@, b@, i as int),
        decreases la - i,
    {
        let ca = a.get_char(i);
        let cb = b.get_char(i);
        if ca != cb {
            return (ca as u32) < (cb as u32);
        }
        i = i + 1;
    }
    i >= la && lb > i
}

/// Copies a snapshot element by element.
pub fn copy_snapshot(v: &Vec<SensorValue>) -> (r: Vec<SensorValue>)
    ensures
        r@ == v@,
{
    let mut r: Vec<SensorValue> = Vec::new();
    let mut i: usize = 0;
    while i < v.len()
        invariant
            i <= v.len(),
            r@ == v@.take(i as int),
        decreases v.len() - i,
    {
        r.push(v[i].duplicate());
        i = i + 1;
        assert(r@ =~= v@.take(i as int));
    }
    assert(r@ =~= v@);
    r
}

proof fn lemma_insert_multiset(s: Seq<SensorValue>, p: int, x: SensorValue)
    requires
        0 <= p <= s.len(),
    ensures
        s.insert(p, x).to_multiset() =~= s.to_multiset().insert(x),
{
    let t = s.insert(p, x);
    assert(t.remove(p) =~= s);
    t.to_multiset_ensures();
    assert(t.contains(x)) by {
        assert(t[p] == x);
    }
    assert(t.to_multiset().count(x) > 0);
}

/// Inserts `x` into the label-ordered `r`, after every reading whose label is not greater.
fn insert_by_label(r: &mut Vec<SensorValue>, x: SensorValue)
    requires
        sorted_by_label(old(r)@),
    ensures
        exists|p: int| 0 <= p <= old(r)@.len() && final(r)@ == old(r)@.insert(p, x),
        sorted_by_label(final(r)@),
{
    let ghost s = r@;
    let mut p: usize = 0;
    while p < r.len() && !str_less(x.label.as_str(), r[p].label.as_str())
        invariant
            r@ == s,
            p <= s.len(),
            sorted_by_label(s),
            forall|k: int| 0 <= k < p ==> label_le(#[trigger] s[k], x),
        decreases s.len() - p,
    {
        p = p + 1;
    }
    proof {
        assert forall|j: int| p <= j < s.len() implies label_le(x, #[trigger] s[j]) by {
            assert(lex_lt(x.label@, s[p as int].label@));
            if lex_lt(s[j].label@, x.label@) {
                lemma_lex_lt_transitive(s[j].label@, x.label@, s[p as int].label@);
                if j == p {
                    lemma_lex_lt_irreflexive(s[j].label@);
                } else {
                    assert(label_le(s[p as int], s[j]));
                }
            }
        }
        s.insert_ensures(p as int, x);
    }
    r.insert(p, x);
    proof {
        let t = r@;
        assert forall|i: int, j: int| 0 <= i < j < t.len() implies label_le(#[trigger] t[i], #[trigger] t[j]) by {
            if j < p {
                assert(t[i] == s[i] && t[j] == s[j]);
            } else if j == p {
                assert(t[i] == s[i]);
            } else if i < p {
                assert(t[i] == s[i] && t[j] == s[j - 1]);
            } else if i == p {
                assert(t[j] == s[j - 1]);
            } else {
                assert(t[i] == s[i - 1] && t[j] == s[j - 1]);
            }
        }
    }
}

/// Joins static and dynamic readings and orders them by label (stable).
pub fn build_snapshot(static_values: &Vec<SensorValue>, dynamic_values: Vec<SensorValue>) -> (r: Vec<
    SensorValue,
>)
    ensures
        sorted_by_label(r@),
        r@.to_multiset() =~= (static_values@ + dynamic_values@).to_multiset(),
        ids_unique(static_values@ + dynamic_values@) ==> ids_unique(r@),
{
    let mut all = copy_snapshot(static_values);
    let mut rest = dynamic_values;
    all.append(&mut rest);
    let ghost input = all@;
    assert(input =~= static_values@ + dynamic_values@);
    let mut r: Vec<SensorValue> = Vec::new();
    let mut i: usize = 0;
    assert(r@ =~= input.take(0));
    while i < all.len()
        invariant
            all@ == input,
            i <= input.len(),
            sorted_by_label(r@),
            r@.to_multiset() =~= input.take(i as int).to_multiset(),
            ids_unique(input) ==> ids_unique(r@),
        decreases input.len() - i,
    {
        let x = all[i].duplicate();
        let ghost before = r@;
        proof {
            before.to_multiset_ensures();
            input.take(i as int).to_multiset_ensures();
        }
        insert_by_label(&mut r, x);
        proof {
            let p = choose|p: int| 0 <= p <= before.len() && r@ == before.insert(p, x);
            lemma_insert_multiset(before, p, x);
            assert(input.take(i + 1) =~= input.take(i as int).push(x));
            input.take(i as int).to_multiset_ensures();
            before.insert_ensures(p, x);
            if ids_unique(input) {
                assert forall|a: int, b: int|
                    0 <= a < r@.len() && 0 <= b < r@.len() && a != b implies (#[trigger] r@[a]).id@
                    != (#[trigger] r@[b]).id@ by {
                    if a != p && b != p {
                        let a0 = if a < p { a } else { a - 1 };
                        let b0 = if b < p { b } else { b - 1 };
                        assert(r@[a] == before[a0] && r@[b] == before[b0]);
                    } else {
                        let o = if a == p { b } else { a };
                        let o0 = if o < p { o } else { o - 1 };
                        assert(r@[o] == before[o0]);
                        assert(before.contains(before[o0]));
                        assert(before.to_multiset().count(before[o0]) > 0);
                        assert(input.take(i as int).contains(before[o0]));
                        let j = choose|j: int|
                            0 <= j < i && #[trigger] input.take(i as int)[j] == before[o0];
                        assert(input[j] == before[o0]);
                        assert(input[i as int] == x);
                    }
                }
            }
        }
        i = i + 1;
    }
    assert(input.take(input.len() as int) =~= input);
    r
}

/// The history after `snapshot` is put in front and the oldest entries beyond `capacity` dropped.
pub open spec fn pushed_history(
    history: Seq<Vec<SensorValue>>,
    snapshot: Vec<SensorValue>,
    capacity: nat,
) -> Seq<Vec<SensorValue>> {
    let h = seq![snapshot] + history;
    if h.len() > capacity {
        h.take(capacity as int)
    } else {
        h
    }
}

/// Puts `snapshot` at the front of the history (newest first) and drops the oldest entries
/// beyond `capacity`.
pub fn record_snapshot(history: &mut Vec<Vec<SensorValue>>, snapshot: Vec<SensorValue>, capacity: usize)
    ensures
        final(history)@ == pushed_history(old(history)@, snapshot, capacity as nat),
{
    history.insert(0, snapshot);
    assert(history@ =~= seq![snapshot] + old(history)@);
    while history.len() > capacity
        invariant
            history@ == (seq![snapshot] + old(history)@).take(history@.len() as int),
            history@.len() <= old(history)@.len() + 1,
            history@.len() == old(history)@.len() + 1 || history@.len() >= capacity,
        decreases history@.len(),
    {
        history.pop();
        assert(history@ =~= (seq![snapshot] + old(history)@).take(history@.len() as int));
    }
    assert(history@ =~= pushed_history(old(history)@, snapshot, capacity as nat));
}

/// The history after recording `snapshots` in order into an empty history.
pub open spec fn history_after(snapshots: Seq<Vec<SensorValue>>, capacity: nat) -> Seq<
    Vec<SensorValue>,
>
    decreases snapshots.len(),
{
    if snapshots.len() == 0 {
        Seq::empty()
    } else {
        pushed_history(history_after(snapshots.drop_last(), capacity), snapshots.last(), capacity)
    }
}

/// The history holds the `min(n, capacity)` newest of `n` recorded snapshots, newest first.
pub proof fn lemma_history_after(snapshots: Seq<Vec<SensorValue>>, capacity: nat)
    ensures
        history_after(snapshots, capacity).len() == if snapshots.len() < capacity {
            snapshots.len()
        } else {
            capacity
        },
        forall|k: int|
            0 <= k < history_after(snapshots, capacity).len() ==> #[trigger] history_after(
                snapshots,
                capacity,
            )[k] == snapshots[snapshots.len() - 1 - k],
    decreases snapshots.len(),
{
    if snapshots.len() > 0 {
        lemma_history_after(snapshots.drop_last(), capacity);
    }
}

/// Once the history is full, recording keeps its length at `capacity` and drops exactly the
/// previously oldest entry.
pub proof fn lemma_full_history_drops_oldest(
    history: Seq<Vec<SensorValue>>,
    snapshot: Vec<SensorValue>,
    capacity: nat,
)
    requires
        capacity > 0,
        history.len() == capacity,
    ensures
        pushed_history(history, snapshot, capacity).len() == capacity,
        pushed_history(history, snapshot, capacity) == seq![snapshot] + history.take(
            capacity - 1,
        ),
{
    assert(pushed_history(history, snapshot, capacity) =~= seq![snapshot] + history.take(
        capacity - 1,
    ));
}

/// Builds the snapshot of one tick, records it in the history and returns it.
pub fn read_all_sensor_values(
    sensor_value_history: &mut Vec<Vec<SensorValue>>,
    static_sensor_values: &Vec<SensorValue>,
    dynamic_sensor_values: Vec<SensorValue>,
) -> (r: Vec<SensorValue>)
    ensures
        sorted_by_label(r@),
        r@.to_multiset() =~= (static_sensor_values@ + dynamic_sensor_values@).to_multiset(),
        ids_unique(static_sensor_values@ + dynamic_sensor_values@) ==> ids_unique(r@),
        final(sensor_value_history)@.len() > 0,
        final(sensor_value_history)@[0]@ == r@,
        final(sensor_value_history)@ == pushed_history(
            old(sensor_value_history)@,
            final(sensor_value_history)@[0],
            SENSOR_VALUE_HISTORY_SIZE as nat,
        ),
{
    let snapshot = build_snapshot(static_sensor_values, dynamic_sensor_values);
    let stored = copy_snapshot(&snapshot);
    record_snapshot(sensor_value_history, stored, SENSOR_VALUE_HISTORY_SIZE);
    snapshot
}

/// A source of sensor readings.
pub trait SensorProvider {
    fn get_name(&self) -> String;
}

/// The operating-system counters (CPU, memory, network, disks, uptime).
pub struct SystemStatSensor {}

impl SensorProvider for SystemStatSensor {
    fn get_name(&self) -> String {
        String::from_str("SystemStat")
    }
}

/// The CPU load counters.
pub struct CpuSensor {}

impl SensorProvider for CpuSensor {
    fn get_name(&self) -> String {
        String::from_str("CPU")
    }
}

} // verus!
