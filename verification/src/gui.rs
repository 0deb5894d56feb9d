//! The telemetry labels of the Windows GUI that are built from whole numbers.
use vstd::prelude::*;
use crate::text::{decimal, plus_signed_decimal, push_decimal, push_plus_signed_decimal, string_of, is_numeral_of, is_plus_signed_numeral_of, lemma_decimal_is_numeral, lemma_signed_decimal_is_numeral};

verus! {

/// The text shown for a value that the driver does not report.
pub open spec fn unavailable_text() -> Seq<char> {
    "Unavailable"@
}

/// The label of a clock: `"<value> MHz"`.
pub open spec fn clock_text(value: Option<u64>) -> Seq<char> {
    match value {
        Some(v) => decimal(v as nat) + " MHz"@,
        None => unavailable_text(),
    }
}

/// Formats a clock speed in MHz.
pub fn format_clock(value: Option<u64>) -> (r: String)
    ensures
        r@ == clock_text(value),
{
    match value {
        Some(v) => {
            let mut s = String::new();
            push_decimal(&mut s, v);
            s.append(" MHz");
            proof {
                assert(Seq::<char>::empty() + decimal(v as nat) =~= decimal(v as nat));
            }
            s
        },
        None => string_of("Unavailable"),
    }
}

/// The label of the GPU utilization: `"<percent>%"`.
pub open spec fn utilization_text(busy_percent: Option<u8>) -> Seq<char> {
    match busy_percent {
        Some(v) => decimal(v as nat) + "%"@,
        None => unavailable_text(),
    }
}

/// Formats the GPU utilization.
pub fn format_utilization(busy_percent: Option<u8>) -> (r: String)
    ensures
        r@ == utilization_text(busy_percent),
{
    match busy_percent {
        Some(v) => {
            let mut s = String::new();
            push_decimal(&mut s, v as u64);
            s.append("%");
            proof {
                assert(Seq::<char>::empty() + decimal(v as nat) =~= decimal(v as nat));
            }
            s
        },
        None => string_of("Unavailable"),
    }
}

/// The label of the fan: its duty in percent and its speed in RPM, as far as known.
pub open spec fn fan_text(percent: Option<u8>, rpm: Option<u32>) -> Seq<char> {
    match (percent, rpm) {
        (Some(p), Some(s)) => decimal(p as nat) + "% - "@ + decimal(s as nat) + " RPM"@,
        (Some(p), None) => decimal(p as nat) + "%"@,
        (None, Some(s)) => decimal(s as nat) + " RPM"@,
        (None, None) => unavailable_text(),
    }
}

/// Formats the fan duty and speed.
pub fn format_fan(percent: Option<u8>, rpm: Option<u32>) -> (r: String)
    ensures
        r@ == fan_text(percent, rpm),
{
    match (percent, rpm) {
        (Some(p), Some(speed)) => {
            let mut s = String::new();
            push_decimal(&mut s, p as u64);
            s.append("% - ");
            push_decimal(&mut s, speed as u64);
            s.append(" RPM");
            proof {
                assert(Seq::<char>::empty() + decimal(p as nat) =~= decimal(p as nat));
            }
            s
        },
        (Some(p), None) => {
            let mut s = String::new();
            push_decimal(&mut s, p as u64);
            s.append("%");
            proof {
                assert(Seq::<char>::empty() + decimal(p as nat) =~= decimal(p as nat));
            }
            s
        },
        (None, Some(speed)) => {
            let mut s = String::new();
            push_decimal(&mut s, speed as u64);
            s.append(" RPM");
            proof {
                assert(Seq::<char>::empty() + decimal(speed as nat) =~= decimal(speed as nat));
            }
            s
        },
        (None, None) => string_of("Unavailable"),
    }
}

/// The label of a clock offset of P-state `state`.
pub open spec fn offset_range_text(state: u32, current: i32, min: i32, max: i32) -> Seq<char> {
    "P"@ + decimal(state as nat) + ": current "@ + plus_signed_decimal(current as int)
        + " MHz - allowed "@ + plus_signed_decimal(min as int) + " to "@ + plus_signed_decimal(
        max as int) + " MHz"@
}

/// Formats a clock offset with the range that the driver allows.
pub fn format_offset_range(state: u32, current: i32, min: i32, max: i32) -> (r: String)
    ensures
        r@ == offset_range_text(state, current, min, max),
{
    let mut s = string_of("P");
    push_decimal(&mut s, state as u64);
    s.append(": current ");
    push_plus_signed_decimal(&mut s, current as i64);
    s.append(" MHz - allowed ");
    push_plus_signed_decimal(&mut s, min as i64);
    s.append(" to ");
    push_plus_signed_decimal(&mut s, max as i64);
    s.append(" MHz");
    s
}

/// Each label writes the reported number in base 10 followed by its unit:
/// a clock as `<MHz> MHz`, the utilization as `<percent>%`, and a missing
/// value as `Unavailable`.
pub proof fn lemma_number_labels(value: u64, percent: u8)
    ensures
        exists|d: Seq<char>| clock_text(Some(value)) == d + " MHz"@ && is_numeral_of(d, value as int),
        exists|d: Seq<char>| utilization_text(Some(percent)) == d + "%"@ && is_numeral_of(d, percent as int),
        clock_text(None) == "Unavailable"@,
        utilization_text(None) == "Unavailable"@,
{
    lemma_decimal_is_numeral(value as nat);
    lemma_decimal_is_numeral(percent as nat);
    assert(clock_text(Some(value)) == decimal(value as nat) + " MHz"@ && is_numeral_of(decimal(value as nat), value as int));
    assert(utilization_text(Some(percent)) == decimal(percent as nat) + "%"@ && is_numeral_of(decimal(percent as nat), percent as int));
}

/// The fan label writes the duty in base 10 followed by `%`, the speed in
/// base 10 followed by ` RPM`, joined by ` - ` when both are known.
pub proof fn lemma_fan_label(percent: u8, rpm: u32)
    ensures
        exists|p: Seq<char>, r: Seq<char>| fan_text(Some(percent), Some(rpm)) == p + "% - "@ + r + " RPM"@
            && is_numeral_of(p, percent as int) && is_numeral_of(r, rpm as int),
        exists|p: Seq<char>| fan_text(Some(percent), None) == p + "%"@ && is_numeral_of(p, percent as int),
        exists|r: Seq<char>| fan_text(None, Some(rpm)) == r + " RPM"@ && is_numeral_of(r, rpm as int),
        fan_text(None, None) == "Unavailable"@,
{
    lemma_decimal_is_numeral(percent as nat);
    lemma_decimal_is_numeral(rpm as nat);
    assert(fan_text(Some(percent), Some(rpm)) == decimal(percent as nat) + "% - "@ + decimal(rpm as nat) + " RPM"@);
    assert(fan_text(Some(percent), None) == decimal(percent as nat) + "%"@ && is_numeral_of(decimal(percent as nat), percent as int));
    assert(fan_text(None, Some(rpm)) == decimal(rpm as nat) + " RPM"@ && is_numeral_of(decimal(rpm as nat), rpm as int));
}

/// The offset label names the P-state in base 10 and writes the current
/// offset and both bounds with their signs, in MHz.
pub proof fn lemma_offset_range_label(state: u32, current: i32, min: i32, max: i32)
    ensures
        exists|s: Seq<char>, c: Seq<char>, lo: Seq<char>, hi: Seq<char>|
            offset_range_text(state, current, min, max) == "P"@ + s + ": current "@ + c
                + " MHz - allowed "@ + lo + " to "@ + hi + " MHz"@
            && is_numeral_of(s, state as int)
            && is_plus_signed_numeral_of(c, current as int)
            && is_plus_signed_numeral_of(lo, min as int)
            && is_plus_signed_numeral_of(hi, max as int),
{
    lemma_decimal_is_numeral(state as nat);
    lemma_signed_decimal_is_numeral(current as int);
    lemma_signed_decimal_is_numeral(min as int);
    lemma_signed_decimal_is_numeral(max as int);
    let s = decimal(state as nat);
    let c = plus_signed_decimal(current as int);
    let lo = plus_signed_decimal(min as int);
    let hi = plus_signed_decimal(max as int);
    assert(offset_range_text(state, current, min, max) == "P"@ + s + ": current "@ + c
        + " MHz - allowed "@ + lo + " to "@ + hi + " MHz"@);
}

/// A clock offset of one P-state as the driver reports it, in MHz.
#[derive(Clone, Copy, Debug, PartialEq, Eq, Structural)]
pub struct NvidiaClockOffset {
    pub current: i32,
    pub min: i32,
    pub max: i32,
}

/// What the GUI shows and edits for one kind of clock offset.
#[derive(Debug)]
pub struct OffsetControl {
    /// The P-state whose offset is edited.
    pub pstate: Option<u32>,
    /// The offset the editor starts from.
    pub offset: Option<i32>,
    /// The label with the current offset and its range.
    pub label: String,
}

/// The offset control for the first P-state that the driver lists, if any.
pub fn offset_control(first: Option<(u32, NvidiaClockOffset)>) -> (r: OffsetControl)
    ensures
        first matches Some((state, offset)) ==> r.pstate == Some(state) && r.offset == Some(offset.current)
            && r.label@ == offset_range_text(state, offset.current, offset.min, offset.max),
        first is None ==> r.pstate is None && r.offset is None && r.label@ == "Not exposed by driver"@,
{
    match first {
        Some((state, offset)) => OffsetControl {
            pstate: Some(state),
            offset: Some(offset.current),
            label: format_offset_range(state, offset.current, offset.min, offset.max),
        },
        None => OffsetControl { pstate: None, offset: None, label: string_of("Not exposed by driver") },
    }
}

/// The name shown for a GPU: the driver's device name, else its id.
pub fn device_name(drm_device_name: Option<String>, id: &str) -> (r: String)
    ensures
        drm_device_name matches Some(n) ==> r@ == n@,
        drm_device_name is None ==> r@ == id@,
{
    match drm_device_name {
        Some(n) => n,
        None => string_of(id),
    }
}


// ---------------------------------------------------------------------------
// The other clocks: sorted labels joined into one line
// ---------------------------------------------------------------------------

/// Lexicographic order of texts by code point, from position `i` on.
pub open spec fn text_le_from(a: Seq<char>, b: Seq<char>, i: nat) -> bool
    decreases a.len() - i,
{
    if i >= a.len() {
        true
    } else if i >= b.len() {
        false
    } else if a[i as int] != b[i as int] {
        (a[i as int] as int) < (b[i as int] as int)
    } else {
        text_le_from(a, b, i + 1)
    }
}

/// Lexicographic order of texts by code point. For valid UTF-8 this is the
/// byte order that `String` comparison uses.
pub open spec fn text_le(a: Seq<char>, b: Seq<char>) -> bool {
    text_le_from(a, b, 0)
}

/// `s` inserted into the sorted sequence `sorted` before its first element not below `s`.
pub open spec fn insert_sorted(sorted: Seq<Seq<char>>, s: Seq<char>) -> Seq<Seq<char>>
    decreases sorted.len(),
{
    if sorted.len() == 0 {
        seq![s]
    } else if text_le(s, sorted[0]) {
        seq![s] + sorted
    } else {
        seq![sorted[0]] + insert_sorted(sorted.drop_first(), s)
    }
}

/// The texts of `s` in ascending order (insertion sort, front to back).
pub open spec fn sort_texts(s: Seq<Seq<char>>) -> Seq<Seq<char>>
    decreases s.len(),
{
    if s.len() == 0 {
        s
    } else {
        insert_sorted(sort_texts(s.drop_last()), s.last())
    }
}

/// The texts of `s` separated by `sep`.
pub open spec fn join_texts(s: Seq<Seq<char>>, sep: Seq<char>) -> Seq<char>
    decreases s.len(),
{
    if s.len() == 0 {
        Seq::empty()
    } else if s.len() == 1 {
        s[0]
    } else {
        join_texts(s.drop_last(), sep) + sep + s.last()
    }
}

/// The label of one clock sensor: `"<name>: <value> MHz"`.
pub open spec fn sensor_text(name: Seq<char>, value: u64) -> Seq<char> {
    name + ": "@ + decimal(value as nat) + " MHz"@
}

/// The labels of the sensors, in the order given.
pub open spec fn sensor_texts(sensors: Seq<(String, u64)>) -> Seq<Seq<char>> {
    sensors.map_values(|e: (String, u64)| sensor_text(e.0@, e.1))
}

/// The line that lists the other clocks: their labels in ascending order,
/// separated by `" | "`, or `"Unavailable"` when there are none.
pub open spec fn extra_clocks_text(sensors: Seq<(String, u64)>) -> Seq<char> {
    if sensors.len() == 0 {
        unavailable_text()
    } else {
        join_texts(sort_texts(sensor_texts(sensors)), " | "@)
    }
}

/// `s` is in ascending order.
pub open spec fn texts_sorted(s: Seq<Seq<char>>) -> bool {
    forall|i: int, j: int| 0 <= i < j < s.len() ==> text_le(#[trigger] s[i], #[trigger] s[j])
}

proof fn lemma_text_le_from_total(a: Seq<char>, b: Seq<char>, i: nat)
    ensures
        text_le_from(a, b, i) || text_le_from(b, a, i),
    decreases a.len() - i,
{
    if i < a.len() && i < b.len() {
        if a[i as int] == b[i as int] {
            lemma_text_le_from_total(a, b, i + 1);
        }
    }
}

proof fn lemma_text_le_from_trans(a: Seq<char>, b: Seq<char>, c: Seq<char>, i: nat)
    requires
        text_le_from(a, b, i),
        text_le_from(b, c, i),
    ensures
        text_le_from(a, c, i),
    decreases a.len() - i,
{
    if i < a.len() && a[i as int] == b[i as int] && b[i as int] == c[i as int] {
        lemma_text_le_from_trans(a, b, c, i + 1);
    }
}

proof fn lemma_insert_sorted_keeps_order(sorted: Seq<Seq<char>>, s: Seq<char>)
    requires
        texts_sorted(sorted),
    ensures
        texts_sorted(insert_sorted(sorted, s)),
        insert_sorted(sorted, s).to_multiset() == sorted.to_multiset().insert(s),
    decreases sorted.len(),
{
    broadcast use vstd::seq_lib::group_to_multiset_ensures;
    broadcast use vstd::multiset::group_multiset_axioms;
    let r = insert_sorted(sorted, s);
    if sorted.len() == 0 {
        assert(r =~= Seq::<Seq<char>>::empty().push(s));
    } else if text_le(s, sorted[0]) {
        assert(r =~= sorted.insert(0, s));
        assert forall|i: int, j: int| 0 <= i < j < r.len() implies text_le(#[trigger] r[i], #[trigger] r[j]) by {
            if i == 0 {
                if j > 1 {
                    lemma_text_le_from_trans(s, sorted[0], sorted[j - 1], 0);
                }
            } else {
                assert(r[i] == sorted[i - 1] && r[j] == sorted[j - 1]);
            }
        }
    } else {
        let rest = sorted.drop_first();
        assert(texts_sorted(rest)) by {
            assert forall|i: int, j: int| 0 <= i < j < rest.len() implies text_le(#[trigger] rest[i], #[trigger] rest[j]) by {
                assert(rest[i] == sorted[i + 1] && rest[j] == sorted[j + 1]);
            }
        }
        lemma_insert_sorted_keeps_order(rest, s);
        let tail = insert_sorted(rest, s);
        lemma_text_le_from_total(s, sorted[0], 0);
        assert(r =~= seq![sorted[0]] + tail);
        assert forall|i: int, j: int| 0 <= i < j < r.len() implies text_le(#[trigger] r[i], #[trigger] r[j]) by {
            if i == 0 {
                let y = tail[j - 1];
                assert(tail.contains(y));
                assert(tail.to_multiset().count(y) > 0);
                if y != s {
                    assert(rest.to_multiset().count(y) > 0);
                    assert(rest.contains(y));
                    let m = choose|m: int| 0 <= m < rest.len() && rest[m] == y;
                    assert(sorted[m + 1] == y);
                }
            } else {
                assert(r[i] == tail[i - 1] && r[j] == tail[j - 1]);
            }
        }
        vstd::seq_lib::lemma_multiset_commutative(seq![sorted[0]], tail);
        vstd::seq_lib::lemma_multiset_commutative(seq![sorted[0]], rest);
        assert(sorted =~= seq![sorted[0]] + rest);
        assert(r.to_multiset() =~= sorted.to_multiset().insert(s));
    }
}

/// Sorting the labels of the other clocks puts them in ascending order and
/// keeps each of them exactly as often as it occurs.
pub proof fn lemma_sort_texts_sorts(s: Seq<Seq<char>>)
    ensures
        texts_sorted(sort_texts(s)),
        sort_texts(s).to_multiset() == s.to_multiset(),
    decreases s.len(),
{
    broadcast use vstd::seq_lib::group_to_multiset_ensures;
    if s.len() == 0 {
    } else {
        lemma_sort_texts_sorts(s.drop_last());
        lemma_insert_sorted_keeps_order(sort_texts(s.drop_last()), s.last());
        assert(s =~= s.drop_last().push(s.last()));
    }
}

/// `a` comes before `b` in code-point order: `a` is a prefix of `b`, or at
/// the first position where they differ `a` has the smaller code point.
pub open spec fn code_point_before(a: Seq<char>, b: Seq<char>) -> bool {
    ||| a.len() <= b.len() && a == b.subrange(0, a.len() as int)
    ||| exists|i: int| 0 <= i < a.len() && i < b.len() && a.subrange(0, i) == b.subrange(0, i)
            && (#[trigger] a[i] as int) < (b[i] as int)
}

proof fn lemma_text_le_from_is_code_point_order(a: Seq<char>, b: Seq<char>, k: nat)
    requires
        k <= a.len(),
        k <= b.len(),
        a.subrange(0, k as int) == b.subrange(0, k as int),
    ensures
        text_le_from(a, b, k) == code_point_before(a, b),
    decreases a.len() - k,
{
    let ki = k as int;
    assert forall|j: int| 0 <= j < ki implies a[j] == b[j] by {
        assert(a[j] == a.subrange(0, ki)[j]);
        assert(b[j] == b.subrange(0, ki)[j]);
    }
    if k >= a.len() {
        assert(a =~= b.subrange(0, a.len() as int));
    } else if k >= b.len() {
        assert(!(a.len() <= b.len()));
        if code_point_before(a, b) {
            let i = choose|i: int| 0 <= i < a.len() && i < b.len() && a.subrange(0, i) == b.subrange(0, i)
                && (#[trigger] a[i] as int) < (b[i] as int);
            assert(a[i] == b[i]);
        }
    } else if a[ki] != b[ki] {
        if (a[ki] as int) < (b[ki] as int) {
            assert(a.subrange(0, ki) == b.subrange(0, ki));
            assert(code_point_before(a, b));
        } else {
            assert((a[ki] as int) != (b[ki] as int));
            if code_point_before(a, b) {
                if a.len() <= b.len() && a == b.subrange(0, a.len() as int) {
                    assert(a[ki] == b[ki]);
                } else {
                    let i = choose|i: int| 0 <= i < a.len() && i < b.len() && a.subrange(0, i) == b.subrange(0, i)
                        && (#[trigger] a[i] as int) < (b[i] as int);
                    if i < ki {
                        assert(a[i] == b[i]);
                    } else if i > ki {
                        assert(a[ki] == a.subrange(0, i)[ki]);
                        assert(b[ki] == b.subrange(0, i)[ki]);
                    }
                }
            }
        }
    } else {
        assert(a.subrange(0, ki + 1) =~= b.subrange(0, ki + 1));
        lemma_text_le_from_is_code_point_order(a, b, k + 1);
    }
}

/// The order in which the other clocks are listed is `String`'s order:
/// code points compared at the first position where two labels differ, a
/// prefix before every longer label.
pub proof fn lemma_text_le_is_code_point_order(a: Seq<char>, b: Seq<char>)
    ensures
        text_le(a, b) == code_point_before(a, b),
{
    assert(a.subrange(0, 0) =~= b.subrange(0, 0));
    lemma_text_le_from_is_code_point_order(a, b, 0);
}

/// The order of texts is total and transitive.
pub proof fn lemma_text_le_is_total_order(a: Seq<char>, b: Seq<char>, c: Seq<char>)
    ensures
        text_le(a, b) || text_le(b, a),
        text_le(a, b) && text_le(b, c) ==> text_le(a, c),
{
    lemma_text_le_from_total(a, b, 0);
    if text_le(a, b) && text_le(b, c) {
        lemma_text_le_from_trans(a, b, c, 0);
    }
}

/// Texts joined by a separator: one text stands alone, and each further
/// text follows the separator after the texts before it.
pub proof fn lemma_join_texts_appends(s: Seq<Seq<char>>, sep: Seq<char>, x: Seq<char>)
    ensures
        join_texts(Seq::empty(), sep) == Seq::<char>::empty(),
        join_texts(seq![x], sep) == x,
        s.len() > 0 ==> join_texts(s.push(x), sep) == join_texts(s, sep) + sep + x,
{
    assert(s.push(x).drop_last() =~= s);
}

/// The label of sensor `k` is its name, `": "`, its value in base 10 and `" MHz"`.
pub proof fn lemma_sensor_label(sensors: Seq<(String, u64)>, k: int)
    requires
        0 <= k < sensors.len(),
    ensures
        exists|d: Seq<char>| #![trigger is_numeral_of(d, sensors[k].1 as int)]
            sensor_texts(sensors)[k] == sensors[k].0@ + ": "@ + d + " MHz"@
            && is_numeral_of(d, sensors[k].1 as int),
{
    lemma_decimal_is_numeral(sensors[k].1 as nat);
    let d = decimal(sensors[k].1 as nat);
    assert(sensor_texts(sensors)[k] == sensor_text(sensors[k].0@, sensors[k].1));
    assert(is_numeral_of(d, sensors[k].1 as int));
    assert(sensor_texts(sensors)[k] == sensors[k].0@ + ": "@ + d + " MHz"@);
}

/// The other-clocks line joins the sensors' labels with `" | "`
/// in `String`'s code-point order, each label as often as its sensor occurs.
pub proof fn lemma_extra_clocks_line(sensors: Seq<(String, u64)>)
    ensures
        sensors.len() == 0 ==> extra_clocks_text(sensors) == "Unavailable"@,
        sensors.len() > 0 ==> ({
            let sorted = sort_texts(sensor_texts(sensors));
            &&& extra_clocks_text(sensors) == join_texts(sorted, " | "@)
            &&& sorted.to_multiset() == sensor_texts(sensors).to_multiset()
            &&& forall|i: int, j: int| 0 <= i < j < sorted.len() ==> code_point_before(#[trigger] sorted[i], #[trigger] sorted[j])
        }),
{
    let sorted = sort_texts(sensor_texts(sensors));
    lemma_sort_texts_sorts(sensor_texts(sensors));
    assert forall|i: int, j: int| 0 <= i < j < sorted.len() implies code_point_before(#[trigger] sorted[i], #[trigger] sorted[j]) by {
        lemma_text_le_is_code_point_order(sorted[i], sorted[j]);
    }
}

fn text_le_exec(a: &String, b: &String) -> (r: bool)
    ensures
        r == text_le(a@, b@),
{
    let a = a.as_str();
    let b = b.as_str();
    let la = a.unicode_len();
    let lb = b.unicode_len();
    let mut i: usize = 0;
    while i < la && i < lb && a.get_char(i) == b.get_char(i)
        invariant
            la == a@.len(),
            lb == b@.len(),
            i <= la,
            i <= lb,
            text_le_from(a@, b@, 0) == text_le_from(a@, b@, i as nat),
        decreases la - i,
    {
        i = i + 1;
    }
    if i >= la {
        true
    } else if i >= lb {
        false
    } else {
        let x = a.get_char(i);
        let y = b.get_char(i);
        proof {
            assert((x as u32) as int == x as int);
            assert((y as u32) as int == y as int);
        }
        (x as u32) < (y as u32)
    }
}

proof fn lemma_insert_sorted_at(sorted: Seq<Seq<char>>, s: Seq<char>, p: int)
    requires
        0 <= p <= sorted.len(),
        forall|j: int| 0 <= j < p ==> !text_le(s, #[trigger] sorted[j]),
        p < sorted.len() ==> text_le(s, sorted[p]),
    ensures
        insert_sorted(sorted, s) == sorted.take(p) + seq![s] + sorted.skip(p),
    decreases sorted.len(),
{
    if sorted.len() == 0 {
        assert(sorted.take(p) + seq![s] + sorted.skip(p) =~= seq![s]);
    } else if p == 0 {
        assert(sorted.take(0) + seq![s] + sorted.skip(0) =~= seq![s] + sorted);
    } else {
        let rest = sorted.drop_first();
        assert forall|j: int| 0 <= j < p - 1 implies !text_le(s, #[trigger] rest[j]) by {
            assert(rest[j] == sorted[j + 1]);
        }
        lemma_insert_sorted_at(rest, s, p - 1);
        assert(seq![sorted[0]] + (rest.take(p - 1) + seq![s] + rest.skip(p - 1)) =~= sorted.take(p) + seq![s] + sorted.skip(p));
    }
}

fn insert_label(sorted: &mut Vec<String>, label: String)
    ensures
        final(sorted)@.map_values(|t: String| t@) == insert_sorted(old(sorted)@.map_values(|t: String| t@), label@),
{
    let ghost before = sorted@.map_values(|t: String| t@);
    let mut p: usize = 0;
    while p < sorted.len() && !text_le_exec(&label, &sorted[p])
        invariant
            p <= sorted@.len(),
            sorted@.map_values(|t: String| t@) == before,
            forall|j: int| 0 <= j < p ==> !text_le(label@, #[trigger] before[j]),
        decreases sorted@.len() - p,
    {
        p = p + 1;
    }
    proof {
        lemma_insert_sorted_at(before, label@, p as int);
    }
    let ghost l = label@;
    sorted.insert(p, label);
    proof {
        assert(sorted@.map_values(|t: String| t@) =~= before.take(p as int) + seq![l] + before.skip(p as int));
    }
}

fn sensor_label(name: &String, value: u64) -> (r: String)
    ensures
        r@ == sensor_text(name@, value),
{
    let mut s = name.clone();
    s.append(": ");
    push_decimal(&mut s, value);
    s.append(" MHz");
    s
}

/// Lists the other clock sensors (name and MHz) in one line, sorted by label.
pub fn format_extra_clocks(sensors: &Vec<(String, u64)>) -> (r: String)
    ensures
        r@ == extra_clocks_text(sensors@),
{
    if sensors.len() == 0 {
        return string_of("Unavailable");
    }
    let ghost texts = sensor_texts(sensors@);
    let mut sorted: Vec<String> = Vec::new();
    let mut i: usize = 0;
    while i < sensors.len()
        invariant
            i <= sensors@.len(),
            texts == sensor_texts(sensors@),
            sorted@.map_values(|t: String| t@) == sort_texts(texts.take(i as int)),
        decreases sensors@.len() - i,
    {
        let label = sensor_label(&sensors[i].0, sensors[i].1);
        proof {
            assert(texts.take(i as int + 1).drop_last() =~= texts.take(i as int));
            assert(label@ == texts[i as int]);
        }
        insert_label(&mut sorted, label);
        i = i + 1;
    }
    proof {
        assert(texts.take(i as int) =~= texts);
    }
    let ghost sorted_texts = sorted@.map_values(|t: String| t@);
    let mut line = String::new();
    let mut k: usize = 0;
    while k < sorted.len()
        invariant
            k <= sorted@.len(),
            sorted_texts == sorted@.map_values(|t: String| t@),
            line@ == join_texts(sorted_texts.take(k as int), " | "@),
        decreases sorted@.len() - k,
    {
        proof {
            assert(sorted_texts.take(k as int + 1).drop_last() =~= sorted_texts.take(k as int));
        }
        if k > 0 {
            line.append(" | ");
        } else {
            proof {
                assert(Seq::<char>::empty() + sorted[0]@ =~= sorted_texts.take(1)[0]);
            }
        }
        line.append(sorted[k].as_str());
        k = k + 1;
    }
    proof {
        assert(sorted_texts.take(k as int) =~= sorted_texts);
    }
    line
}

} // verus!
