//! The breakdown of a team's time by a category of its issues (type or
//! status): one slice per category, largest first, with the smallest grouped
//! into one slice when there are more than a chart can show.

use vstd::prelude::*;

use crate::analytics::{percentage, spec_percentage};
use crate::text::{
    is_blank, lemma_seq_less_irreflexive, lemma_seq_less_total, lemma_seq_less_transitive,
    seq_less, str_equal, str_is_blank, str_less,
};

verus! {

/// The category a slice stands for: a named one, entries without one, or the
/// slices grouped because they did not fit.
#[derive(Clone, Debug, PartialEq, Eq)]
pub enum CategoryLabel {
    Value(String),
    Unspecified,
    Other,
}

/// One category's time and its share of the team's time.
#[derive(Clone, Debug, PartialEq, Eq)]
pub struct CategorySlice {
    pub label: CategoryLabel,
    pub seconds: u32,
    pub percentage: u32,
}

/// What a worklog contributes to a breakdown: its category text, if any, and its duration.
#[derive(Clone, Debug, PartialEq, Eq)]
pub struct CategoryEntry {
    pub value: Option<String>,
    pub seconds: u32,
}

/// Named categories come first, then entries without one, then the grouped rest.
pub open spec fn label_rank(label: CategoryLabel) -> int {
    match label {
        CategoryLabel::Value(_) => 0,
        CategoryLabel::Unspecified => 1,
        CategoryLabel::Other => 2,
    }
}

/// The name of a named category; empty for the others.
pub open spec fn label_text(label: CategoryLabel) -> Seq<char> {
    match label {
        CategoryLabel::Value(text) => text@,
        _ => Seq::empty(),
    }
}

/// Two labels stand for the same category.
pub open spec fn same_label(a: CategoryLabel, b: CategoryLabel) -> bool {
    label_rank(a) == label_rank(b) && label_text(a) == label_text(b)
}

/// The order of labels: by rank, then named categories by name.
pub open spec fn label_less(a: CategoryLabel, b: CategoryLabel) -> bool {
    label_rank(a) < label_rank(b) || (label_rank(a) == 0 && label_rank(b) == 0 && seq_less(
        label_text(a),
        label_text(b),
    ))
}

/// An entry has a category when its text is present and not blank.
#[verifier::opaque]
pub open spec fn entry_named(entry: CategoryEntry) -> bool {
    entry.value matches Some(text) && !is_blank(text@)
}

/// The rank of an entry's label: named, or unspecified.
pub open spec fn entry_rank(entry: CategoryEntry) -> int {
    if entry_named(entry) {
        0
    } else {
        1
    }
}

/// The name of an entry's category; empty when it has none.
pub open spec fn entry_text(entry: CategoryEntry) -> Seq<char> {
    if entry_named(entry) {
        entry.value.unwrap()@
    } else {
        Seq::empty()
    }
}

/// The label stands for the entry's category.
pub open spec fn labels_entry(label: CategoryLabel, entry: CategoryEntry) -> bool {
    label_rank(label) == entry_rank(entry) && label_text(label) == entry_text(entry)
}

/// The seconds of the entries in the label's category.
pub open spec fn label_seconds(entries: Seq<CategoryEntry>, label: CategoryLabel) -> int
    decreases entries.len(),
{
    if entries.len() == 0 {
        0
    } else {
        label_seconds(entries.drop_last(), label) + if labels_entry(label, entries.last()) {
            entries.last().seconds as int
        } else {
            0
        }
    }
}

/// The seconds of all entries.
pub open spec fn entries_seconds(entries: Seq<CategoryEntry>) -> int
    decreases entries.len(),
{
    if entries.len() == 0 {
        0
    } else {
        entries_seconds(entries.drop_last()) + entries.last().seconds
    }
}

/// No two labels stand for the same category.
pub open spec fn distinct_labels(labels: Seq<CategoryLabel>) -> bool {
    forall|i: int, j: int|
        0 <= i < labels.len() && 0 <= j < labels.len() && i != j ==> !same_label(
            #[trigger] labels[i],
            #[trigger] labels[j],
        )
}

/// Some label of the list stands for the category of entry `e`.
pub open spec fn entry_covered(entries: Seq<CategoryEntry>, labels: Seq<CategoryLabel>, e: int) -> bool {
    exists|k: int| 0 <= k < labels.len() && labels_entry(labels[k], entries[e])
}

/// Label `k` of the list stands for the category of some entry.
pub open spec fn label_used(entries: Seq<CategoryEntry>, labels: Seq<CategoryLabel>, k: int) -> bool {
    exists|e: int| 0 <= e < entries.len() && labels_entry(labels[k], entries[e])
}

/// Every entry's category has a label in the list, and every label is the
/// category of some entry.
pub open spec fn labels_cover(entries: Seq<CategoryEntry>, labels: Seq<CategoryLabel>) -> bool {
    &&& forall|e: int| 0 <= e < entries.len() ==> #[trigger] entry_covered(entries, labels, e)
    &&& forall|k: int| 0 <= k < labels.len() ==> #[trigger] label_used(entries, labels, k)
}

proof fn lemma_label_seconds_bounded(entries: Seq<CategoryEntry>, label: CategoryLabel)
    ensures
        0 <= label_seconds(entries, label) <= entries_seconds(entries),
    decreases entries.len(),
{
    if entries.len() > 0 {
        lemma_label_seconds_bounded(entries.drop_last(), label);
    }
}

proof fn lemma_entries_seconds_prefix(entries: Seq<CategoryEntry>, n: int)
    requires
        0 <= n <= entries.len(),
    ensures
        entries_seconds(entries.take(n)) <= entries_seconds(entries),
    decreases entries.len(),
{
    if n < entries.len() {
        lemma_entries_seconds_prefix(entries.drop_last(), n);
        assert(entries.drop_last().take(n) =~= entries.take(n));
    } else {
        assert(entries.take(n) =~= entries);
    }
}

proof fn lemma_unused_label_has_no_seconds(entries: Seq<CategoryEntry>, label: CategoryLabel)
    requires
        forall|e: int| 0 <= e < entries.len() ==> !labels_entry(label, #[trigger] entries[e]),
    ensures
        label_seconds(entries, label) == 0,
    decreases entries.len(),
{
    if entries.len() > 0 {
        assert(entries.last() == entries[entries.len() - 1]);
        assert forall|e: int| 0 <= e < entries.drop_last().len() implies !labels_entry(
            label,
            #[trigger] entries.drop_last()[e],
        ) by {
            assert(entries.drop_last()[e] == entries[e]);
        }
        lemma_unused_label_has_no_seconds(entries.drop_last(), label);
    }
}

/// The label of a category text: the text itself, or unspecified when it is
/// missing or blank.
pub fn category_label(value: Option<&str>) -> (label: CategoryLabel)
    ensures
        match value {
            Some(text) => if is_blank(text@) {
                label == CategoryLabel::Unspecified
            } else {
                label is Value && label_text(label) == text@
            },
            None => label == CategoryLabel::Unspecified,
        },
{
    match value {
        Some(text) => {
            if str_is_blank(text) {
                CategoryLabel::Unspecified
            } else {
                CategoryLabel::Value(text.to_owned())
            }
        },
        None => CategoryLabel::Unspecified,
    }
}

/// Decides `same_label`.
pub fn label_equal(a: &CategoryLabel, b: &CategoryLabel) -> (r: bool)
    ensures
        r == same_label(*a, *b),
{
    match (a, b) {
        (CategoryLabel::Value(x), CategoryLabel::Value(y)) => str_equal(x.as_str(), y.as_str()),
        (CategoryLabel::Unspecified, CategoryLabel::Unspecified) => true,
        (CategoryLabel::Other, CategoryLabel::Other) => true,
        _ => false,
    }
}

/// The label of an entry.
fn entry_label(entry: &CategoryEntry) -> (label: CategoryLabel)
    ensures
        labels_entry(label, *entry),
        label_rank(label) < 2,
        forall|other: CategoryLabel| labels_entry(other, *entry) ==> same_label(other, label),
{
    proof {
        reveal(entry_named);
    }
    match &entry.value {
        Some(text) => category_label(Some(text.as_str())),
        None => category_label(None),
    }
}

proof fn lemma_labels_entry_determined(a: CategoryLabel, b: CategoryLabel, entry: CategoryEntry)
    requires
        labels_entry(a, entry),
        labels_entry(b, entry),
    ensures
        same_label(a, b),
{
}

proof fn lemma_label_seconds_push(entries: Seq<CategoryEntry>, entry: CategoryEntry, label: CategoryLabel)
    ensures
        label_seconds(entries.push(entry), label) == label_seconds(entries, label) + if labels_entry(
            label,
            entry,
        ) {
            entry.seconds as int
        } else {
            0
        },
{
    assert(entries.push(entry).drop_last() =~= entries);
}

proof fn lemma_cover_existing(
    before: Seq<CategoryEntry>,
    entry: CategoryEntry,
    labels: Seq<CategoryLabel>,
    p: int,
)
    requires
        labels_cover(before, labels),
        0 <= p < labels.len(),
        labels_entry(labels[p], entry),
    ensures
        labels_cover(before.push(entry), labels),
{
    let after = before.push(entry);
    assert forall|e: int| 0 <= e < after.len() implies #[trigger] entry_covered(after, labels, e) by {
        if e < before.len() {
            assert(entry_covered(before, labels, e));
            let k = choose|k: int| 0 <= k < labels.len() && labels_entry(labels[k], before[e]);
            assert(after[e] == before[e]);
            assert(labels_entry(labels[k], after[e]));
        } else {
            assert(labels_entry(labels[p], after[e]));
        }
    }
    assert forall|k: int| 0 <= k < labels.len() implies #[trigger] label_used(after, labels, k) by {
        assert(label_used(before, labels, k));
        let e = choose|e: int| 0 <= e < before.len() && labels_entry(labels[k], before[e]);
        assert(after[e] == before[e]);
        assert(labels_entry(labels[k], after[e]));
    }
}

proof fn lemma_cover_new(
    before: Seq<CategoryEntry>,
    entry: CategoryEntry,
    labels: Seq<CategoryLabel>,
    label: CategoryLabel,
)
    requires
        labels_cover(before, labels),
        labels_entry(label, entry),
    ensures
        labels_cover(before.push(entry), labels.push(label)),
{
    let after = before.push(entry);
    let grown = labels.push(label);
    assert forall|e: int| 0 <= e < after.len() implies #[trigger] entry_covered(after, grown, e) by {
        if e < before.len() {
            assert(entry_covered(before, labels, e));
            let k = choose|k: int| 0 <= k < labels.len() && labels_entry(labels[k], before[e]);
            assert(after[e] == before[e]);
            assert(grown[k] == labels[k]);
            assert(labels_entry(grown[k], after[e]));
        } else {
            assert(labels_entry(grown[labels.len() as int], after[e]));
        }
    }
    assert forall|k: int| 0 <= k < grown.len() implies #[trigger] label_used(after, grown, k) by {
        if k < labels.len() {
            assert(label_used(before, labels, k));
            let e = choose|e: int| 0 <= e < before.len() && labels_entry(labels[k], before[e]);
            assert(after[e] == before[e]);
            assert(grown[k] == labels[k]);
            assert(labels_entry(grown[k], after[e]));
        } else {
            assert(labels_entry(grown[k], after[before.len() as int]));
        }
    }
}

proof fn lemma_new_label_has_no_seconds(
    before: Seq<CategoryEntry>,
    labels: Seq<CategoryLabel>,
    label: CategoryLabel,
)
    requires
        labels_cover(before, labels),
        forall|k: int| 0 <= k < labels.len() ==> !same_label(#[trigger] labels[k], label),
    ensures
        label_seconds(before, label) == 0,
{
    assert forall|e: int| 0 <= e < before.len() implies !labels_entry(label, #[trigger] before[e]) by {
        if labels_entry(label, before[e]) {
            assert(entry_covered(before, labels, e));
            let j = choose|j: int| 0 <= j < labels.len() && labels_entry(labels[j], before[e]);
            lemma_labels_entry_determined(labels[j], label, before[e]);
        }
    }
    lemma_unused_label_has_no_seconds(before, label);
}

/// The position of the label in the list, or the list's length when it is not there.
fn find_label(labels: &Vec<CategoryLabel>, label: &CategoryLabel) -> (p: usize)
    ensures
        p <= labels.len(),
        p < labels.len() ==> same_label(labels@[p as int], *label),
        p == labels.len() ==> forall|k: int| 0 <= k < labels.len() ==> !same_label(#[trigger] labels@[k], *label),
{
    let mut p: usize = 0;
    while p < labels.len()
        invariant
            p <= labels.len(),
            forall|k: int| 0 <= k < p ==> !same_label(#[trigger] labels@[k], *label),
        decreases labels.len() - p,
    {
        if label_equal(&labels[p], label) {
            return p;
        }
        p = p + 1;
    }
    p
}

/// Adds up the entries' seconds by category, in the order categories first appear.
fn group_category_seconds(entries: &Vec<CategoryEntry>) -> (r: (Vec<CategoryLabel>, Vec<u32>))
    requires
        entries_seconds(entries@) <= u32::MAX,
    ensures
        r.0.len() == r.1.len(),
        distinct_labels(r.0@),
        labels_cover(entries@, r.0@),
        forall|k: int|
            0 <= k < r.0.len() ==> label_rank(#[trigger] r.0@[k]) < 2 && r.1@[k] == label_seconds(
                entries@,
                r.0@[k],
            ),
{
    let mut labels: Vec<CategoryLabel> = Vec::new();
    let mut seconds: Vec<u32> = Vec::new();
    let mut i: usize = 0;
    assert(entries@.take(0) =~= Seq::<CategoryEntry>::empty());
    while i < entries.len()
        invariant
            i <= entries.len(),
            entries_seconds(entries@) <= u32::MAX,
            labels.len() == seconds.len(),
            distinct_labels(labels@),
            labels_cover(entries@.take(i as int), labels@),
            forall|k: int|
                0 <= k < labels.len() ==> label_rank(#[trigger] labels@[k]) < 2 && seconds@[k]
                    == label_seconds(entries@.take(i as int), labels@[k]),
        decreases entries.len() - i,
    {
        let ghost before = entries@.take(i as int);
        let entry = &entries[i];
        assert(entries@.take(i + 1) =~= before.push(*entry));
        let ghost after = before.push(*entry);
        proof {
            lemma_entries_seconds_prefix(entries@, i + 1);
        }
        let label = entry_label(entry);
        let p = find_label(&labels, &label);
        if p < labels.len() {
            proof {
                lemma_label_seconds_bounded(after, labels@[p as int]);
                lemma_label_seconds_push(before, *entry, labels@[p as int]);
                lemma_cover_existing(before, *entry, labels@, p as int);
            }
            let total = seconds[p] + entry.seconds;
            seconds.set(p, total);
            assert forall|k: int| 0 <= k < labels.len() implies label_rank(#[trigger] labels@[k])
                < 2 && seconds@[k] == label_seconds(after, labels@[k]) by {
                lemma_label_seconds_push(before, *entry, labels@[k]);
                if k != p && labels_entry(labels@[k], *entry) {
                    lemma_labels_entry_determined(labels@[k], label, *entry);
                }
            }
        } else {
            proof {
                lemma_new_label_has_no_seconds(before, labels@, label);
                lemma_label_seconds_push(before, *entry, label);
                lemma_cover_new(before, *entry, labels@, label);
            }
            let ghost old_labels = labels@;
            labels.push(label);
            seconds.push(entry.seconds);
            assert forall|k: int| 0 <= k < labels.len() implies label_rank(#[trigger] labels@[k])
                < 2 && seconds@[k] == label_seconds(after, labels@[k]) by {
                if k < old_labels.len() {
                    assert(labels@[k] == old_labels[k]);
                    lemma_label_seconds_push(before, *entry, labels@[k]);
                    if labels_entry(labels@[k], *entry) {
                        lemma_labels_entry_determined(labels@[k], label, *entry);
                    }
                }
            }
            assert forall|a: int, b: int|
                0 <= a < labels.len() && 0 <= b < labels.len() && a != b implies !same_label(
                #[trigger] labels@[a],
                #[trigger] labels@[b],
            ) by {
                if a < old_labels.len() && b < old_labels.len() {
                    assert(labels@[a] == old_labels[a]);
                    assert(labels@[b] == old_labels[b]);
                } else if a < old_labels.len() {
                    assert(labels@[a] == old_labels[a]);
                } else {
                    assert(labels@[b] == old_labels[b]);
                }
            }
        }
        i = i + 1;
    }
    assert(entries@.take(entries.len() as int) =~= entries@);
    (labels, seconds)
}

/// `x` comes before `y` in a breakdown: more seconds first, then by label.
pub open spec fn slice_before(x: CategorySlice, y: CategorySlice) -> bool {
    x.seconds > y.seconds || (x.seconds == y.seconds && label_less(x.label, y.label))
}

/// The slices are in breakdown order.
pub open spec fn slices_sorted(slices: Seq<CategorySlice>) -> bool {
    forall|i: int, j: int| 0 <= i < j < slices.len() ==> slice_before(#[trigger] slices[i], #[trigger] slices[j])
}

/// The labels of the slices.
pub open spec fn slice_labels(slices: Seq<CategorySlice>) -> Seq<CategoryLabel> {
    slices.map_values(|slice: CategorySlice| slice.label)
}

proof fn lemma_label_less_transitive(a: CategoryLabel, b: CategoryLabel, c: CategoryLabel)
    requires
        label_less(a, b),
        label_less(b, c),
    ensures
        label_less(a, c),
{
    if label_rank(a) == 0 && label_rank(b) == 0 && label_rank(c) == 0 {
        lemma_seq_less_transitive(label_text(a), label_text(b), label_text(c));
    }
}

proof fn lemma_label_less_total(a: CategoryLabel, b: CategoryLabel)
    requires
        !same_label(a, b),
    ensures
        label_less(a, b) || label_less(b, a),
{
    if label_rank(a) == 0 && label_rank(b) == 0 {
        lemma_seq_less_total(label_text(a), label_text(b));
    }
}

proof fn lemma_slice_before_transitive(x: CategorySlice, y: CategorySlice, z: CategorySlice)
    requires
        slice_before(x, y),
        slice_before(y, z),
    ensures
        slice_before(x, z),
{
    if x.seconds == y.seconds && y.seconds == z.seconds {
        lemma_label_less_transitive(x.label, y.label, z.label);
    }
}

proof fn lemma_slice_before_total(x: CategorySlice, y: CategorySlice)
    requires
        !same_label(x.label, y.label),
    ensures
        slice_before(x, y) || slice_before(y, x),
{
    lemma_label_less_total(x.label, y.label);
}

/// Where `x` goes in sorted slices: before the first slice that it comes before.
fn insertion_position(sorted: &Vec<CategorySlice>, x: &CategorySlice) -> (p: usize)
    ensures
        p <= sorted.len(),
        forall|k: int| 0 <= k < p ==> !slice_before(*x, #[trigger] sorted@[k]),
        p < sorted.len() ==> slice_before(*x, sorted@[p as int]),
{
    let mut p: usize = 0;
    while p < sorted.len()
        invariant
            p <= sorted.len(),
            forall|k: int| 0 <= k < p ==> !slice_before(*x, #[trigger] sorted@[k]),
        decreases sorted.len() - p,
    {
        let y = &sorted[p];
        if x.seconds > y.seconds || (x.seconds == y.seconds && label_precedes(&x.label, &y.label)) {
            return p;
        }
        p = p + 1;
    }
    p
}

/// Decides `label_less`.
pub fn label_precedes(a: &CategoryLabel, b: &CategoryLabel) -> (r: bool)
    ensures
        r == label_less(*a, *b),
{
    match (a, b) {
        (CategoryLabel::Value(x), CategoryLabel::Value(y)) => str_less(x.as_str(), y.as_str()),
        (CategoryLabel::Value(_), _) => true,
        (CategoryLabel::Unspecified, CategoryLabel::Other) => true,
        _ => false,
    }
}

/// The slice `x` is among `orig[from..]`.
pub open spec fn placed(orig: Seq<CategorySlice>, from: int, x: CategorySlice) -> bool {
    exists|m: int| from <= m < orig.len() && orig[m] == x
}

/// Sorts slices with distinct labels into breakdown order.
fn sort_slices(slices: Vec<CategorySlice>) -> (sorted: Vec<CategorySlice>)
    requires
        distinct_labels(slice_labels(slices@)),
    ensures
        sorted.len() == slices.len(),
        slices_sorted(sorted@),
        forall|k: int| 0 <= k < sorted.len() ==> #[trigger] placed(slices@, 0, sorted@[k]),
        forall|m: int| 0 <= m < slices.len() ==> sorted@.contains(#[trigger] slices@[m]),
{
    let ghost orig = slices@;
    let mut rest = slices;
    let mut sorted: Vec<CategorySlice> = Vec::new();
    while rest.len() > 0
        invariant
            distinct_labels(slice_labels(orig)),
            rest@ == orig.take(rest.len() as int),
            rest.len() <= orig.len(),
            sorted.len() + rest.len() == orig.len(),
            slices_sorted(sorted@),
            forall|k: int| 0 <= k < sorted.len() ==> #[trigger] placed(orig, rest.len() as int, sorted@[k]),
            forall|m: int| rest.len() <= m < orig.len() ==> sorted@.contains(#[trigger] orig[m]),
        decreases rest.len(),
    {
        let ghost n = (rest.len() - 1) as int;
        let ghost old_sorted = sorted@;
        let x = rest.pop().unwrap();
        assert(x == orig[n]);
        assert(rest@ =~= orig.take(n));
        assert forall|k: int| 0 <= k < old_sorted.len() implies !same_label(
            #[trigger] old_sorted[k].label,
            x.label,
        ) by {
            assert(placed(orig, n + 1, old_sorted[k]));
            let m = choose|m: int| n + 1 <= m < orig.len() && orig[m] == old_sorted[k];
            assert(slice_labels(orig)[m] == orig[m].label);
            assert(slice_labels(orig)[n] == orig[n].label);
        }
        let p = insertion_position(&sorted, &x);
        sorted.insert(p, x);
        proof {
            old_sorted.insert_ensures(p as int, x);
            assert forall|a: int, b: int| 0 <= a < b < sorted.len() implies slice_before(
                #[trigger] sorted@[a],
                #[trigger] sorted@[b],
            ) by {
                if b < p {
                    assert(sorted@[a] == old_sorted[a]);
                    assert(sorted@[b] == old_sorted[b]);
                } else if b == p {
                    assert(sorted@[a] == old_sorted[a]);
                    assert(!slice_before(x, old_sorted[a]));
                    lemma_slice_before_total(x, old_sorted[a]);
                } else if a < p {
                    assert(sorted@[a] == old_sorted[a]);
                    assert(sorted@[b] == old_sorted[b - 1]);
                } else if a == p {
                    assert(sorted@[b] == old_sorted[b - 1]);
                    if b - 1 > p {
                        assert(slice_before(old_sorted[p as int], old_sorted[b - 1]));
                        lemma_slice_before_transitive(x, old_sorted[p as int], old_sorted[b - 1]);
                    }
                } else {
                    assert(sorted@[a] == old_sorted[a - 1]);
                    assert(sorted@[b] == old_sorted[b - 1]);
                }
            }
            assert forall|k: int| 0 <= k < sorted.len() implies #[trigger] placed(orig, n, sorted@[k]) by {
                if k < p {
                    assert(sorted@[k] == old_sorted[k]);
                    assert(placed(orig, n + 1, old_sorted[k]));
                } else if k == p {
                    assert(orig[n] == sorted@[k]);
                } else {
                    assert(sorted@[k] == old_sorted[k - 1]);
                    assert(placed(orig, n + 1, old_sorted[k - 1]));
                }
            }
            assert forall|m: int| n <= m < orig.len() implies sorted@.contains(#[trigger] orig[m]) by {
                if m == n {
                    assert(sorted@[p as int] == orig[m]);
                } else {
                    assert(old_sorted.contains(orig[m]));
                    let k = choose|k: int| 0 <= k < old_sorted.len() && old_sorted[k] == orig[m];
                    if k < p {
                        assert(sorted@[k] == orig[m]);
                    } else {
                        assert(sorted@[k + 1] == orig[m]);
                    }
                }
            }
        }
    }
    sorted
}

/// A slice of a category's seconds and their share of `total_seconds`.
pub fn category_slice(label: CategoryLabel, seconds: u32, total_seconds: u32) -> (slice: CategorySlice)
    ensures
        slice.label == label,
        slice.seconds == seconds,
        slice.percentage == spec_percentage(seconds, total_seconds),
{
    CategorySlice { label, seconds, percentage: percentage(seconds, total_seconds) }
}

/// The order of slices in a breakdown: more seconds first, then by label.
pub fn category_slice_order(left: &CategorySlice, right: &CategorySlice) -> (order: core::cmp::Ordering)
    ensures
        order == (if slice_before(*left, *right) {
            core::cmp::Ordering::Less
        } else if slice_before(*right, *left) {
            core::cmp::Ordering::Greater
        } else {
            core::cmp::Ordering::Equal
        }),
{
    if left.seconds > right.seconds || (left.seconds == right.seconds && label_precedes(
        &left.label,
        &right.label,
    )) {
        core::cmp::Ordering::Less
    } else if right.seconds > left.seconds || (right.seconds == left.seconds && label_precedes(
        &right.label,
        &left.label,
    )) {
        core::cmp::Ordering::Greater
    } else {
        core::cmp::Ordering::Equal
    }
}

proof fn lemma_cover_transfer(
    entries: Seq<CategoryEntry>,
    a: Seq<CategoryLabel>,
    b: Seq<CategoryLabel>,
)
    requires
        labels_cover(entries, a),
        forall|k: int| 0 <= k < b.len() ==> a.contains(#[trigger] b[k]),
        forall|j: int| 0 <= j < a.len() ==> b.contains(#[trigger] a[j]),
    ensures
        labels_cover(entries, b),
{
    assert forall|e: int| 0 <= e < entries.len() implies #[trigger] entry_covered(entries, b, e) by {
        assert(entry_covered(entries, a, e));
        let j = choose|j: int| 0 <= j < a.len() && labels_entry(a[j], entries[e]);
        assert(b.contains(a[j]));
        let k = choose|k: int| 0 <= k < b.len() && b[k] == a[j];
        assert(labels_entry(b[k], entries[e]));
    }
    assert forall|k: int| 0 <= k < b.len() implies #[trigger] label_used(entries, b, k) by {
        assert(a.contains(b[k]));
        let j = choose|j: int| 0 <= j < a.len() && a[j] == b[k];
        assert(label_used(entries, a, j));
        let e = choose|e: int| 0 <= e < entries.len() && labels_entry(a[j], entries[e]);
        assert(labels_entry(b[k], entries[e]));
    }
}

/// The breakdown of `entries`: one slice per category of the entries (and no
/// other), each with the category's seconds and share of `total`, in order.
pub open spec fn is_breakdown(entries: Seq<CategoryEntry>, total: u32, slices: Seq<CategorySlice>) -> bool {
    &&& labels_cover(entries, slice_labels(slices))
    &&& distinct_labels(slice_labels(slices))
    &&& slices_sorted(slices)
    &&& forall|k: int|
        0 <= k < slices.len() ==> {
            &&& label_rank((#[trigger] slices[k]).label) < 2
            &&& slices[k].seconds == label_seconds(entries, slices[k].label)
            &&& slices[k].percentage == spec_percentage(slices[k].seconds, total)
        }
}

/// Turns grouped categories into slices (in reverse order; they are sorted next).
fn slices_from_groups(labels: Vec<CategoryLabel>, seconds: Vec<u32>, total_seconds: u32) -> (slices: Vec<
    CategorySlice,
>)
    requires
        labels.len() == seconds.len(),
    ensures
        slices.len() == labels.len(),
        forall|k: int|
            0 <= k < slices.len() ==> {
                &&& (#[trigger] slices@[k]).label == labels@[labels.len() - 1 - k]
                &&& slices@[k].seconds == seconds@[labels.len() - 1 - k]
                &&& slices@[k].percentage == spec_percentage(slices@[k].seconds, total_seconds)
            },
{
    let ghost orig_labels = labels@;
    let ghost orig_seconds = seconds@;
    let ghost n = labels.len() as int;
    let mut labels = labels;
    let mut seconds = seconds;
    let mut slices: Vec<CategorySlice> = Vec::new();
    while labels.len() > 0
        invariant
            labels.len() == seconds.len(),
            labels@ == orig_labels.take(labels.len() as int),
            seconds@ == orig_seconds.take(seconds.len() as int),
            orig_labels.len() == n,
            orig_seconds.len() == n,
            slices.len() + labels.len() == n,
            forall|k: int|
                0 <= k < slices.len() ==> {
                    &&& (#[trigger] slices@[k]).label == orig_labels[n - 1 - k]
                    &&& slices@[k].seconds == orig_seconds[n - 1 - k]
                    &&& slices@[k].percentage == spec_percentage(slices@[k].seconds, total_seconds)
                },
        decreases labels.len(),
    {
        let ghost m = labels.len() - 1;
        let label = labels.pop().unwrap();
        let second = seconds.pop().unwrap();
        assert(labels@ =~= orig_labels.take(m));
        assert(seconds@ =~= orig_seconds.take(m));
        slices.push(category_slice(label, second, total_seconds));
    }
    slices
}

/// The categories of `entries` as slices in breakdown order.
pub fn sorted_category_slices(entries: &Vec<CategoryEntry>, total_seconds: u32) -> (slices: Vec<
    CategorySlice,
>)
    requires
        entries_seconds(entries@) <= u32::MAX,
    ensures
        is_breakdown(entries@, total_seconds, slices@),
{
    let (labels, seconds) = group_category_seconds(entries);
    let ghost group_labels = labels@;
    let ghost group_seconds = seconds@;
    let ghost n = labels.len() as int;
    let unsorted = slices_from_groups(labels, seconds, total_seconds);
    let ghost u = unsorted@;
    proof {
        assert forall|k: int| 0 <= k < u.len() implies group_labels.contains(
            #[trigger] slice_labels(u)[k],
        ) by {
            assert(group_labels[n - 1 - k] == slice_labels(u)[k]);
        }
        assert forall|j: int| 0 <= j < group_labels.len() implies slice_labels(u).contains(
            #[trigger] group_labels[j],
        ) by {
            assert(slice_labels(u)[n - 1 - j] == group_labels[j]);
        }
        lemma_cover_transfer(entries@, group_labels, slice_labels(u));
        assert forall|a: int, b: int|
            0 <= a < u.len() && 0 <= b < u.len() && a != b implies !same_label(
            #[trigger] slice_labels(u)[a],
            #[trigger] slice_labels(u)[b],
        ) by {
            assert(slice_labels(u)[a] == group_labels[n - 1 - a]);
            assert(slice_labels(u)[b] == group_labels[n - 1 - b]);
        }
    }
    let sorted = sort_slices(unsorted);
    proof {
        let t = sorted@;
        assert forall|k: int| 0 <= k < t.len() implies slice_labels(u).contains(
            #[trigger] slice_labels(t)[k],
        ) by {
            assert(placed(u, 0, t[k]));
            let m = choose|m: int| 0 <= m < u.len() && u[m] == t[k];
            assert(slice_labels(u)[m] == slice_labels(t)[k]);
        }
        assert forall|j: int| 0 <= j < u.len() implies slice_labels(t).contains(
            #[trigger] slice_labels(u)[j],
        ) by {
            assert(t.contains(u[j]));
            let k = choose|k: int| 0 <= k < t.len() && t[k] == u[j];
            assert(slice_labels(t)[k] == slice_labels(u)[j]);
        }
        lemma_cover_transfer(entries@, slice_labels(u), slice_labels(t));
        assert forall|a: int, b: int|
            0 <= a < t.len() && 0 <= b < t.len() && a != b implies !same_label(
            #[trigger] slice_labels(t)[a],
            #[trigger] slice_labels(t)[b],
        ) by {
            assert(placed(u, 0, t[a]));
            assert(placed(u, 0, t[b]));
            let ma = choose|m: int| 0 <= m < u.len() && u[m] == t[a];
            let mb = choose|m: int| 0 <= m < u.len() && u[m] == t[b];
            if ma == mb {
                if a < b {
                    assert(slice_before(t[a], t[b]));
                } else {
                    assert(slice_before(t[b], t[a]));
                }
                lemma_seq_less_irreflexive(label_text(t[a].label));
            }
            assert(slice_labels(u)[ma] == slice_labels(t)[a]);
            assert(slice_labels(u)[mb] == slice_labels(t)[b]);
        }
        assert forall|k: int| 0 <= k < t.len() implies {
            &&& label_rank((#[trigger] t[k]).label) < 2
            &&& t[k].seconds == label_seconds(entries@, t[k].label)
            &&& t[k].percentage == spec_percentage(t[k].seconds, total_seconds)
        } by {
            assert(placed(u, 0, t[k]));
            let m = choose|m: int| 0 <= m < u.len() && u[m] == t[k];
            assert(u[m].label == group_labels[n - 1 - m]);
        }
    }
    sorted
}

/// The seconds of all slices.
pub open spec fn slices_seconds(slices: Seq<CategorySlice>) -> int
    decreases slices.len(),
{
    if slices.len() == 0 {
        0
    } else {
        slices_seconds(slices.drop_last()) + slices.last().seconds
    }
}

/// Some slice stands for the entry's category.
pub open spec fn slices_cover(slices: Seq<CategorySlice>, entry: CategoryEntry) -> bool {
    exists|k: int| 0 <= k < slices.len() && labels_entry(slices[k].label, entry)
}

/// The entry's seconds counted once for each slice that stands for its category.
pub open spec fn matched_seconds(slices: Seq<CategorySlice>, entry: CategoryEntry) -> int
    decreases slices.len(),
{
    if slices.len() == 0 {
        0
    } else {
        matched_seconds(slices.drop_last(), entry) + if labels_entry(slices.last().label, entry) {
            entry.seconds as int
        } else {
            0
        }
    }
}

/// The seconds of the entries whose category some slice stands for.
pub open spec fn covered_seconds(entries: Seq<CategoryEntry>, slices: Seq<CategorySlice>) -> int
    decreases entries.len(),
{
    if entries.len() == 0 {
        0
    } else {
        covered_seconds(entries.drop_last(), slices) + if slices_cover(slices, entries.last()) {
            entries.last().seconds as int
        } else {
            0
        }
    }
}

/// The seconds of each slice's category, added up.
pub open spec fn label_sum(entries: Seq<CategoryEntry>, slices: Seq<CategorySlice>) -> int
    decreases slices.len(),
{
    if slices.len() == 0 {
        0
    } else {
        label_sum(entries, slices.drop_last()) + label_seconds(entries, slices.last().label)
    }
}

proof fn lemma_label_sum_split(entries: Seq<CategoryEntry>, slices: Seq<CategorySlice>)
    requires
        entries.len() > 0,
    ensures
        label_sum(entries, slices) == label_sum(entries.drop_last(), slices) + matched_seconds(
            slices,
            entries.last(),
        ),
    decreases slices.len(),
{
    if slices.len() > 0 {
        lemma_label_sum_split(entries, slices.drop_last());
    }
}

proof fn lemma_matched_seconds(slices: Seq<CategorySlice>, entry: CategoryEntry)
    requires
        distinct_labels(slice_labels(slices)),
    ensures
        matched_seconds(slices, entry) == if slices_cover(slices, entry) {
            entry.seconds as int
        } else {
            0
        },
    decreases slices.len(),
{
    if slices.len() > 0 {
        let rest = slices.drop_last();
        assert forall|a: int, b: int|
            0 <= a < rest.len() && 0 <= b < rest.len() && a != b implies !same_label(
            #[trigger] slice_labels(rest)[a],
            #[trigger] slice_labels(rest)[b],
        ) by {
            assert(slice_labels(rest)[a] == slice_labels(slices)[a]);
            assert(slice_labels(rest)[b] == slice_labels(slices)[b]);
        }
        lemma_matched_seconds(rest, entry);
        let n = slices.len() - 1;
        if labels_entry(slices.last().label, entry) {
            if slices_cover(rest, entry) {
                let k = choose|k: int| 0 <= k < rest.len() && labels_entry(rest[k].label, entry);
                lemma_labels_entry_determined(rest[k].label, slices.last().label, entry);
                assert(slice_labels(slices)[k] == rest[k].label);
                assert(slice_labels(slices)[n] == slices.last().label);
            }
            assert(labels_entry(slices[n].label, entry));
        } else {
            if slices_cover(slices, entry) {
                let k = choose|k: int| 0 <= k < slices.len() && labels_entry(slices[k].label, entry);
                assert(k != n);
                assert(rest[k] == slices[k]);
            }
            if slices_cover(rest, entry) {
                let k = choose|k: int| 0 <= k < rest.len() && labels_entry(rest[k].label, entry);
                assert(rest[k] == slices[k]);
            }
        }
    }
}

proof fn lemma_label_sum_covered(entries: Seq<CategoryEntry>, slices: Seq<CategorySlice>)
    requires
        distinct_labels(slice_labels(slices)),
    ensures
        label_sum(entries, slices) == covered_seconds(entries, slices),
    decreases entries.len(),
{
    if entries.len() == 0 {
        lemma_label_sum_empty(entries, slices);
    } else {
        lemma_label_sum_split(entries, slices);
        lemma_matched_seconds(slices, entries.last());
        lemma_label_sum_covered(entries.drop_last(), slices);
    }
}

proof fn lemma_label_sum_empty(entries: Seq<CategoryEntry>, slices: Seq<CategorySlice>)
    requires
        entries.len() == 0,
    ensures
        label_sum(entries, slices) == 0,
    decreases slices.len(),
{
    if slices.len() > 0 {
        lemma_label_sum_empty(entries, slices.drop_last());
    }
}

proof fn lemma_covered_seconds_bounded(entries: Seq<CategoryEntry>, slices: Seq<CategorySlice>)
    ensures
        0 <= covered_seconds(entries, slices) <= entries_seconds(entries),
        (forall|e: int| 0 <= e < entries.len() ==> slices_cover(slices, #[trigger] entries[e]))
            ==> covered_seconds(entries, slices) == entries_seconds(entries),
    decreases entries.len(),
{
    if entries.len() > 0 {
        lemma_covered_seconds_bounded(entries.drop_last(), slices);
        if forall|e: int| 0 <= e < entries.len() ==> slices_cover(slices, #[trigger] entries[e]) {
            assert forall|e: int| 0 <= e < entries.drop_last().len() implies slices_cover(
                slices,
                #[trigger] entries.drop_last()[e],
            ) by {
                assert(entries.drop_last()[e] == entries[e]);
            }
            assert(slices_cover(slices, entries[entries.len() - 1]));
        }
    }
}

proof fn lemma_slices_seconds_are_label_sum(entries: Seq<CategoryEntry>, slices: Seq<CategorySlice>)
    requires
        forall|k: int|
            0 <= k < slices.len() ==> (#[trigger] slices[k]).seconds == label_seconds(
                entries,
                slices[k].label,
            ),
    ensures
        slices_seconds(slices) == label_sum(entries, slices),
    decreases slices.len(),
{
    if slices.len() > 0 {
        assert forall|k: int| 0 <= k < slices.drop_last().len() implies (
        #[trigger] slices.drop_last()[k]).seconds == label_seconds(
            entries,
            slices.drop_last()[k].label,
        ) by {
            assert(slices.drop_last()[k] == slices[k]);
        }
        lemma_slices_seconds_are_label_sum(entries, slices.drop_last());
        assert(slices[slices.len() - 1] == slices.last());
    }
}

proof fn lemma_slices_seconds_split(slices: Seq<CategorySlice>, n: int)
    requires
        0 <= n <= slices.len(),
    ensures
        slices_seconds(slices) == slices_seconds(slices.take(n)) + slices_seconds(slices.skip(n)),
    decreases slices.len(),
{
    if n == slices.len() {
        assert(slices.take(n) =~= slices);
        assert(slices.skip(n) =~= Seq::<CategorySlice>::empty());
    } else {
        lemma_slices_seconds_split(slices.drop_last(), n);
        assert(slices.drop_last().take(n) =~= slices.take(n));
        assert(slices.skip(n).drop_last() =~= slices.drop_last().skip(n));
        assert(slices.skip(n).last() == slices.last());
    }
}

proof fn lemma_slices_seconds_prefix(slices: Seq<CategorySlice>, n: int)
    requires
        0 <= n <= slices.len(),
    ensures
        0 <= slices_seconds(slices.take(n)) <= slices_seconds(slices),
    decreases slices.len(),
{
    lemma_slices_seconds_split(slices, n);
    lemma_slices_seconds_nonnegative(slices.take(n));
    lemma_slices_seconds_nonnegative(slices.skip(n));
}

proof fn lemma_slices_seconds_nonnegative(slices: Seq<CategorySlice>)
    ensures
        slices_seconds(slices) >= 0,
    decreases slices.len(),
{
    if slices.len() > 0 {
        lemma_slices_seconds_nonnegative(slices.drop_last());
    }
}

/// A breakdown's slices add up to the seconds of all its entries: no time is
/// lost and none is counted twice.
pub proof fn lemma_breakdown_keeps_all_time(
    entries: Seq<CategoryEntry>,
    total: u32,
    slices: Seq<CategorySlice>,
)
    requires
        is_breakdown(entries, total, slices),
    ensures
        slices_seconds(slices) == entries_seconds(entries),
{
    lemma_slices_seconds_are_label_sum(entries, slices);
    lemma_label_sum_covered(entries, slices);
    assert forall|e: int| 0 <= e < entries.len() implies slices_cover(slices, #[trigger] entries[e]) by {
        assert(entry_covered(entries, slice_labels(slices), e));
        let k = choose|k: int|
            0 <= k < slice_labels(slices).len() && labels_entry(slice_labels(slices)[k], entries[e]);
        assert(slice_labels(slices)[k] == slices[k].label);
    }
    lemma_covered_seconds_bounded(entries, slices);
}

/// The most slices a chart shows: at least two.
pub open spec fn chart_maximum(maximum: usize) -> int {
    if maximum < 2 {
        2
    } else {
        maximum as int
    }
}

/// The slice that groups `rest`.
pub open spec fn other_slice(rest: Seq<CategorySlice>, total: u32) -> CategorySlice {
    CategorySlice {
        label: CategoryLabel::Other,
        seconds: slices_seconds(rest) as u32,
        percentage: spec_percentage(slices_seconds(rest) as u32, total),
    }
}

/// The slices a chart shows: all of them when they fit; otherwise the first
/// ones and a last slice that groups the rest.
pub open spec fn limited_slices(slices: Seq<CategorySlice>, total: u32, maximum: usize) -> Seq<
    CategorySlice,
> {
    let m = chart_maximum(maximum);
    if slices.len() <= m {
        slices
    } else {
        slices.take(m - 1).push(other_slice(slices.skip(m - 1), total))
    }
}

/// Keeps the first `maximum - 1` slices (none when `maximum` is zero) and
/// groups the others into one slice; their seconds must add up within `u32`.
pub fn grouped_category_slices(slices: Vec<CategorySlice>, total_seconds: u32, maximum: usize) -> (r:
    Vec<CategorySlice>)
    requires
        (if maximum == 0 {
            0
        } else {
            maximum - 1
        }) <= slices.len(),
        slices_seconds(slices@.skip(if maximum == 0 {
            0
        } else {
            maximum - 1
        })) <= u32::MAX,
    ensures
        r@ == ({
            let keep = if maximum == 0 {
                0
            } else {
                maximum - 1
            };
            slices@.take(keep).push(other_slice(slices@.skip(keep), total_seconds))
        }),
{
    let keep: usize = if maximum == 0 {
        0
    } else {
        maximum - 1
    };
    let ghost orig = slices@;
    let mut slices = slices;
    let grouped = slices.split_off(keep);
    assert(grouped@ =~= orig.skip(keep as int));
    assert(slices@ =~= orig.take(keep as int));
    let mut other_seconds: u32 = 0;
    let mut i: usize = 0;
    assert(grouped@.take(0) =~= Seq::<CategorySlice>::empty());
    while i < grouped.len()
        invariant
            i <= grouped.len(),
            slices_seconds(grouped@) <= u32::MAX,
            other_seconds == slices_seconds(grouped@.take(i as int)),
        decreases grouped.len() - i,
    {
        proof {
            lemma_slices_seconds_prefix(grouped@, i + 1);
            assert(grouped@.take(i + 1).drop_last() =~= grouped@.take(i as int));
        }
        other_seconds = other_seconds + grouped[i].seconds;
        i = i + 1;
    }
    assert(grouped@.take(grouped.len() as int) =~= grouped@);
    slices.push(category_slice(CategoryLabel::Other, other_seconds, total_seconds));
    slices
}

/// Limits the slices to what a chart shows (see `limited_slices`).
pub fn limit_category_slices(slices: Vec<CategorySlice>, total_seconds: u32, maximum: usize) -> (r:
    Vec<CategorySlice>)
    requires
        slices.len() > chart_maximum(maximum) ==> slices_seconds(
            slices@.skip(chart_maximum(maximum) - 1),
        ) <= u32::MAX,
    ensures
        r@ == limited_slices(slices@, total_seconds, maximum),
{
    let maximum = if maximum < 2 {
        2
    } else {
        maximum
    };
    if slices.len() <= maximum {
        return slices;
    }
    grouped_category_slices(slices, total_seconds, maximum)
}

/// The chart's breakdown of `entries`: `is_breakdown` limited to what a chart shows.
pub open spec fn is_chart_breakdown(
    entries: Seq<CategoryEntry>,
    total: u32,
    maximum: usize,
    slices: Seq<CategorySlice>,
) -> bool {
    exists|full: Seq<CategorySlice>|
        is_breakdown(entries, total, full) && slices == limited_slices(full, total, maximum)
}

/// The breakdown of `entries` by category, limited to `maximum` slices (at
/// least two); the entries' seconds must add up within `u32`.
pub fn category_slices(entries: &Vec<CategoryEntry>, total_seconds: u32, maximum: usize) -> (r: Vec<
    CategorySlice,
>)
    requires
        entries_seconds(entries@) <= u32::MAX,
    ensures
        is_chart_breakdown(entries@, total_seconds, maximum, r@),
        slices_seconds(r@) == entries_seconds(entries@),
{
    let sorted = sorted_category_slices(entries, total_seconds);
    let ghost full = sorted@;
    proof {
        lemma_breakdown_keeps_all_time(entries@, total_seconds, full);
        if full.len() > chart_maximum(maximum) {
            let keep = chart_maximum(maximum) - 1;
            lemma_slices_seconds_split(full, keep);
            lemma_slices_seconds_nonnegative(full.take(keep));
        }
    }
    let r = limit_category_slices(sorted, total_seconds, maximum);
    proof {
        if full.len() > chart_maximum(maximum) {
            let keep = chart_maximum(maximum) - 1;
            let rest = full.skip(keep);
            lemma_slices_seconds_split(full, keep);
            lemma_slices_seconds_nonnegative(rest);
            assert(r@.drop_last() =~= full.take(keep));
        }
    }
    r
}

} // verus!
