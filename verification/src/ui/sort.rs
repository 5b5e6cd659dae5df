//! The order of the listed downloads.
use crate::text;
use crate::ui::table::TableItem;
use vstd::prelude::*;

verus! {

/// What `str::to_lowercase` makes of a text.
pub uninterp spec fn lowercase_of(s: Seq<char>) -> Seq<char>;

/// `str::to_lowercase` depends on the text alone, and only lowers the letters of an ASCII text.
pub assume_specification[ str::to_lowercase ](s: &str) -> (r: String)
    ensures
        r@ == lowercase_of(s@),
        (forall|i: int| 0 <= i < s@.len() ==> (#[trigger] s@[i] as u32) < 128) ==> r@
            == text::ascii_lower(s@),
;

/// The column of the file names.
pub const NAME_COLUMN: i32 = 0;

/// The column of the sizes.
pub const SIZE_COLUMN: i32 = 1;

/// The column of the completion times.
pub const DATE_COLUMN: i32 = 3;

/// Whether the rows can be ordered by a column.
pub open spec fn is_sortable(column: i32) -> bool {
    column == NAME_COLUMN || column == SIZE_COLUMN || column == DATE_COLUMN
}

/// What a column orders a row by: names regardless of case, sizes, or neither, and then ids, which
/// increase with completion.
pub open spec fn key_of(item: TableItem, column: i32) -> (Seq<char>, int, int) {
    if column == NAME_COLUMN {
        (lowercase_of(item.filename@), 0, item.id as int)
    } else if column == SIZE_COLUMN {
        (Seq::empty(), item.size_bytes as int, item.id as int)
    } else {
        (Seq::empty(), 0, item.id as int)
    }
}

/// Whether a text comes before another, character by character.
pub open spec fn text_less(a: Seq<char>, b: Seq<char>) -> bool
    decreases a.len(),
{
    if b.len() == 0 {
        false
    } else if a.len() == 0 {
        true
    } else if a[0] != b[0] {
        (a[0] as int) < (b[0] as int)
    } else {
        text_less(a.drop_first(), b.drop_first())
    }
}

/// Whether a key comes before another.
pub open spec fn key_less(a: (Seq<char>, int, int), b: (Seq<char>, int, int)) -> bool {
    text_less(a.0, b.0) || (a.0 == b.0 && (a.1 < b.1 || (a.1 == b.1 && a.2 < b.2)))
}

/// No row comes before an earlier one.
pub open spec fn in_order(items: Seq<TableItem>, column: i32) -> bool {
    forall|i: int, j: int|
        0 <= i < j < items.len() ==> !key_less(
            key_of(#[trigger] items[j], column),
            key_of(#[trigger] items[i], column),
        )
}

/// The rows with a key, in their order.
pub open spec fn of_key(items: Seq<TableItem>, column: i32, key: (Seq<char>, int, int)) -> Seq<
    TableItem,
> {
    items.filter(|item: TableItem| key_of(item, column) == key)
}

/// `after` holds the rows of `before` in the order of a column, rows with the same key as before.
pub open spec fn is_sort_of(before: Seq<TableItem>, after: Seq<TableItem>, column: i32) -> bool {
    &&& in_order(after, column)
    &&& after.to_multiset() == before.to_multiset()
    &&& forall|key: (Seq<char>, int, int)| #[trigger]
        of_key(after, column, key) == of_key(before, column, key)
}

proof fn lemma_text_total(a: Seq<char>, b: Seq<char>)
    ensures
        !text_less(a, a),
        a == b || text_less(a, b) || text_less(b, a),
        text_less(a, b) ==> !text_less(b, a),
    decreases a.len(),
{
    if a.len() > 0 {
        if b.len() > 0 {
            lemma_text_total(a.drop_first(), b.drop_first());
            if a[0] == b[0] && a.drop_first() == b.drop_first() {
                assert(a =~= seq![a[0]] + a.drop_first());
                assert(b =~= seq![b[0]] + b.drop_first());
            }
        } else {
            lemma_text_total(a.drop_first(), b);
        }
    } else if b.len() == 0 {
        assert(a =~= b);
    }
}

proof fn lemma_text_chain(a: Seq<char>, b: Seq<char>, c: Seq<char>)
    ensures
        text_less(a, b) && text_less(b, c) ==> text_less(a, c),
    decreases a.len(),
{
    if a.len() > 0 && b.len() > 0 && c.len() > 0 {
        lemma_text_chain(a.drop_first(), b.drop_first(), c.drop_first());
    }
}

/// Keys are totally ordered.
proof fn lemma_key_order(
    a: (Seq<char>, int, int),
    b: (Seq<char>, int, int),
    c: (Seq<char>, int, int),
)
    ensures
        !key_less(a, a),
        a == b || key_less(a, b) || key_less(b, a),
        !key_less(b, a) && !key_less(c, b) ==> !key_less(c, a),
        key_less(a, b) ==> !key_less(b, a),
{
    lemma_text_total(a.0, b.0);
    lemma_text_total(b.0, c.0);
    lemma_text_total(c.0, a.0);
    lemma_text_chain(a.0, b.0, c.0);
    lemma_text_chain(b.0, c.0, a.0);
    lemma_text_chain(c.0, a.0, b.0);
    lemma_text_chain(c.0, b.0, a.0);
    lemma_text_chain(b.0, a.0, c.0);
    lemma_text_chain(a.0, c.0, b.0);
}

fn char_less(a: char, b: char) -> (r: bool)
    ensures
        r == ((a as int) < (b as int)),
{
    (a as u32) < (b as u32)
}

fn chars_less(a: &[char], b: &[char]) -> (r: bool)
    ensures
        r == text_less(a@, b@),
{
    let mut i: usize = 0;
    proof {
        assert(a@.skip(0) =~= a@);
        assert(b@.skip(0) =~= b@);
    }
    while i < a.len() && i < b.len() && a[i] == b[i]
        invariant
            i <= a@.len(),
            i <= b@.len(),
            text_less(a@, b@) == text_less(a@.skip(i as int), b@.skip(i as int)),
        decreases a@.len() - i,
    {
        proof {
            assert(a@.skip(i as int).drop_first() =~= a@.skip(i + 1));
            assert(b@.skip(i as int).drop_first() =~= b@.skip(i + 1));
        }
        i += 1;
    }
    if i == b.len() {
        false
    } else if i == a.len() {
        true
    } else {
        char_less(a[i], b[i])
    }
}

fn name_key(item: &TableItem, column: i32) -> (r: Vec<char>)
    ensures
        r@ == key_of(*item, column).0,
{
    if column == NAME_COLUMN {
        let lower = item.filename.as_str().to_lowercase();
        text::chars_of(lower.as_str())
    } else {
        Vec::new()
    }
}

fn size_key(item: &TableItem, column: i32) -> (r: u128)
    ensures
        r == key_of(*item, column).1,
{
    if column == SIZE_COLUMN {
        item.size_bytes
    } else {
        0
    }
}

fn row_less(a: &TableItem, a_name: &[char], b: &TableItem, b_name: &[char], column: i32) -> (r:
    bool)
    requires
        a_name@ == key_of(*a, column).0,
        b_name@ == key_of(*b, column).0,
    ensures
        r == key_less(key_of(*a, column), key_of(*b, column)),
{
    if chars_less(a_name, b_name) {
        return true;
    }
    if !text::same_chars(a_name, b_name) {
        return false;
    }
    let a_size: u128 = size_key(a, column);
    let b_size: u128 = size_key(b, column);
    a_size < b_size || (a_size == b_size && a.id < b.id)
}

proof fn lemma_insert_sorted(
    out: Seq<TableItem>,
    done: Seq<TableItem>,
    item: TableItem,
    p: int,
    column: i32,
)
    requires
        is_sort_of(done, out, column),
        0 <= p <= out.len(),
        p > 0 ==> !key_less(key_of(item, column), key_of(out[p - 1], column)),
        forall|j: int|
            p <= j < out.len() ==> key_less(key_of(item, column), key_of(#[trigger] out[j], column)),
    ensures
        is_sort_of(done.push(item), out.insert(p, item), column),
{
    let new = out.insert(p, item);
    let x = key_of(item, column);
    assert forall|i: int, j: int| 0 <= i < j < new.len() implies !key_less(
        key_of(#[trigger] new[j], column),
        key_of(#[trigger] new[i], column),
    ) by {
        let a = if i < p { out[i] } else if i == p { item } else { out[i - 1] };
        let b = if j < p { out[j] } else if j == p { item } else { out[j - 1] };
        assert(new[i] == a && new[j] == b);
        if j == p {
            let last = key_of(out[p - 1], column);
            lemma_key_order(key_of(a, column), last, x);
            lemma_key_order(last, last, last);
        } else if i == p {
            lemma_key_order(x, key_of(b, column), x);
        }
    }
    let head = out.take(p);
    let tail = out.skip(p);
    assert(out =~= head + tail);
    assert(new =~= head + seq![item] + tail);
    assert forall|key: (Seq<char>, int, int)| #[trigger] of_key(new, column, key) == of_key(
        done.push(item),
        column,
        key,
    ) by {
        let pred = |item: TableItem| key_of(item, column) == key;
        assert(of_key(out, column, key) == of_key(done, column, key));
        Seq::filter_distributes_over_add(head, tail, pred);
        Seq::filter_distributes_over_add(head + seq![item], tail, pred);
        Seq::filter_distributes_over_add(head, seq![item], pred);
        Seq::filter_distributes_over_add(done, seq![item], pred);
        assert(done.push(item) =~= done + seq![item]);
        if x == key {
            lemma_none_of_key(tail, column, key);
            assert(head.filter(pred) + Seq::<TableItem>::empty() =~= head.filter(pred));
            assert((head.filter(pred) + seq![item].filter(pred)) + Seq::<TableItem>::empty()
                =~= head.filter(pred) + seq![item].filter(pred));
        } else {
            let one = seq![item];
            assert(forall|i: int|
                0 <= i < one.len() ==> key_of(#[trigger] one[i], column) != key);
            lemma_filter_none(one, pred);
            assert(head.filter(pred) + Seq::<TableItem>::empty() =~= head.filter(pred));
            assert(done.filter(pred) + Seq::<TableItem>::empty() =~= done.filter(pred));
        }
    }
    broadcast use vstd::seq_lib::group_to_multiset_ensures;

    assert(new.to_multiset() =~= out.to_multiset().insert(item));
    assert(done.push(item).to_multiset() =~= done.to_multiset().insert(item));
}

proof fn lemma_filter_none(items: Seq<TableItem>, pred: spec_fn(TableItem) -> bool)
    requires
        forall|i: int| 0 <= i < items.len() ==> !pred(#[trigger] items[i]),
    ensures
        items.filter(pred) == Seq::<TableItem>::empty(),
    decreases items.len(),
{
    reveal(Seq::filter);
    if items.len() > 0 {
        let rest = items.drop_last();
        assert(forall|i: int| 0 <= i < rest.len() ==> (#[trigger] rest[i]) == items[i]);
        lemma_filter_none(rest, pred);
        assert(!pred(items[items.len() - 1]));
    }
}

proof fn lemma_none_of_key(items: Seq<TableItem>, column: i32, key: (Seq<char>, int, int))
    requires
        forall|i: int|
            0 <= i < items.len() ==> key_less(key, key_of(#[trigger] items[i], column)),
    ensures
        of_key(items, column, key) == Seq::<TableItem>::empty(),
{
    let pred = |item: TableItem| key_of(item, column) == key;
    lemma_key_order(key, key, key);
    assert forall|i: int| 0 <= i < items.len() implies !pred(#[trigger] items[i]) by {
        assert(key_less(key, key_of(items[i], column)));
    }
    lemma_filter_none(items, pred);
}

/// The rows in ascending order of a sortable column.
fn sorted_rows(items: &mut Vec<TableItem>, column: i32)
    ensures
        is_sort_of(old(items)@, final(items)@, column),
{
    let ghost before = items@;
    let mut out: Vec<TableItem> = Vec::new();
    let mut names: Vec<Vec<char>> = Vec::new();
    let ghost mut done: Seq<TableItem> = Seq::empty();
    assert(before =~= done + items@);
    assert(is_sort_of(done, out@, column)) by {
        assert(out@ =~= done);
    }
    while items.len() > 0
        invariant
            before == done + items@,
            is_sort_of(done, out@, column),
            names@.len() == out@.len(),
            forall|j: int|
                0 <= j < out@.len() ==> (#[trigger] names@[j])@ == key_of(out@[j], column).0,
        decreases items@.len(),
    {
        let ghost rest = items@;
        let item = items.remove(0);
        let name = name_key(&item, column);
        let mut p: usize = out.len();
        while p > 0 && row_less(&item, name.as_slice(), &out[p - 1], names[p - 1].as_slice(), column)
            invariant
                p <= out@.len(),
                names@.len() == out@.len(),
                name@ == key_of(item, column).0,
                forall|j: int|
                    0 <= j < out@.len() ==> (#[trigger] names@[j])@ == key_of(out@[j], column).0,
                forall|j: int|
                    p <= j < out@.len() ==> key_less(
                        key_of(item, column),
                        key_of(#[trigger] out@[j], column),
                    ),
            decreases p,
        {
            p -= 1;
        }
        let ghost placed = out@;
        proof {
            lemma_insert_sorted(placed, done, item, p as int, column);
            done = done.push(item);
            assert(done + items@ =~= before);
        }
        out.insert(p, item);
        names.insert(p, name);
        assert(out@ == placed.insert(p as int, item));
    }
    assert(done =~= before);
    *items = out;
}

fn reversed(items: &mut Vec<TableItem>)
    ensures
        final(items)@ == old(items)@.reverse(),
{
    let ghost before = items@;
    let mut out: Vec<TableItem> = Vec::new();
    while items.len() > 0
        invariant
            items@ == before.take(items@.len() as int),
            items@.len() + out@.len() == before.len(),
            forall|j: int|
                0 <= j < out@.len() ==> (#[trigger] out@[j]) == before[before.len() - 1 - j],
        decreases items@.len(),
    {
        match items.pop() {
            Some(item) => {
                out.push(item);
            },
            None => {},
        }
        assert(items@ =~= before.take(items@.len() as int));
    }
    assert(out@ =~= before.reverse());
    *items = out;
}

/// The rows as a header sort leaves them.
pub open spec fn is_reordering(
    before: Seq<TableItem>,
    after: Seq<TableItem>,
    column: i32,
    ascending: bool,
) -> bool {
    if !is_sortable(column) {
        after == before
    } else if ascending {
        is_sort_of(before, after, column)
    } else {
        is_sort_of(before, after.reverse(), column)
    }
}

/// Reorders the listed rows for a header sort. A column that cannot be sorted leaves the order
/// untouched; ties keep a stable order by row id.
pub fn sort_items(items: &mut Vec<TableItem>, column: i32, ascending: bool)
    ensures
        is_reordering(old(items)@, final(items)@, column, ascending),
{
    if column != NAME_COLUMN && column != SIZE_COLUMN && column != DATE_COLUMN {
        return;
    }
    sorted_rows(items, column);
    if !ascending {
        let ghost ordered = items@;
        reversed(items);
        assert(items@.reverse() =~= ordered);
    }
}

/// Law: rows with distinct ids have only one order, so that sorting never depends on how the rows
/// were listed before.
pub proof fn law_distinct_rows_have_one_order(
    before: Seq<TableItem>,
    other: Seq<TableItem>,
    first: Seq<TableItem>,
    second: Seq<TableItem>,
    column: i32,
)
    requires
        before.to_multiset() == other.to_multiset(),
        forall|i: int, j: int|
            0 <= i < j < before.len() ==> (#[trigger] before[i]).id != (#[trigger] before[j]).id,
        is_sort_of(before, first, column),
        is_sort_of(other, second, column),
    ensures
        first == second,
{
    broadcast use vstd::seq_lib::group_to_multiset_ensures;

    assert forall|x: TableItem, y: TableItem|
        #[trigger] first.contains(x) && #[trigger] first.contains(y) && x.id == y.id implies x
        == y by {
        assert(before.to_multiset().count(x) > 0 && before.to_multiset().count(y) > 0);
        assert(before.contains(x) && before.contains(y));
        let i = choose|i: int| 0 <= i < before.len() && before[i] == x;
        let j = choose|j: int| 0 <= j < before.len() && before[j] == y;
        if i < j {
            assert(before[i].id != before[j].id);
        } else if j < i {
            assert(before[j].id != before[i].id);
        }
    }
    lemma_one_order(first, second, column);
}

proof fn lemma_one_order(first: Seq<TableItem>, second: Seq<TableItem>, column: i32)
    requires
        in_order(first, column),
        in_order(second, column),
        first.to_multiset() == second.to_multiset(),
        forall|x: TableItem, y: TableItem|
            #[trigger] first.contains(x) && #[trigger] first.contains(y) && x.id == y.id ==> x == y,
    ensures
        first == second,
    decreases first.len(),
{
    broadcast use vstd::seq_lib::group_to_multiset_ensures;

    vstd::seq_lib::to_multiset_len(first);
    vstd::seq_lib::to_multiset_len(second);
    if first.len() > 0 {
        let a = first[0];
        let b = second[0];
        assert(first.contains(a) && second.contains(b));
        assert(second.to_multiset().count(a) > 0 && first.to_multiset().count(b) > 0);
        assert(second.contains(a) && first.contains(b));
        let i = choose|i: int| 0 <= i < first.len() && first[i] == b;
        let j = choose|j: int| 0 <= j < second.len() && second[j] == a;
        lemma_key_order(key_of(a, column), key_of(b, column), key_of(a, column));
        if i > 0 {
            assert(!key_less(key_of(first[i], column), key_of(first[0], column)));
        }
        if j > 0 {
            assert(!key_less(key_of(second[j], column), key_of(second[0], column)));
        }
        assert(key_of(a, column) == key_of(b, column));
        assert(a.id == b.id);
        assert(a == b);
        let first1 = first.drop_first();
        let second1 = second.drop_first();
        assert(first1 =~= first.remove(0) && second1 =~= second.remove(0));
        assert(first1.to_multiset() =~= first.to_multiset().remove(a));
        assert(second1.to_multiset() =~= second.to_multiset().remove(a));
        assert forall|x: TableItem, y: TableItem|
            #[trigger] first1.contains(x) && #[trigger] first1.contains(y) && x.id
                == y.id implies x == y by {
            let k = choose|k: int| 0 <= k < first1.len() && first1[k] == x;
            let l = choose|l: int| 0 <= l < first1.len() && first1[l] == y;
            assert(first[k + 1] == x && first[l + 1] == y);
            assert(first.contains(x) && first.contains(y));
        }
        assert forall|i: int, j: int| 0 <= i < j < first1.len() implies !key_less(
            key_of(#[trigger] first1[j], column),
            key_of(#[trigger] first1[i], column),
        ) by {
            assert(first1[i] == first[i + 1] && first1[j] == first[j + 1]);
        }
        assert forall|i: int, j: int| 0 <= i < j < second1.len() implies !key_less(
            key_of(#[trigger] second1[j], column),
            key_of(#[trigger] second1[i], column),
        ) by {
            assert(second1[i] == second[i + 1] && second1[j] == second[j + 1]);
        }
        lemma_one_order(first1, second1, column);
        assert(first =~= seq![a] + first1 && second =~= seq![a] + second1);
    } else {
        assert(first =~= second);
    }
}

/// Law: a header sort keeps every row and puts them in the order of the column: names regardless of
/// case, sizes from small to large, or completion from old to new; descending turns it around. A
/// column that cannot be sorted leaves the rows alone.
pub proof fn law_rows_are_ordered_by_the_column(
    before: Seq<TableItem>,
    after: Seq<TableItem>,
    column: i32,
    ascending: bool,
    i: int,
    j: int,
)
    requires
        is_reordering(before, after, column, ascending),
        0 <= i < j < after.len(),
    ensures
        column == 1 && ascending ==> after[i].size_bytes <= after[j].size_bytes,
        column == 1 && !ascending ==> after[i].size_bytes >= after[j].size_bytes,
        column == 3 && ascending ==> after[i].id <= after[j].id,
        column == 3 && !ascending ==> after[i].id >= after[j].id,
        column == 0 && ascending ==> !text_less(
            lowercase_of(after[j].filename@),
            lowercase_of(after[i].filename@),
        ),
        column == 0 && !ascending ==> !text_less(
            lowercase_of(after[i].filename@),
            lowercase_of(after[j].filename@),
        ),
        column != 0 && column != 1 && column != 3 ==> after == before,
{
    if is_sortable(column) {
        if ascending {
            assert(!key_less(key_of(after[j], column), key_of(after[i], column)));
        } else {
            let turned = after.reverse();
            let n = after.len() - 1;
            assert(turned[n - i] == after[i] && turned[n - j] == after[j]);
            assert(!key_less(key_of(turned[n - i], column), key_of(turned[n - j], column)));
        }
    }
}

/// Law: a header sort neither adds nor loses a row.
pub proof fn law_sorting_keeps_every_row(
    before: Seq<TableItem>,
    after: Seq<TableItem>,
    column: i32,
    ascending: bool,
)
    requires
        is_reordering(before, after, column, ascending),
    ensures
        after.to_multiset() == before.to_multiset(),
        after.len() == before.len(),
{
    broadcast use vstd::seq_lib::group_to_multiset_ensures;
    if is_sortable(column) && !ascending {
        lemma_reverse_multiset(after);
    }
    assert(after.to_multiset().len() == after.len());
    assert(before.to_multiset().len() == before.len());
}

proof fn lemma_reverse_multiset(items: Seq<TableItem>)
    ensures
        items.reverse().to_multiset() == items.to_multiset(),
    decreases items.len(),
{
    broadcast use vstd::seq_lib::group_to_multiset_ensures;
    if items.len() > 0 {
        let rest = items.drop_last();
        lemma_reverse_multiset(rest);
        assert(items =~= rest.push(items.last()));
        assert(items.reverse() =~= seq![items.last()] + rest.reverse());
        vstd::seq_lib::lemma_multiset_commutative(seq![items.last()], rest.reverse());
        assert(seq![items.last()] =~= Seq::<TableItem>::empty().push(items.last()));
        assert(items.reverse().to_multiset() =~= items.to_multiset());
    } else {
        assert(items.reverse() =~= items);
    }
}

/// Law: texts are ordered as words are: by the first character in which they differ, and a
/// beginning comes before what it begins.
pub proof fn law_texts_are_ordered_by_their_first_difference(
    common: Seq<char>,
    a: Seq<char>,
    b: Seq<char>,
)
    ensures
        a.len() > 0 && b.len() > 0 && a[0] != b[0] ==> (text_less(common + a, common + b) <==> (
        a[0] as int) < (b[0] as int)),
        b.len() > 0 ==> text_less(common, common + b),
        !text_less(common + a, common),
    decreases common.len(),
{
    if common.len() > 0 {
        let rest = common.drop_first();
        law_texts_are_ordered_by_their_first_difference(rest, a, b);
        assert((common + a).drop_first() =~= rest + a);
        assert((common + b).drop_first() =~= rest + b);
        assert((common + a)[0] == common[0] && (common + b)[0] == common[0]);
    } else {
        assert(common + a =~= a);
        assert(common + b =~= b);
    }
}

} // verus!
