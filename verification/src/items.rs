//! Lists of item identifiers: their difference, and their display names.

use std::collections::HashMap;
use vstd::prelude::*;
use vstd::string::*;
use crate::model::ItemUid;
use crate::text::{decimal, push_decimal};

verus! {

/// The predicate "does not occur in `other`".
pub open spec fn absent_from(other: Seq<ItemUid>) -> spec_fn(ItemUid) -> bool {
    |uid: ItemUid| !other.contains(uid)
}

/// The items of `a` that do not occur in `b`, in the order they have in `a`.
pub open spec fn difference(a: Seq<ItemUid>, b: Seq<ItemUid>) -> Seq<ItemUid> {
    a.filter(absent_from(b))
}

/// The display name of an item: the name the table gives it, or nothing.
pub open spec fn display_name(names: Map<u64, String>, uid: ItemUid) -> Seq<char> {
    if names.contains_key(uid.uid) {
        names[uid.uid]@
    } else {
        Seq::empty()
    }
}

/// One bullet of a list of items: the identifier, three dots, the display name.
pub open spec fn item_line(names: Map<u64, String>, uid: ItemUid) -> Seq<char> {
    "<li>"@ + decimal(uid.uid as nat) + "..."@ + display_name(names, uid) + "</li>\n"@
}

/// The bullets of a list of items, in the order of the list.
pub open spec fn item_lines(names: Map<u64, String>, items: Seq<ItemUid>) -> Seq<char>
    decreases items.len(),
{
    if items.len() == 0 {
        Seq::empty()
    } else {
        item_lines(names, items.drop_last()) + item_line(names, items.last())
    }
}

/// Whether `uid` occurs in `list`.
pub fn contains_uid(list: &Vec<ItemUid>, uid: ItemUid) -> (found: bool)
    ensures
        found == list@.contains(uid),
{
    let mut i: usize = 0;
    while i < list.len()
        invariant
            i <= list.len(),
            forall|j: int| 0 <= j < i ==> list@[j] != uid,
        decreases list.len() - i,
    {
        if list[i].uid == uid.uid {
            return true;
        }
        i += 1;
    }
    false
}

/// The items of `a` that do not occur in `b`, in the order they have in `a`.
pub fn difference_of(a: &Vec<ItemUid>, b: &Vec<ItemUid>) -> (out: Vec<ItemUid>)
    ensures
        out@ == difference(a@, b@),
{
    let mut out: Vec<ItemUid> = Vec::new();
    let mut i: usize = 0;
    proof {
        reveal(Seq::filter);
        assert(a@.take(0) =~= Seq::<ItemUid>::empty());
    }
    while i < a.len()
        invariant
            i <= a.len(),
            out@ == difference(a@.take(i as int), b@),
        decreases a.len() - i,
    {
        let uid = a[i];
        proof {
            assert(a@.take(i + 1) =~= a@.take(i as int).push(uid));
            a@.take(i as int).lemma_filter_push(uid, absent_from(b@));
        }
        if !contains_uid(b, uid) {
            out.push(uid);
        }
        i += 1;
    }
    proof {
        assert(a@.take(a.len() as int) =~= a@);
    }
    out
}

/// An item is in the difference exactly when it is in the first list and not in
/// the second.
pub proof fn lemma_difference_contains(a: Seq<ItemUid>, b: Seq<ItemUid>, uid: ItemUid)
    ensures
        difference(a, b).contains(uid) <==> a.contains(uid) && !b.contains(uid),
    decreases a.len(),
{
    reveal(Seq::filter);
    if a.len() > 0 {
        let front = a.drop_last();
        lemma_difference_contains(front, b, uid);
        let d = difference(a, b);
        let df = difference(front, b);
        if a.contains(uid) && !b.contains(uid) {
            let k = choose|k: int| 0 <= k < a.len() && a[k] == uid;
            if k == a.len() - 1 {
                assert(d == df.push(a.last()));
                assert(d[d.len() - 1] == uid);
            } else {
                assert(front[k] == uid);
                assert(df.contains(uid));
                let m = choose|m: int| 0 <= m < df.len() && df[m] == uid;
                assert(d[m] == uid);
            }
        }
        if d.contains(uid) {
            let m = choose|m: int| 0 <= m < d.len() && d[m] == uid;
            if absent_from(b)(a.last()) && m == d.len() - 1 {
                assert(a[a.len() - 1] == uid);
            } else {
                assert(df[m] == uid);
                assert(df.contains(uid));
                let k = choose|k: int| 0 <= k < front.len() && front[k] == uid;
                assert(a[k] == uid);
            }
        }
    }
}

/// The difference keeps the order of the first list: the difference of a list
/// made of two parts is the difference of the first part followed by that of the
/// second.
pub proof fn lemma_difference_keeps_order(a: Seq<ItemUid>, c: Seq<ItemUid>, b: Seq<ItemUid>)
    ensures
        difference(a + c, b) == difference(a, b) + difference(c, b),
{
    Seq::filter_distributes_over_add(a, c, absent_from(b));
}

/// Nothing has left a list that is compared with itself.
pub proof fn lemma_difference_with_itself(a: Seq<ItemUid>)
    ensures
        difference(a, a) == Seq::<ItemUid>::empty(),
{
    let d = difference(a, a);
    if d.len() > 0 {
        lemma_difference_contains(a, a, d[0]);
        assert(d.contains(d[0]));
    }
    assert(d =~= Seq::<ItemUid>::empty());
}

/// Appends the display name of `uid` to `buf`.
pub fn push_display_name(buf: &mut String, names: &HashMap<u64, String>, uid: ItemUid)
    ensures
        final(buf)@ == old(buf)@ + display_name(names@, uid),
{
    broadcast use vstd::std_specs::hash::group_hash_axioms;

    match names.get(&uid.uid) {
        Some(name) => {
            buf.append(name.as_str());
        },
        None => {
            assert(buf@ =~= old(buf)@ + display_name(names@, uid));
        },
    }
}

/// The bullets of a list of items, in the order of the list.
pub fn item_lines_string(names: &HashMap<u64, String>, items: &Vec<ItemUid>) -> (out: String)
    ensures
        out@ == item_lines(names@, items@),
{
    let mut out = String::new();
    let mut i: usize = 0;
    proof {
        assert(items@.take(0) =~= Seq::<ItemUid>::empty());
    }
    while i < items.len()
        invariant
            i <= items.len(),
            out@ == item_lines(names@, items@.take(i as int)),
        decreases items.len() - i,
    {
        let ghost before = out@;
        let uid = items[i];
        out.append("<li>");
        push_decimal(&mut out, uid.uid);
        out.append("...");
        push_display_name(&mut out, names, uid);
        out.append("</li>\n");
        proof {
            assert(items@.take(i + 1).drop_last() =~= items@.take(i as int));
            assert(out@ =~= before + item_line(names@, uid));
        }
        i += 1;
    }
    proof {
        assert(items@.take(items.len() as int) =~= items@);
    }
    out
}

} // verus!
