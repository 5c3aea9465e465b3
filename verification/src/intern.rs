//! The report of the interned items: for each category, what was inserted and
//! what was removed, in the order of the log.

use vstd::prelude::*;
use vstd::string::*;
use crate::model::ItemUid;
use crate::text::{decimal, lemma_concat_assoc, lemma_concat_empty, push_decimal};

verus! {

/// An item that was interned, with the dump of its value.
#[derive(Clone, Debug, PartialEq, Eq)]
pub struct Insertion {
    pub uid: ItemUid,
    pub value: String,
}

/// An item that left the interner.
#[derive(Clone, Copy, Debug, PartialEq, Eq)]
pub struct Removal {
    pub uid: ItemUid,
}

/// One batch of the log of a category.
#[derive(Clone, Debug, PartialEq, Eq)]
pub struct UpdateList {
    pub insertions: Vec<Insertion>,
    pub removals: Vec<Removal>,
}

/// The log of one category of interned items.
#[derive(Clone, Debug, PartialEq, Eq)]
pub struct InternCategory {
    pub name: String,
    pub updates: Vec<UpdateList>,
}

/// The logs of all categories, in the order in which they are reported.
#[derive(Clone, Debug, PartialEq, Eq)]
pub struct TileCacheLoggerUpdateLists {
    pub categories: Vec<InternCategory>,
}

/// The line of an insertion: the identifier and, in parentheses, the value.
pub open spec fn insertion_line(insertion: Insertion) -> Seq<char> {
    "<div class=\"insert\"><b>"@ + decimal(insertion.uid.uid as nat) + "</b> "@ + "("@
        + insertion.value@ + ")"@ + "</div>\n"@
}

/// The line of a removal: the identifier.
pub open spec fn removal_line(removal: Removal) -> Seq<char> {
    "<div class=\"remove\"><b>"@ + decimal(removal.uid.uid as nat) + "</b></div>\n"@
}

/// The lines of a run of insertions, in its order.
pub open spec fn insertion_lines(insertions: Seq<Insertion>) -> Seq<char>
    decreases insertions.len(),
{
    if insertions.len() == 0 {
        Seq::empty()
    } else {
        insertion_lines(insertions.drop_last()) + insertion_line(insertions.last())
    }
}

/// The lines of a run of removals, in its order.
pub open spec fn removal_lines(removals: Seq<Removal>) -> Seq<char>
    decreases removals.len(),
{
    if removals.len() == 0 {
        Seq::empty()
    } else {
        removal_lines(removals.drop_last()) + removal_line(removals.last())
    }
}

/// The lines of one batch: its insertions, then its removals.
pub open spec fn update_list_html(list: UpdateList) -> Seq<char> {
    insertion_lines(list.insertions@) + removal_lines(list.removals@)
}

/// The lines of the batches of a log, in its order.
pub open spec fn update_lists_html(lists: Seq<UpdateList>) -> Seq<char>
    decreases lists.len(),
{
    if lists.len() == 0 {
        Seq::empty()
    } else {
        update_lists_html(lists.drop_last()) + update_list_html(lists.last())
    }
}

/// The section of one category: a subheading with its name, then its lines.
pub open spec fn category_html(category: InternCategory) -> Seq<char> {
    "<div class=\"subheader\">"@ + category.name@ + "</div>\n<div class=\"intern data\">\n"@
        + update_lists_html(category.updates@) + "</div><br/>\n"@
}

/// The sections of the categories, in their order.
pub open spec fn categories_html(categories: Seq<InternCategory>) -> Seq<char>
    decreases categories.len(),
{
    if categories.len() == 0 {
        Seq::empty()
    } else {
        categories_html(categories.drop_last()) + category_html(categories.last())
    }
}

/// The opening of the report document.
pub open spec fn html_head() -> Seq<char> {
    "<!DOCTYPE html>\n<html> <head> <meta charset=\"UTF-8\">\n<link rel=\"stylesheet\" type=\"text/css\" href=\"tilecache_base.css\"></link>\n<link rel=\"stylesheet\" type=\"text/css\" href=\"tilecache.css\"></link>\n</head> <body>\n<div class=\"datasheet\">\n"@
}

/// The report document: the invalidation report, then the interning report.
pub open spec fn html_document(
    categories: Seq<InternCategory>,
    invalidation_report: Seq<char>,
) -> Seq<char> {
    html_head() + invalidation_report + "<div class=\"header\">Interning</div>\n"@
        + categories_html(categories) + "</div> </body> </html>\n"@
}

fn push_insertion_lines(buf: &mut String, insertions: &Vec<Insertion>)
    ensures
        final(buf)@ == old(buf)@ + insertion_lines(insertions@),
{
    let mut i: usize = 0;
    proof {
        assert(insertions@.take(0) =~= Seq::<Insertion>::empty());
        assert(buf@ =~= old(buf)@ + insertion_lines(insertions@.take(0)));
    }
    while i < insertions.len()
        invariant
            i <= insertions@.len(),
            buf@ == old(buf)@ + insertion_lines(insertions@.take(i as int)),
        decreases insertions.len() - i,
    {
        let insertion = &insertions[i];
        buf.append("<div class=\"insert\"><b>");
        push_decimal(buf, insertion.uid.uid);
        buf.append("</b> ");
        buf.append("(");
        buf.append(insertion.value.as_str());
        buf.append(")");
        buf.append("</div>\n");
        proof {
            let next = insertions@.take(i + 1);
            assert(next.drop_last() =~= insertions@.take(i as int));
            assert(next.last() == insertions@[i as int]);
            assert(buf@ =~= old(buf)@ + insertion_lines(next));
        }
        i += 1;
    }
    proof {
        assert(insertions@.take(insertions@.len() as int) =~= insertions@);
    }
}

fn push_removal_lines(buf: &mut String, removals: &Vec<Removal>)
    ensures
        final(buf)@ == old(buf)@ + removal_lines(removals@),
{
    let mut i: usize = 0;
    proof {
        assert(removals@.take(0) =~= Seq::<Removal>::empty());
        assert(buf@ =~= old(buf)@ + removal_lines(removals@.take(0)));
    }
    while i < removals.len()
        invariant
            i <= removals@.len(),
            buf@ == old(buf)@ + removal_lines(removals@.take(i as int)),
        decreases removals.len() - i,
    {
        buf.append("<div class=\"remove\"><b>");
        push_decimal(buf, removals[i].uid.uid);
        buf.append("</b></div>\n");
        proof {
            let next = removals@.take(i + 1);
            assert(next.drop_last() =~= removals@.take(i as int));
            assert(next.last() == removals@[i as int]);
            assert(buf@ =~= old(buf)@ + removal_lines(next));
        }
        i += 1;
    }
    proof {
        assert(removals@.take(removals@.len() as int) =~= removals@);
    }
}

fn push_update_lists(buf: &mut String, lists: &Vec<UpdateList>)
    ensures
        final(buf)@ == old(buf)@ + update_lists_html(lists@),
{
    let mut i: usize = 0;
    proof {
        assert(lists@.take(0) =~= Seq::<UpdateList>::empty());
        assert(buf@ =~= old(buf)@ + update_lists_html(lists@.take(0)));
    }
    while i < lists.len()
        invariant
            i <= lists@.len(),
            buf@ == old(buf)@ + update_lists_html(lists@.take(i as int)),
        decreases lists.len() - i,
    {
        push_insertion_lines(buf, &lists[i].insertions);
        push_removal_lines(buf, &lists[i].removals);
        proof {
            let next = lists@.take(i + 1);
            assert(next.drop_last() =~= lists@.take(i as int));
            assert(next.last() == lists@[i as int]);
            assert(buf@ =~= old(buf)@ + update_lists_html(next));
        }
        i += 1;
    }
    proof {
        assert(lists@.take(lists@.len() as int) =~= lists@);
    }
}

fn push_category(buf: &mut String, category: &InternCategory)
    ensures
        final(buf)@ == old(buf)@ + category_html(*category),
{
    buf.append("<div class=\"subheader\">");
    buf.append(category.name.as_str());
    buf.append("</div>\n<div class=\"intern data\">\n");
    push_update_lists(buf, &category.updates);
    buf.append("</div><br/>\n");
    assert(buf@ =~= old(buf)@ + category_html(*category));
}

/// The report document: the given invalidation report, then for each category
/// its insertions and removals, in the order of the log.
pub fn updatelist_to_html(update_lists: &TileCacheLoggerUpdateLists, invalidation_report: String) -> (html:
    String)
    ensures
        html@ == html_document(update_lists.categories@, invalidation_report@),
{
    let mut html = String::new();
    html.append(
        "<!DOCTYPE html>\n<html> <head> <meta charset=\"UTF-8\">\n<link rel=\"stylesheet\" type=\"text/css\" href=\"tilecache_base.css\"></link>\n<link rel=\"stylesheet\" type=\"text/css\" href=\"tilecache.css\"></link>\n</head> <body>\n<div class=\"datasheet\">\n",
    );
    html.append(invalidation_report.as_str());
    html.append("<div class=\"header\">Interning</div>\n");
    let ghost opened = html@;
    let categories = &update_lists.categories;
    let mut i: usize = 0;
    proof {
        assert(categories@.take(0) =~= Seq::<InternCategory>::empty());
        assert(html@ =~= opened + categories_html(categories@.take(0)));
    }
    while i < categories.len()
        invariant
            i <= categories@.len(),
            html@ == opened + categories_html(categories@.take(i as int)),
        decreases categories.len() - i,
    {
        push_category(&mut html, &categories[i]);
        proof {
            let next = categories@.take(i + 1);
            assert(next.drop_last() =~= categories@.take(i as int));
            assert(next.last() == categories@[i as int]);
            assert(html@ =~= opened + categories_html(next));
        }
        i += 1;
    }
    html.append("</div> </body> </html>\n");
    proof {
        assert(categories@.take(categories@.len() as int) =~= categories@);
        assert(html@ =~= html_document(update_lists.categories@, invalidation_report@));
    }
    html
}

/// The lines of two runs of insertions are those of the first run followed by
/// those of the second.
pub proof fn lemma_insertions_keep_order(a: Seq<Insertion>, b: Seq<Insertion>)
    ensures
        insertion_lines(a + b) == insertion_lines(a) + insertion_lines(b),
    decreases b.len(),
{
    if b.len() == 0 {
        assert(a + b =~= a);
        lemma_concat_empty(insertion_lines(a));
    } else {
        lemma_insertions_keep_order(a, b.drop_last());
        assert((a + b).drop_last() =~= a + b.drop_last());
        assert((a + b).last() == b.last());
        lemma_concat_assoc(
            insertion_lines(a),
            insertion_lines(b.drop_last()),
            insertion_line(b.last()),
        );
    }
}

/// The lines of two runs of removals are those of the first run followed by
/// those of the second.
pub proof fn lemma_removals_keep_order(a: Seq<Removal>, b: Seq<Removal>)
    ensures
        removal_lines(a + b) == removal_lines(a) + removal_lines(b),
    decreases b.len(),
{
    if b.len() == 0 {
        assert(a + b =~= a);
        lemma_concat_empty(removal_lines(a));
    } else {
        lemma_removals_keep_order(a, b.drop_last());
        assert((a + b).drop_last() =~= a + b.drop_last());
        assert((a + b).last() == b.last());
        lemma_concat_assoc(removal_lines(a), removal_lines(b.drop_last()), removal_line(b.last()));
    }
}

/// The lines of two runs of batches are those of the first run followed by
/// those of the second.
pub proof fn lemma_update_lists_keep_order(a: Seq<UpdateList>, b: Seq<UpdateList>)
    ensures
        update_lists_html(a + b) == update_lists_html(a) + update_lists_html(b),
    decreases b.len(),
{
    if b.len() == 0 {
        assert(a + b =~= a);
        lemma_concat_empty(update_lists_html(a));
    } else {
        lemma_update_lists_keep_order(a, b.drop_last());
        assert((a + b).drop_last() =~= a + b.drop_last());
        assert((a + b).last() == b.last());
        lemma_concat_assoc(
            update_lists_html(a),
            update_lists_html(b.drop_last()),
            update_list_html(b.last()),
        );
    }
}

/// The sections of two runs of categories are those of the first run followed
/// by those of the second: no section depends on another category.
pub proof fn lemma_categories_keep_order(a: Seq<InternCategory>, b: Seq<InternCategory>)
    ensures
        categories_html(a + b) == categories_html(a) + categories_html(b),
    decreases b.len(),
{
    if b.len() == 0 {
        assert(a + b =~= a);
        lemma_concat_empty(categories_html(a));
    } else {
        lemma_categories_keep_order(a, b.drop_last());
        assert((a + b).drop_last() =~= a + b.drop_last());
        assert((a + b).last() == b.last());
        lemma_concat_assoc(categories_html(a), categories_html(b.drop_last()), category_html(b.last()));
    }
}

} // verus!
