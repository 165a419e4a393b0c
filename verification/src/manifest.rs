//! The manifest builder: traverses the book's items in order and accumulates
//! one staging entry per renderable item — its source path relative to the
//! source root, its title, and its heading depth. The staged copy of each
//! entry keeps the same relative path under the staging root, and the order
//! of entries is exactly the order of the items they come from.

use vstd::prelude::*;
use vstd::string::StrSliceExecFns;
use crate::book::BookItem;
use crate::book::item_depth;
use crate::book::item_renderable;
use crate::book::section_depth;

verus! {

/// One unit of staging work: normalize the source at `source_rel` (relative
/// to the source root) with `title` and `depth`, and write the result at the
/// same relative path under the staging root.
#[derive(Debug, Clone, PartialEq, Eq)]
pub struct PlanEntry {
    pub source_rel: String,
    pub title: String,
    pub depth: usize,
}

/// The mathematical value of a `PlanEntry`.
pub struct PlanEntryView {
    pub source_rel: Seq<char>,
    pub title: Seq<char>,
    pub depth: nat,
}

impl View for PlanEntry {
    type V = PlanEntryView;

    open spec fn view(&self) -> PlanEntryView {
        PlanEntryView {
            source_rel: self.source_rel@,
            title: self.title@,
            depth: self.depth as nat,
        }
    }
}

/// The staging entry a renderable item produces: its path and title, and the
/// heading depth derived from its section path (one more than its dots; zero
/// for an affix).
pub open spec fn entry_of(item: BookItem) -> PlanEntryView {
    match item {
        BookItem::Chapter(_, ch) => PlanEntryView {
            source_rel: ch.path@,
            title: ch.name@,
            depth: item_depth(item),
        },
        BookItem::Affix(ch) => PlanEntryView {
            source_rel: ch.path@,
            title: ch.name@,
            depth: item_depth(item),
        },
        BookItem::Spacer => PlanEntryView {
            source_rel: Seq::empty(),
            title: Seq::empty(),
            depth: 0,
        },
    }
}

/// The ordered staging manifest of an item sequence: one entry per
/// renderable item, in traversal order.
pub open spec fn staging_plan(items: Seq<BookItem>) -> Seq<PlanEntryView>
    decreases items.len(),
{
    if items.len() == 0 {
        Seq::empty()
    } else {
        let rest = staging_plan(items.skip(1));
        if item_renderable(items[0]) {
            seq![entry_of(items[0])] + rest
        } else {
            rest
        }
    }
}

/// How many items of the sequence are renderable.
pub open spec fn renderable_count(items: Seq<BookItem>) -> nat
    decreases items.len(),
{
    if items.len() == 0 {
        0
    } else {
        (if item_renderable(items[0]) {
            1nat
        } else {
            0nat
        }) + renderable_count(items.skip(1))
    }
}

/// The positions of the renderable items, in increasing order.
pub open spec fn renderable_indices(items: Seq<BookItem>) -> Seq<int>
    decreases items.len(),
{
    if items.len() == 0 {
        Seq::empty()
    } else {
        let rest = renderable_indices(items.skip(1)).map_values(|k: int| k + 1);
        if item_renderable(items[0]) {
            seq![0int] + rest
        } else {
            rest
        }
    }
}

/// A machine limit: a section path short enough that its segment count fits
/// in a `usize`.
pub open spec fn section_fits(item: BookItem) -> bool {
    match item {
        BookItem::Chapter(section, _) => section@.len() < usize::MAX,
        BookItem::Affix(_) => true,
        BookItem::Spacer => true,
    }
}

pub open spec fn sections_fit(items: Seq<BookItem>) -> bool {
    forall|i: int| 0 <= i < items.len() ==> section_fits(#[trigger] items[i])
}

proof fn lemma_staging_plan_concat(a: Seq<BookItem>, b: Seq<BookItem>)
    ensures
        staging_plan(a + b) == staging_plan(a) + staging_plan(b),
    decreases a.len(),
{
    if a.len() == 0 {
        assert(a + b =~= b);
        assert(staging_plan(a) + staging_plan(b) =~= staging_plan(b));
    } else {
        lemma_staging_plan_concat(a.skip(1), b);
        assert((a + b).skip(1) =~= a.skip(1) + b);
        assert((a + b)[0] == a[0]);
        if item_renderable(a[0]) {
            assert(staging_plan(a + b) == seq![entry_of(a[0])] + (staging_plan(a.skip(1))
                + staging_plan(b)));
            assert(seq![entry_of(a[0])] + (staging_plan(a.skip(1)) + staging_plan(b)) =~= (seq![
                entry_of(a[0]),
            ] + staging_plan(a.skip(1))) + staging_plan(b));
        }
    }
}

/// Law — skip semantics: a spacer, or any item whose source path is empty,
/// produces no manifest entry (and hence no staging file), wherever in the
/// sequence it stands.
pub proof fn lemma_skip_semantics(a: Seq<BookItem>, x: BookItem, b: Seq<BookItem>)
    requires
        !item_renderable(x),
    ensures
        staging_plan(a + seq![x] + b) == staging_plan(a + b),
{
    lemma_staging_plan_concat(a + seq![x], b);
    lemma_staging_plan_concat(a, seq![x]);
    lemma_staging_plan_concat(a, b);
    assert(seq![x].skip(1) =~= Seq::<BookItem>::empty());
    assert(staging_plan(Seq::<BookItem>::empty()) == Seq::<PlanEntryView>::empty());
    assert(seq![x][0] == x);
    assert(staging_plan(seq![x]) == staging_plan(seq![x].skip(1)));
    assert(staging_plan(seq![x]) =~= Seq::<PlanEntryView>::empty());
    assert(staging_plan(a) + Seq::<PlanEntryView>::empty() =~= staging_plan(a));
}

/// Law — manifest ordering: the manifest holds exactly one entry per
/// renderable item; entry `j` is the entry of the `j`-th renderable
/// position; those positions are strictly increasing; and every renderable
/// position is listed. The manifest order is thus exactly the items' order.
pub proof fn lemma_manifest_ordering(items: Seq<BookItem>)
    ensures
        staging_plan(items).len() == renderable_count(items),
        renderable_indices(items).len() == renderable_count(items),
        forall|j: int|
            0 <= j < renderable_indices(items).len() ==> 0 <= #[trigger] renderable_indices(
                items,
            )[j] < items.len() && item_renderable(items[renderable_indices(items)[j]])
                && staging_plan(items)[j] == entry_of(items[renderable_indices(items)[j]]),
        forall|j1: int, j2: int|
            0 <= j1 < j2 < renderable_indices(items).len() ==> #[trigger] renderable_indices(
                items,
            )[j1] < #[trigger] renderable_indices(items)[j2],
        forall|i: int|
            0 <= i < items.len() && item_renderable(#[trigger] items[i]) ==> renderable_indices(
                items,
            ).contains(i),
    decreases items.len(),
{
    if items.len() == 0 {
    } else {
        lemma_manifest_ordering(items.skip(1));
        let rest = items.skip(1);
        let ri = renderable_indices(rest);
        let mapped = ri.map_values(|k: int| k + 1);
        let rp = staging_plan(rest);
        let indices = renderable_indices(items);
        let plan = staging_plan(items);
        assert forall|j: int| 0 <= j < indices.len() implies 0 <= #[trigger] indices[j]
            < items.len() && item_renderable(items[indices[j]]) && plan[j] == entry_of(
            items[indices[j]],
        ) by {
            if item_renderable(items[0]) {
                if j == 0 {
                    assert(indices[0] == 0);
                    assert(plan[0] == entry_of(items[0]));
                } else {
                    assert(indices[j] == mapped[j - 1]);
                    assert(mapped[j - 1] == ri[j - 1] + 1);
                    assert(rest[ri[j - 1]] == items[ri[j - 1] + 1]);
                    assert(plan[j] == rp[j - 1]);
                }
            } else {
                assert(indices[j] == mapped[j]);
                assert(mapped[j] == ri[j] + 1);
                assert(rest[ri[j]] == items[ri[j] + 1]);
                assert(plan[j] == rp[j]);
            }
        }
        assert forall|j1: int, j2: int| 0 <= j1 < j2 < indices.len() implies #[trigger] indices[j1]
            < #[trigger] indices[j2] by {
            if item_renderable(items[0]) {
                if j1 == 0 {
                    assert(indices[j1] == 0);
                    assert(indices[j2] == ri[j2 - 1] + 1);
                } else {
                    assert(indices[j1] == ri[j1 - 1] + 1);
                    assert(indices[j2] == ri[j2 - 1] + 1);
                }
            } else {
                assert(indices[j1] == ri[j1] + 1);
                assert(indices[j2] == ri[j2] + 1);
            }
        }
        assert forall|i: int|
            0 <= i < items.len() && item_renderable(#[trigger] items[i]) implies indices.contains(
            i,
        ) by {
            if i == 0 {
                assert(indices[0] == 0);
            } else {
                assert(rest[i - 1] == items[i]);
                assert(ri.contains(i - 1));
                let j = choose|j: int| 0 <= j < ri.len() && ri[j] == i - 1;
                assert(mapped[j] == i);
                if item_renderable(items[0]) {
                    assert(indices[j + 1] == i);
                } else {
                    assert(indices[j] == i);
                }
            }
        }
    }
}

/// Whether this item produces a staging entry: spacers and items with an
/// empty source path do not.
pub fn item_is_renderable(item: &BookItem) -> (r: bool)
    ensures
        r == item_renderable(*item),
{
    match item {
        BookItem::Chapter(_, ch) => !ch.path.as_str().is_empty(),
        BookItem::Affix(ch) => !ch.path.as_str().is_empty(),
        BookItem::Spacer => false,
    }
}

/// Traverses the items in order and builds the ordered staging manifest.
pub fn build_staging_plan(items: &Vec<BookItem>) -> (plan: Vec<PlanEntry>)
    requires
        sections_fit(items@),
    ensures
        plan@.map_values(|e: PlanEntry| e@) == staging_plan(items@),
{
    let ghost goal = staging_plan(items@);
    let mut plan: Vec<PlanEntry> = Vec::new();
    let mut i: usize = 0;
    proof {
        assert(items@.skip(0) =~= items@);
        assert(plan@.map_values(|e: PlanEntry| e@) =~= Seq::<PlanEntryView>::empty());
        assert(Seq::<PlanEntryView>::empty() + goal =~= goal);
    }
    while i < items.len()
        invariant
            0 <= i <= items@.len(),
            sections_fit(items@),
            goal == staging_plan(items@),
            goal == plan@.map_values(|e: PlanEntry| e@) + staging_plan(items@.skip(i as int)),
        decreases items@.len() - i,
    {
        let ghost rest = items@.skip(i as int);
        proof {
            assert(rest.len() > 0);
            assert(rest[0] == items@[i as int]);
            assert(rest.skip(1) =~= items@.skip(i + 1));
            assert(section_fits(items@[i as int]));
        }
        let item = &items[i];
        let renderable = item_is_renderable(item);
        if renderable {
            let entry = match item {
                BookItem::Chapter(section, ch) => {
                    let d = section_depth(section.as_str());
                    PlanEntry { source_rel: ch.path.clone(), title: ch.name.clone(), depth: d }
                },
                BookItem::Affix(ch) => {
                    PlanEntry { source_rel: ch.path.clone(), title: ch.name.clone(), depth: 0 }
                },
                BookItem::Spacer => {
                    PlanEntry { source_rel: String::new(), title: String::new(), depth: 0 }
                },
            };
            proof {
                assert(entry@ == entry_of(items@[i as int]));
                assert(staging_plan(rest) == seq![entry_of(rest[0])] + staging_plan(rest.skip(1)));
            }
            let ghost before = plan@;
            plan.push(entry);
            proof {
                assert(plan@.map_values(|e: PlanEntry| e@) =~= before.map_values(
                    |e: PlanEntry| e@,
                ) + seq![entry_of(items@[i as int])]);
                assert(before.map_values(|e: PlanEntry| e@) + (seq![entry_of(items@[i as int])]
                    + staging_plan(items@.skip(i + 1))) =~= plan@.map_values(|e: PlanEntry| e@)
                    + staging_plan(items@.skip(i + 1)));
            }
        } else {
            proof {
                assert(staging_plan(rest) == staging_plan(rest.skip(1)));
            }
        }
        i = i + 1;
    }
    proof {
        assert(items@.skip(items@.len() as int) =~= Seq::<BookItem>::empty());
        assert(staging_plan(items@.skip(items@.len() as int)) =~= Seq::<PlanEntryView>::empty());
        assert(plan@.map_values(|e: PlanEntry| e@) + Seq::<PlanEntryView>::empty() =~= plan@
            .map_values(|e: PlanEntry| e@));
    }
    plan
}

} // verus!
