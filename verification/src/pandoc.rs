//! The external-conversion back-end: computes, from the book alone, the
//! complete build plan — what to stage, what to write, and the single
//! converter invocation over the ordered manifest. The caller carries the
//! plan out and feeds the converter's completion back through
//! `converter_outcome`.

use vstd::prelude::*;
use crate::assets::AssetCopy;
use crate::assets::FileWrite;
use crate::assets::additional_asset_plan;
use crate::assets::asset_copy_plan;
use crate::assets::static_file_writes;
use crate::assets::static_write_plan;
use crate::assets::style_reference_list;
use crate::assets::style_references;
use crate::book::MDBook;
use crate::book::Theme;
use crate::command::build_invocation;
use crate::command::invocation;
use crate::manifest::PlanEntry;
use crate::manifest::PlanEntryView;
use crate::manifest::build_staging_plan;
use crate::manifest::sections_fit;
use crate::manifest::staging_plan;

verus! {

/// The back-end that delegates formatting to the external converter.
/// Carries only the output format the artifact is produced in.
#[derive(Debug, Clone)]
pub struct PandocRenderer {
    pub format: String,
}

/// Everything one build does, computed up front: the staging work in
/// manifest order, the fixed theme-asset writes, the user-asset copies, the
/// stylesheet references, and the converter's argument vector.
#[derive(Debug, Clone)]
pub struct BuildPlan {
    pub entries: Vec<PlanEntry>,
    pub static_writes: Vec<FileWrite>,
    pub asset_copies: Vec<AssetCopy>,
    pub style_refs: Vec<String>,
    pub argv: Vec<String>,
}

/// What a correctly computed plan looks like for the given inputs: each
/// part equals its specification.
pub open spec fn plan_matches(
    plan: BuildPlan,
    format: Seq<char>,
    book: MDBook,
    theme: Theme,
    staging_root: Seq<char>,
) -> bool {
    &&& plan.entries@.map_values(|e: PlanEntry| e@) == staging_plan(book.items@)
    &&& plan.static_writes@.map_values(|w: FileWrite| w@) == static_write_plan(theme)
    &&& plan.asset_copies@.map_values(|a: AssetCopy| a@) == asset_copy_plan(
        book.root@,
        book.additional_css.deep_view(),
    ) + asset_copy_plan(book.root@, book.additional_js.deep_view())
    &&& plan.style_refs.deep_view() == style_references(book.additional_css.deep_view())
    &&& plan.argv.deep_view() == invocation(
        book.destination@,
        staging_root,
        format,
        style_references(book.additional_css.deep_view()),
        staging_plan(book.items@).map_values(|e: PlanEntryView| e.source_rel),
    )
}

impl PandocRenderer {
    /// A fresh back-end producing the default HTML-family format.
    pub fn new() -> (r: Self)
        ensures
            r.format@ == "html"@,
    {
        PandocRenderer { format: "html".to_owned() }
    }

    /// Selects the output format the artifact is produced in.
    pub fn set_format(&mut self, format: &str)
        ensures
            final (self).format@ == format@,
    {
        self.format = format.to_owned();
    }

    /// Computes the complete build plan for `book` with the given theme and
    /// staging root: the ordered staging manifest, the theme and user asset
    /// work, and the converter invocation.
    pub fn plan(&self, book: &MDBook, theme: &Theme, staging_root: &str) -> (plan: BuildPlan)
        requires
            sections_fit(book.items@),
        ensures
            plan_matches(plan, self.format@, *book, *theme, staging_root@),
    {
        let entries = build_staging_plan(&book.items);
        let static_writes = static_file_writes(theme);
        let mut asset_copies = additional_asset_plan(book.root.as_str(), &book.additional_css);
        let mut js_copies = additional_asset_plan(book.root.as_str(), &book.additional_js);
        let ghost css_part = asset_copies@;
        let ghost js_part = js_copies@;
        asset_copies.append(&mut js_copies);
        proof {
            assert(asset_copies@.map_values(|a: AssetCopy| a@) =~= css_part.map_values(
                |a: AssetCopy| a@,
            ) + js_part.map_values(|a: AssetCopy| a@));
        }
        let style_refs = style_reference_list(&book.additional_css);
        let mut sources_rel: Vec<String> = Vec::new();
        let ghost rel_of = |e: PlanEntry| e@.source_rel;
        proof {
            assert(sources_rel.deep_view() =~= entries@.take(0).map_values(rel_of));
        }
        let mut k: usize = 0;
        while k < entries.len()
            invariant
                0 <= k <= entries@.len(),
                rel_of == (|e: PlanEntry| e@.source_rel),
                sources_rel.deep_view() == entries@.take(k as int).map_values(rel_of),
            decreases entries@.len() - k,
        {
            let ghost before = sources_rel.deep_view();
            sources_rel.push(entries[k].source_rel.clone());
            proof {
                assert(sources_rel.deep_view() =~= before + seq![rel_of(entries@[k as int])]);
                assert(entries@.take(k as int).map_values(rel_of) + seq![
                    rel_of(entries@[k as int]),
                ] =~= entries@.take(k + 1).map_values(rel_of));
            }
            k = k + 1;
        }
        proof {
            assert(entries@.take(entries@.len() as int) =~= entries@);
            assert(entries@.map_values(rel_of) =~= entries@.map_values(
                |e: PlanEntry| e@,
            ).map_values(|v: PlanEntryView| v.source_rel));
        }
        let argv = build_invocation(
            book.destination.as_str(),
            staging_root,
            self.format.as_str(),
            &style_refs,
            &sources_rel,
        );
        BuildPlan { entries, static_writes, asset_copies, style_refs, argv }
    }
}

/// Law — idempotence: the plan is a function of the book, theme, format and
/// staging root alone. Two plans computed from the same inputs agree in
/// every part; and since every staged file's bytes are pinned to
/// `normalized` of its entry, rebuilding unchanged input stages
/// byte-identical files and issues an identical converter invocation.
pub proof fn lemma_build_idempotent(
    first: BuildPlan,
    second: BuildPlan,
    format: Seq<char>,
    book: MDBook,
    theme: Theme,
    staging_root: Seq<char>,
)
    requires
        plan_matches(first, format, book, theme, staging_root),
        plan_matches(second, format, book, theme, staging_root),
    ensures
        first.entries@.map_values(|e: PlanEntry| e@) == second.entries@.map_values(|e: PlanEntry| e@),
        first.static_writes@.map_values(|w: FileWrite| w@) == second.static_writes@.map_values(
            |w: FileWrite| w@,
        ),
        first.asset_copies@.map_values(|a: AssetCopy| a@) == second.asset_copies@.map_values(
            |a: AssetCopy| a@,
        ),
        first.style_refs.deep_view() == second.style_refs.deep_view(),
        first.argv.deep_view() == second.argv.deep_view(),
{
}

} // verus!
