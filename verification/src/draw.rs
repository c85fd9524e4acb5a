//! Drawing a finding's snippets and patches with the `annotate-snippets`
//! renderer, in its plain Unicode style.
use vstd::prelude::*;
use annotate_snippets::level::{ERROR, INFO, WARNING};
use annotate_snippets::renderer::DecorStyle;
use annotate_snippets::AnnotationKind::{Context, Primary};
use annotate_snippets::{Group, Patch, Renderer, Snippet};
use crate::report::Severity;
use crate::fix::utf8;
use crate::text_report::{
    drawable_span, group_v, patch_edit_v, GroupView, PatchEdit, PatchEditView, PatchGroup, RenderedSnippetGroup,
};

verus! {

/// A group of `annotate-snippets` (a title and the snippets under it); opaque here.
#[verifier::external_type_specification]
#[verifier::external_body]
pub struct ExGroup<'a>(Group<'a>);

/// The group built for a finding's message: titled `title` at the level of
/// `severity`, with one snippet per group of labels.
pub uninterp spec fn titled_group(severity: Severity, title: Seq<char>, groups: Seq<GroupView>) -> Group<'static>;

/// The group built for a suggested fix: titled `title` at the level of
/// `severity`, with one patched snippet per edit.
pub uninterp spec fn suggestion_group(severity: Severity, title: Seq<char>, edits: Seq<PatchEditView>) -> Group<'static>;

/// The text the renderer draws for `groups`, together.
pub uninterp spec fn rendered_groups(groups: Seq<Group<'static>>) -> Seq<char>;

/// Builds the primary group of `annotate-snippets` for a finding: the level
/// follows `severity` (`INFO`, `WARNING`, `ERROR`), the title is a primary
/// title, each group of labels a `Snippet` of its source with its display
/// path, a primary label a primary annotation and a secondary one a context
/// annotation over its byte range. The group is named by `titled_group` of
/// those values.
#[verifier::external_body]
pub(crate) fn title_group(severity: Severity, title: &str, groups: &Vec<RenderedSnippetGroup>) -> (r: Group<'static>)
    ensures
        r == titled_group(severity, title@, groups@.map_values(|g: RenderedSnippetGroup| group_v(g))),
{
    let l = [INFO, WARNING, ERROR][severity as usize].clone();
    l.primary_title(title.to_string()).elements(groups.iter().map(|g| {
        Snippet::source(g.source.clone()).path(g.display_path.clone()).annotations(g.labels.iter().map(|a| {
            [Primary, Context][a.kind as usize].span(a.start..a.end).label(a.message.clone())
        }))
    }))
}

/// Builds a secondary group of `annotate-snippets` for a suggested fix: the
/// level follows `severity`, the title is a secondary title, each edit a
/// `Snippet` of its source with its display path and a `Patch` of its byte
/// range. The group is named by `suggestion_group` of those values.
#[verifier::external_body]
pub(crate) fn patch_group(severity: Severity, patch: &PatchGroup) -> (r: Group<'static>)
    ensures
        r == suggestion_group(severity, patch.title@, patch.edits@.map_values(|e: PatchEdit| patch_edit_v(e))),
{
    let l = [INFO, WARNING, ERROR][severity as usize].clone();
    l.secondary_title(patch.title.clone()).elements(patch.edits.iter().map(|e| {
        Snippet::source(e.source.clone()).path(e.display_path.clone()).patch(Patch::new(e.start..e.end, e.replacement.clone()))
    }))
}

/// Every label of every snippet group lies where the renderer can draw it.
pub open spec fn groups_drawable(gs: Seq<GroupView>) -> bool {
    forall|i: int, j: int|
        0 <= i < gs.len() && 0 <= j < gs[i].2.len() ==> drawable_span(
            utf8(gs[i].0),
            #[trigger] gs[i].2[j].1,
            gs[i].2[j].2,
        )
}

/// Every patch edit lies where the renderer can draw it.
pub open spec fn edits_drawable(es: Seq<PatchEditView>) -> bool {
    forall|i: int| 0 <= i < es.len() ==> drawable_span(utf8(#[trigger] es[i].0), es[i].2, es[i].3)
}

/// A group built by `title_group` or `patch_group` from spans that can be drawn.
pub open spec fn drawable_group(g: Group<'static>) -> bool {
    (exists|severity: Severity, title: Seq<char>, gs: Seq<GroupView>|
        g == titled_group(severity, title, gs) && groups_drawable(gs)) || (exists|
        severity: Severity,
        title: Seq<char>,
        es: Seq<PatchEditView>,
    | g == suggestion_group(severity, title, es) && edits_drawable(es))
}

/// `Renderer::render` of `annotate-snippets`, plain with Unicode decorations,
/// on `groups` together. The drawn text is named by `rendered_groups`. The
/// renderer panics on a span past one beyond the end of its source or not on
/// a character boundary, so every group must be built from drawable spans.
#[verifier::external_body]
pub(crate) fn render_groups(groups: &Vec<Group<'static>>) -> (r: String)
    requires
        forall|i: int| 0 <= i < groups@.len() ==> drawable_group(#[trigger] groups@[i]),
    ensures
        r@ == rendered_groups(groups@),
{
    Renderer::plain().decor_style(DecorStyle::Unicode).render(groups)
}

} // verus!
