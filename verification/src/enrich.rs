//! The per-item enrichment step of the orchestrator.
//!
//! For one incomplete record, enrichment resolves description, category and
//! geo in that order. The external lookups themselves happen elsewhere; this
//! module decides which calls are needed (`plan_enrichment`) and merges
//! whatever the collaborators answered back into the record
//! (`apply_enrichment`), filling only gaps, validating classifier answers,
//! and never overwriting a value already present.

use vstd::prelude::*;

use crate::classify::accept_label;
use crate::classify::accepted_label;
use crate::classify::names_of;
use crate::classify::lower_of;
use crate::records::ChannelData;
use crate::records::opt_text;

verus! {

/// The view of a channel record: every text field read as its character
/// sequence.
#[verifier::ext_equal]
pub ghost struct ChannelView {
    pub id: i64,
    pub title: Option<Seq<char>>,
    pub username: Seq<char>,
    pub photo_element: Option<Seq<char>>,
    pub category: Option<Seq<char>>,
    pub description: Option<Seq<char>>,
    pub subscribers: Option<i64>,
    pub geo: Option<Seq<char>>,
}

impl View for ChannelData {
    type V = ChannelView;

    open spec fn view(&self) -> ChannelView {
        ChannelView {
            id: self.id,
            title: opt_text(self.title),
            username: self.username@,
            photo_element: opt_text(self.photo_element),
            category: opt_text(self.category),
            description: opt_text(self.description),
            subscribers: self.subscribers,
            geo: opt_text(self.geo),
        }
    }
}

/// Completeness at the view level: category, description and geo present.
pub open spec fn complete_view(v: ChannelView) -> bool {
    &&& v.category is Some
    &&& v.description is Some
    &&& v.geo is Some
}

/// Which external calls one record still needs.
#[derive(Debug, PartialEq, Eq, Structural)]
pub struct EnrichPlan {
    pub need_description: bool,
    pub need_category: bool,
    pub need_geo: bool,
}

/// The plan for a record: a call for each absent field.
pub open spec fn plan_of(v: ChannelView) -> EnrichPlan {
    EnrichPlan {
        need_description: v.description is None,
        need_category: v.category is None,
        need_geo: v.geo is None,
    }
}

/// Decides which external calls this record needs.
pub fn plan_enrichment(c: &ChannelData) -> (p: EnrichPlan)
    ensures
        p == plan_of(c@),
{
    EnrichPlan {
        need_description: c.description.is_none(),
        need_category: c.category.is_none(),
        need_geo: c.geo.is_none(),
    }
}

/// What the external collaborators answered for one record, as plain
/// values. `description` is the fetched profile description (`None` when
/// the lookup failed or was skipped); `category_raw` and `geo_raw` are the
/// raw classifier answers (`None` when the call failed, the classifier is
/// not configured, or the field needed no call).
#[derive(Debug)]
pub struct EnrichOutcomes {
    pub description: Option<String>,
    pub category_raw: Option<String>,
    pub geo_raw: Option<String>,
}

/// The record view after one enrichment pass: gaps are filled from the
/// outcomes — the description verbatim, the labels only after validation —
/// and fields already present stay exactly as they were.
pub open spec fn enriched_view(
    pre: ChannelView,
    desc: Option<Seq<char>>,
    cat_raw: Option<Seq<char>>,
    geo_raw: Option<Seq<char>>,
    cats: Seq<Seq<char>>,
    geos: Seq<Seq<char>>,
) -> ChannelView {
    ChannelView {
        description: if pre.description is Some {
            pre.description
        } else {
            desc
        },
        category: if pre.category is Some {
            pre.category
        } else {
            accepted_label(cat_raw, cats)
        },
        geo: if pre.geo is Some {
            pre.geo
        } else {
            accepted_label(geo_raw, geos)
        },
        ..pre
    }
}

/// Merges the collaborators' answers into the record: description, then
/// category, then geo; only absent fields change, and a label is stored
/// only when it validates against its candidate set.
pub fn apply_enrichment(
    c: &mut ChannelData,
    outcomes: EnrichOutcomes,
    categories: &Vec<String>,
    geos: &Vec<String>,
)
    ensures
        final(c)@ == enriched_view(
            old(c)@,
            opt_text(outcomes.description),
            opt_text(outcomes.category_raw),
            opt_text(outcomes.geo_raw),
            names_of(categories@),
            names_of(geos@),
        ),
{
    let EnrichOutcomes { description, category_raw, geo_raw } = outcomes;
    if c.description.is_none() {
        c.description = description;
    }
    if c.category.is_none() {
        match &category_raw {
            Some(raw) => {
                c.category = accept_label(raw.as_str(), categories);
            },
            None => {},
        }
    }
    if c.geo.is_none() {
        match &geo_raw {
            Some(raw) => {
                c.geo = accept_label(raw.as_str(), geos);
            },
            None => {},
        }
    }
}

/// An optional text, or nothing.
pub open spec fn opt_or_empty(o: Option<Seq<char>>) -> Seq<char> {
    match o {
        Some(s) => s,
        None => Seq::empty(),
    }
}

/// The text blob a record is classified by: its title and its description,
/// separated by one space, absent fields reading as empty.
pub open spec fn text_blob(v: ChannelView) -> Seq<char> {
    opt_or_empty(v.title) + " "@ + opt_or_empty(v.description)
}

/// Builds the classification text of a record.
pub fn classification_text(c: &ChannelData) -> (r: String)
    ensures
        r@ == text_blob(c@),
{
    let mut out = String::new();
    match &c.title {
        Some(t) => out.append(t.as_str()),
        None => {},
    }
    out.append(" ");
    match &c.description {
        Some(d) => out.append(d.as_str()),
        None => {},
    }
    proof {
        assert(out@ =~= text_blob(c@));
    }
    out
}

/// Enrichment is idempotent: running the same pass twice, with the external
/// collaborators answering the same, changes nothing the second time.
pub proof fn lemma_enrichment_idempotent(
    pre: ChannelView,
    desc: Option<Seq<char>>,
    cat_raw: Option<Seq<char>>,
    geo_raw: Option<Seq<char>>,
    cats: Seq<Seq<char>>,
    geos: Seq<Seq<char>>,
)
    ensures
        enriched_view(
            enriched_view(pre, desc, cat_raw, geo_raw, cats, geos),
            desc,
            cat_raw,
            geo_raw,
            cats,
            geos,
        ) == enriched_view(pre, desc, cat_raw, geo_raw, cats, geos),
{
}

/// A complete record needs no external call at all.
pub proof fn lemma_complete_needs_nothing(v: ChannelView)
    requires
        complete_view(v),
    ensures
        plan_of(v) == (EnrichPlan {
            need_description: false,
            need_category: false,
            need_geo: false,
        }),
{
}

/// Field preservation: enrichment never overwrites a label or description
/// that is already present, whatever the collaborators answer.
pub proof fn lemma_field_preservation(
    pre: ChannelView,
    desc: Option<Seq<char>>,
    cat_raw: Option<Seq<char>>,
    geo_raw: Option<Seq<char>>,
    cats: Seq<Seq<char>>,
    geos: Seq<Seq<char>>,
)
    ensures
        pre.category is Some ==> enriched_view(
            pre,
            desc,
            cat_raw,
            geo_raw,
            cats,
            geos,
        ).category == pre.category,
        pre.description is Some ==> enriched_view(
            pre,
            desc,
            cat_raw,
            geo_raw,
            cats,
            geos,
        ).description == pre.description,
        pre.geo is Some ==> enriched_view(pre, desc, cat_raw, geo_raw, cats, geos).geo
            == pre.geo,
{
}

/// A label field holds the case-folded form of some configured candidate,
/// or nothing.
pub open spec fn label_valid(l: Option<Seq<char>>, candidates: Seq<Seq<char>>) -> bool {
    match l {
        Some(label) => exists|i: int|
            0 <= i < candidates.len() && lower_of(candidates[i]) == label,
        None => true,
    }
}

/// Both label fields of a record are valid against their candidate sets.
pub open spec fn labels_valid(v: ChannelView, cats: Seq<Seq<char>>, geos: Seq<Seq<char>>) -> bool {
    label_valid(v.category, cats) && label_valid(v.geo, geos)
}

/// Label validity: a record whose labels are valid keeps valid labels
/// through enrichment — a stored label is always the case-folded form of a
/// configured candidate, never an arbitrary classifier answer.
pub proof fn lemma_label_validity(
    pre: ChannelView,
    desc: Option<Seq<char>>,
    cat_raw: Option<Seq<char>>,
    geo_raw: Option<Seq<char>>,
    cats: Seq<Seq<char>>,
    geos: Seq<Seq<char>>,
)
    requires
        labels_valid(pre, cats, geos),
    ensures
        labels_valid(enriched_view(pre, desc, cat_raw, geo_raw, cats, geos), cats, geos),
{
}

/// Partial-failure tolerance: when the classifier validates for category
/// but fails (or answers invalidly) for geo, the enriched record carries
/// the category and leaves geo absent.
pub proof fn lemma_partial_failure(
    pre: ChannelView,
    desc: Option<Seq<char>>,
    cat_raw: Option<Seq<char>>,
    geo_raw: Option<Seq<char>>,
    cats: Seq<Seq<char>>,
    geos: Seq<Seq<char>>,
)
    requires
        pre.category is None,
        pre.geo is None,
        accepted_label(cat_raw, cats) is Some,
        accepted_label(geo_raw, geos) is None,
    ensures
        enriched_view(pre, desc, cat_raw, geo_raw, cats, geos).category is Some,
        enriched_view(pre, desc, cat_raw, geo_raw, cats, geos).geo is None,
{
}

} // verus!
