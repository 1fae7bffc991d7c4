//! What holds of every render.

use vstd::prelude::*;
use vstd::string::*;
use crate::collection::{
    chain_in, recipe_in, Chain, ChainSource, Recipe, Section, TriggerPolicy,
};
use crate::exchange::{Answer, CauseView, FailureView, OutcomeView, StepView};
use crate::render::{
    answer_at, build, fail, fresh, pairs, render_from, render_spec, request_value, resolve,
    resolve_chain, section_flow, source_value, Flow, Halt, Scope,
};
use crate::template::{KeyRef, Segment, Template};
use crate::text::utf8;
use crate::trigger::TriggerError;

verus! {

/// No segment from `i` on is a reference.
pub open spec fn literal_from(segments: Seq<Segment>, i: int) -> bool {
    forall|j: int| i <= j < segments.len() ==> (#[trigger] segments[j]) is Literal
}

/// The literal text of the segments from `i` on, joined.
pub open spec fn literal_text(segments: Seq<Segment>, i: int) -> Seq<u8>
    decreases segments.len() - i,
{
    if i < 0 || i >= segments.len() {
        Seq::empty()
    } else {
        match segments[i] {
            Segment::Literal(text) => utf8(text@) + literal_text(segments, i + 1),
            Segment::Key(_) => literal_text(segments, i + 1),
        }
    }
}

/// Every reference from `i` on names a chain that has an override.
pub open spec fn overridden_from(
    overrides: Map<Seq<char>, Seq<char>>,
    segments: Seq<Segment>,
    i: int,
) -> bool {
    forall|j: int|
        i <= j < segments.len() ==> ((#[trigger] segments[j]) matches Segment::Key(k)
            ==> overrides.dom().contains(k.chain@))
}

/// The segments from `i` on with each reference replaced by its override.
pub open spec fn overridden_text(
    overrides: Map<Seq<char>, Seq<char>>,
    segments: Seq<Segment>,
    i: int,
) -> Seq<u8>
    decreases segments.len() - i,
{
    if i < 0 || i >= segments.len() {
        Seq::empty()
    } else {
        match segments[i] {
            Segment::Literal(text) => utf8(text@) + overridden_text(overrides, segments, i + 1),
            Segment::Key(k) => utf8(overrides[k.chain@]) + overridden_text(
                overrides,
                segments,
                i + 1,
            ),
        }
    }
}

proof fn lemma_overridden_from(sc: Scope, segments: Seq<Segment>, i: int, pos: int, depth: nat)
    requires
        0 <= i,
        overridden_from(sc.overrides, segments, i),
    ensures
        render_from(sc, segments, i, pos, depth) == (Flow::Next {
            value: overridden_text(sc.overrides, segments, i),
            pos,
        }),
    decreases segments.len() - i,
{
    if i < segments.len() {
        lemma_overridden_from(sc, segments, i + 1, pos, depth);
        assert(segments[i] is Literal || segments[i] is Key);
    }
}

proof fn lemma_literal_text(overrides: Map<Seq<char>, Seq<char>>, segments: Seq<Segment>, i: int)
    requires
        0 <= i,
        literal_from(segments, i),
    ensures
        overridden_from(overrides, segments, i),
        overridden_text(overrides, segments, i) == literal_text(segments, i),
    decreases segments.len() - i,
{
    if i < segments.len() {
        lemma_literal_text(overrides, segments, i + 1);
        assert(segments[i] is Literal);
    }
    assert forall|j: int| i <= j < segments.len() implies ((#[trigger] segments[j]) matches Segment::Key(
        k,
    ) ==> overrides.dom().contains(k.chain@)) by {
        assert(segments[j] is Literal);
    }
}

/// A template without references renders to its literal text, whatever the
/// collection, the overrides and the answers are. Nothing is asked of the
/// outside world: the render is done, not pending.
pub proof fn lemma_literal_template(sc: Scope, template: Template, depth: nat)
    requires
        literal_from(template.segments@, 0),
    ensures
        render_spec(sc, template, depth) == OutcomeView::Done(literal_text(template.segments@, 0)),
{
    lemma_literal_text(sc.overrides, template.segments@, 0);
    lemma_overridden_from(sc, template.segments@, 0, 0, depth);
}

/// Where every reference of a template has an override, the render is done
/// with the overrides in place of the references. No chain is looked up or
/// resolved, so it does not matter whether a chain exists, whether its
/// source would fail, or how many chains are open already.
pub proof fn lemma_overrides_bypass(sc: Scope, template: Template, depth: nat)
    requires
        overridden_from(sc.overrides, template.segments@, 0),
    ensures
        render_spec(sc, template, depth) == OutcomeView::Done(
            overridden_text(sc.overrides, template.segments@, 0),
        ),
{
    lemma_overridden_from(sc, template.segments@, 0, 0, depth);
}

/// A chain that would be opened beyond the maximum depth fails with
/// `RecursionLimit`, and nothing is asked of the outside world for it.
pub proof fn lemma_depth_bound(sc: Scope, chain: Chain, path: Seq<String>, pos: int, depth: nat)
    requires
        depth >= sc.max_depth,
    ensures
        resolve_chain(sc, chain, path, pos, depth) == Flow::<Seq<u8>>::Halt(
            Halt::Failed(
                FailureView {
                    trail: seq![StepView::Chain(chain.id@)],
                    cause: CauseView::RecursionLimit,
                },
            ),
        ),
{
    assert(seq![StepView::Chain(chain.id@)] + Seq::<StepView>::empty() =~= seq![
        StepView::Chain(chain.id@),
    ]);
}

/// The cause of a halt that is a failure.
pub open spec fn fails_with<T>(flow: Flow<T>, cause: CauseView) -> bool {
    flow matches Flow::Halt(Halt::Failed(f)) && f.cause == cause
}

/// The chain's request is always sent, and the URL of its recipe starts
/// with a reference to a chain of `ids`.
pub open spec fn leads_into(sc: Scope, chain: Chain, ids: Set<Seq<char>>) -> bool {
    chain.source matches ChainSource::Request { recipe, trigger, section } && trigger is Always
        && (recipe_in(sc.recipes, recipe@) matches Some(r) && r.url.segments@.len() > 0 && (
        r.url.segments@[0] matches Segment::Key(k) && ids.contains(k.chain@)))
}

/// Every id of `ids` names a chain without an override that leads into
/// `ids` again: following the references never leaves the set.
pub open spec fn is_cycle(sc: Scope, ids: Set<Seq<char>>) -> bool {
    forall|id: Seq<char>| #[trigger]
        ids.contains(id) ==> !sc.overrides.dom().contains(id) && (chain_in(sc.chains, id) matches Some(
            c,
        ) && leads_into(sc, c, ids))
}

/// A chain that refers to itself, directly or through any number of other
/// chains and their recipes, never has a value: for every maximum depth and
/// whatever the answers are, resolving it fails with `RecursionLimit`, and
/// nothing is asked of the outside world on the way.
pub proof fn lemma_cycle_hits_limit(
    sc: Scope,
    ids: Set<Seq<char>>,
    chain: Chain,
    path: Seq<String>,
    pos: int,
    depth: nat,
)
    requires
        is_cycle(sc, ids),
        leads_into(sc, chain, ids),
    ensures
        fails_with(resolve_chain(sc, chain, path, pos, depth), CauseView::RecursionLimit),
    decreases sc.max_depth - depth,
{
    if depth < sc.max_depth {
        match chain.source {
            ChainSource::Request { recipe, trigger, section } => {
                let r = recipe_in(sc.recipes, recipe@).unwrap();
                let d = (depth + 1) as nat;
                match r.url.segments@[0] {
                    Segment::Key(key) => {
                        assert(ids.contains(key.chain@));
                        let next = chain_in(sc.chains, key.chain@).unwrap();
                        lemma_cycle_hits_limit(sc, ids, next, key.path@, pos, d);
                        let inner = resolve(sc, key, pos, d);
                        assert(inner == resolve_chain(sc, next, key.path@, pos, d));
                        assert(fails_with(inner, CauseView::RecursionLimit));
                        let url = render_from(sc, r.url.segments@, 0, pos, d);
                        assert(url == inner);
                        assert(fails_with(build(sc, r, pos, d), CauseView::RecursionLimit));
                        assert(fails_with(
                            fresh(sc, recipe, section, pos, d),
                            CauseView::RecursionLimit,
                        ));
                        assert(fails_with(
                            request_value(sc, recipe, trigger, section, pos, d),
                            CauseView::RecursionLimit,
                        ));
                        assert(fails_with(
                            source_value(sc, chain, pos, d),
                            CauseView::RecursionLimit,
                        ));
                    },
                    Segment::Literal(_) => {},
                }
            },
            _ => {},
        }
    }
}

/// The special case of a chain whose recipe's URL starts with a reference
/// to the chain itself.
pub proof fn lemma_self_reference(sc: Scope, chain: Chain, path: Seq<String>, pos: int, depth: nat)
    requires
        chain_in(sc.chains, chain.id@) == Some(chain),
        !sc.overrides.dom().contains(chain.id@),
        leads_into(sc, chain, set![chain.id@]),
    ensures
        fails_with(resolve_chain(sc, chain, path, pos, depth), CauseView::RecursionLimit),
{
    lemma_cycle_hits_limit(sc, set![chain.id@], chain, path, pos, depth);
}

/// Under `Never`, a lookup that finds nothing on record ends the chain with
/// `NoHistory`.
pub proof fn lemma_never_without_history(
    sc: Scope,
    recipe: String,
    section: Section,
    pos: int,
    depth: nat,
    now: i64,
)
    requires
        answer_at(sc, pos) == Some(Answer::Latest { record: None, now }),
    ensures
        request_value(sc, recipe, TriggerPolicy::Never, section, pos, depth) == Flow::<
            Seq<u8>,
        >::Halt(fail(CauseView::Trigger(TriggerError::NoHistory))),
{
}

/// Under `Never`, whatever the answers are, no request is sent and no
/// record is stored: the chain never waits for either.
pub proof fn lemma_never_sends(sc: Scope, recipe: String, section: Section, pos: int, depth: nat)
    ensures
        !(request_value(sc, recipe, TriggerPolicy::Never, section, pos, depth) matches Flow::Halt(
            Halt::Pending(a),
        ) && (a is Send || a is Store)),
{
}

/// Under `Expire(d)`, a response on record that was started less than `d`
/// seconds before the lookup is the chain's source, and nothing is sent; an
/// older one is passed over for a fresh exchange.
pub proof fn lemma_expire_reuses(
    sc: Scope,
    recipe: String,
    seconds: u64,
    section: Section,
    pos: int,
    depth: nat,
    record: crate::http::RequestRecord,
    now: i64,
)
    requires
        answer_at(sc, pos) == Some(Answer::Latest { record: Some(record), now }),
    ensures
        now - record.start_time < seconds * 1000 ==> request_value(
            sc,
            recipe,
            TriggerPolicy::Expire(seconds),
            section,
            pos,
            depth,
        ) == section_flow(record.response, section, pos + 1),
        now - record.start_time >= seconds * 1000 ==> request_value(
            sc,
            recipe,
            TriggerPolicy::Expire(seconds),
            section,
            pos,
            depth,
        ) == fresh(sc, recipe, section, pos + 1, depth),
{
}

/// The same chain with the other sensitivity.
pub open spec fn with_sensitivity(chain: Chain, sensitive: bool) -> Chain {
    Chain {
        id: chain.id,
        source: chain.source,
        sensitive,
        selector: chain.selector,
        content_type: chain.content_type,
        trim: chain.trim,
    }
}

/// Whether a chain is sensitive has no bearing on its value, on the failure
/// it ends in, or on what it asks of the outside world.
pub proof fn lemma_sensitive_same_value(
    sc: Scope,
    chain: Chain,
    sensitive: bool,
    path: Seq<String>,
    pos: int,
    depth: nat,
)
    ensures
        resolve_chain(sc, with_sensitivity(chain, sensitive), path, pos, depth) == resolve_chain(
            sc,
            chain,
            path,
            pos,
            depth,
        ),
{
    let other = with_sensitivity(chain, sensitive);
    if depth < sc.max_depth {
        let d = (depth + 1) as nat;
        assert(source_value(sc, other, pos, d) == source_value(sc, chain, pos, d));
    }
}

/// The same scope with further answers behind those given.
pub open spec fn extended(sc: Scope, more: Seq<Answer>) -> Scope {
    Scope {
        chains: sc.chains,
        recipes: sc.recipes,
        profile: sc.profile,
        overrides: sc.overrides,
        answers: sc.answers + more,
        max_depth: sc.max_depth,
        seed: sc.seed,
    }
}

/// The flow has a value or has failed: it does not wait for an answer.
pub open spec fn settled<T>(flow: Flow<T>) -> bool {
    !(flow matches Flow::Halt(Halt::Pending(_)))
}

proof fn lemma_answer_kept(sc: Scope, more: Seq<Answer>, pos: int)
    ensures
        answer_at(sc, pos) is Some ==> answer_at(extended(sc, more), pos) == answer_at(sc, pos),
{
}

proof fn lemma_settled_render_from(
    sc: Scope,
    more: Seq<Answer>,
    segments: Seq<Segment>,
    i: int,
    pos: int,
    depth: nat,
)
    ensures
        settled(render_from(sc, segments, i, pos, depth)) ==> render_from(
            extended(sc, more),
            segments,
            i,
            pos,
            depth,
        ) == render_from(sc, segments, i, pos, depth),
    decreases sc.max_depth - depth, 2nat, segments.len() - i,
{
    if 0 <= i < segments.len() {
        match segments[i] {
            Segment::Literal(text) => {
                lemma_settled_render_from(sc, more, segments, i + 1, pos, depth);
            },
            Segment::Key(key) => {
                if sc.overrides.dom().contains(key.chain@) {
                    lemma_settled_render_from(sc, more, segments, i + 1, pos, depth);
                } else {
                    lemma_settled_resolve(sc, more, key, pos, depth);
                    match resolve(sc, key, pos, depth) {
                        Flow::Next { value, pos: p } => {
                            lemma_settled_render_from(sc, more, segments, i + 1, p, depth);
                        },
                        Flow::Halt(_) => {},
                    }
                }
            },
        }
    }
}

proof fn lemma_settled_resolve(
    sc: Scope,
    more: Seq<Answer>,
    key: KeyRef,
    pos: int,
    depth: nat,
)
    ensures
        settled(resolve(sc, key, pos, depth)) ==> resolve(extended(sc, more), key, pos, depth)
            == resolve(sc, key, pos, depth),
    decreases sc.max_depth - depth, 1nat, 0nat,
{
    match chain_in(sc.chains, key.chain@) {
        Some(chain) => {
            lemma_settled_resolve_chain(sc, more, chain, key.path@, pos, depth);
        },
        None => {},
    }
}

proof fn lemma_settled_resolve_chain(
    sc: Scope,
    more: Seq<Answer>,
    chain: Chain,
    path: Seq<String>,
    pos: int,
    depth: nat,
)
    ensures
        settled(resolve_chain(sc, chain, path, pos, depth)) ==> resolve_chain(
            extended(sc, more),
            chain,
            path,
            pos,
            depth,
        ) == resolve_chain(sc, chain, path, pos, depth),
    decreases sc.max_depth - depth, 0nat, 0nat,
{
    if depth < sc.max_depth {
        lemma_settled_source_value(sc, more, chain, pos, (depth + 1) as nat);
    }
}

proof fn lemma_settled_source_value(
    sc: Scope,
    more: Seq<Answer>,
    chain: Chain,
    pos: int,
    depth: nat,
)
    ensures
        settled(source_value(sc, chain, pos, depth)) ==> source_value(
            extended(sc, more),
            chain,
            pos,
            depth,
        ) == source_value(sc, chain, pos, depth),
    decreases sc.max_depth - depth, 7nat, 0nat,
{
    lemma_answer_kept(sc, more, pos);
    match chain.source {
        ChainSource::Request { recipe, trigger, section } => {
            lemma_settled_request_value(sc, more, recipe, trigger, section, pos, depth);
        },
        _ => {},
    }
}

proof fn lemma_settled_request_value(
    sc: Scope,
    more: Seq<Answer>,
    recipe: String,
    trigger: TriggerPolicy,
    section: Section,
    pos: int,
    depth: nat,
)
    ensures
        settled(request_value(sc, recipe, trigger, section, pos, depth)) ==> request_value(
            extended(sc, more),
            recipe,
            trigger,
            section,
            pos,
            depth,
        ) == request_value(sc, recipe, trigger, section, pos, depth),
    decreases sc.max_depth - depth, 6nat, 0nat,
{
    lemma_answer_kept(sc, more, pos);
    lemma_settled_fresh(sc, more, recipe, section, pos, depth);
    lemma_settled_fresh(sc, more, recipe, section, pos + 1, depth);
}

proof fn lemma_settled_fresh(
    sc: Scope,
    more: Seq<Answer>,
    recipe: String,
    section: Section,
    pos: int,
    depth: nat,
)
    ensures
        settled(fresh(sc, recipe, section, pos, depth)) ==> fresh(
            extended(sc, more),
            recipe,
            section,
            pos,
            depth,
        ) == fresh(sc, recipe, section, pos, depth),
    decreases sc.max_depth - depth, 5nat, 0nat,
{
    match recipe_in(sc.recipes, recipe@) {
        Some(r) => {
            lemma_settled_build(sc, more, r, pos, depth);
            match build(sc, r, pos, depth) {
                Flow::Next { value: request, pos: p } => {
                    lemma_answer_kept(sc, more, p);
                    lemma_answer_kept(sc, more, p + 1);
                },
                Flow::Halt(_) => {},
            }
        },
        None => {},
    }
}

proof fn lemma_settled_build(sc: Scope, more: Seq<Answer>, r: Recipe, pos: int, depth: nat)
    ensures
        settled(build(sc, r, pos, depth)) ==> build(extended(sc, more), r, pos, depth) == build(
            sc,
            r,
            pos,
            depth,
        ),
    decreases sc.max_depth - depth, 4nat, 0nat,
{
    lemma_settled_render_from(sc, more, r.url.segments@, 0, pos, depth);
    match render_from(sc, r.url.segments@, 0, pos, depth) {
        Flow::Next { value: url, pos: after_url } => {
            lemma_settled_pairs(sc, more, r.id@, r.query@, 0, after_url, depth, true);
            match pairs(sc, r.id@, r.query@, 0, after_url, depth, true) {
                Flow::Next { value: query, pos: after_query } => {
                    lemma_settled_pairs(sc, more, r.id@, r.headers@, 0, after_query, depth, false);
                    match pairs(sc, r.id@, r.headers@, 0, after_query, depth, false) {
                        Flow::Next { value: headers, pos: after_headers } => {
                            match r.body {
                                Some(t) => {
                                    lemma_settled_render_from(
                                        sc,
                                        more,
                                        t.segments@,
                                        0,
                                        after_headers,
                                        depth,
                                    );
                                },
                                None => {},
                            }
                        },
                        Flow::Halt(_) => {},
                    }
                },
                Flow::Halt(_) => {},
            }
        },
        Flow::Halt(_) => {},
    }
}

proof fn lemma_settled_pairs(
    sc: Scope,
    more: Seq<Answer>,
    recipe: Seq<char>,
    list: Seq<(String, Template)>,
    j: int,
    pos: int,
    depth: nat,
    query: bool,
)
    ensures
        settled(pairs(sc, recipe, list, j, pos, depth, query)) ==> pairs(
            extended(sc, more),
            recipe,
            list,
            j,
            pos,
            depth,
            query,
        ) == pairs(sc, recipe, list, j, pos, depth, query),
    decreases sc.max_depth - depth, 3nat, list.len() - j,
{
    if 0 <= j < list.len() {
        lemma_settled_render_from(sc, more, list[j].1.segments@, 0, pos, depth);
        match render_from(sc, list[j].1.segments@, 0, pos, depth) {
            Flow::Next { value, pos: p } => {
                lemma_settled_pairs(sc, more, recipe, list, j + 1, p, depth, query);
            },
            Flow::Halt(_) => {},
        }
    }
}

/// A render that has ended stays as it is: once it is done or has failed,
/// further answers behind those it was given change nothing. Only a pending
/// render is moved on by an answer.
pub proof fn lemma_ended_render_is_final(
    sc: Scope,
    more: Seq<Answer>,
    template: Template,
    depth: nat,
)
    ensures
        !(render_spec(sc, template, depth) is Pending) ==> render_spec(
            extended(sc, more),
            template,
            depth,
        ) == render_spec(sc, template, depth),
{
    lemma_settled_render_from(sc, more, template.segments@, 0, 0, depth);
}

} // verus!
