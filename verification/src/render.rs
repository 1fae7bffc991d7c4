//! Rendering a template: literal text is copied, and each reference is
//! replaced by its override or by the value of its chain.
//!
//! A chain's value is the raw value of its source, cut down by the chain's
//! selector, trimmed, and cut down again by the reference's field path. A
//! chained request that is sent is built by rendering the fields of its
//! recipe, which may refer to further chains; the depth of that nesting is
//! counted over the whole render and bounded.
//!
//! The functions here only compute. Whatever has to be done outside is
//! returned as a pending action, and the answers given so far are read in
//! the order in which the render needs them.

use vstd::prelude::*;
use vstd::string::*;
use indexmap::IndexMap;
use crate::collection::{
    chain_in, recipe_in, Chain, ChainSource, Collection, Recipe, RecipeNode, Section,
    TriggerPolicy,
};
use crate::exchange::{
    Action, ActionView, Answer, CauseView, ChainError, FailureView, Field, Outcome, OutcomeView,
    RenderError, Step, StepView,
};
use crate::http::{
    opt_string_view, pairs_view, HttpError, RecordView, Request, RequestId, RequestRecord,
    RequestView,
};
use crate::outside::{
    no_entries, override_entries, overrides_get, overrides_insert, overrides_new,
};
use crate::prompter::Prompt;
use crate::section::{copy_bytes, copy_response, extract_section, section_of};
use crate::select::{path_bytes, select, selected, SelectorError};
use crate::template::{strings_view, KeyRef, Segment, Template};
use crate::text::utf8;
use crate::trigger::{consults_history, decide, evaluate, needs_history, Decision, TriggerError};
use crate::trim::{apply_trim, trimmed};

verus! {

/// Everything a render reads.
pub struct Scope {
    pub chains: Seq<Chain>,
    pub recipes: Seq<RecipeNode>,
    pub profile: Option<Seq<char>>,
    pub overrides: Map<Seq<char>, Seq<char>>,
    pub answers: Seq<Answer>,
    pub max_depth: nat,
    pub seed: u128,
}

/// Why a render does not go on.
pub enum Halt {
    Failed(FailureView),
    Pending(ActionView),
}

/// A value together with the number of answers read so far, or the reason
/// why there is no value.
pub enum Flow<T> {
    Next { value: T, pos: int },
    Halt(Halt),
}

/// A failure at the innermost level.
pub open spec fn fail(cause: CauseView) -> Halt {
    Halt::Failed(FailureView { trail: Seq::empty(), cause })
}

/// The same halt, seen from one level further out.
pub open spec fn within(step: StepView, halt: Halt) -> Halt {
    match halt {
        Halt::Failed(f) => Halt::Failed(FailureView { trail: seq![step] + f.trail, cause: f.cause }),
        Halt::Pending(a) => Halt::Pending(a),
    }
}

/// The same flow, seen from one level further out.
pub open spec fn within_flow<T>(step: StepView, flow: Flow<T>) -> Flow<T> {
    match flow {
        Flow::Next { value, pos } => Flow::Next { value, pos },
        Flow::Halt(h) => Flow::Halt(within(step, h)),
    }
}

/// `head` before the bytes of `flow`.
pub open spec fn prefixed(head: Seq<u8>, flow: Flow<Seq<u8>>) -> Flow<Seq<u8>> {
    match flow {
        Flow::Next { value, pos } => Flow::Next { value: head + value, pos },
        Flow::Halt(h) => Flow::Halt(h),
    }
}

/// The answer at `pos`, if that many answers were given.
pub open spec fn answer_at(sc: Scope, pos: int) -> Option<Answer> {
    if 0 <= pos < sc.answers.len() {
        Some(sc.answers[pos])
    } else {
        None
    }
}

/// The id of the request that is built when `pos` answers have been read:
/// the seed plus `pos`, wrapping around.
pub open spec fn request_id(seed: u128, pos: int) -> u128 {
    ((seed + pos) % (u128::MAX + 1)) as u128
}

/// When the response on record was started, if there is one.
pub open spec fn latest_start(record: Option<RequestRecord>) -> Option<i64> {
    match record {
        Some(r) => Some(r.start_time),
        None => None,
    }
}

/// The section of a response as the value of a chain.
pub open spec fn section_flow(response: crate::http::Response, section: Section, pos: int)
    -> Flow<Seq<u8>> {
    match section_of(response, section) {
        Ok(v) => Flow::Next { value: v, pos },
        Err(e) => Flow::Halt(fail(CauseView::Selector(e))),
    }
}

/// What a chain makes of the raw value of its source: the selector's
/// choice, trimmed, and of that what the field path selects.
pub open spec fn refined(chain: Chain, path: Seq<String>, raw: Seq<u8>) -> Result<
    Seq<u8>,
    SelectorError,
> {
    let picked = match chain.selector {
        Some(steps) => selected(raw, chain.content_type, path_bytes(steps@)),
        None => Ok(raw),
    };
    match picked {
        Err(e) => Err(e),
        Ok(v) => {
            let t = trimmed(v, chain.trim);
            if path.len() == 0 {
                Ok(t)
            } else {
                selected(t, chain.content_type, path_bytes(path))
            }
        },
    }
}

/// The raw value of a source made into the value of its chain.
pub open spec fn finish(chain: Chain, path: Seq<String>, flow: Flow<Seq<u8>>) -> Flow<Seq<u8>> {
    match flow {
        Flow::Halt(h) => Flow::Halt(h),
        Flow::Next { value, pos } => match refined(chain, path, value) {
            Ok(v) => Flow::Next { value: v, pos },
            Err(e) => Flow::Halt(fail(CauseView::Selector(e))),
        },
    }
}

/// The label under which a prompt chain asks: its own, or the chain's id.
pub open spec fn prompt_label(chain: Chain, label: Option<String>) -> Seq<char> {
    match label {
        Some(l) => l@,
        None => chain.id@,
    }
}

/// The segments of a template from `i` on, rendered with `pos` answers
/// already read and `depth` chains open.
pub open spec fn render_from(sc: Scope, segments: Seq<Segment>, i: int, pos: int, depth: nat)
    -> Flow<Seq<u8>>
    decreases sc.max_depth - depth, 2nat, segments.len() - i,
{
    if i < 0 || i >= segments.len() {
        Flow::Next { value: Seq::empty(), pos }
    } else {
        match segments[i] {
            Segment::Literal(text) => prefixed(
                utf8(text@),
                render_from(sc, segments, i + 1, pos, depth),
            ),
            Segment::Key(key) => if sc.overrides.dom().contains(key.chain@) {
                prefixed(
                    utf8(sc.overrides[key.chain@]),
                    render_from(sc, segments, i + 1, pos, depth),
                )
            } else {
                match resolve(sc, key, pos, depth) {
                    Flow::Halt(h) => Flow::Halt(h),
                    Flow::Next { value, pos: p } => prefixed(
                        value,
                        render_from(sc, segments, i + 1, p, depth),
                    ),
                }
            },
        }
    }
}

/// The value of the chain that a reference names.
pub open spec fn resolve(sc: Scope, key: KeyRef, pos: int, depth: nat) -> Flow<Seq<u8>>
    decreases sc.max_depth - depth, 1nat, 0nat,
{
    match chain_in(sc.chains, key.chain@) {
        None => Flow::Halt(within(StepView::Chain(key.chain@), fail(CauseView::NotFound))),
        Some(chain) => resolve_chain(sc, chain, key.path@, pos, depth),
    }
}

/// The value of a chain, with `depth` chains open around it. One more may
/// be opened only while `depth` is below the maximum.
pub open spec fn resolve_chain(sc: Scope, chain: Chain, path: Seq<String>, pos: int, depth: nat)
    -> Flow<Seq<u8>>
    decreases sc.max_depth - depth, 0nat, 0nat,
{
    if depth >= sc.max_depth {
        Flow::Halt(within(StepView::Chain(chain.id@), fail(CauseView::RecursionLimit)))
    } else {
        within_flow(
            StepView::Chain(chain.id@),
            finish(chain, path, source_value(sc, chain, pos, depth + 1)),
        )
    }
}

/// The raw value of a chain's source.
pub open spec fn source_value(sc: Scope, chain: Chain, pos: int, depth: nat) -> Flow<Seq<u8>>
    decreases sc.max_depth - depth, 7nat, 0nat,
{
    match chain.source {
        ChainSource::Request { recipe, trigger, section } => request_value(
            sc,
            recipe,
            trigger,
            section,
            pos,
            depth,
        ),
        ChainSource::Command { program, arguments } => match answer_at(sc, pos) {
            None => Flow::Halt(
                Halt::Pending(
                    ActionView::Run { program: program@, arguments: strings_view(arguments@) },
                ),
            ),
            Some(Answer::Ran { output: Some(out) }) => Flow::Next { value: out@, pos: pos + 1 },
            Some(Answer::Ran { output: None }) => Flow::Halt(fail(CauseView::CommandFailed)),
            Some(_) => Flow::Halt(fail(CauseView::UnexpectedAnswer)),
        },
        ChainSource::File { path } => match answer_at(sc, pos) {
            None => Flow::Halt(Halt::Pending(ActionView::ReadFile { path: path@ })),
            Some(Answer::FileRead { content: Some(bytes) }) => Flow::Next {
                value: bytes@,
                pos: pos + 1,
            },
            Some(Answer::FileRead { content: None }) => Flow::Halt(fail(CauseView::Io)),
            Some(_) => Flow::Halt(fail(CauseView::UnexpectedAnswer)),
        },
        ChainSource::Prompt { label, default } => match answer_at(sc, pos) {
            None => Flow::Halt(
                Halt::Pending(
                    ActionView::Ask {
                        label: prompt_label(chain, label),
                        default: opt_string_view(default),
                    },
                ),
            ),
            Some(Answer::Asked { reply: Some(text) }) => Flow::Next {
                value: utf8(text@),
                pos: pos + 1,
            },
            Some(Answer::Asked { reply: None }) => Flow::Halt(fail(CauseView::PromptUnavailable)),
            Some(_) => Flow::Halt(fail(CauseView::UnexpectedAnswer)),
        },
        ChainSource::Environment { variable, default } => match answer_at(sc, pos) {
            None => Flow::Halt(Halt::Pending(ActionView::ReadEnv { variable: variable@ })),
            Some(Answer::EnvRead { value: Some(text) }) => Flow::Next {
                value: utf8(text@),
                pos: pos + 1,
            },
            Some(Answer::EnvRead { value: None }) => match default {
                Some(text) => Flow::Next { value: utf8(text@), pos: pos + 1 },
                None => Flow::Halt(fail(CauseView::EnvUnset)),
            },
            Some(_) => Flow::Halt(fail(CauseView::UnexpectedAnswer)),
        },
    }
}

/// The value of a chained request: from the response on record where the
/// trigger policy allows that, from a fresh exchange otherwise.
pub open spec fn request_value(
    sc: Scope,
    recipe: String,
    trigger: TriggerPolicy,
    section: Section,
    pos: int,
    depth: nat,
) -> Flow<Seq<u8>>
    decreases sc.max_depth - depth, 6nat, 0nat,
{
    if consults_history(trigger) {
        match answer_at(sc, pos) {
            None => Flow::Halt(
                Halt::Pending(ActionView::GetLatest { profile: sc.profile, recipe: recipe@ }),
            ),
            Some(Answer::Latest { record, now }) => match decide(
                trigger,
                latest_start(record),
                now,
            ) {
                Err(e) => Flow::Halt(fail(CauseView::Trigger(e))),
                Ok(Decision::Execute) => fresh(sc, recipe, section, pos + 1, depth),
                Ok(Decision::Reuse) => match record {
                    Some(r) => section_flow(r.response, section, pos + 1),
                    None => Flow::Halt(fail(CauseView::Trigger(TriggerError::NoHistory))),
                },
            },
            Some(_) => Flow::Halt(fail(CauseView::UnexpectedAnswer)),
        }
    } else {
        fresh(sc, recipe, section, pos, depth)
    }
}

/// What becomes of a request that was built with `p` answers read: it is
/// sent, the exchange is recorded, and the section is taken from the
/// response.
pub open spec fn sent_value(sc: Scope, request: RequestView, section: Section, p: int) -> Flow<
    Seq<u8>,
> {
    match answer_at(sc, p) {
        None => Flow::Halt(Halt::Pending(ActionView::Send { request })),
        Some(Answer::Sent { result: Err(e), start_time, end_time }) => Flow::Halt(
            fail(CauseView::Http(e.message@)),
        ),
        Some(Answer::Sent { result: Ok(response), start_time, end_time }) => match answer_at(
            sc,
            p + 1,
        ) {
            None => Flow::Halt(
                Halt::Pending(
                    ActionView::Store {
                        record: RecordView {
                            id: request.id,
                            request,
                            response: response@,
                            start_time,
                            end_time,
                        },
                    },
                ),
            ),
            Some(Answer::Stored) => section_flow(response, section, p + 2),
            Some(_) => Flow::Halt(fail(CauseView::UnexpectedAnswer)),
        },
        Some(_) => Flow::Halt(fail(CauseView::UnexpectedAnswer)),
    }
}

/// The value of a chained request that is sent: the request is built from
/// its recipe and then sent.
pub open spec fn fresh(sc: Scope, recipe: String, section: Section, pos: int, depth: nat) -> Flow<
    Seq<u8>,
>
    decreases sc.max_depth - depth, 5nat, 0nat,
{
    match recipe_in(sc.recipes, recipe@) {
        None => Flow::Halt(fail(CauseView::RecipeNotFound)),
        Some(r) => match build(sc, r, pos, depth) {
            Flow::Halt(h) => Flow::Halt(h),
            Flow::Next { value: request, pos: p } => sent_value(sc, request, section, p),
        },
    }
}

/// The request of a recipe: its URL, query parameters, headers and body
/// rendered in that order.
pub open spec fn build(sc: Scope, r: Recipe, pos: int, depth: nat) -> Flow<RequestView>
    decreases sc.max_depth - depth, 4nat, 0nat,
{
    match within_flow(
        StepView::Field { recipe: r.id@, field: Field::Url },
        render_from(sc, r.url.segments@, 0, pos, depth),
    ) {
        Flow::Halt(h) => Flow::Halt(h),
        Flow::Next { value: url, pos: after_url } => match pairs(sc, r.id@, r.query@, 0, after_url, depth, true) {
            Flow::Halt(h) => Flow::Halt(h),
            Flow::Next { value: query, pos: after_query } => match pairs(
                sc,
                r.id@,
                r.headers@,
                0,
                after_query,
                depth,
                false,
            ) {
                Flow::Halt(h) => Flow::Halt(h),
                Flow::Next { value: headers, pos: after_headers } => match r.body {
                    None => Flow::Next {
                        value: RequestView {
                            id: request_id(sc.seed, after_headers),
                            profile_id: sc.profile,
                            recipe_id: r.id@,
                            method: r.method,
                            url,
                            query,
                            headers,
                            body: None,
                        },
                        pos: after_headers,
                    },
                    Some(t) => match within_flow(
                        StepView::Field { recipe: r.id@, field: Field::Body },
                        render_from(sc, t.segments@, 0, after_headers, depth),
                    ) {
                        Flow::Halt(h) => Flow::Halt(h),
                        Flow::Next { value: body, pos: after_body } => Flow::Next {
                            value: RequestView {
                                id: request_id(sc.seed, after_body),
                                profile_id: sc.profile,
                                recipe_id: r.id@,
                                method: r.method,
                                url,
                                query,
                                headers,
                                body: Some(body),
                            },
                            pos: after_body,
                        },
                    },
                },
            },
        },
    }
}

/// The field that the `j`-th query parameter or header is.
pub open spec fn pair_field(query: bool, j: int) -> Field {
    if query {
        Field::Query(j as usize)
    } else {
        Field::Header(j as usize)
    }
}

/// The named templates of a recipe from `j` on, rendered one after the
/// other.
pub open spec fn pairs(
    sc: Scope,
    recipe: Seq<char>,
    list: Seq<(String, Template)>,
    j: int,
    pos: int,
    depth: nat,
    query: bool,
) -> Flow<Seq<(Seq<char>, Seq<u8>)>>
    decreases sc.max_depth - depth, 3nat, list.len() - j,
{
    if j < 0 || j >= list.len() {
        Flow::Next { value: Seq::empty(), pos }
    } else {
        match within_flow(
            StepView::Field { recipe, field: pair_field(query, j) },
            render_from(sc, list[j].1.segments@, 0, pos, depth),
        ) {
            Flow::Halt(h) => Flow::Halt(h),
            Flow::Next { value, pos: p } => match pairs(sc, recipe, list, j + 1, p, depth, query) {
                Flow::Halt(h) => Flow::Halt(h),
                Flow::Next { value: rest, pos: q } => Flow::Next {
                    value: seq![(list[j].0@, value)] + rest,
                    pos: q,
                },
            },
        }
    }
}

/// How the render of a whole template ends.
pub open spec fn render_spec(sc: Scope, template: Template, depth: nat) -> OutcomeView {
    match render_from(sc, template.segments@, 0, 0, depth) {
        Flow::Next { value, pos } => OutcomeView::Done(value),
        Flow::Halt(Halt::Failed(f)) => OutcomeView::Failed(f),
        Flow::Halt(Halt::Pending(a)) => OutcomeView::Pending(a),
    }
}

/// Why a render stops before its end.
enum Stop {
    Failed(RenderError),
    Pending(Action),
}

/// A value and the number of answers read, or a stop.
enum Progress<T> {
    Next(T, usize),
    Halt(Stop),
}

impl View for Stop {
    type V = Halt;

    closed spec fn view(&self) -> Halt {
        match self {
            Stop::Failed(e) => Halt::Failed(e@),
            Stop::Pending(a) => Halt::Pending(a@),
        }
    }
}

spec fn bytes_flow(p: Progress<Vec<u8>>) -> Flow<Seq<u8>> {
    match p {
        Progress::Next(v, pos) => Flow::Next { value: v@, pos: pos as int },
        Progress::Halt(s) => Flow::Halt(s@),
    }
}

spec fn request_flow(p: Progress<Request>) -> Flow<RequestView> {
    match p {
        Progress::Next(v, pos) => Flow::Next { value: v@, pos: pos as int },
        Progress::Halt(s) => Flow::Halt(s@),
    }
}

spec fn pairs_flow(p: Progress<Vec<(String, Vec<u8>)>>) -> Flow<
    Seq<(Seq<char>, Seq<u8>)>,
> {
    match p {
        Progress::Next(v, pos) => Flow::Next { value: pairs_view(v@), pos: pos as int },
        Progress::Halt(s) => Flow::Halt(s@),
    }
}

/// `head` before the pairs of `flow`.
spec fn pairs_prefixed(
    head: Seq<(Seq<char>, Seq<u8>)>,
    flow: Flow<Seq<(Seq<char>, Seq<u8>)>>,
) -> Flow<Seq<(Seq<char>, Seq<u8>)>> {
    match flow {
        Flow::Next { value, pos } => Flow::Next { value: head + value, pos },
        Flow::Halt(h) => Flow::Halt(h),
    }
}

/// What one render reads, borrowed for its duration.
struct Engine<'a> {
    collection: &'a Collection,
    profile: &'a Option<String>,
    overrides: &'a IndexMap<String, String>,
    answers: &'a Vec<Answer>,
    max_depth: usize,
    seed: u128,
}

impl<'a> Engine<'a> {
    spec fn scope(&self) -> Scope {
        Scope {
            chains: self.collection.chains@,
            recipes: self.collection.recipes.nodes(),
            profile: opt_string_view(*self.profile),
            overrides: override_entries(*self.overrides),
            answers: self.answers@,
            max_depth: self.max_depth as nat,
            seed: self.seed,
        }
    }
}

fn failure(cause: ChainError) -> (r: Stop)
    ensures
        r@ == fail(cause@),
{
    let trail: Vec<Step> = Vec::new();
    let r = Stop::Failed(RenderError { trail, cause });
    assert(trail@.map_values(|s: Step| s@) =~= Seq::<StepView>::empty());
    r
}

fn wrap(step: Step, stop: Stop) -> (r: Stop)
    ensures
        r@ == within(step@, stop@),
{
    match stop {
        Stop::Failed(e) => {
            let RenderError { mut trail, cause } = e;
            let ghost before = trail@;
            trail.insert(0, step);
            assert(trail@.map_values(|s: Step| s@) =~= seq![step@] + before.map_values(
                |s: Step| s@,
            ));
            Stop::Failed(RenderError { trail, cause })
        },
        Stop::Pending(a) => Stop::Pending(a),
    }
}

fn copy_strings(v: &Vec<String>) -> (r: Vec<String>)
    ensures
        strings_view(r@) == strings_view(v@),
{
    let mut r: Vec<String> = Vec::new();
    let mut i: usize = 0;
    while i < v.len()
        invariant
            i <= v.len(),
            r@.len() == i,
            forall|j: int| 0 <= j < i ==> (#[trigger] r@[j])@ == v@[j]@,
        decreases v.len() - i,
    {
        r.push(v[i].clone());
        i += 1;
    }
    r
}

fn copy_opt_string(s: &Option<String>) -> (r: Option<String>)
    ensures
        opt_string_view(r) == opt_string_view(*s),
{
    match s {
        Some(x) => Some(x.clone()),
        None => None,
    }
}

fn offset_id(seed: u128, pos: usize) -> (r: u128)
    ensures
        r == request_id(seed, pos as int),
{
    let p = pos as u128;
    match seed.checked_add(p) {
        Some(v) => v,
        None => p - (u128::MAX - seed) - 1,
    }
}

/// Applies a chain's selector and trim, and the field path of the
/// reference, to the raw value of the chain's source.
pub fn refine(chain: &Chain, path: &Vec<String>, raw: Vec<u8>) -> (r: Result<
    Vec<u8>,
    SelectorError,
>)
    ensures
        (match r {
            Ok(v) => Ok(v@),
            Err(e) => Err(e),
        }) == refined(*chain, path@, raw@),
{
    let picked = match &chain.selector {
        Some(steps) => match select(raw.as_slice(), chain.content_type, steps) {
            Ok(v) => v,
            Err(e) => {
                return Err(e);
            },
        },
        None => raw,
    };
    let t = apply_trim(&picked, chain.trim);
    if path.len() == 0 {
        Ok(t)
    } else {
        select(t.as_slice(), chain.content_type, path)
    }
}

fn section_bytes(response: &crate::http::Response, section: &Section, pos: usize) -> (r: Progress<
    Vec<u8>,
>)
    ensures
        bytes_flow(r) == section_flow(*response, *section, pos as int),
{
    match extract_section(response, section) {
        Ok(v) => Progress::Next(v, pos),
        Err(e) => Progress::Halt(failure(ChainError::Selector(e))),
    }
}

fn render_segments(e: &Engine, segments: &Vec<Segment>, pos: usize, count: &mut usize) -> (r:
    Progress<Vec<u8>>)
    requires
        pos <= e.answers@.len(),
    ensures
        bytes_flow(r) == render_from(e.scope(), segments@, 0, pos as int, *old(count) as nat),
        *final(count) == *old(count),
        r matches Progress::Next(_, p) ==> p <= e.answers@.len(),
    decreases e.max_depth - *old(count), 2nat, 0nat,
{
    let ghost sc = e.scope();
    let ghost depth = *count as nat;
    let mut out: Vec<u8> = Vec::new();
    let mut at: usize = pos;
    let mut i: usize = 0;
    while i < segments.len()
        invariant
            i <= segments.len(),
            at <= e.answers@.len(),
            sc == e.scope(),
            depth == *count,
            *count == *old(count),
            render_from(sc, segments@, 0, pos as int, depth) == prefixed(
                out@,
                render_from(sc, segments@, i as int, at as int, depth),
            ),
        decreases segments.len() - i,
    {
        let ghost before = out@;
        match &segments[i] {
            Segment::Literal(text) => {
                out.extend_from_slice(text.as_str().as_bytes());
                proof {
                    match render_from(sc, segments@, i + 1, at as int, depth) {
                        Flow::Next { value, pos: p } => {
                            assert(before + (utf8(text@) + value) =~= out@ + value);
                        },
                        Flow::Halt(_) => {},
                    }
                }
            },
            Segment::Key(key) => {
                match overrides_get(e.overrides, key.chain.as_str()) {
                    Some(v) => {
                        out.extend_from_slice(v.as_str().as_bytes());
                        proof {
                            match render_from(sc, segments@, i + 1, at as int, depth) {
                                Flow::Next { value, pos: p } => {
                                    assert(before + (utf8(v@) + value) =~= out@ + value);
                                },
                                Flow::Halt(_) => {},
                            }
                        }
                    },
                    None => {
                        match resolve_key(e, key, at, count) {
                            Progress::Halt(stop) => {
                                return Progress::Halt(stop);
                            },
                            Progress::Next(value, p) => {
                                out.extend_from_slice(value.as_slice());
                                proof {
                                    match render_from(sc, segments@, i + 1, p as int, depth) {
                                        Flow::Next { value: tail, pos: q } => {
                                            assert(before + (value@ + tail) =~= out@ + tail);
                                        },
                                        Flow::Halt(_) => {},
                                    }
                                }
                                at = p;
                            },
                        }
                    },
                }
            },
        }
        i += 1;
    }
    Progress::Next(out, at)
}

fn resolve_key(e: &Engine, key: &KeyRef, pos: usize, count: &mut usize) -> (r: Progress<Vec<u8>>)
    requires
        pos <= e.answers@.len(),
    ensures
        bytes_flow(r) == resolve(e.scope(), *key, pos as int, *old(count) as nat),
        *final(count) == *old(count),
        r matches Progress::Next(_, p) ==> p <= e.answers@.len(),
    decreases e.max_depth - *old(count), 1nat, 0nat,
{
    match e.collection.get_chain(key.chain.as_str()) {
        Some(chain) => chain_value(e, chain, &key.path, pos, count),
        None => Progress::Halt(
            wrap(Step::Chain(key.chain.clone()), failure(ChainError::NotFound)),
        ),
    }
}

fn chain_value(e: &Engine, chain: &Chain, path: &Vec<String>, pos: usize, count: &mut usize) -> (r:
    Progress<Vec<u8>>)
    requires
        pos <= e.answers@.len(),
    ensures
        bytes_flow(r) == resolve_chain(e.scope(), *chain, path@, pos as int, *old(count) as nat),
        *final(count) == *old(count),
        r matches Progress::Next(_, p) ==> p <= e.answers@.len(),
    decreases e.max_depth - *old(count), 0nat, 0nat,
{
    if *count >= e.max_depth {
        return Progress::Halt(
            wrap(Step::Chain(chain.id.clone()), failure(ChainError::RecursionLimit)),
        );
    }
    *count = *count + 1;
    let raw = read_source(e, chain, pos, count);
    *count = *count - 1;
    match raw {
        Progress::Halt(stop) => Progress::Halt(wrap(Step::Chain(chain.id.clone()), stop)),
        Progress::Next(value, p) => match refine(chain, path, value) {
            Ok(v) => Progress::Next(v, p),
            Err(err) => Progress::Halt(
                wrap(Step::Chain(chain.id.clone()), failure(ChainError::Selector(err))),
            ),
        },
    }
}

fn read_source(e: &Engine, chain: &Chain, pos: usize, count: &mut usize) -> (r: Progress<Vec<u8>>)
    requires
        pos <= e.answers@.len(),
    ensures
        bytes_flow(r) == source_value(e.scope(), *chain, pos as int, *old(count) as nat),
        *final(count) == *old(count),
        r matches Progress::Next(_, p) ==> p <= e.answers@.len(),
    decreases e.max_depth - *old(count), 7nat, 0nat,
{
    let answers = e.answers;
    match &chain.source {
        ChainSource::Request { recipe, trigger, section } => request_bytes(
            e,
            recipe,
            *trigger,
            section,
            pos,
            count,
        ),
        ChainSource::Command { program, arguments } => {
            if pos >= answers.len() {
                return Progress::Halt(
                    Stop::Pending(
                        Action::Run { program: program.clone(), arguments: copy_strings(arguments) },
                    ),
                );
            }
            match &answers[pos] {
                Answer::Ran { output: Some(out) } => Progress::Next(copy_bytes(out), pos + 1),
                Answer::Ran { output: None } => Progress::Halt(failure(ChainError::CommandFailed)),
                _ => Progress::Halt(failure(ChainError::UnexpectedAnswer)),
            }
        },
        ChainSource::File { path } => {
            if pos >= answers.len() {
                return Progress::Halt(Stop::Pending(Action::ReadFile { path: path.clone() }));
            }
            match &answers[pos] {
                Answer::FileRead { content: Some(bytes) } => Progress::Next(
                    copy_bytes(bytes),
                    pos + 1,
                ),
                Answer::FileRead { content: None } => Progress::Halt(failure(ChainError::Io)),
                _ => Progress::Halt(failure(ChainError::UnexpectedAnswer)),
            }
        },
        ChainSource::Prompt { label, default } => {
            if pos >= answers.len() {
                let label = match label {
                    Some(l) => l.clone(),
                    None => chain.id.clone(),
                };
                return Progress::Halt(
                    Stop::Pending(
                        Action::Ask { prompt: Prompt { label, default: copy_opt_string(default) } },
                    ),
                );
            }
            match &answers[pos] {
                Answer::Asked { reply: Some(text) } => Progress::Next(
                    crate::text::string_bytes(text),
                    pos + 1,
                ),
                Answer::Asked { reply: None } => Progress::Halt(
                    failure(ChainError::PromptUnavailable),
                ),
                _ => Progress::Halt(failure(ChainError::UnexpectedAnswer)),
            }
        },
        ChainSource::Environment { variable, default } => {
            if pos >= answers.len() {
                return Progress::Halt(
                    Stop::Pending(Action::ReadEnv { variable: variable.clone() }),
                );
            }
            match &answers[pos] {
                Answer::EnvRead { value: Some(text) } => Progress::Next(
                    crate::text::string_bytes(text),
                    pos + 1,
                ),
                Answer::EnvRead { value: None } => match default {
                    Some(text) => Progress::Next(crate::text::string_bytes(text), pos + 1),
                    None => Progress::Halt(failure(ChainError::EnvUnset)),
                },
                _ => Progress::Halt(failure(ChainError::UnexpectedAnswer)),
            }
        },
    }
}

fn request_bytes(
    e: &Engine,
    recipe: &String,
    trigger: TriggerPolicy,
    section: &Section,
    pos: usize,
    count: &mut usize,
) -> (r: Progress<Vec<u8>>)
    requires
        pos <= e.answers@.len(),
    ensures
        bytes_flow(r) == request_value(
            e.scope(),
            *recipe,
            trigger,
            *section,
            pos as int,
            *old(count) as nat,
        ),
        *final(count) == *old(count),
        r matches Progress::Next(_, p) ==> p <= e.answers@.len(),
    decreases e.max_depth - *old(count), 6nat, 0nat,
{
    let answers = e.answers;
    if !needs_history(trigger) {
        return exchange(e, recipe, section, pos, count);
    }
    if pos >= answers.len() {
        return Progress::Halt(
            Stop::Pending(
                Action::GetLatest { profile: copy_opt_string(e.profile), recipe: recipe.clone() },
            ),
        );
    }
    match &answers[pos] {
        Answer::Latest { record, now } => {
            let start = match record {
                Some(r) => Some(r.start_time),
                None => None,
            };
            match evaluate(trigger, start, *now) {
                Err(err) => Progress::Halt(failure(ChainError::Trigger(err))),
                Ok(Decision::Execute) => exchange(e, recipe, section, pos + 1, count),
                Ok(Decision::Reuse) => match record {
                    Some(r) => section_bytes(&r.response, section, pos + 1),
                    None => Progress::Halt(
                        failure(ChainError::Trigger(TriggerError::NoHistory)),
                    ),
                },
            }
        },
        _ => Progress::Halt(failure(ChainError::UnexpectedAnswer)),
    }
}

fn send(e: &Engine, request: Request, section: &Section, p: usize) -> (r: Progress<Vec<u8>>)
    requires
        p <= e.answers@.len(),
    ensures
        bytes_flow(r) == sent_value(e.scope(), request@, *section, p as int),
        r matches Progress::Next(_, q) ==> q <= e.answers@.len(),
{
    let answers = e.answers;
    if p >= answers.len() {
        return Progress::Halt(Stop::Pending(Action::Send { request }));
    }
    match &answers[p] {
        Answer::Sent { result: Err(err), start_time, end_time } => Progress::Halt(
            failure(ChainError::Http(HttpError { message: err.message.clone() })),
        ),
        Answer::Sent { result: Ok(response), start_time, end_time } => {
            if p + 1 >= answers.len() {
                let record = RequestRecord {
                    id: request.id,
                    request,
                    response: copy_response(response),
                    start_time: *start_time,
                    end_time: *end_time,
                };
                return Progress::Halt(Stop::Pending(Action::Store { record }));
            }
            match &answers[p + 1] {
                Answer::Stored => section_bytes(response, section, p + 2),
                _ => Progress::Halt(failure(ChainError::UnexpectedAnswer)),
            }
        },
        _ => Progress::Halt(failure(ChainError::UnexpectedAnswer)),
    }
}

fn exchange(e: &Engine, recipe: &String, section: &Section, pos: usize, count: &mut usize) -> (r:
    Progress<Vec<u8>>)
    requires
        pos <= e.answers@.len(),
    ensures
        bytes_flow(r) == fresh(e.scope(), *recipe, *section, pos as int, *old(count) as nat),
        *final(count) == *old(count),
        r matches Progress::Next(_, p) ==> p <= e.answers@.len(),
    decreases e.max_depth - *old(count), 5nat, 0nat,
{
    match e.collection.recipes.get_recipe(recipe.as_str()) {
        None => Progress::Halt(failure(ChainError::RecipeNotFound)),
        Some(r) => match build_request(e, r, pos, count) {
            Progress::Halt(stop) => Progress::Halt(stop),
            Progress::Next(request, p) => send(e, request, section, p),
        },
    }
}

fn field_step(recipe: &Recipe, field: Field) -> (r: Step)
    ensures
        r@ == (StepView::Field { recipe: recipe.id@, field }),
{
    Step::Field { recipe: recipe.id.clone(), field }
}

fn build_request(e: &Engine, recipe: &Recipe, pos: usize, count: &mut usize) -> (r: Progress<
    Request,
>)
    requires
        pos <= e.answers@.len(),
    ensures
        request_flow(r) == build(e.scope(), *recipe, pos as int, *old(count) as nat),
        *final(count) == *old(count),
        r matches Progress::Next(_, p) ==> p <= e.answers@.len(),
    decreases e.max_depth - *old(count), 4nat, 0nat,
{
    let (url, after_url) = match render_segments(e, &recipe.url.segments, pos, count) {
        Progress::Halt(stop) => {
            return Progress::Halt(wrap(field_step(recipe, Field::Url), stop));
        },
        Progress::Next(v, p) => (v, p),
    };
    let (query, after_query) = match render_pairs(e, recipe, true, after_url, count) {
        Progress::Halt(stop) => {
            return Progress::Halt(stop);
        },
        Progress::Next(v, p) => (v, p),
    };
    let (headers, after_headers) = match render_pairs(e, recipe, false, after_query, count) {
        Progress::Halt(stop) => {
            return Progress::Halt(stop);
        },
        Progress::Next(v, p) => (v, p),
    };
    let (body, after_body) = match &recipe.body {
        None => (None, after_headers),
        Some(t) => match render_segments(e, &t.segments, after_headers, count) {
            Progress::Halt(stop) => {
                return Progress::Halt(wrap(field_step(recipe, Field::Body), stop));
            },
            Progress::Next(v, p) => (Some(v), p),
        },
    };
    let request = Request {
        id: RequestId(offset_id(e.seed, after_body)),
        profile_id: copy_opt_string(e.profile),
        recipe_id: recipe.id.clone(),
        method: recipe.method,
        url,
        query,
        headers,
        body,
    };
    Progress::Next(request, after_body)
}

/// The query parameters (`query`) or the headers of a recipe, rendered.
fn render_pairs(e: &Engine, recipe: &Recipe, query: bool, pos: usize, count: &mut usize) -> (r:
    Progress<Vec<(String, Vec<u8>)>>)
    requires
        pos <= e.answers@.len(),
    ensures
        pairs_flow(r) == pairs(
            e.scope(),
            recipe.id@,
            if query {
                recipe.query@
            } else {
                recipe.headers@
            },
            0,
            pos as int,
            *old(count) as nat,
            query,
        ),
        *final(count) == *old(count),
        r matches Progress::Next(_, p) ==> p <= e.answers@.len(),
    decreases e.max_depth - *old(count), 3nat, 0nat,
{
    let ghost sc = e.scope();
    let ghost depth = *count as nat;
    let list = if query {
        &recipe.query
    } else {
        &recipe.headers
    };
    let mut out: Vec<(String, Vec<u8>)> = Vec::new();
    let mut at: usize = pos;
    let mut j: usize = 0;
    while j < list.len()
        invariant
            j <= list.len(),
            at <= e.answers@.len(),
            sc == e.scope(),
            depth == *count,
            *count == *old(count),
            list@ == (if query {
                recipe.query@
            } else {
                recipe.headers@
            }),
            pairs(sc, recipe.id@, list@, 0, pos as int, depth, query) == pairs_prefixed(
                pairs_view(out@),
                pairs(sc, recipe.id@, list@, j as int, at as int, depth, query),
            ),
        decreases list.len() - j,
    {
        let ghost before = pairs_view(out@);
        let field = if query {
            Field::Query(j)
        } else {
            Field::Header(j)
        };
        match render_segments(e, &list[j].1.segments, at, count) {
            Progress::Halt(stop) => {
                return Progress::Halt(wrap(field_step(recipe, field), stop));
            },
            Progress::Next(value, p) => {
                let ghost item = (list@[j as int].0@, value@);
                out.push((list[j].0.clone(), value));
                proof {
                    match pairs(sc, recipe.id@, list@, j + 1, p as int, depth, query) {
                        Flow::Next { value: rest, pos: q } => {
                            assert(before + (seq![item] + rest) =~= pairs_view(out@) + rest);
                        },
                        Flow::Halt(_) => {},
                    }
                }
                at = p;
            },
        }
        j += 1;
    }
    Progress::Next(out, at)
}

/// How many chains may be open at once unless a context says otherwise.
pub const DEFAULT_MAX_DEPTH: usize = 10;

/// The state of one render: what it reads, and how many chains are open.
pub struct TemplateContext<P> {
    pub collection: Collection,
    pub selected_profile: Option<String>,
    /// Values that stand in for chains. A reference whose chain id is a key
    /// here is replaced by the value; the chain is not resolved.
    pub overrides: IndexMap<String, String>,
    /// Answers the prompts of this render.
    pub prompter: P,
    /// The number of chains that are open. It is the same before and after
    /// every render.
    pub recursion_count: usize,
    /// The number of chains that may be open at once.
    pub max_depth: usize,
    /// The id of a request built after `n` answers is the seed plus `n`.
    pub seed: RequestId,
}

impl<P> TemplateContext<P> {
    /// What a render with this context and these answers reads.
    pub open spec fn scope(&self, answers: Seq<Answer>) -> Scope {
        Scope {
            chains: self.collection.chains@,
            recipes: self.collection.recipes.nodes(),
            profile: opt_string_view(self.selected_profile),
            overrides: override_entries(self.overrides),
            answers,
            max_depth: self.max_depth as nat,
            seed: self.seed.0,
        }
    }
}

impl<P> TemplateContext<P> {
    /// A context for renders over `collection`: no profile is selected,
    /// nothing is overridden, no chain is open, and up to
    /// `DEFAULT_MAX_DEPTH` chains may be.
    pub fn new(collection: Collection, prompter: P, seed: RequestId) -> (r: Self)
        ensures
            r.collection == collection,
            r.selected_profile is None,
            override_entries(r.overrides) == no_entries(),
            r.prompter == prompter,
            r.recursion_count == 0,
            r.max_depth == DEFAULT_MAX_DEPTH,
            r.seed == seed,
    {
        TemplateContext {
            collection,
            selected_profile: None,
            overrides: overrides_new(),
            prompter,
            recursion_count: 0,
            max_depth: DEFAULT_MAX_DEPTH,
            seed,
        }
    }

    /// Lets `value` stand in for the chain `key` from now on. Nothing else
    /// of the context changes.
    pub fn set_override(&mut self, key: String, value: String)
        ensures
            override_entries(final(self).overrides) == override_entries(old(self).overrides).insert(
                key@,
                value@,
            ),
            final(self).collection == old(self).collection,
            final(self).selected_profile == old(self).selected_profile,
            final(self).prompter == old(self).prompter,
            final(self).recursion_count == old(self).recursion_count,
            final(self).max_depth == old(self).max_depth,
            final(self).seed == old(self).seed,
    {
        overrides_insert(&mut self.overrides, key, value);
    }
}

impl<P: crate::prompter::Prompter> TemplateContext<P> {
    /// Puts a prompt to this context's prompter and gives the reply as the
    /// answer to an `Ask` action.
    pub fn ask(&self, prompt: &Prompt) -> (r: Answer)
        ensures
            r is Asked,
    {
        Answer::Asked { reply: self.prompter.prompt(prompt) }
    }
}

/// What is shown of a chain's value: the value itself, or one `*` for each
/// of its bytes where the chain is sensitive.
pub open spec fn shown(chain: Chain, value: Seq<u8>) -> Seq<u8> {
    if chain.sensitive {
        Seq::new(value.len(), |i: int| 42u8)
    } else {
        value
    }
}

/// The form of a chain's value for logs and previews. The value that goes
/// into a request is never this one.
pub fn echo(chain: &Chain, value: &Vec<u8>) -> (r: Vec<u8>)
    ensures
        r@ == shown(*chain, value@),
{
    if !chain.sensitive {
        return copy_bytes(value);
    }
    let mut r: Vec<u8> = Vec::new();
    let mut i: usize = 0;
    while i < value.len()
        invariant
            i <= value.len(),
            r@.len() == i,
            forall|j: int| 0 <= j < i ==> r@[j] == 42u8,
        decreases value.len() - i,
    {
        r.push(42u8);
        i += 1;
    }
    r
}

/// How the resolution of one chain ends, seen from outside.
pub open spec fn resolve_spec(sc: Scope, chain: Seq<char>, depth: nat) -> OutcomeView {
    match chain_in(sc.chains, chain) {
        None => OutcomeView::Failed(
            FailureView { trail: seq![StepView::Chain(chain)], cause: CauseView::NotFound },
        ),
        Some(c) => match resolve_chain(sc, c, Seq::empty(), 0, depth) {
            Flow::Next { value, pos } => OutcomeView::Done(value),
            Flow::Halt(Halt::Failed(f)) => OutcomeView::Failed(f),
            Flow::Halt(Halt::Pending(a)) => OutcomeView::Pending(a),
        },
    }
}

impl<P> TemplateContext<P> {
    /// Resolves the chain with the given id, with the answers given so far.
    ///
    /// The chain is looked up in the collection; one more chain is opened,
    /// which fails where the maximum depth is reached; the source gives its
    /// raw value; the selector and the trim policy are applied. Overrides
    /// play no part. The number of open chains is the same afterwards,
    /// however the resolution ends.
    pub fn resolve(&mut self, chain: &str, answers: &Vec<Answer>) -> (out: Outcome)
        ensures
            out@ == resolve_spec(old(self).scope(answers@), chain@, old(self).recursion_count as nat),
            *final(self) == *old(self),
    {
        let mut count = self.recursion_count;
        let engine = Engine {
            collection: &self.collection,
            profile: &self.selected_profile,
            overrides: &self.overrides,
            answers,
            max_depth: self.max_depth,
            seed: self.seed.0,
        };
        let key = KeyRef { chain: chain.to_owned(), path: Vec::new() };
        match resolve_key(&engine, &key, 0, &mut count) {
            Progress::Next(value, _) => Outcome::Done(value),
            Progress::Halt(Stop::Failed(e)) => Outcome::Failed(e),
            Progress::Halt(Stop::Pending(a)) => Outcome::Pending(a),
        }
    }
}

impl Template {
    /// Renders the template with the answers given so far.
    ///
    /// Literal text is copied byte for byte. A reference whose chain id has
    /// an override yields the override; any other yields the value of its
    /// chain. The results are joined in the order of the segments. The first
    /// failure ends the render, and so does the first action whose answer is
    /// not among `answers`: it is returned as pending, and nothing of the
    /// text rendered so far is.
    pub fn render<P>(&self, context: &mut TemplateContext<P>, answers: &Vec<Answer>) -> (out:
        Outcome)
        ensures
            out@ == render_spec(
                old(context).scope(answers@),
                *self,
                old(context).recursion_count as nat,
            ),
            *final(context) == *old(context),
    {
        let mut count = context.recursion_count;
        let engine = Engine {
            collection: &context.collection,
            profile: &context.selected_profile,
            overrides: &context.overrides,
            answers,
            max_depth: context.max_depth,
            seed: context.seed.0,
        };
        let r = render_segments(&engine, &self.segments, 0, &mut count);
        match r {
            Progress::Next(value, _) => Outcome::Done(value),
            Progress::Halt(Stop::Failed(e)) => Outcome::Failed(e),
            Progress::Halt(Stop::Pending(a)) => Outcome::Pending(a),
        }
    }
}

} // verus!
