//! Placeholder values of the crate's types, for tests and examples.
//!
//! A factory differs from `Default` in that its value is meant to be
//! recognised, not to be neutral: a recipe that is called `recipe1`, a chain
//! that points at it.

use vstd::prelude::*;
use vstd::string::*;
use crate::collection::{
    Chain, ChainSource, Collection, Folder, Method, Profile, Recipe, RecipeNode, Section,
    TriggerPolicy, Trim,
};
use crate::http::{Request, RequestId, RequestRecord, Response};
use crate::outside::{is_uuid_v4, no_entries, override_entries, random_uuid, utc_now_millis};
use crate::prompter::TestPrompter;
use crate::render::{TemplateContext, DEFAULT_MAX_DEPTH};
use crate::template::{no_braces, parse_spec, ParseError, SegmentView, Template};
use crate::text::utf8;

verus! {

/// Builds a placeholder instance of a type.
pub trait Factory: Sized {
    fn factory() -> Self;
}

/// The URL of the placeholder recipe and request.
pub open spec fn factory_url() -> Seq<char> {
    "http://localhost/url"@
}

proof fn lemma_factory_url()
    ensures
        factory_url().len() == 20,
        no_braces(factory_url()),
{
    reveal_strlit("http://localhost/url");
    let s = factory_url();
    assert forall|i: int| 0 <= i < s.len() implies #[trigger] s[i] != '{' && s[i] != '}' by {
        if i < 10 {
            if i < 5 {
            } else {
            }
        } else {
            if i < 15 {
            } else {
            }
        }
    }
}

impl Factory for Collection {
    /// The empty collection.
    fn factory() -> (r: Self)
        ensures
            r.profiles@.len() == 0,
            r.chains@.len() == 0,
            r.recipes.nodes() == Seq::<RecipeNode>::empty(),
    {
        Collection::default()
    }
}

impl Factory for Profile {
    fn factory() -> (r: Self)
        ensures
            r.id@ == "profile1"@,
            r.name is None,
            r.data@.len() == 0,
    {
        Profile { id: "profile1".to_owned(), name: None, data: Vec::new() }
    }
}

impl Factory for Folder {
    fn factory() -> (r: Self)
        ensures
            r.id@ == "folder1"@,
            r.name is None,
            r.children@.len() == 0,
    {
        Folder { id: "folder1".to_owned(), name: None, children: Vec::new() }
    }
}

impl Factory for Recipe {
    /// A `GET` of `http://localhost/url`, without parameters, headers or
    /// body. The URL is what parsing that text gives.
    fn factory() -> (r: Self)
        ensures
            r.id@ == "recipe1"@,
            r.name is None,
            r.method == Method::Get,
            r.url@ == seq![SegmentView::Literal(factory_url())],
            parse_spec(factory_url()) == Ok::<Seq<SegmentView>, ParseError>(r.url@),
            r.body is None,
            r.query@.len() == 0,
            r.headers@.len() == 0,
    {
        proof {
            lemma_factory_url();
        }
        Recipe {
            id: "recipe1".to_owned(),
            name: None,
            method: Method::Get,
            url: Template::literal("http://localhost/url"),
            body: None,
            query: Vec::new(),
            headers: Vec::new(),
        }
    }
}

impl Factory for Chain {
    /// A chain on the body of the placeholder recipe's response, under the
    /// default trigger policy.
    fn factory() -> (r: Self)
        ensures
            r.id@ == "chain1"@,
            r.source matches ChainSource::Request { recipe, trigger, section } && recipe@
                == "recipe1"@ && trigger == TriggerPolicy::Never && section == Section::Body,
            !r.sensitive,
            r.selector is None,
            r.content_type is None,
            r.trim == Trim::Neither,
    {
        Chain {
            id: "chain1".to_owned(),
            source: ChainSource::Request {
                recipe: "recipe1".to_owned(),
                trigger: TriggerPolicy::default(),
                section: Section::default(),
            },
            sensitive: false,
            selector: None,
            content_type: None,
            trim: Trim::default(),
        }
    }
}

impl RequestId {
    /// A new random id: a version 4 UUID as a number.
    pub fn new() -> (id: RequestId)
        ensures
            is_uuid_v4(id.0),
    {
        RequestId(random_uuid())
    }
}

/// What holds of every placeholder request, whatever its id is.
pub open spec fn is_factory_request(r: Request) -> bool {
    &&& r.profile_id is None
    &&& r.recipe_id@ == "recipe1"@
    &&& r.method == Method::Get
    &&& r.url@ == utf8(factory_url())
    &&& r.query@.len() == 0
    &&& r.headers@.len() == 0
    &&& r.body is None
}

/// What holds of every placeholder response.
pub open spec fn is_factory_response(r: Response) -> bool {
    &&& r.status == 200
    &&& r.headers@.len() == 0
    &&& r.body@.len() == 0
}

impl Factory for Request {
    /// A `GET` of `http://localhost/url` for `recipe1`, under a new random
    /// id.
    fn factory() -> (r: Self)
        ensures
            is_factory_request(r),
    {
        let url = crate::text::string_bytes(&"http://localhost/url".to_owned());
        Request {
            id: RequestId::new(),
            profile_id: None,
            recipe_id: "recipe1".to_owned(),
            method: Method::Get,
            url,
            query: Vec::new(),
            headers: Vec::new(),
            body: None,
        }
    }
}

impl Factory for Response {
    /// An empty response with status 200.
    fn factory() -> (r: Self)
        ensures
            is_factory_response(r),
    {
        Response { status: 200, headers: Vec::new(), body: Vec::new() }
    }
}

impl Factory for RequestRecord {
    /// The placeholder request and response, recorded under the request's
    /// id at the time of the call.
    fn factory() -> (r: Self)
        ensures
            r.id == r.request.id,
            is_factory_request(r.request),
            is_factory_response(r.response),
    {
        let request = Request::factory();
        let response = Response::factory();
        let start_time = utc_now_millis();
        let end_time = utc_now_millis();
        RequestRecord { id: request.id, request, response, start_time, end_time }
    }
}

impl Factory for TemplateContext<TestPrompter> {
    /// A context over the empty collection: no profile, no overrides, a
    /// prompter without a value, no chain open, the default depth, and a
    /// random seed.
    fn factory() -> (r: Self)
        ensures
            r.collection.profiles@.len() == 0,
            r.collection.chains@.len() == 0,
            r.collection.recipes.nodes() == Seq::<RecipeNode>::empty(),
            r.selected_profile is None,
            override_entries(r.overrides) == no_entries(),
            r.prompter.value() is None,
            r.recursion_count == 0,
            r.max_depth == DEFAULT_MAX_DEPTH,
    {
        TemplateContext::new(Collection::default(), TestPrompter::default(), RequestId::new())
    }
}

} // verus!
