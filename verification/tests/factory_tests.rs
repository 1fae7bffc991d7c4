use recipe_chains::collection::{
    Chain, ChainSource, Collection, Folder, Method, Profile, Recipe, RecipeTree, Section, Trim,
    TriggerPolicy,
};
use recipe_chains::factory::Factory;
use recipe_chains::http::{header_map, try_header_map, Request, RequestId, RequestRecord, Response};
use recipe_chains::prompter::{Prompt, Prompter, TestPrompter};
use recipe_chains::render::{TemplateContext, DEFAULT_MAX_DEPTH};
use recipe_chains::template::Template;

#[test]
fn collection_factory_is_empty() {
    let c = Collection::factory();
    assert!(c.profiles.is_empty());
    assert!(c.chains.is_empty());
    assert_eq!(c.recipes, RecipeTree::default());
}

#[test]
fn profile_and_folder_factories() {
    let p = Profile::factory();
    assert_eq!(p, Profile { id: "profile1".to_string(), name: None, data: vec![] });
    let f = Folder::factory();
    assert_eq!(f, Folder { id: "folder1".to_string(), name: None, children: vec![] });
}

#[test]
fn recipe_factory() {
    let r = Recipe::factory();
    assert_eq!(
        r,
        Recipe {
            id: "recipe1".to_string(),
            name: None,
            method: Method::Get,
            url: Template::parse("http://localhost/url").unwrap(),
            body: None,
            query: vec![],
            headers: vec![],
        }
    );
}

#[test]
fn chain_factory() {
    let c = Chain::factory();
    assert_eq!(
        c,
        Chain {
            id: "chain1".to_string(),
            source: ChainSource::Request {
                recipe: "recipe1".to_string(),
                trigger: TriggerPolicy::Never,
                section: Section::Body,
            },
            sensitive: false,
            selector: None,
            content_type: None,
            trim: Trim::Neither,
        }
    );
    assert_eq!(TriggerPolicy::default(), TriggerPolicy::Never);
    assert_eq!(Section::default(), Section::Body);
    assert_eq!(Trim::default(), Trim::Neither);
}

#[test]
fn request_factory() {
    let r = Request::factory();
    assert_eq!(r.profile_id, None);
    assert_eq!(r.recipe_id, "recipe1");
    assert_eq!(r.method, Method::Get);
    assert_eq!(r.url, b"http://localhost/url".to_vec());
    assert!(r.query.is_empty());
    assert!(r.headers.is_empty());
    assert_eq!(r.body, None);
}

#[test]
fn request_ids_are_random_version_4_uuids() {
    let a = RequestId::new();
    let b = RequestId::new();
    assert_ne!(a, b);
    assert_ne!(Request::factory().id, Request::factory().id);
    // version 4, variant 1
    assert_eq!((a.0 >> 76) & 0xf, 4);
    assert_eq!((a.0 >> 62) & 0x3, 2);
}

#[test]
fn response_factory() {
    assert_eq!(Response::factory(), Response { status: 200, headers: vec![], body: vec![] });
}

#[test]
fn request_record_factory() {
    let r = RequestRecord::factory();
    assert_eq!(r.id, r.request.id);
    assert_eq!(r.request.recipe_id, "recipe1");
    assert_eq!(r.response, Response::factory());
    // a time of this century, in milliseconds
    assert!(r.start_time > 1_600_000_000_000);
    assert!(r.start_time < 4_102_444_800_000);
    assert!(r.start_time <= r.end_time);
    assert!(r.end_time - r.start_time < 60_000);
}

#[test]
fn template_context_factory() {
    let ctx = TemplateContext::<TestPrompter>::factory();
    assert!(ctx.collection.chains.is_empty());
    assert_eq!(ctx.selected_profile, None);
    assert!(ctx.overrides.is_empty());
    assert_eq!(ctx.recursion_count, 0);
    assert_eq!(ctx.max_depth, DEFAULT_MAX_DEPTH);
    assert_eq!(ctx.max_depth, 10);
    let prompt = Prompt { label: "l".to_string(), default: None };
    assert_eq!(ctx.prompter.prompt(&prompt), None);
}

#[test]
fn test_prompter_replies_with_value_or_default() {
    let with_default = Prompt { label: "l".to_string(), default: Some("d".to_string()) };
    let without = Prompt { label: "l".to_string(), default: None };
    let fixed = TestPrompter::new(Some("v".to_string()));
    assert_eq!(fixed.prompt(&with_default), Some("v".to_string()));
    assert_eq!(fixed.prompt(&without), Some("v".to_string()));
    let silent = TestPrompter::new(None);
    assert_eq!(silent.prompt(&with_default), Some("d".to_string()));
    assert_eq!(silent.prompt(&without), None);
    assert_eq!(TestPrompter::default().prompt(&without), None);
}

#[test]
fn header_map_normalises_names_and_keeps_order() {
    let headers = header_map(&vec![
        ("Content-Type", "application/json"),
        ("X-Custom_Header", "Value With Caps"),
        ("accept", "*/*"),
        ("Accept", "text/html"),
    ]);
    assert_eq!(
        headers,
        vec![
            ("content-type".to_string(), b"application/json".to_vec()),
            ("x-custom_header".to_string(), b"Value With Caps".to_vec()),
            ("accept".to_string(), b"*/*".to_vec()),
            ("accept".to_string(), b"text/html".to_vec()),
        ]
    );
    assert_eq!(header_map(&vec![]), vec![]);
}

#[test]
fn try_header_map_refuses_bad_names_and_values() {
    assert_eq!(
        try_header_map(&vec![("Host", "example.org")]),
        Some(vec![("host".to_string(), b"example.org".to_vec())])
    );
    assert_eq!(try_header_map(&vec![("ok", "v"), ("bad name", "v")]), None);
    assert_eq!(try_header_map(&vec![("", "v")]), None);
    assert_eq!(try_header_map(&vec![("na:me", "v")]), None);
    assert_eq!(try_header_map(&vec![("name", "line\nbreak")]), None);
    assert_eq!(try_header_map(&vec![("name", "del\x7f")]), None);
    assert_eq!(
        try_header_map(&vec![("name", "tab\tand é")]),
        Some(vec![("name".to_string(), "tab\tand é".as_bytes().to_vec())])
    );
}
