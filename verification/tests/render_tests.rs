use indexmap::IndexMap;
use recipe_chains::collection::{
    Chain, ChainSource, Collection, ContentType, Folder, Method, Recipe, RecipeNode, RecipeTree,
    Section, Trim, TriggerPolicy,
};
use recipe_chains::exchange::{Action, Answer, ChainError, Field, Outcome, RenderError, Step};
use recipe_chains::http::{HttpError, Request, RequestId, RequestRecord, Response};
use recipe_chains::prompter::{Prompt, TestPrompter};
use recipe_chains::render::{echo, refine, TemplateContext};
use recipe_chains::select::SelectorError;
use recipe_chains::template::Template;
use recipe_chains::trigger::TriggerError;

const NOW: i64 = 1_700_000_000_000;

fn chain(id: &str, source: ChainSource) -> Chain {
    Chain {
        id: id.to_string(),
        source,
        sensitive: false,
        selector: None,
        content_type: None,
        trim: Trim::Neither,
    }
}

fn request_chain(id: &str, recipe: &str, trigger: TriggerPolicy) -> Chain {
    chain(id, ChainSource::Request { recipe: recipe.to_string(), trigger, section: Section::Body })
}

fn env_chain(id: &str, variable: &str, default: Option<&str>) -> Chain {
    chain(
        id,
        ChainSource::Environment {
            variable: variable.to_string(),
            default: default.map(|s| s.to_string()),
        },
    )
}

fn file_chain(id: &str, path: &str) -> Chain {
    chain(id, ChainSource::File { path: path.to_string() })
}

fn recipe(id: &str, url: &str) -> Recipe {
    Recipe {
        id: id.to_string(),
        name: None,
        method: Method::Get,
        url: Template::parse(url).unwrap(),
        body: None,
        query: vec![],
        headers: vec![],
    }
}

fn context(chains: Vec<Chain>, recipes: Vec<Recipe>) -> TemplateContext<TestPrompter> {
    let nodes = recipes.into_iter().map(RecipeNode::Recipe).collect();
    TemplateContext {
        collection: Collection {
            profiles: vec![],
            chains,
            recipes: RecipeTree::new(nodes).unwrap(),
        },
        selected_profile: None,
        overrides: IndexMap::new(),
        prompter: TestPrompter::new(None),
        recursion_count: 0,
        max_depth: 10,
        seed: RequestId(1000),
    }
}

fn render(ctx: &mut TemplateContext<TestPrompter>, template: &str, answers: &[Answer]) -> Outcome {
    let answers: Vec<Answer> = answers.iter().map(copy_answer).collect();
    let out = Template::parse(template).unwrap().render(ctx, &answers);
    assert_eq!(ctx.recursion_count, 0);
    out
}

fn copy_response(r: &Response) -> Response {
    Response { status: r.status, headers: r.headers.clone(), body: r.body.clone() }
}

fn copy_request(r: &Request) -> Request {
    Request {
        id: r.id,
        profile_id: r.profile_id.clone(),
        recipe_id: r.recipe_id.clone(),
        method: r.method,
        url: r.url.clone(),
        query: r.query.clone(),
        headers: r.headers.clone(),
        body: r.body.clone(),
    }
}

fn copy_answer(a: &Answer) -> Answer {
    match a {
        Answer::Latest { record, now } => Answer::Latest {
            record: record.as_ref().map(|r| RequestRecord {
                id: r.id,
                request: copy_request(&r.request),
                response: copy_response(&r.response),
                start_time: r.start_time,
                end_time: r.end_time,
            }),
            now: *now,
        },
        Answer::Sent { result, start_time, end_time } => Answer::Sent {
            result: match result {
                Ok(r) => Ok(copy_response(r)),
                Err(e) => Err(e.clone()),
            },
            start_time: *start_time,
            end_time: *end_time,
        },
        Answer::Stored => Answer::Stored,
        Answer::Ran { output } => Answer::Ran { output: output.clone() },
        Answer::FileRead { content } => Answer::FileRead { content: content.clone() },
        Answer::Asked { reply } => Answer::Asked { reply: reply.clone() },
        Answer::EnvRead { value } => Answer::EnvRead { value: value.clone() },
    }
}

fn done(text: &str) -> Outcome {
    Outcome::Done(text.as_bytes().to_vec())
}

fn failed(trail: Vec<Step>, cause: ChainError) -> Outcome {
    Outcome::Failed(RenderError { trail, cause })
}

fn in_chain(id: &str) -> Step {
    Step::Chain(id.to_string())
}

fn response(status: u16, body: &str) -> Response {
    Response {
        status,
        headers: vec![("content-type".to_string(), b"application/json".to_vec())],
        body: body.as_bytes().to_vec(),
    }
}

fn record(start_time: i64, body: &str) -> RequestRecord {
    RequestRecord {
        id: RequestId(7),
        request: Request {
            id: RequestId(7),
            profile_id: None,
            recipe_id: "recipe1".to_string(),
            method: Method::Get,
            url: b"http://localhost/url".to_vec(),
            query: vec![],
            headers: vec![],
            body: None,
        },
        response: response(200, body),
        start_time,
        end_time: start_time + 5,
    }
}

fn sent(body: &str) -> Answer {
    Answer::Sent { result: Ok(response(200, body)), start_time: NOW, end_time: NOW + 20 }
}

#[test]
fn literal_template_renders_to_itself() {
    let mut ctx = context(vec![], vec![]);
    assert_eq!(render(&mut ctx, "just text, {single} braces", &[]), done("just text, {single} braces"));
    assert_eq!(render(&mut ctx, "", &[]), done(""));
    assert_eq!(render(&mut ctx, "héllo", &[]), Outcome::Done("héllo".as_bytes().to_vec()));
}

#[test]
fn literal_template_ignores_answers_and_depth() {
    let mut ctx = context(vec![], vec![]);
    ctx.max_depth = 0;
    let answers = vec![Answer::Stored, Answer::EnvRead { value: None }];
    let out = Template::parse("text").unwrap().render(&mut ctx, &answers);
    assert_eq!(out, done("text"));
}

#[test]
fn override_bypasses_a_failing_chain() {
    let mut ctx = context(vec![env_chain("var", "UNSET_VARIABLE", None)], vec![]);
    // without the override the chain asks for the variable, and fails when it is unset
    assert_eq!(
        render(&mut ctx, "a {{var}} b", &[]),
        Outcome::Pending(Action::ReadEnv { variable: "UNSET_VARIABLE".to_string() })
    );
    assert_eq!(
        render(&mut ctx, "a {{var}} b", &[Answer::EnvRead { value: None }]),
        failed(vec![in_chain("var")], ChainError::EnvUnset)
    );
    ctx.set_override("var".to_string(), "forced".to_string());
    assert_eq!(render(&mut ctx, "a {{var}} b", &[]), done("a forced b"));
}

#[test]
fn override_needs_no_chain_and_no_depth() {
    let mut ctx = context(vec![], vec![]);
    ctx.max_depth = 0;
    ctx.set_override("ghost".to_string(), " v ".to_string());
    assert_eq!(render(&mut ctx, "[{{ghost}}][{{ghost.a.b}}]", &[]), done("[ v ][ v ]"));
    // the override is looked up by the chain's id, not by its value
    ctx.set_override("other".to_string(), "ghost".to_string());
    assert_eq!(render(&mut ctx, "{{other}}", &[]), done("ghost"));
}

#[test]
fn unknown_chain_is_not_found() {
    let mut ctx = context(vec![file_chain("known", "f")], vec![]);
    assert_eq!(
        render(&mut ctx, "{{unknown}}", &[]),
        failed(vec![in_chain("unknown")], ChainError::NotFound)
    );
}

#[test]
fn self_referencing_chain_hits_the_limit() {
    let mut ctx = context(
        vec![request_chain("loop", "r", TriggerPolicy::Always)],
        vec![recipe("r", "http://host/{{loop}}")],
    );
    ctx.max_depth = 3;
    let url = Step::Field { recipe: "r".to_string(), field: Field::Url };
    assert_eq!(
        render(&mut ctx, "{{loop}}", &[]),
        failed(
            vec![
                in_chain("loop"),
                url.clone(),
                in_chain("loop"),
                url.clone(),
                in_chain("loop"),
                url.clone(),
                in_chain("loop"),
            ],
            ChainError::RecursionLimit
        )
    );
}

#[test]
fn transitive_cycle_hits_the_limit() {
    let mut ctx = context(
        vec![
            request_chain("a", "ra", TriggerPolicy::Always),
            request_chain("b", "rb", TriggerPolicy::Always),
        ],
        vec![recipe("ra", "{{b}}"), recipe("rb", "{{a}}")],
    );
    for max_depth in [0usize, 1, 2, 5, 10, 200] {
        ctx.max_depth = max_depth;
        match render(&mut ctx, "x{{a}}", &[]) {
            Outcome::Failed(e) => {
                assert_eq!(e.cause, ChainError::RecursionLimit);
                assert_eq!(e.trail.len(), 2 * max_depth + 1);
                assert_eq!(e.trail[0], in_chain("a"));
                let last = if max_depth % 2 == 0 { "a" } else { "b" };
                assert_eq!(e.trail[2 * max_depth], in_chain(last));
            }
            other => panic!("{:?}", other),
        }
    }
}

#[test]
fn depth_counts_open_chains_only() {
    // two sibling chains at the same level need one level, not two
    let mut ctx = context(vec![file_chain("f", "p"), file_chain("g", "q")], vec![]);
    ctx.max_depth = 1;
    let answers = [
        Answer::FileRead { content: Some(b"1".to_vec()) },
        Answer::FileRead { content: Some(b"2".to_vec()) },
    ];
    assert_eq!(render(&mut ctx, "{{f}}{{g}}{{f}}", &answers[..1]),
        Outcome::Pending(Action::ReadFile { path: "q".to_string() }));
    let three = [copy_answer(&answers[0]), copy_answer(&answers[1]), copy_answer(&answers[0])];
    assert_eq!(render(&mut ctx, "{{f}}{{g}}{{f}}", &three), done("121"));
    ctx.max_depth = 0;
    assert_eq!(
        render(&mut ctx, "{{f}}", &three),
        failed(vec![in_chain("f")], ChainError::RecursionLimit)
    );
}

#[test]
fn never_without_history_fails_and_sends_nothing() {
    let mut ctx = context(
        vec![request_chain("chain1", "recipe1", TriggerPolicy::Never)],
        vec![recipe("recipe1", "http://localhost/url")],
    );
    assert_eq!(
        render(&mut ctx, "{{chain1}}", &[]),
        Outcome::Pending(Action::GetLatest { profile: None, recipe: "recipe1".to_string() })
    );
    assert_eq!(
        render(&mut ctx, "{{chain1}}", &[Answer::Latest { record: None, now: NOW }]),
        failed(vec![in_chain("chain1")], ChainError::Trigger(TriggerError::NoHistory))
    );
}

#[test]
fn never_with_history_reuses() {
    let mut ctx = context(
        vec![request_chain("chain1", "recipe1", TriggerPolicy::Never)],
        vec![recipe("recipe1", "http://localhost/url")],
    );
    let latest = Answer::Latest { record: Some(record(0, "old")), now: NOW };
    assert_eq!(render(&mut ctx, "<{{chain1}}>", &[latest]), done("<old>"));
}

#[test]
fn expire_reuses_a_young_record() {
    let mut ctx = context(
        vec![request_chain("chain1", "recipe1", TriggerPolicy::Expire(2))],
        vec![recipe("recipe1", "http://localhost/url")],
    );
    let latest = Answer::Latest { record: Some(record(NOW - 1_000, "cached")), now: NOW };
    assert_eq!(render(&mut ctx, "{{chain1}}", &[latest]), done("cached"));
}

#[test]
fn expire_passes_over_an_old_record() {
    let mut ctx = context(
        vec![request_chain("chain1", "recipe1", TriggerPolicy::Expire(2))],
        vec![recipe("recipe1", "http://localhost/url")],
    );
    let latest = Answer::Latest { record: Some(record(NOW - 3_000, "cached")), now: NOW };
    let built = Request {
        id: RequestId(1001),
        profile_id: None,
        recipe_id: "recipe1".to_string(),
        method: Method::Get,
        url: b"http://localhost/url".to_vec(),
        query: vec![],
        headers: vec![],
        body: None,
    };
    assert_eq!(
        render(&mut ctx, "{{chain1}}", &[copy_answer(&latest)]),
        Outcome::Pending(Action::Send { request: copy_request(&built) })
    );
    assert_eq!(
        render(&mut ctx, "{{chain1}}", &[copy_answer(&latest), sent("fresh")]),
        Outcome::Pending(Action::Store {
            record: RequestRecord {
                id: RequestId(1001),
                request: built,
                response: response(200, "fresh"),
                start_time: NOW,
                end_time: NOW + 20,
            }
        })
    );
    assert_eq!(
        render(&mut ctx, "{{chain1}}", &[latest, sent("fresh"), Answer::Stored]),
        done("fresh")
    );
}

#[test]
fn no_history_policy() {
    let mut ctx = context(
        vec![request_chain("chain1", "recipe1", TriggerPolicy::NoHistory)],
        vec![recipe("recipe1", "http://localhost/url")],
    );
    let found = Answer::Latest { record: Some(record(0, "kept")), now: NOW };
    assert_eq!(render(&mut ctx, "{{chain1}}", &[found]), done("kept"));
    let none = Answer::Latest { record: None, now: NOW };
    match render(&mut ctx, "{{chain1}}", &[none]) {
        Outcome::Pending(Action::Send { request }) => assert_eq!(request.recipe_id, "recipe1"),
        other => panic!("{:?}", other),
    }
}

#[test]
fn always_policy_skips_the_lookup() {
    let mut ctx = context(
        vec![request_chain("chain1", "recipe1", TriggerPolicy::Always)],
        vec![recipe("recipe1", "http://localhost/url")],
    );
    ctx.selected_profile = Some("profile1".to_string());
    match render(&mut ctx, "{{chain1}}", &[]) {
        Outcome::Pending(Action::Send { request }) => {
            assert_eq!(request.id, RequestId(1000));
            assert_eq!(request.profile_id, Some("profile1".to_string()));
        }
        other => panic!("{:?}", other),
    }
    assert_eq!(render(&mut ctx, "{{chain1}}", &[sent("body"), Answer::Stored]), done("body"));
}

#[test]
fn request_id_wraps_around() {
    let mut ctx = context(
        vec![request_chain("chain1", "recipe1", TriggerPolicy::NoHistory)],
        vec![recipe("recipe1", "u")],
    );
    ctx.seed = RequestId(u128::MAX);
    match render(&mut ctx, "{{chain1}}", &[Answer::Latest { record: None, now: NOW }]) {
        Outcome::Pending(Action::Send { request }) => assert_eq!(request.id, RequestId(0)),
        other => panic!("{:?}", other),
    }
}

#[test]
fn http_error_is_reported() {
    let mut ctx = context(
        vec![request_chain("chain1", "recipe1", TriggerPolicy::Always)],
        vec![recipe("recipe1", "http://localhost/url")],
    );
    let refused = Answer::Sent {
        result: Err(HttpError { message: "connection refused".to_string() }),
        start_time: NOW,
        end_time: NOW,
    };
    assert_eq!(
        render(&mut ctx, "{{chain1}}", &[refused]),
        failed(
            vec![in_chain("chain1")],
            ChainError::Http(HttpError { message: "connection refused".to_string() })
        )
    );
}

#[test]
fn unknown_recipe_is_reported() {
    let mut ctx = context(vec![request_chain("chain1", "missing", TriggerPolicy::Always)], vec![]);
    assert_eq!(
        render(&mut ctx, "{{chain1}}", &[]),
        failed(vec![in_chain("chain1")], ChainError::RecipeNotFound)
    );
}

#[test]
fn selector_and_trim() {
    let mut c = request_chain("chain1", "recipe1", TriggerPolicy::Never);
    c.selector = Some(vec!["a".to_string()]);
    c.content_type = Some(ContentType::Json);
    c.trim = Trim::Both;
    let mut ctx = context(vec![c], vec![recipe("recipe1", "http://localhost/url")]);
    let latest = Answer::Latest { record: Some(record(0, "  {\"a\":\"x\"}  ")), now: NOW };
    assert_eq!(render(&mut ctx, "{{chain1}}", &[latest]), done("x"));
}

#[test]
fn selector_then_trim_then_field_path() {
    let mut c = file_chain("f", "data.json");
    c.selector = Some(vec!["outer".to_string()]);
    c.content_type = Some(ContentType::Json);
    c.trim = Trim::Both;
    let mut ctx = context(vec![c], vec![]);
    let file = Answer::FileRead {
        content: Some(br#"{"outer": "  {\"inner\": [10, \" y \"]}  "}"#.to_vec()),
    };
    assert_eq!(render(&mut ctx, "{{f}}", &[copy_answer(&file)]), done("{\"inner\": [10, \" y \"]}"));
    assert_eq!(render(&mut ctx, "{{f.inner.0}}", &[copy_answer(&file)]), done("10"));
    assert_eq!(render(&mut ctx, "{{f.inner.1}}", &[copy_answer(&file)]), done(" y "));
    assert_eq!(
        render(&mut ctx, "{{f.nothing}}", &[file]),
        failed(vec![in_chain("f")], ChainError::Selector(SelectorError::NoMatch))
    );
}

#[test]
fn selector_errors() {
    let mut c = file_chain("f", "p");
    c.selector = Some(vec!["a".to_string()]);
    let mut ctx = context(vec![c], vec![]);
    let file = Answer::FileRead { content: Some(b"{\"a\": 1}".to_vec()) };
    assert_eq!(
        render(&mut ctx, "{{f}}", &[copy_answer(&file)]),
        failed(vec![in_chain("f")], ChainError::Selector(SelectorError::NoContentType))
    );
    ctx.collection.chains[0].content_type = Some(ContentType::Json);
    assert_eq!(render(&mut ctx, "{{f}}", &[file]), done("1"));
    let broken = Answer::FileRead { content: Some(b"{\"a\": ".to_vec()) };
    assert_eq!(
        render(&mut ctx, "{{f}}", &[broken]),
        failed(vec![in_chain("f")], ChainError::Selector(SelectorError::InvalidContent))
    );
}

#[test]
fn refine_orders_selector_before_trim() {
    let mut c = file_chain("f", "p");
    c.trim = Trim::Start;
    assert_eq!(refine(&c, &vec![], b"  v  ".to_vec()), Ok(b"v  ".to_vec()));
    c.selector = Some(vec![]);
    c.content_type = Some(ContentType::Json);
    assert_eq!(refine(&c, &vec![], b" \" v \" ".to_vec()), Ok(b"v ".to_vec()));
}

#[test]
fn sensitive_chain_contributes_the_same_bytes() {
    let answers = [Answer::FileRead { content: Some(b"s3cret".to_vec()) }];
    let mut plain = context(vec![file_chain("f", "p")], vec![]);
    let mut c = file_chain("f", "p");
    c.sensitive = true;
    let mut secret = context(vec![c], vec![]);
    assert_eq!(render(&mut plain, "key={{f}}", &answers), render(&mut secret, "key={{f}}", &answers));
    assert_eq!(render(&mut secret, "key={{f}}", &answers), done("key=s3cret"));
    assert_eq!(render(&mut plain, "key={{f}}", &[]), render(&mut secret, "key={{f}}", &[]));
}

#[test]
fn sensitive_value_is_masked_when_shown() {
    let mut c = file_chain("f", "p");
    assert_eq!(echo(&c, &b"s3cret".to_vec()), b"s3cret".to_vec());
    c.sensitive = true;
    assert_eq!(echo(&c, &b"s3cret".to_vec()), b"******".to_vec());
    assert_eq!(echo(&c, &vec![]), Vec::<u8>::new());
}

#[test]
fn command_source() {
    let mut ctx = context(
        vec![chain(
            "cmd",
            ChainSource::Command {
                program: "echo".to_string(),
                arguments: vec!["-n".to_string(), "hi".to_string()],
            },
        )],
        vec![],
    );
    assert_eq!(
        render(&mut ctx, "{{cmd}}", &[]),
        Outcome::Pending(Action::Run {
            program: "echo".to_string(),
            arguments: vec!["-n".to_string(), "hi".to_string()]
        })
    );
    assert_eq!(render(&mut ctx, "{{cmd}}!", &[Answer::Ran { output: Some(b"hi".to_vec()) }]), done("hi!"));
    assert_eq!(
        render(&mut ctx, "{{cmd}}", &[Answer::Ran { output: None }]),
        failed(vec![in_chain("cmd")], ChainError::CommandFailed)
    );
}

#[test]
fn file_source() {
    let mut ctx = context(vec![file_chain("f", "dir/data.txt")], vec![]);
    assert_eq!(
        render(&mut ctx, "{{f}}", &[]),
        Outcome::Pending(Action::ReadFile { path: "dir/data.txt".to_string() })
    );
    assert_eq!(
        render(&mut ctx, "{{f}}", &[Answer::FileRead { content: Some(vec![0xff, 0x00]) }]),
        Outcome::Done(vec![0xff, 0x00])
    );
    assert_eq!(
        render(&mut ctx, "{{f}}", &[Answer::FileRead { content: None }]),
        failed(vec![in_chain("f")], ChainError::Io)
    );
}

#[test]
fn prompt_source() {
    let mut ctx = context(
        vec![
            chain("p", ChainSource::Prompt { label: Some("Password".to_string()), default: None }),
            chain("q", ChainSource::Prompt { label: None, default: Some("dflt".to_string()) }),
        ],
        vec![],
    );
    let ask_p = Prompt { label: "Password".to_string(), default: None };
    let ask_q = Prompt { label: "q".to_string(), default: Some("dflt".to_string()) };
    assert_eq!(render(&mut ctx, "{{p}}", &[]), Outcome::Pending(Action::Ask { prompt: ask_p.clone() }));
    assert_eq!(render(&mut ctx, "{{q}}", &[]), Outcome::Pending(Action::Ask { prompt: ask_q.clone() }));
    // a prompter without a value answers with the default, or not at all
    assert_eq!(ctx.ask(&ask_p), Answer::Asked { reply: None });
    assert_eq!(ctx.ask(&ask_q), Answer::Asked { reply: Some("dflt".to_string()) });
    let reply_p = ctx.ask(&ask_p);
    assert_eq!(
        render(&mut ctx, "{{p}}", &[reply_p]),
        failed(vec![in_chain("p")], ChainError::PromptUnavailable)
    );
    let reply_q = ctx.ask(&ask_q);
    assert_eq!(render(&mut ctx, "{{q}}", &[reply_q]), done("dflt"));
    ctx.prompter = TestPrompter::new(Some("typed".to_string()));
    let reply_p = ctx.ask(&ask_p);
    assert_eq!(render(&mut ctx, "{{p}}", &[reply_p]), done("typed"));
}

#[test]
fn environment_source() {
    let mut ctx = context(
        vec![env_chain("e", "HOME_DIR", None), env_chain("d", "OTHER", Some("fallback"))],
        vec![],
    );
    let set = Answer::EnvRead { value: Some("/home/u".to_string()) };
    let unset = Answer::EnvRead { value: None };
    assert_eq!(render(&mut ctx, "{{e}}", &[copy_answer(&set)]), done("/home/u"));
    assert_eq!(
        render(&mut ctx, "{{e}}", &[copy_answer(&unset)]),
        failed(vec![in_chain("e")], ChainError::EnvUnset)
    );
    assert_eq!(render(&mut ctx, "{{d}}", &[set]), done("/home/u"));
    assert_eq!(render(&mut ctx, "{{d}}", &[unset]), done("fallback"));
}

#[test]
fn answer_of_the_wrong_kind() {
    let mut ctx = context(vec![file_chain("f", "p")], vec![]);
    assert_eq!(
        render(&mut ctx, "{{f}}", &[Answer::Stored]),
        failed(vec![in_chain("f")], ChainError::UnexpectedAnswer)
    );
    let mut ctx = context(
        vec![request_chain("c", "r", TriggerPolicy::Always)],
        vec![recipe("r", "u")],
    );
    assert_eq!(
        render(&mut ctx, "{{c}}", &[Answer::Stored]),
        failed(vec![in_chain("c")], ChainError::UnexpectedAnswer)
    );
    assert_eq!(
        render(&mut ctx, "{{c}}", &[sent("x"), sent("y")]),
        failed(vec![in_chain("c")], ChainError::UnexpectedAnswer)
    );
}

#[test]
fn pending_returns_no_partial_text() {
    let mut ctx = context(vec![file_chain("f", "p")], vec![]);
    assert_eq!(
        render(&mut ctx, "a long prefix {{f}} and a suffix", &[]),
        Outcome::Pending(Action::ReadFile { path: "p".to_string() })
    );
}

#[test]
fn nested_request_is_built_in_field_order() {
    let mut r = recipe("login", "http://{{host}}/login");
    r.method = Method::Post;
    r.query = vec![("q".to_string(), Template::parse("{{user}}-1").unwrap())];
    r.headers = vec![
        ("X-Static".to_string(), Template::parse("yes").unwrap()),
        ("X-User".to_string(), Template::parse("{{user}}").unwrap()),
    ];
    r.body = Some(Template::parse("{\"pw\": \"{{pw}}\"}").unwrap());
    let mut token = chain(
        "token",
        ChainSource::Request {
            recipe: "login".to_string(),
            trigger: TriggerPolicy::Always,
            section: Section::Header("x-token".to_string()),
        },
    );
    token.trim = Trim::Both;
    let mut ctx = context(
        vec![
            token,
            env_chain("host", "HOST", None),
            file_chain("user", "user.txt"),
            chain("pw", ChainSource::Prompt { label: None, default: None }),
        ],
        vec![r],
    );
    let host = Answer::EnvRead { value: Some("example.org".to_string()) };
    let user = Answer::FileRead { content: Some(b"alice".to_vec()) };
    let pw = Answer::Asked { reply: Some("hunter2".to_string()) };

    let template = "Authorization: Bearer {{token}}";
    assert_eq!(render(&mut ctx, template, &[]),
        Outcome::Pending(Action::ReadEnv { variable: "HOST".to_string() }));
    assert_eq!(render(&mut ctx, template, &[copy_answer(&host)]),
        Outcome::Pending(Action::ReadFile { path: "user.txt".to_string() }));
    // the chain `user` is resolved once for each reference
    let so_far = [copy_answer(&host), copy_answer(&user), copy_answer(&user)];
    assert_eq!(render(&mut ctx, template, &so_far),
        Outcome::Pending(Action::Ask { prompt: Prompt { label: "pw".to_string(), default: None } }));
    let so_far = [copy_answer(&host), copy_answer(&user), copy_answer(&user), copy_answer(&pw)];
    let expected = Request {
        id: RequestId(1004),
        profile_id: None,
        recipe_id: "login".to_string(),
        method: Method::Post,
        url: b"http://example.org/login".to_vec(),
        query: vec![("q".to_string(), b"alice-1".to_vec())],
        headers: vec![
            ("X-Static".to_string(), b"yes".to_vec()),
            ("X-User".to_string(), b"alice".to_vec()),
        ],
        body: Some(b"{\"pw\": \"hunter2\"}".to_vec()),
    };
    assert_eq!(render(&mut ctx, template, &so_far), Outcome::Pending(Action::Send { request: expected }));
    let reply = Answer::Sent {
        result: Ok(Response {
            status: 201,
            headers: vec![
                ("content-length".to_string(), b"0".to_vec()),
                ("X-Token".to_string(), b" abc123 ".to_vec()),
                ("x-token".to_string(), b"second".to_vec()),
            ],
            body: vec![],
        }),
        start_time: NOW,
        end_time: NOW + 1,
    };
    let all = [host, copy_answer(&user), user, pw, reply, Answer::Stored];
    assert_eq!(render(&mut ctx, template, &all), done("Authorization: Bearer abc123"));
}

#[test]
fn nested_failure_names_the_whole_path() {
    let mut r = recipe("r", "http://localhost/");
    r.query = vec![("a".to_string(), Template::parse("1").unwrap())];
    r.headers = vec![
        ("h0".to_string(), Template::parse("v").unwrap()),
        ("h1".to_string(), Template::parse("{{inner}}").unwrap()),
    ];
    let mut ctx = context(
        vec![request_chain("outer", "r", TriggerPolicy::Always), file_chain("inner", "p")],
        vec![r],
    );
    assert_eq!(
        render(&mut ctx, "{{outer}}", &[Answer::FileRead { content: None }]),
        failed(
            vec![
                in_chain("outer"),
                Step::Field { recipe: "r".to_string(), field: Field::Header(1) },
                in_chain("inner"),
            ],
            ChainError::Io
        )
    );
    ctx.collection.chains.pop();
    assert_eq!(
        render(&mut ctx, "{{outer}}", &[]),
        failed(
            vec![
                in_chain("outer"),
                Step::Field { recipe: "r".to_string(), field: Field::Header(1) },
                in_chain("inner"),
            ],
            ChainError::NotFound
        )
    );
}

#[test]
fn failure_in_query_and_body_fields() {
    let mut r = recipe("r", "u");
    r.query = vec![
        ("a".to_string(), Template::parse("1").unwrap()),
        ("b".to_string(), Template::parse("{{nope}}").unwrap()),
    ];
    let mut ctx = context(vec![request_chain("c", "r", TriggerPolicy::Always)], vec![r]);
    assert_eq!(
        render(&mut ctx, "{{c}}", &[]),
        failed(
            vec![
                in_chain("c"),
                Step::Field { recipe: "r".to_string(), field: Field::Query(1) },
                in_chain("nope")
            ],
            ChainError::NotFound
        )
    );
    let mut r = recipe("r", "u");
    r.body = Some(Template::parse("{{nope}}").unwrap());
    let mut ctx = context(vec![request_chain("c", "r", TriggerPolicy::Always)], vec![r]);
    assert_eq!(
        render(&mut ctx, "{{c}}", &[]),
        failed(
            vec![
                in_chain("c"),
                Step::Field { recipe: "r".to_string(), field: Field::Body },
                in_chain("nope")
            ],
            ChainError::NotFound
        )
    );
}

#[test]
fn sections_of_a_response() {
    let mut status = request_chain("status", "r", TriggerPolicy::Never);
    let mut header = request_chain("header", "r", TriggerPolicy::Never);
    let mut missing = request_chain("missing", "r", TriggerPolicy::Never);
    if let ChainSource::Request { section, .. } = &mut status.source {
        *section = Section::Status;
    }
    if let ChainSource::Request { section, .. } = &mut header.source {
        *section = Section::Header("Content-Type".to_string());
    }
    if let ChainSource::Request { section, .. } = &mut missing.source {
        *section = Section::Header("x-none".to_string());
    }
    let mut ctx = context(vec![status, header, missing], vec![recipe("r", "u")]);
    let latest = Answer::Latest { record: Some(record(0, "b")), now: NOW };
    assert_eq!(render(&mut ctx, "{{status}}", &[copy_answer(&latest)]), done("200"));
    assert_eq!(render(&mut ctx, "{{header}}", &[copy_answer(&latest)]), done("application/json"));
    assert_eq!(
        render(&mut ctx, "{{missing}}", &[latest]),
        failed(vec![in_chain("missing")], ChainError::Selector(SelectorError::NoMatch))
    );
}

#[test]
fn recipe_inside_a_folder_is_found() {
    let mut ctx = context(vec![request_chain("c", "deep", TriggerPolicy::Always)], vec![]);
    ctx.collection.recipes = RecipeTree::new(vec![RecipeNode::Folder(Folder {
        id: "folder1".to_string(),
        name: None,
        children: vec![RecipeNode::Folder(Folder {
            id: "folder2".to_string(),
            name: None,
            children: vec![RecipeNode::Recipe(recipe("deep", "http://deep/"))],
        })],
    })])
    .unwrap();
    match render(&mut ctx, "{{c}}", &[]) {
        Outcome::Pending(Action::Send { request }) => assert_eq!(request.url, b"http://deep/".to_vec()),
        other => panic!("{:?}", other),
    }
}

#[test]
fn render_leaves_the_counter_as_it_was() {
    let mut ctx = context(vec![file_chain("f", "p")], vec![]);
    ctx.recursion_count = 4;
    ctx.max_depth = 5;
    let t = Template::parse("{{f}}").unwrap();
    let out = t.render(&mut ctx, &vec![Answer::FileRead { content: Some(b"v".to_vec()) }]);
    assert_eq!(out, done("v"));
    assert_eq!(ctx.recursion_count, 4);
    ctx.recursion_count = 5;
    let out = t.render(&mut ctx, &vec![]);
    assert_eq!(out, failed(vec![in_chain("f")], ChainError::RecursionLimit));
    assert_eq!(ctx.recursion_count, 5);
}

#[test]
fn failure_is_described_in_one_line() {
    let e = RenderError {
        trail: vec![
            in_chain("outer"),
            Step::Field { recipe: "r1".to_string(), field: Field::Header(12) },
            in_chain("inner"),
        ],
        cause: ChainError::Io,
    };
    assert_eq!(e.describe(), "chain outer: recipe r1 header 12: chain inner: the file could not be read");
    let e = RenderError {
        trail: vec![Step::Field { recipe: "r".to_string(), field: Field::Query(0) }],
        cause: ChainError::Http(HttpError { message: "timed out".to_string() }),
    };
    assert_eq!(e.describe(), "recipe r query 0: the request failed: timed out");
    let e = RenderError { trail: vec![], cause: ChainError::RecursionLimit };
    assert_eq!(e.describe(), "chains are nested too deep");
    let e = RenderError {
        trail: vec![
            Step::Field { recipe: "r".to_string(), field: Field::Url },
            Step::Field { recipe: "r".to_string(), field: Field::Body },
        ],
        cause: ChainError::Selector(SelectorError::NoMatch),
    };
    assert_eq!(e.describe(), "recipe r url: recipe r body: nothing is selected");
}

#[test]
fn latest_answer_carries_the_record_and_the_time() {
    match Answer::latest(Some(record(5, "b"))) {
        Answer::Latest { record: Some(r), now } => {
            assert_eq!(r.start_time, 5);
            assert!(now > 1_600_000_000_000);
        }
        other => panic!("{:?}", other),
    }
    assert!(matches!(Answer::latest(None), Answer::Latest { record: None, .. }));
}

#[test]
fn resolve_one_chain_by_id() {
    let mut c = file_chain("f", "p");
    c.trim = Trim::Both;
    let mut ctx = context(vec![c], vec![]);
    ctx.set_override("f".to_string(), "ignored here".to_string());
    assert_eq!(
        ctx.resolve("f", &vec![]),
        Outcome::Pending(Action::ReadFile { path: "p".to_string() })
    );
    assert_eq!(
        ctx.resolve("f", &vec![Answer::FileRead { content: Some(b" v \n".to_vec()) }]),
        done("v")
    );
    assert_eq!(ctx.resolve("g", &vec![]), failed(vec![in_chain("g")], ChainError::NotFound));
    ctx.max_depth = 0;
    assert_eq!(ctx.resolve("f", &vec![]), failed(vec![in_chain("f")], ChainError::RecursionLimit));
    assert_eq!(ctx.recursion_count, 0);
}
