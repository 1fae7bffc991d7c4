//! The data a render works on: profiles, recipes and chains.

use vstd::prelude::*;
use vstd::string::*;
use crate::template::Template;
use crate::template::strings_view;
use crate::text::str_eq;
use indexmap::IndexMap;
use crate::outside::{recipe_values, recipes_into_vec};

verus! {

/// HTTP method of a recipe.
#[derive(Clone, Copy, Debug, PartialEq, Eq)]
pub enum Method {
    Connect,
    Delete,
    Get,
    Head,
    Options,
    Patch,
    Post,
    Put,
    Trace,
}

/// A named set of values, selected for a render.
#[derive(Clone, Debug, PartialEq, Eq)]
pub struct Profile {
    pub id: String,
    pub name: Option<String>,
    pub data: Vec<(String, Template)>,
}

/// A named, parameterized request.
#[derive(Clone, Debug, PartialEq, Eq)]
pub struct Recipe {
    pub id: String,
    pub name: Option<String>,
    pub method: Method,
    pub url: Template,
    pub body: Option<Template>,
    pub query: Vec<(String, Template)>,
    pub headers: Vec<(String, Template)>,
}

/// A group of recipes and further folders, in the order they were written.
#[derive(Debug, PartialEq, Eq)]
pub struct Folder {
    pub id: String,
    pub name: Option<String>,
    pub children: Vec<RecipeNode>,
}

/// A node of the recipe tree.
#[derive(Debug, PartialEq, Eq)]
pub enum RecipeNode {
    Folder(Folder),
    Recipe(Recipe),
}

/// When a chained request is sent again rather than taken from history.
#[derive(Clone, Copy, Debug, PartialEq, Eq)]
pub enum TriggerPolicy {
    /// Never send; a response must be on record.
    Never,
    /// Send only when no response is on record.
    NoHistory,
    /// Send when the response on record is at least this many seconds old.
    Expire(u64),
    /// Send every time.
    Always,
}

/// The part of a response that a chain takes its value from.
#[derive(Clone, Debug, PartialEq, Eq)]
pub enum Section {
    Status,
    Header(String),
    Body,
}

/// Which ends of a value lose their whitespace.
#[derive(Clone, Copy, Debug, PartialEq, Eq)]
pub enum Trim {
    Neither,
    Start,
    End,
    Both,
}

/// How the raw bytes of a source are to be read when a selector is applied.
#[derive(Clone, Copy, Debug, PartialEq, Eq)]
pub enum ContentType {
    Json,
}

/// Where a chain's value comes from.
#[derive(Clone, Debug, PartialEq, Eq)]
pub enum ChainSource {
    Request { recipe: String, trigger: TriggerPolicy, section: Section },
    Command { program: String, arguments: Vec<String> },
    File { path: String },
    Prompt { label: Option<String>, default: Option<String> },
    Environment { variable: String, default: Option<String> },
}

/// A named, reusable value source.
#[derive(Clone, Debug, PartialEq, Eq)]
pub struct Chain {
    pub id: String,
    pub source: ChainSource,
    /// The value is masked wherever it is shown; the bytes it contributes to
    /// a request are not affected.
    pub sensitive: bool,
    pub selector: Option<Vec<String>>,
    pub content_type: Option<ContentType>,
    pub trim: Trim,
}

/// The ids of the nodes of a forest, each folder before its children.
pub open spec fn node_ids(nodes: Seq<RecipeNode>) -> Seq<Seq<char>>
    decreases nodes,
{
    if nodes.len() == 0 {
        Seq::empty()
    } else {
        let rest = node_ids(nodes.drop_first());
        match nodes[0] {
            RecipeNode::Recipe(r) => seq![r.id@] + rest,
            RecipeNode::Folder(f) => seq![f.id@] + node_ids(f.children@) + rest,
        }
    }
}

/// The first recipe with the given id in a forest, folders searched in
/// order and each before what follows it.
pub open spec fn recipe_in(nodes: Seq<RecipeNode>, id: Seq<char>) -> Option<Recipe>
    decreases nodes,
{
    if nodes.len() == 0 {
        None
    } else {
        match nodes[0] {
            RecipeNode::Recipe(r) => if r.id@ == id {
                Some(r)
            } else {
                recipe_in(nodes.drop_first(), id)
            },
            RecipeNode::Folder(f) => match recipe_in(f.children@, id) {
                Some(r) => Some(r),
                None => recipe_in(nodes.drop_first(), id),
            },
        }
    }
}

/// Two different places of `ids` hold `id`.
pub open spec fn occurs_twice(ids: Seq<Seq<char>>, id: Seq<char>) -> bool {
    exists|i: int, j: int|
        0 <= i < j < ids.len() && #[trigger] ids[i] == id && #[trigger] ids[j] == id
}

/// An id that two nodes of a tree share.
#[derive(Clone, Debug, PartialEq, Eq)]
pub struct DuplicateRecipeId {
    pub id: String,
}

/// Folders and recipes, with no id used twice anywhere in the tree.
#[derive(Debug, PartialEq, Eq)]
pub struct RecipeTree {
    nodes: Vec<RecipeNode>,
}

fn collect_ids(nodes: &Vec<RecipeNode>, out: &mut Vec<String>)
    ensures
        strings_view(final(out)@) == strings_view(old(out)@) + node_ids(nodes@),
    decreases nodes,
{
    let n = nodes.len();
    let mut i: usize = 0;
    let ghost start = strings_view(out@);
    let ghost mut done: Seq<Seq<char>> = Seq::empty();
    assert(nodes@.skip(0) =~= nodes@);
    while i < n
        invariant
            i <= n,
            n == nodes.len(),
            strings_view(out@) == start + done,
            done + node_ids(nodes@.skip(i as int)) == node_ids(nodes@),
        decreases n - i,
    {
        let ghost before = out@;
        assert(nodes@.skip(i as int).drop_first() =~= nodes@.skip(i + 1));
        match &nodes[i] {
            RecipeNode::Recipe(r) => {
                out.push(r.id.clone());
                proof {
                    assert(strings_view(out@) =~= strings_view(before).push(r.id@));
                    done = done.push(r.id@);
                }
            },
            RecipeNode::Folder(f) => {
                out.push(f.id.clone());
                let ghost mid = out@;
                collect_ids(&f.children, out);
                proof {
                    assert(strings_view(mid) =~= strings_view(before).push(f.id@));
                    done = done.push(f.id@) + node_ids(f.children@);
                }
            },
        }
        i += 1;
    }
}

/// The first id that occurs a second time, if any does.
fn first_duplicate(ids: &Vec<String>) -> (r: Option<usize>)
    ensures
        r is None ==> strings_view(ids@).no_duplicates(),
        r matches Some(j) ==> j < ids.len() && exists|i: int|
            0 <= i < j && #[trigger] strings_view(ids@)[i] == strings_view(ids@)[j as int],
{
    let ghost v = strings_view(ids@);
    let n = ids.len();
    let mut j: usize = 0;
    while j < n
        invariant
            j <= n,
            n == ids.len(),
            v == strings_view(ids@),
            forall|a: int, b: int| 0 <= a < b < j ==> v[a] != v[b],
        decreases n - j,
    {
        let mut i: usize = 0;
        while i < j
            invariant
                i <= j < n,
                n == ids.len(),
                v == strings_view(ids@),
                forall|a: int| 0 <= a < i ==> v[a] != v[j as int],
            decreases j - i,
        {
            if ids[i] == ids[j] {
                assert(v[i as int] == v[j as int]);
                return Some(j);
            }
            i += 1;
        }
        j += 1;
    }
    assert(v.no_duplicates()) by {
        assert forall|a: int, b: int| 0 <= a < v.len() && 0 <= b < v.len() && a != b implies v[a]
            != v[b] by {
            if a < b {
            } else {
            }
        }
    }
    None
}

fn find_recipe<'a>(nodes: &'a Vec<RecipeNode>, id: &str) -> (r: Option<&'a Recipe>)
    ensures
        (match r {
            Some(x) => Some(*x),
            None => None,
        }) == recipe_in(nodes@, id@),
    decreases nodes,
{
    let n = nodes.len();
    let mut i: usize = 0;
    assert(nodes@.skip(0) =~= nodes@);
    while i < n
        invariant
            i <= n,
            n == nodes.len(),
            recipe_in(nodes@, id@) == recipe_in(nodes@.skip(i as int), id@),
        decreases n - i,
    {
        assert(nodes@.skip(i as int).drop_first() =~= nodes@.skip(i + 1));
        match &nodes[i] {
            RecipeNode::Recipe(r) => {
                if str_eq(r.id.as_str(), id) {
                    return Some(r);
                }
            },
            RecipeNode::Folder(f) => {
                let inner = find_recipe(&f.children, id);
                if inner.is_some() {
                    return inner;
                }
            },
        }
        i += 1;
    }
    None
}

/// Each recipe as a node, in the order given.
fn into_nodes(list: Vec<Recipe>) -> (nodes: Vec<RecipeNode>)
    ensures
        nodes@ == RecipeTree::recipe_nodes(list@),
{
    let mut list = list;
    let ghost all = list@;
    let mut nodes: Vec<RecipeNode> = Vec::new();
    let mut rest: Vec<Recipe> = Vec::new();
    // taken off the end twice, the recipes come out in their first order
    while list.len() > 0
        invariant
            list@.len() + rest@.len() == all.len(),
            list@ == all.subrange(0, list@.len() as int),
            forall|j: int| 0 <= j < rest@.len() ==> #[trigger] rest@[j] == all[all.len() - 1 - j],
        decreases list.len(),
    {
        let r = list.pop().unwrap();
        rest.push(r);
    }
    while rest.len() > 0
        invariant
            rest@.len() + nodes@.len() == all.len(),
            forall|j: int| 0 <= j < rest@.len() ==> #[trigger] rest@[j] == all[all.len() - 1 - j],
            forall|j: int|
                0 <= j < nodes@.len() ==> #[trigger] nodes@[j] == RecipeNode::Recipe(all[j]),
        decreases rest.len(),
    {
        let r = rest.pop().unwrap();
        nodes.push(RecipeNode::Recipe(r));
    }
    nodes
}

impl RecipeTree {
    /// The top-level nodes.
    pub closed spec fn nodes(&self) -> Seq<RecipeNode> {
        self.nodes@
    }

    /// No id is used twice, at whatever depth.
    pub open spec fn well_formed(&self) -> bool {
        node_ids(self.nodes()).no_duplicates()
    }

    /// Builds a tree from its top-level nodes. Succeeds exactly when no two
    /// nodes of the whole tree share an id; otherwise names an id that occurs
    /// twice.
    pub fn new(nodes: Vec<RecipeNode>) -> (r: Result<RecipeTree, DuplicateRecipeId>)
        ensures
            r is Ok <==> node_ids(nodes@).no_duplicates(),
            r matches Ok(t) ==> t.nodes() == nodes@ && t.well_formed(),
            r matches Err(e) ==> occurs_twice(node_ids(nodes@), e.id@),
    {
        let mut ids: Vec<String> = Vec::new();
        collect_ids(&nodes, &mut ids);
        match first_duplicate(&ids) {
            None => Ok(RecipeTree { nodes }),
            Some(j) => {
                let id = ids[j].clone();
                Err(DuplicateRecipeId { id })
            },
        }
    }

    /// The nodes that a list of recipes makes, in the list's order.
    pub open spec fn recipe_nodes(recipes: Seq<Recipe>) -> Seq<RecipeNode> {
        recipes.map_values(|r: Recipe| RecipeNode::Recipe(r))
    }

    /// A tree without folders from a map of recipes, in the map's order.
    /// The recipes must differ in their ids.
    pub fn from_recipes(recipes: IndexMap<String, Recipe>) -> (t: RecipeTree)
        requires
            node_ids(Self::recipe_nodes(recipe_values(recipes))).no_duplicates(),
        ensures
            t.nodes() == Self::recipe_nodes(recipe_values(recipes)),
            t.well_formed(),
    {
        RecipeTree { nodes: into_nodes(recipes_into_vec(recipes)) }
    }

    /// A tree without folders from a map of recipes, or an id that two of
    /// the recipes share.
    pub fn try_from_recipes(recipes: IndexMap<String, Recipe>) -> (r: Result<
        RecipeTree,
        DuplicateRecipeId,
    >)
        ensures
            r is Ok <==> node_ids(Self::recipe_nodes(recipe_values(recipes))).no_duplicates(),
            r matches Ok(t) ==> t.nodes() == Self::recipe_nodes(recipe_values(recipes))
                && t.well_formed(),
            r matches Err(e) ==> occurs_twice(
                node_ids(Self::recipe_nodes(recipe_values(recipes))),
                e.id@,
            ),
    {
        Self::new(into_nodes(recipes_into_vec(recipes)))
    }

    /// The recipe with the given id, wherever in the tree it is.
    pub fn get_recipe(&self, id: &str) -> (r: Option<&Recipe>)
        ensures
            (match r {
                Some(x) => Some(*x),
                None => None,
            }) == recipe_in(self.nodes(), id@),
    {
        find_recipe(&self.nodes, id)
    }
}

impl Default for RecipeTree {
    /// The tree without nodes.
    fn default() -> (r: Self)
        ensures
            r.nodes() == Seq::<RecipeNode>::empty(),
            r.well_formed(),
    {
        RecipeTree { nodes: Vec::new() }
    }
}

/// Everything a render reads: profiles, the recipe tree and the chains.
#[derive(Debug, PartialEq, Eq)]
pub struct Collection {
    pub profiles: Vec<Profile>,
    pub chains: Vec<Chain>,
    pub recipes: RecipeTree,
}

/// The first chain with the given id.
pub open spec fn chain_in(chains: Seq<Chain>, id: Seq<char>) -> Option<Chain>
    decreases chains.len(),
{
    if chains.len() == 0 {
        None
    } else if chains[0].id@ == id {
        Some(chains[0])
    } else {
        chain_in(chains.drop_first(), id)
    }
}

impl Collection {
    /// The chain with the given id.
    pub fn get_chain(&self, id: &str) -> (r: Option<&Chain>)
        ensures
            (match r {
                Some(x) => Some(*x),
                None => None,
            }) == chain_in(self.chains@, id@),
    {
        let n = self.chains.len();
        let mut i: usize = 0;
        assert(self.chains@.skip(0) =~= self.chains@);
        while i < n
            invariant
                i <= n,
                n == self.chains.len(),
                chain_in(self.chains@, id@) == chain_in(self.chains@.skip(i as int), id@),
            decreases n - i,
        {
            assert(self.chains@.skip(i as int).drop_first() =~= self.chains@.skip(i + 1));
            if str_eq(self.chains[i].id.as_str(), id) {
                return Some(&self.chains[i]);
            }
            i += 1;
        }
        None
    }
}

impl Default for TriggerPolicy {
    fn default() -> (r: Self)
        ensures
            r == TriggerPolicy::Never,
    {
        TriggerPolicy::Never
    }
}

impl Default for Section {
    fn default() -> (r: Self)
        ensures
            r == Section::Body,
    {
        Section::Body
    }
}

impl Default for Trim {
    fn default() -> (r: Self)
        ensures
            r == Trim::Neither,
    {
        Trim::Neither
    }
}

impl Default for Collection {
    fn default() -> (r: Self)
        ensures
            r.profiles@.len() == 0,
            r.chains@.len() == 0,
            r.recipes.nodes() == Seq::<RecipeNode>::empty(),
    {
        Collection { profiles: Vec::new(), chains: Vec::new(), recipes: RecipeTree::default() }
    }
}

} // verus!
