//! Request templates with `{{variable}}` placeholders, and the manager that holds
//! the built-in and custom templates.
use vstd::prelude::*;
use crate::ids::{Timestamp, new_id, now, is_v4_uuid};
use crate::models::{HttpMethod, KeyValuePair, PairView, pairs_view, RawContentType, BodyType, BodyView, RequestDefinition, RequestView, opt_view, copy_opt_string, copy_pairs};
use crate::env::{VarMap, entry_views, entries_map, distinct_names, placeholder};
use crate::text::{to_owned_string, push_str, replace_all, replace_str, str_equal, views};
use crate::builtin_templates::{get_builtin_templates, is_builtin_catalogue};
use crate::history::{path_join, join_path};

verus! {

/// A group of templates.
#[derive(Clone, Copy, Debug, PartialEq, Eq, Hash, Structural)]
pub enum TemplateCategory {
    Basic,
    Authentication,
    Api,
    Testing,
    Custom,
}

/// The display text of a category.
pub open spec fn category_text(c: TemplateCategory) -> Seq<char> {
    match c {
        TemplateCategory::Basic => "Basic"@,
        TemplateCategory::Authentication => "Authentication"@,
        TemplateCategory::Api => "API"@,
        TemplateCategory::Testing => "Testing"@,
        TemplateCategory::Custom => "Custom"@,
    }
}

impl TemplateCategory {
    /// The category's display text.
    pub fn to_string(&self) -> (r: String)
        ensures
            r@ == category_text(*self),
    {
        match self {
            TemplateCategory::Basic => to_owned_string("Basic"),
            TemplateCategory::Authentication => to_owned_string("Authentication"),
            TemplateCategory::Api => to_owned_string("API"),
            TemplateCategory::Testing => to_owned_string("Testing"),
            TemplateCategory::Custom => to_owned_string("Custom"),
        }
    }
}

/// A variable that a template's placeholders refer to.
#[derive(Clone, Debug)]
pub struct TemplateVariable {
    pub name: String,
    pub description: String,
    pub default_value: Option<String>,
    pub required: bool,
}

/// The mathematical value of a template variable.
pub struct VariableView {
    pub name: Seq<char>,
    pub description: Seq<char>,
    pub default_value: Option<Seq<char>>,
    pub required: bool,
}

impl View for TemplateVariable {
    type V = VariableView;

    open spec fn view(&self) -> VariableView {
        VariableView {
            name: self.name@,
            description: self.description@,
            default_value: opt_view(self.default_value),
            required: self.required,
        }
    }
}

/// The values of a list of template variables.
pub open spec fn variables_view(v: Seq<TemplateVariable>) -> Seq<VariableView> {
    v.map_values(|t: TemplateVariable| t@)
}

impl TemplateVariable {
    /// A required variable without a default.
    pub fn new(name: &str, description: &str) -> (r: TemplateVariable)
        ensures
            r@ == required_var(name@, description@),
    {
        TemplateVariable {
            name: to_owned_string(name),
            description: to_owned_string(description),
            default_value: None,
            required: true,
        }
    }

    /// The variable with a default value; a variable with a default is optional.
    pub fn with_default(self, value: &str) -> (r: TemplateVariable)
        ensures
            r@ == (VariableView { default_value: Some(value@), required: false, ..self@ }),
    {
        TemplateVariable { default_value: Some(to_owned_string(value)), required: false, ..self }
    }

    /// The variable made optional.
    pub fn optional(self) -> (r: TemplateVariable)
        ensures
            r@ == (VariableView { required: false, ..self@ }),
    {
        TemplateVariable { required: false, ..self }
    }

    /// A copy of this variable.
    pub fn duplicate(&self) -> (r: TemplateVariable)
        ensures
            r@ == self@,
    {
        TemplateVariable {
            name: self.name.clone(),
            description: self.description.clone(),
            default_value: copy_opt_string(&self.default_value),
            required: self.required,
        }
    }
}

/// A template body, whose texts may hold placeholders.
#[derive(Clone, Debug)]
pub enum BodyTemplateType {
    NoBody,
    Raw { content: String, content_type: RawContentType },
    FormUrlEncoded(Vec<KeyValuePair>),
}

impl View for BodyTemplateType {
    type V = BodyView;

    open spec fn view(&self) -> BodyView {
        match self {
            BodyTemplateType::NoBody => BodyView::NoBody,
            BodyTemplateType::Raw { content, content_type } => BodyView::Raw {
                content: content@,
                content_type: *content_type,
            },
            BodyTemplateType::FormUrlEncoded(p) => BodyView::Form(pairs_view(p@)),
        }
    }
}

/// A reusable request with placeholder variables.
#[derive(Clone, Debug)]
pub struct RequestTemplate {
    pub id: u128,
    pub name: String,
    pub description: String,
    pub category: TemplateCategory,
    pub method: HttpMethod,
    pub url_template: String,
    pub headers: Vec<KeyValuePair>,
    pub query_params: Vec<KeyValuePair>,
    pub body_type: BodyTemplateType,
    pub variables: Vec<TemplateVariable>,
    pub created_at: Timestamp,
    pub is_builtin: bool,
}

/// The mathematical value of a template.
pub struct TemplateView {
    pub id: u128,
    pub name: Seq<char>,
    pub description: Seq<char>,
    pub category: TemplateCategory,
    pub method: HttpMethod,
    pub url_template: Seq<char>,
    pub headers: Seq<PairView>,
    pub query_params: Seq<PairView>,
    pub body_type: BodyView,
    pub variables: Seq<VariableView>,
    pub created_at: Timestamp,
    pub is_builtin: bool,
}

impl View for RequestTemplate {
    type V = TemplateView;

    open spec fn view(&self) -> TemplateView {
        TemplateView {
            id: self.id,
            name: self.name@,
            description: self.description@,
            category: self.category,
            method: self.method,
            url_template: self.url_template@,
            headers: pairs_view(self.headers@),
            query_params: pairs_view(self.query_params@),
            body_type: self.body_type@,
            variables: variables_view(self.variables@),
            created_at: self.created_at,
            is_builtin: self.is_builtin,
        }
    }
}

/// The values of a list of templates.
pub open spec fn templates_view(v: Seq<RequestTemplate>) -> Seq<TemplateView> {
    v.map_values(|t: RequestTemplate| t@)
}

/// An enabled pair without a description.
pub open spec fn plain_pair(key: Seq<char>, value: Seq<char>) -> PairView {
    PairView { key, value, enabled: true, description: None }
}

fn make_pair(key: &str, value: &str) -> (r: KeyValuePair)
    ensures
        r@ == plain_pair(key@, value@),
{
    KeyValuePair { key: to_owned_string(key), value: to_owned_string(value), enabled: true, description: None }
}

/// A template with no headers, parameters, body or variables.
pub open spec fn template_base(
    id: u128,
    created_at: Timestamp,
    name: Seq<char>,
    description: Seq<char>,
    category: TemplateCategory,
    method: HttpMethod,
    url_template: Seq<char>,
    is_builtin: bool,
) -> TemplateView {
    TemplateView {
        id,
        name,
        description,
        category,
        method,
        url_template,
        headers: Seq::empty(),
        query_params: Seq::empty(),
        body_type: BodyView::NoBody,
        variables: Seq::empty(),
        created_at,
        is_builtin,
    }
}

/// The template with one more enabled header.
pub open spec fn add_header(t: TemplateView, key: Seq<char>, value: Seq<char>) -> TemplateView {
    TemplateView { headers: t.headers.push(plain_pair(key, value)), ..t }
}

/// The template with one more enabled query parameter.
pub open spec fn add_query_param(t: TemplateView, key: Seq<char>, value: Seq<char>) -> TemplateView {
    TemplateView { query_params: t.query_params.push(plain_pair(key, value)), ..t }
}

/// The template with the given body.
pub open spec fn set_body(t: TemplateView, body: BodyView) -> TemplateView {
    TemplateView { body_type: body, ..t }
}

/// The template with one more variable.
pub open spec fn add_variable(t: TemplateView, v: VariableView) -> TemplateView {
    TemplateView { variables: t.variables.push(v), ..t }
}

/// A required variable without a default.
pub open spec fn required_var(name: Seq<char>, description: Seq<char>) -> VariableView {
    VariableView { name, description, default_value: None, required: true }
}

/// A variable with a default value, which makes it optional.
pub open spec fn defaulted_var(name: Seq<char>, description: Seq<char>, value: Seq<char>) -> VariableView {
    VariableView { name, description, default_value: Some(value), required: false }
}

impl RequestTemplate {
    /// A custom template with a fresh id and no headers, parameters, body or variables.
    pub fn new(
        name: &str,
        description: &str,
        category: TemplateCategory,
        method: HttpMethod,
        url_template: &str,
    ) -> (r: RequestTemplate)
        ensures
            r@ == template_base(r@.id, r@.created_at, name@, description@, category, method, url_template@, false),
            is_v4_uuid(r@.id),
    {
        let t = RequestTemplate {
            id: new_id(),
            name: to_owned_string(name),
            description: to_owned_string(description),
            category,
            method,
            url_template: to_owned_string(url_template),
            headers: Vec::new(),
            query_params: Vec::new(),
            body_type: BodyTemplateType::NoBody,
            variables: Vec::new(),
            created_at: now(),
            is_builtin: false,
        };
        assert(t@.headers =~= Seq::empty());
        assert(t@.query_params =~= Seq::empty());
        assert(t@.variables =~= Seq::empty());
        t
    }

    /// Like `new`, but marked built-in.
    pub fn builtin(
        name: &str,
        description: &str,
        category: TemplateCategory,
        method: HttpMethod,
        url_template: &str,
    ) -> (r: RequestTemplate)
        ensures
            r@ == template_base(r@.id, r@.created_at, name@, description@, category, method, url_template@, true),
            is_v4_uuid(r@.id),
    {
        let t = RequestTemplate::new(name, description, category, method, url_template);
        RequestTemplate { is_builtin: true, ..t }
    }

    /// The template with one more enabled header.
    pub fn with_header(self, key: &str, value: &str) -> (r: RequestTemplate)
        ensures
            r@ == add_header(self@, key@, value@),
    {
        let mut t = self;
        let ghost before = t.headers@;
        t.headers.push(make_pair(key, value));
        assert(pairs_view(t.headers@) =~= pairs_view(before).push(plain_pair(key@, value@)));
        t
    }

    /// The template with one more enabled query parameter.
    pub fn with_query_param(self, key: &str, value: &str) -> (r: RequestTemplate)
        ensures
            r@ == add_query_param(self@, key@, value@),
    {
        let mut t = self;
        let ghost before = t.query_params@;
        t.query_params.push(make_pair(key, value));
        assert(pairs_view(t.query_params@) =~= pairs_view(before).push(plain_pair(key@, value@)));
        t
    }

    /// The template with the given body.
    pub fn with_body(self, body: BodyTemplateType) -> (r: RequestTemplate)
        ensures
            r@ == set_body(self@, body@),
    {
        RequestTemplate { body_type: body, ..self }
    }

    /// The template with one more variable.
    pub fn with_variable(self, variable: TemplateVariable) -> (r: RequestTemplate)
        ensures
            r@ == add_variable(self@, variable@),
    {
        let mut t = self;
        let ghost before = t.variables@;
        let ghost vv = variable@;
        t.variables.push(variable);
        assert(variables_view(t.variables@) =~= variables_view(before).push(vv));
        t
    }
}

/// A request made from a template, with the required variables that had no value.
#[derive(Clone, Debug)]
pub struct TemplateApplicationResult {
    pub request: RequestDefinition,
    pub missing_variables: Vec<String>,
}

/// Every placeholder of the entries' names replaced by its value, one entry after
/// another in order.
pub open spec fn substitute_all(s: Seq<char>, entries: Seq<(Seq<char>, Seq<char>)>) -> Seq<char>
    decreases entries.len(),
{
    if entries.len() == 0 {
        s
    } else {
        substitute_all(replace_all(s, placeholder(entries[0].0), entries[0].1), entries.drop_first())
    }
}

/// A pair with its value substituted (the key stays as it is).
pub open spec fn substitute_pair(p: PairView, entries: Seq<(Seq<char>, Seq<char>)>) -> PairView {
    PairView { value: substitute_all(p.value, entries), ..p }
}

/// Every pair's value substituted.
pub open spec fn substitute_pairs(ps: Seq<PairView>, entries: Seq<(Seq<char>, Seq<char>)>) -> Seq<PairView> {
    ps.map_values(|p: PairView| substitute_pair(p, entries))
}

/// A template body made into a request body, its texts substituted.
pub open spec fn substitute_body(b: BodyView, entries: Seq<(Seq<char>, Seq<char>)>) -> BodyView {
    match b {
        BodyView::NoBody => BodyView::NoBody,
        BodyView::Raw { content, content_type } => BodyView::Raw {
            content: substitute_all(content, entries),
            content_type,
        },
        BodyView::Form(ps) => BodyView::Form(substitute_pairs(ps, entries)),
    }
}

/// The names of the required variables that have neither a value nor a default,
/// in order.
pub open spec fn missing_variables(vs: Seq<VariableView>, vars: Map<Seq<char>, Seq<char>>) -> Seq<Seq<char>>
    decreases vs.len(),
{
    if vs.len() == 0 {
        Seq::empty()
    } else {
        let rest = missing_variables(vs.drop_last(), vars);
        let v = vs.last();
        if v.required && !vars.contains_key(v.name) && v.default_value is None {
            rest.push(v.name)
        } else {
            rest
        }
    }
}

/// Why a template operation failed.
#[derive(Clone, Debug)]
pub enum TemplateError {
    TemplateNotFound(u128),
    MissingVariables(Vec<String>),
    CannotModifyBuiltin,
    Io(String),
    Serde(String),
}

/// The manager of the built-in and the custom templates of a workspace.
pub struct TemplateManager {
    builtin_templates: Vec<RequestTemplate>,
    custom_templates: Vec<RequestTemplate>,
    workspace_dir: String,
}

/// The mathematical value of a template manager.
pub struct ManagerView {
    pub builtin: Seq<TemplateView>,
    pub custom: Seq<TemplateView>,
    pub workspace_dir: Seq<char>,
}

impl View for TemplateManager {
    type V = ManagerView;

    closed spec fn view(&self) -> ManagerView {
        ManagerView {
            builtin: templates_view(self.builtin_templates@),
            custom: templates_view(self.custom_templates@),
            workspace_dir: self.workspace_dir@,
        }
    }
}

impl ManagerView {
    /// Every template: the built-in ones, then the custom ones.
    pub open spec fn all(self) -> Seq<TemplateView> {
        self.builtin + self.custom
    }

    /// Whether `i` is the first position of a template with the id.
    pub open spec fn first_with_id(self, id: u128, i: int) -> bool {
        0 <= i < self.all().len() && self.all()[i].id == id && forall|j: int|
            0 <= j < i ==> (#[trigger] self.all()[j]).id != id
    }

    /// Whether some template has the id.
    pub open spec fn has_id(self, id: u128) -> bool {
        exists|i: int| 0 <= i < self.all().len() && (#[trigger] self.all()[i]).id == id
    }

    /// The first template with the id.
    pub open spec fn template_with_id(self, id: u128) -> TemplateView {
        self.all()[choose|i: int| self.first_with_id(id, i)]
    }
}

/// Copies of the pairs with their values substituted.
fn substitute_in_pairs(pairs: &Vec<KeyValuePair>, variables: &VarMap) -> (r: Vec<KeyValuePair>)
    ensures
        pairs_view(r@) == substitute_pairs(pairs_view(pairs@), variables.entry_list()),
{
    let mut r: Vec<KeyValuePair> = Vec::new();
    let mut i: usize = 0;
    while i < pairs.len()
        invariant
            0 <= i <= pairs@.len(),
            pairs_view(r@) == substitute_pairs(pairs_view(pairs@), variables.entry_list()).take(i as int),
        decreases pairs@.len() - i,
    {
        let p = &pairs[i];
        let np = KeyValuePair {
            key: p.key.clone(),
            value: TemplateManager::substitute_variables(p.value.as_str(), variables),
            enabled: p.enabled,
            description: copy_opt_string(&p.description),
        };
        let ghost prev = r@;
        r.push(np);
        assert(pairs_view(r@) =~= pairs_view(prev).push(np@));
        assert(pairs_view(r@) =~= substitute_pairs(pairs_view(pairs@), variables.entry_list()).take(i + 1));
        i = i + 1;
    }
    r
}

fn copy_variables(v: &Vec<TemplateVariable>) -> (r: Vec<TemplateVariable>)
    ensures
        variables_view(r@) == variables_view(v@),
{
    let mut r: Vec<TemplateVariable> = Vec::new();
    let mut i: usize = 0;
    while i < v.len()
        invariant
            0 <= i <= v@.len(),
            variables_view(r@) == variables_view(v@).take(i as int),
        decreases v@.len() - i,
    {
        let t = v[i].duplicate();
        let ghost prev = r@;
        r.push(t);
        assert(variables_view(r@) =~= variables_view(prev).push(t@));
        assert(variables_view(r@) =~= variables_view(v@).take(i + 1));
        i = i + 1;
    }
    assert(variables_view(v@).take(v@.len() as int) == variables_view(v@));
    r
}

impl BodyTemplateType {
    /// A copy of this body.
    pub fn duplicate(&self) -> (r: BodyTemplateType)
        ensures
            r@ == self@,
    {
        match self {
            BodyTemplateType::NoBody => BodyTemplateType::NoBody,
            BodyTemplateType::Raw { content, content_type } => BodyTemplateType::Raw {
                content: content.clone(),
                content_type: *content_type,
            },
            BodyTemplateType::FormUrlEncoded(p) => BodyTemplateType::FormUrlEncoded(copy_pairs(p)),
        }
    }
}

impl RequestTemplate {
    /// A copy of this template.
    pub fn duplicate(&self) -> (r: RequestTemplate)
        ensures
            r@ == self@,
    {
        RequestTemplate {
            id: self.id,
            name: self.name.clone(),
            description: self.description.clone(),
            category: self.category,
            method: self.method,
            url_template: self.url_template.clone(),
            headers: copy_pairs(&self.headers),
            query_params: copy_pairs(&self.query_params),
            body_type: self.body_type.duplicate(),
            variables: copy_variables(&self.variables),
            created_at: self.created_at,
            is_builtin: self.is_builtin,
        }
    }
}

} // verus!

verus! {

/// The templates of one category, in order.
pub open spec fn of_category(ts: Seq<TemplateView>, c: TemplateCategory) -> Seq<TemplateView>
    decreases ts.len(),
{
    if ts.len() == 0 {
        Seq::empty()
    } else {
        let rest = of_category(ts.drop_last(), c);
        if ts.last().category == c {
            rest.push(ts.last())
        } else {
            rest
        }
    }
}

/// The templates whose id is not `id`, in order.
pub open spec fn without_id(ts: Seq<TemplateView>, id: u128) -> Seq<TemplateView>
    decreases ts.len(),
{
    if ts.len() == 0 {
        Seq::empty()
    } else {
        let rest = without_id(ts.drop_last(), id);
        if ts.last().id != id {
            rest.push(ts.last())
        } else {
            rest
        }
    }
}

proof fn lemma_without_id_lacks(ts: Seq<TemplateView>, id: u128)
    ensures
        forall|k: int| 0 <= k < without_id(ts, id).len() ==> (#[trigger] without_id(ts, id)[k]).id != id,
    decreases ts.len(),
{
    if ts.len() > 0 {
        lemma_without_id_lacks(ts.drop_last(), id);
    }
}

/// The values of a list of borrowed templates.
pub open spec fn ref_views(s: Seq<&RequestTemplate>) -> Seq<TemplateView> {
    s.map_values(|t: &RequestTemplate| t@)
}

/// The categories in the order in which groups are listed.
pub open spec fn category_order() -> Seq<TemplateCategory> {
    seq![
        TemplateCategory::Basic,
        TemplateCategory::Authentication,
        TemplateCategory::Api,
        TemplateCategory::Testing,
        TemplateCategory::Custom,
    ]
}

/// For each of the categories in turn that some template has, the category and
/// its templates in order.
pub open spec fn groups_of(cats: Seq<TemplateCategory>, ts: Seq<TemplateView>) -> Seq<(TemplateCategory, Seq<TemplateView>)>
    decreases cats.len(),
{
    if cats.len() == 0 {
        Seq::empty()
    } else {
        let rest = groups_of(cats.drop_last(), ts);
        let g = of_category(ts, cats.last());
        if g.len() > 0 {
            rest.push((cats.last(), g))
        } else {
            rest
        }
    }
}

/// The values of a list of groups.
pub open spec fn group_views(gs: Seq<(TemplateCategory, Vec<&RequestTemplate>)>) -> Seq<(TemplateCategory, Seq<TemplateView>)> {
    gs.map_values(|g: (TemplateCategory, Vec<&RequestTemplate>)| (g.0, ref_views(g.1@)))
}

impl ManagerView {
    /// Whether `i` is the first position of a template with the name.
    pub open spec fn first_with_name(self, name: Seq<char>, i: int) -> bool {
        0 <= i < self.all().len() && self.all()[i].name == name && forall|j: int|
            0 <= j < i ==> (#[trigger] self.all()[j]).name != name
    }

    /// Whether some template has the name.
    pub open spec fn has_name(self, name: Seq<char>) -> bool {
        exists|i: int| 0 <= i < self.all().len() && (#[trigger] self.all()[i]).name == name
    }

    /// Whether some built-in template has the id.
    pub open spec fn builtin_has_id(self, id: u128) -> bool {
        exists|i: int| 0 <= i < self.builtin.len() && (#[trigger] self.builtin[i]).id == id
    }
}

/// The request that a template gives, its texts substituted, with the given name,
/// id and times.
pub open spec fn applied_request(
    t: TemplateView,
    entries: Seq<(Seq<char>, Seq<char>)>,
    name: Seq<char>,
    id: u128,
    created_at: Timestamp,
    updated_at: Timestamp,
) -> RequestView {
    RequestView {
        id,
        name,
        method: t.method,
        url: substitute_all(t.url_template, entries),
        headers: substitute_pairs(t.headers, entries),
        query_params: substitute_pairs(t.query_params, entries),
        body: substitute_body(t.body_type, entries),
        created_at,
        updated_at,
    }
}

/// The first position in `v` of a template with the id.
fn find_id_in(v: &Vec<RequestTemplate>, id: u128) -> (r: Option<usize>)
    ensures
        match r {
            Some(i) => i < v@.len() && v@[i as int].id == id && forall|j: int| 0 <= j < i ==> (#[trigger] v@[j]).id != id,
            None => forall|j: int| 0 <= j < v@.len() ==> (#[trigger] v@[j]).id != id,
        },
{
    let mut i: usize = 0;
    while i < v.len()
        invariant
            0 <= i <= v@.len(),
            forall|j: int| 0 <= j < i ==> (#[trigger] v@[j]).id != id,
        decreases v@.len() - i,
    {
        if v[i].id == id {
            return Some(i);
        }
        i = i + 1;
    }
    None
}

/// The first position in `v` of a template with the name.
fn find_name_in(v: &Vec<RequestTemplate>, name: &str) -> (r: Option<usize>)
    ensures
        match r {
            Some(i) => i < v@.len() && v@[i as int].name@ == name@ && forall|j: int| 0 <= j < i ==> (#[trigger] v@[j]).name@ != name@,
            None => forall|j: int| 0 <= j < v@.len() ==> (#[trigger] v@[j]).name@ != name@,
        },
{
    let mut i: usize = 0;
    while i < v.len()
        invariant
            0 <= i <= v@.len(),
            forall|j: int| 0 <= j < i ==> (#[trigger] v@[j]).name@ != name@,
        decreases v@.len() - i,
    {
        if str_equal(v[i].name.as_str(), name) {
            return Some(i);
        }
        i = i + 1;
    }
    None
}

/// The borrowed templates of one category, in order.
fn in_category<'a>(all: &Vec<&'a RequestTemplate>, c: TemplateCategory) -> (r: Vec<&'a RequestTemplate>)
    ensures
        ref_views(r@) == of_category(ref_views(all@), c),
{
    let mut r: Vec<&'a RequestTemplate> = Vec::new();
    let mut i: usize = 0;
    while i < all.len()
        invariant
            0 <= i <= all@.len(),
            ref_views(r@) == of_category(ref_views(all@).take(i as int), c),
        decreases all@.len() - i,
    {
        let t = all[i];
        let ghost prev = r@;
        proof {
            assert(ref_views(all@).take(i + 1).drop_last() =~= ref_views(all@).take(i as int));
        }
        if t.category == c {
            r.push(t);
            assert(ref_views(r@) =~= ref_views(prev).push(t@));
        }
        i = i + 1;
    }
    assert(ref_views(all@).take(all@.len() as int) =~= ref_views(all@));
    r
}

/// The names of the required variables that have neither a value nor a default.
fn missing_of(vs: &Vec<TemplateVariable>, variables: &VarMap) -> (r: Vec<String>)
    ensures
        views(r@) == missing_variables(variables_view(vs@), variables@),
{
    let mut r: Vec<String> = Vec::new();
    let mut i: usize = 0;
    while i < vs.len()
        invariant
            0 <= i <= vs@.len(),
            views(r@) == missing_variables(variables_view(vs@).take(i as int), variables@),
        decreases vs@.len() - i,
    {
        let v = &vs[i];
        let ghost prev = r@;
        proof {
            assert(variables_view(vs@).take(i + 1).drop_last() =~= variables_view(vs@).take(i as int));
            assert(variables_view(vs@).take(i + 1).last() == v@);
        }
        if v.required && !variables.contains_key(v.name.as_str()) && v.default_value.is_none() {
            r.push(v.name.clone());
            assert(views(r@) =~= views(prev).push(v@.name));
        }
        i = i + 1;
    }
    assert(variables_view(vs@).take(vs@.len() as int) =~= variables_view(vs@));
    r
}

/// Copies of the pairs with their values substituted.
fn substituted_body(body: &BodyTemplateType, variables: &VarMap) -> (r: BodyType)
    ensures
        r@ == substitute_body(body@, variables.entry_list()),
{
    match body {
        BodyTemplateType::NoBody => BodyType::NoBody,
        BodyTemplateType::Raw { content, content_type } => BodyType::Raw {
            content: TemplateManager::substitute_variables(content.as_str(), variables),
            content_type: *content_type,
        },
        BodyTemplateType::FormUrlEncoded(fields) => BodyType::FormUrlEncoded(substitute_in_pairs(fields, variables)),
    }
}

impl TemplateManager {
    /// Substitutes each variable's placeholder with its value, one variable after
    /// another in the map's order.
    pub fn substitute_variables(template: &str, variables: &VarMap) -> (r: String)
        ensures
            r@ == substitute_all(template@, variables.entry_list()),
    {
        let entries = variables.entries();
        let mut result = to_owned_string(template);
        let mut i: usize = 0;
        assert(entry_views(entries@).skip(0) =~= entry_views(entries@));
        while i < entries.len()
            invariant
                0 <= i <= entries@.len(),
                entry_views(entries@) == variables.entry_list(),
                substitute_all(template@, entry_views(entries@)) == substitute_all(result@, entry_views(entries@).skip(i as int)),
            decreases entries@.len() - i,
        {
            let mut ph = to_owned_string("{{");
            push_str(&mut ph, entries[i].0.as_str());
            push_str(&mut ph, "}}");
            proof {
                reveal_strlit("{{");
                reveal_strlit("}}");
                assert(ph@ == placeholder(entries@[i as int].0@));
                let t = entry_views(entries@).skip(i as int);
                assert(t[0] == (entries@[i as int].0@, entries@[i as int].1@));
                assert(t.drop_first() =~= entry_views(entries@).skip(i + 1));
            }
            result = replace_str(result.as_str(), ph.as_str(), entries[i].1.as_str());
            i = i + 1;
        }
        assert(entry_views(entries@).skip(entries@.len() as int) =~= Seq::empty());
        result
    }

    /// A manager for the workspace, with the built-in templates and no custom one.
    pub fn new(workspace_dir: &str) -> (r: TemplateManager)
        ensures
            is_builtin_catalogue(r@.builtin),
            r@.custom.len() == 0,
            r@.workspace_dir == workspace_dir@,
    {
        let r = TemplateManager {
            builtin_templates: get_builtin_templates(),
            custom_templates: Vec::new(),
            workspace_dir: to_owned_string(workspace_dir),
        };
        assert(r@.custom =~= Seq::empty());
        r
    }

    /// The file where the custom templates are kept.
    pub fn templates_path(&self) -> (r: String)
        ensures
            r@ == path_join(self@.workspace_dir, "templates.json"@),
    {
        join_path(self.workspace_dir.as_str(), "templates.json")
    }

    /// The custom templates.
    pub fn custom_templates(&self) -> (r: &Vec<RequestTemplate>)
        ensures
            templates_view(r@) == self@.custom,
    {
        &self.custom_templates
    }

    /// Replaces the custom templates, as after reading them from the workspace.
    pub fn set_custom_templates(&mut self, templates: Vec<RequestTemplate>)
        ensures
            final(self)@ == (ManagerView { custom: templates_view(templates@), ..old(self)@ }),
    {
        self.custom_templates = templates;
    }

    /// Every template: the built-in ones, then the custom ones.
    pub fn get_all_templates(&self) -> (r: Vec<&RequestTemplate>)
        ensures
            ref_views(r@) == self@.all(),
    {
        let mut r: Vec<&RequestTemplate> = Vec::new();
        let mut i: usize = 0;
        while i < self.builtin_templates.len()
            invariant
                0 <= i <= self.builtin_templates@.len(),
                ref_views(r@) == templates_view(self.builtin_templates@).take(i as int),
            decreases self.builtin_templates@.len() - i,
        {
            let ghost prev = r@;
            r.push(&self.builtin_templates[i]);
            assert(ref_views(r@) =~= ref_views(prev).push(self.builtin_templates@[i as int]@));
            assert(ref_views(r@) =~= templates_view(self.builtin_templates@).take(i + 1));
            i = i + 1;
        }
        let mut j: usize = 0;
        while j < self.custom_templates.len()
            invariant
                0 <= j <= self.custom_templates@.len(),
                ref_views(r@) == self@.builtin + templates_view(self.custom_templates@).take(j as int),
            decreases self.custom_templates@.len() - j,
        {
            let ghost prev = r@;
            r.push(&self.custom_templates[j]);
            assert(ref_views(r@) =~= ref_views(prev).push(self.custom_templates@[j as int]@));
            assert(ref_views(r@) =~= self@.builtin + templates_view(self.custom_templates@).take(j + 1));
            j = j + 1;
        }
        assert(templates_view(self.custom_templates@).take(j as int) =~= self@.custom);
        r
    }

    /// The templates grouped by category: each category that some template has,
    /// in the order Basic, Authentication, API, Testing, Custom, with its templates
    /// in order.
    pub fn get_templates_by_category(&self) -> (r: Vec<(TemplateCategory, Vec<&RequestTemplate>)>)
        ensures
            group_views(r@) == groups_of(category_order(), self@.all()),
    {
        let all = self.get_all_templates();
        let cats: Vec<TemplateCategory> = vec![
            TemplateCategory::Basic,
            TemplateCategory::Authentication,
            TemplateCategory::Api,
            TemplateCategory::Testing,
            TemplateCategory::Custom,
        ];
        assert(cats@ =~= category_order());
        let mut r: Vec<(TemplateCategory, Vec<&RequestTemplate>)> = Vec::new();
        let mut i: usize = 0;
        while i < cats.len()
            invariant
                0 <= i <= cats@.len(),
                cats@ == category_order(),
                ref_views(all@) == self@.all(),
                group_views(r@) == groups_of(cats@.take(i as int), self@.all()),
            decreases cats@.len() - i,
        {
            let c = cats[i];
            let g = in_category(&all, c);
            let ghost prev = r@;
            proof {
                assert(cats@.take(i + 1).drop_last() =~= cats@.take(i as int));
                assert(cats@.take(i + 1).last() == c);
            }
            if g.len() > 0 {
                let ghost gv = ref_views(g@);
                r.push((c, g));
                assert(group_views(r@) =~= group_views(prev).push((c, gv)));
            }
            i = i + 1;
        }
        assert(cats@.take(cats@.len() as int) =~= cats@);
        r
    }

    /// The first template with the id, built-in ones first.
    pub fn get_template(&self, id: u128) -> (r: Option<&RequestTemplate>)
        ensures
            r is None <==> !self@.has_id(id),
            r matches Some(t) ==> exists|i: int| self@.first_with_id(id, i) && t@ == self@.all()[i],
    {
        let ghost all = self@.all();
        let ghost nb = self@.builtin.len();
        assert(forall|k: int| 0 <= k < nb ==> #[trigger] all[k] == self.builtin_templates@[k]@);
        assert(forall|k: int| nb <= k < all.len() ==> #[trigger] all[k] == self.custom_templates@[k - nb]@);
        match find_id_in(&self.builtin_templates, id) {
            Some(i) => {
                assert(self@.first_with_id(id, i as int));
                Some(&self.builtin_templates[i])
            },
            None => match find_id_in(&self.custom_templates, id) {
                Some(j) => {
                    assert(all[nb + j] == self.custom_templates@[j as int]@);
                    assert(self@.first_with_id(id, nb + j));
                    Some(&self.custom_templates[j])
                },
                None => {
                    assert(!self@.has_id(id));
                    None
                },
            },
        }
    }

    /// The first template with the name, built-in ones first.
    pub fn get_template_by_name(&self, name: &str) -> (r: Option<&RequestTemplate>)
        ensures
            r is None <==> !self@.has_name(name@),
            r matches Some(t) ==> exists|i: int| self@.first_with_name(name@, i) && t@ == self@.all()[i],
    {
        let ghost all = self@.all();
        let ghost nb = self@.builtin.len();
        assert(forall|k: int| 0 <= k < nb ==> #[trigger] all[k] == self.builtin_templates@[k]@);
        assert(forall|k: int| nb <= k < all.len() ==> #[trigger] all[k] == self.custom_templates@[k - nb]@);
        match find_name_in(&self.builtin_templates, name) {
            Some(i) => {
                assert(self@.first_with_name(name@, i as int));
                Some(&self.builtin_templates[i])
            },
            None => match find_name_in(&self.custom_templates, name) {
                Some(j) => {
                    assert(all[nb + j] == self.custom_templates@[j as int]@);
                    assert(self@.first_with_name(name@, nb + j));
                    Some(&self.custom_templates[j])
                },
                None => {
                    assert(!self@.has_name(name@));
                    None
                },
            },
        }
    }

    /// Adds a custom template; a built-in one is refused.
    pub fn add_custom_template(&mut self, template: RequestTemplate) -> (r: Result<(), TemplateError>)
        ensures
            template@.is_builtin ==> (r matches Err(TemplateError::CannotModifyBuiltin) && final(self)@ == old(self)@),
            !template@.is_builtin ==> r is Ok && final(self)@ == (ManagerView { custom: old(self)@.custom.push(template@), ..old(self)@ }),
    {
        if template.is_builtin {
            return Err(TemplateError::CannotModifyBuiltin);
        }
        let ghost before = self.custom_templates@;
        let ghost tv = template@;
        self.custom_templates.push(template);
        assert(templates_view(self.custom_templates@) =~= templates_view(before).push(tv));
        Ok(())
    }

    /// Removes the custom templates with the id; the id of a built-in template is
    /// refused.
    pub fn delete_custom_template(&mut self, id: u128) -> (r: Result<(), TemplateError>)
        ensures
            old(self)@.builtin_has_id(id) ==> (r matches Err(TemplateError::CannotModifyBuiltin) && final(self)@ == old(self)@),
            !old(self)@.builtin_has_id(id) ==> r is Ok && final(self)@ == (ManagerView { custom: without_id(old(self)@.custom, id), ..old(self)@ }),
    {
        if let Some(i) = find_id_in(&self.builtin_templates, id) {
            assert(self@.builtin[i as int].id == id);
            return Err(TemplateError::CannotModifyBuiltin);
        }
        let mut kept: Vec<RequestTemplate> = Vec::new();
        let mut old_custom: Vec<RequestTemplate> = Vec::new();
        std::mem::swap(&mut old_custom, &mut self.custom_templates);
        let ghost src = templates_view(old_custom@);
        let mut i: usize = 0;
        while i < old_custom.len()
            invariant
                0 <= i <= old_custom@.len(),
                src == templates_view(old_custom@),
                templates_view(kept@) == without_id(src.take(i as int), id),
            decreases old_custom@.len() - i,
        {
            proof {
                assert(src.take(i + 1).drop_last() =~= src.take(i as int));
                assert(src.take(i + 1).last() == old_custom@[i as int]@);
            }
            if old_custom[i].id != id {
                let t = old_custom[i].duplicate();
                let ghost prev = kept@;
                kept.push(t);
                assert(templates_view(kept@) =~= templates_view(prev).push(t@));
            }
            i = i + 1;
        }
        assert(src.take(old_custom@.len() as int) =~= src);
        self.custom_templates = kept;
        Ok(())
    }

    /// A request made from the template with the id: its texts substituted with
    /// the variables, given the name, a fresh id and the current time, with the
    /// required variables that have neither a value nor a default.
    pub fn create_from_template(&self, template_id: u128, variables: &VarMap, name: String) -> (r: Result<
        TemplateApplicationResult,
        TemplateError,
    >)
        ensures
            !self@.has_id(template_id) ==> (r matches Err(TemplateError::TemplateNotFound(i)) && i == template_id),
            self@.has_id(template_id) ==> r is Ok,
            r matches Ok(res) ==> exists|i: int|
                {
                    &&& self@.first_with_id(template_id, i)
                    &&& res.request@ == applied_request(
                        #[trigger] self@.all()[i],
                        variables.entry_list(),
                        name@,
                        res.request@.id,
                        res.request@.created_at,
                        res.request@.updated_at,
                    )
                    &&& views(res.missing_variables@) == missing_variables(self@.all()[i].variables, variables@)
                },
            r matches Ok(res) ==> is_v4_uuid(res.request@.id),
    {
        let template = match self.get_template(template_id) {
            Some(t) => t,
            None => {
                return Err(TemplateError::TemplateNotFound(template_id));
            },
        };
        let missing = missing_of(&template.variables, variables);
        let url = TemplateManager::substitute_variables(template.url_template.as_str(), variables);
        let headers = substitute_in_pairs(&template.headers, variables);
        let query_params = substitute_in_pairs(&template.query_params, variables);
        let body = substituted_body(&template.body_type, variables);
        let request = RequestDefinition {
            id: new_id(),
            name,
            method: template.method,
            url,
            headers,
            query_params,
            body,
            created_at: now(),
            updated_at: now(),
        };
        Ok(TemplateApplicationResult { request, missing_variables: missing })
    }

    /// Succeeds when every required variable of the template with the id has a
    /// value or a default; otherwise names those that have neither.
    pub fn validate_template_variables(&self, template_id: u128, variables: &VarMap) -> (r: Result<(), TemplateError>)
        ensures
            !self@.has_id(template_id) ==> (r matches Err(TemplateError::TemplateNotFound(i)) && i == template_id),
            self@.has_id(template_id) ==> exists|i: int|
                {
                    &&& #[trigger] self@.first_with_id(template_id, i)
                    &&& missing_variables(self@.all()[i].variables, variables@).len() == 0 ==> r is Ok
                    &&& missing_variables(self@.all()[i].variables, variables@).len() > 0 ==> (r matches Err(
                        TemplateError::MissingVariables(m),
                    ) && views(m@) == missing_variables(self@.all()[i].variables, variables@))
                },
    {
        let template = match self.get_template(template_id) {
            Some(t) => t,
            None => {
                return Err(TemplateError::TemplateNotFound(template_id));
            },
        };
        let missing = missing_of(&template.variables, variables);
        proof {
            let i = choose|i: int| self@.first_with_id(template_id, i) && template@ == self@.all()[i];
            assert(self@.first_with_id(template_id, i));
        }
        if missing.len() > 0 {
            Err(TemplateError::MissingVariables(missing))
        } else {
            Ok(())
        }
    }
}

/// Every operation by id looks at the same template: the first with the id, so
/// validating the variables and creating a request agree on what is missing.
pub proof fn law_one_template_per_id(m: ManagerView, id: u128, i: int, j: int)
    requires
        m.first_with_id(id, i),
        m.first_with_id(id, j),
    ensures
        i == j,
        m.template_with_id(id) == m.all()[i],
{
    if i < j {
        assert(m.all()[i].id == id);
    } else if j < i {
        assert(m.all()[j].id == id);
    }
    let k = choose|k: int| m.first_with_id(id, k);
    if k < i {
        assert(m.all()[k].id == id);
    } else if i < k {
        assert(m.all()[i].id == id);
    }
}

/// A custom template that was added can be found by its id afterwards, and
/// deleting an id leaves no custom template with it; the built-in templates stay.
pub proof fn law_add_then_find_delete_then_gone(m: ManagerView, t: TemplateView, id: u128)
    ensures
        (ManagerView { custom: m.custom.push(t), ..m }).has_id(t.id),
        forall|k: int| 0 <= k < without_id(m.custom, id).len() ==> (#[trigger] without_id(m.custom, id)[k]).id != id,
        (ManagerView { custom: without_id(m.custom, id), ..m }).builtin == m.builtin,
{
    let m2 = ManagerView { custom: m.custom.push(t), ..m };
    assert(m2.all()[m2.all().len() - 1] == t);
    lemma_without_id_lacks(m.custom, id);
}

/// A variable is reported missing exactly when some variable of that name is
/// required, has no value given, and has no default; in particular a variable with
/// a default, or an optional one, is never reported missing for its own sake.
pub proof fn law_missing_means_required_without_value_or_default(
    vs: Seq<VariableView>,
    vars: Map<Seq<char>, Seq<char>>,
    name: Seq<char>,
)
    ensures
        missing_variables(vs, vars).contains(name) <==> exists|i: int|
            0 <= i < vs.len() && (#[trigger] vs[i]).name == name && vs[i].required && !vars.contains_key(name)
                && vs[i].default_value is None,
        (forall|i: int| 0 <= i < vs.len() && (#[trigger] vs[i]).name == name ==> (vs[i].default_value is Some
            || !vs[i].required)) ==> !missing_variables(vs, vars).contains(name),
    decreases vs.len(),
{
    if vs.len() > 0 {
        let p = vs.drop_last();
        law_missing_means_required_without_value_or_default(p, vars, name);
        let rest = missing_variables(p, vars);
        let v = vs.last();
        let n = vs.len() - 1;
        assert(vs[n] == v);
        assert forall|i: int| 0 <= i < p.len() implies p[i] == vs[i] by {}
        if missing_variables(vs, vars).contains(name) {
            if rest.contains(name) {
                let i = choose|i: int|
                    0 <= i < p.len() && (#[trigger] p[i]).name == name && p[i].required && !vars.contains_key(name)
                        && p[i].default_value is None;
                assert(vs[i] == p[i]);
            } else {
                let m = missing_variables(vs, vars);
                let k = choose|k: int| 0 <= k < m.len() && m[k] == name;
                if v.required && v.default_value is None && !vars.contains_key(v.name) {
                    if k < rest.len() {
                        assert(rest[k] == name);
                    }
                } else {
                    assert(rest[k] == name);
                }
            }
        }
        if exists|i: int|
            0 <= i < vs.len() && (#[trigger] vs[i]).name == name && vs[i].required && !vars.contains_key(name)
                && vs[i].default_value is None {
            let i = choose|i: int|
                0 <= i < vs.len() && (#[trigger] vs[i]).name == name && vs[i].required && !vars.contains_key(name)
                    && vs[i].default_value is None;
            if i < n {
                assert(p[i] == vs[i]);
                let k = choose|k: int| 0 <= k < rest.len() && rest[k] == name;
                assert(missing_variables(vs, vars)[k] == name);
            } else {
                assert(missing_variables(vs, vars)[rest.len() as int] == name);
            }
        }
    }
}

} // verus!
