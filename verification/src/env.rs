//! Environments, variable maps, and interpolation of `{{name}}` placeholders.
use vstd::prelude::*;
use crate::ids::{new_id, is_v4_uuid};
use crate::models::{KeyValuePair, PairView, pairs_view, BodyType, BodyView, RequestDefinition, RequestView, copy_opt_string};
use crate::text::{str_equal, to_owned_string, push_str, views, occurs_at, contains_seq};

verus! {

/// A map from variable names to values, kept as a list of entries with distinct
/// names in the order they were first inserted.
#[derive(Debug)]
pub struct VarMap {
    entries: Vec<(String, String)>,
}

/// The map that a list of entries stands for; a later entry wins.
pub open spec fn entries_map(s: Seq<(String, String)>) -> Map<Seq<char>, Seq<char>>
    decreases s.len(),
{
    if s.len() == 0 {
        Map::empty()
    } else {
        entries_map(s.drop_last()).insert(s.last().0@, s.last().1@)
    }
}

/// The names and values of a list of entries.
pub open spec fn entry_views(s: Seq<(String, String)>) -> Seq<(Seq<char>, Seq<char>)> {
    s.map_values(|e: (String, String)| (e.0@, e.1@))
}

/// No two entries share a name.
pub open spec fn distinct_names(s: Seq<(String, String)>) -> bool {
    forall|i: int, j: int| 0 <= i < j < s.len() ==> (#[trigger] s[i]).0@ != (#[trigger] s[j]).0@
}

impl View for VarMap {
    type V = Map<Seq<char>, Seq<char>>;

    closed spec fn view(&self) -> Map<Seq<char>, Seq<char>> {
        entries_map(self.entries@)
    }
}

/// Entries with distinct names: a name is in the map exactly when an entry has it,
/// with that entry's value.
proof fn lemma_entries_map_distinct(s: Seq<(String, String)>)
    requires
        distinct_names(s),
    ensures
        forall|k: Seq<char>| #[trigger] entries_map(s).contains_key(k) <==> exists|i: int| 0 <= i < s.len() && s[i].0@ == k,
        forall|i: int| 0 <= i < s.len() ==> #[trigger] entries_map(s)[s[i].0@] == s[i].1@,
        entries_map(s).dom().finite(),
    decreases s.len(),
{
    if s.len() > 0 {
        let t = s.drop_last();
        assert(distinct_names(t));
        lemma_entries_map_distinct(t);
        assert forall|k: Seq<char>| #[trigger] entries_map(s).contains_key(k) <==> exists|i: int| 0 <= i < s.len() && s[i].0@ == k by {
            if entries_map(s).contains_key(k) && k != s.last().0@ {
                let i = choose|i: int| 0 <= i < t.len() && t[i].0@ == k;
                assert(s[i] == t[i]);
            }
            if exists|i: int| 0 <= i < s.len() && s[i].0@ == k {
                let i = choose|i: int| 0 <= i < s.len() && s[i].0@ == k;
                if i < s.len() - 1 {
                    assert(t[i] == s[i]);
                }
            }
        }
        assert forall|i: int| 0 <= i < s.len() implies #[trigger] entries_map(s)[s[i].0@] == s[i].1@ by {
            if i < s.len() - 1 {
                assert(t[i] == s[i]);
                assert(s[i].0@ != s[s.len() - 1].0@);
            }
        }
    }
}

/// Replacing the value of an entry is inserting into the map.
proof fn lemma_entries_map_update(s: Seq<(String, String)>, i: int, e: (String, String))
    requires
        distinct_names(s),
        0 <= i < s.len(),
        e.0@ == s[i].0@,
    ensures
        distinct_names(s.update(i, e)),
        entries_map(s.update(i, e)) == entries_map(s).insert(e.0@, e.1@),
{
    let u = s.update(i, e);
    assert(distinct_names(u)) by {
        assert forall|a: int, b: int| 0 <= a < b < u.len() implies (#[trigger] u[a]).0@ != (#[trigger] u[b]).0@ by {
            assert(s[a].0@ != s[b].0@);
        }
    }
    lemma_entries_map_distinct(s);
    lemma_entries_map_distinct(u);
    assert forall|k: Seq<char>| #[trigger] entries_map(u).contains_key(k) == entries_map(s).insert(e.0@, e.1@).contains_key(k) by {
        if exists|j: int| 0 <= j < s.len() && s[j].0@ == k {
            let j = choose|j: int| 0 <= j < s.len() && s[j].0@ == k;
            assert(u[j].0@ == k);
        }
        if exists|j: int| 0 <= j < u.len() && u[j].0@ == k {
            let j = choose|j: int| 0 <= j < u.len() && u[j].0@ == k;
            if j != i {
                assert(s[j].0@ == k);
            }
        }
    }
    assert forall|k: Seq<char>| #[trigger] entries_map(u).contains_key(k) implies entries_map(u)[k] == entries_map(s).insert(e.0@, e.1@)[k] by {
        let j = choose|j: int| 0 <= j < u.len() && u[j].0@ == k;
        assert(entries_map(u)[u[j].0@] == u[j].1@);
        if j != i {
            assert(entries_map(s)[s[j].0@] == s[j].1@);
        }
    }
    assert(entries_map(u) =~= entries_map(s).insert(e.0@, e.1@));
}

impl VarMap {
    #[verifier::type_invariant]
    spec fn names_distinct(self) -> bool {
        distinct_names(self.entries@)
    }

    /// The entries' names and values in insertion order; the names are distinct.
    pub closed spec fn entry_list(&self) -> Seq<(Seq<char>, Seq<char>)> {
        entry_views(self.entries@)
    }

    /// An empty map.
    pub fn new() -> (r: VarMap)
        ensures
            r@ == Map::<Seq<char>, Seq<char>>::empty(),
            r.entry_list().len() == 0,
    {
        VarMap { entries: Vec::new() }
    }

    /// The position of the entry named `key`, if any.
    fn position(&self, key: &str) -> (r: Option<usize>)
        ensures
            r is None ==> !self@.contains_key(key@),
            r matches Some(i) ==> i < self.entries@.len() && self.entries@[i as int].0@ == key@ && self@[key@] == self.entries@[i as int].1@,
            r is Some ==> self@.contains_key(key@),
    {
        proof {
            use_type_invariant(self);
            lemma_entries_map_distinct(self.entries@);
        }
        let mut i: usize = 0;
        while i < self.entries.len()
            invariant
                0 <= i <= self.entries@.len(),
                distinct_names(self.entries@),
                forall|j: int| 0 <= j < i ==> (#[trigger] self.entries@[j]).0@ != key@,
            decreases self.entries@.len() - i,
        {
            if str_equal(self.entries[i].0.as_str(), key) {
                proof {
                    let s = self.entries@;
                    lemma_entries_map_distinct(s);
                    assert(s[i as int].0@ == key@);
                    assert(entries_map(s).contains_key(s[i as int].0@));
                    assert(entries_map(s)[s[i as int].0@] == s[i as int].1@);
                }
                return Some(i);
            }
            i = i + 1;
        }
        proof {
            let s = self.entries@;
            lemma_entries_map_distinct(s);
            if entries_map(s).contains_key(key@) {
                let j = choose|j: int| 0 <= j < s.len() && s[j].0@ == key@;
                assert(s[j].0@ != key@);
            }
        }
        None
    }

    /// The value of `key`, if the map has one.
    pub fn get(&self, key: &str) -> (r: Option<&String>)
        ensures
            r is Some == self@.contains_key(key@),
            r matches Some(v) ==> v@ == self@[key@],
    {
        match self.position(key) {
            Some(i) => Some(&self.entries[i].1),
            None => None,
        }
    }

    /// Whether `key` has a value.
    pub fn contains_key(&self, key: &str) -> (r: bool)
        ensures
            r == self@.contains_key(key@),
    {
        self.position(key).is_some()
    }

    /// Sets the value of `key`: a new name goes last, a known name keeps its place.
    pub fn insert(&mut self, key: String, value: String)
        ensures
            final(self)@ == old(self)@.insert(key@, value@),
    {
        proof {
            use_type_invariant(&*self);
        }
        let pos = self.position(key.as_str());
        let mut es: Vec<(String, String)> = Vec::new();
        std::mem::swap(&mut es, &mut self.entries);
        let ghost before = es@;
        match pos {
            Some(i) => {
                proof {
                    lemma_entries_map_update(es@, i as int, (key, value));
                }
                es.set(i, (key, value));
            },
            None => {
                proof {
                    lemma_entries_map_distinct(before);
                }
                es.push((key, value));
                assert(es@.drop_last() == before);
                assert(distinct_names(es@)) by {
                    assert forall|a: int, b: int| 0 <= a < b < es@.len() implies (#[trigger] es@[a]).0@ != (#[trigger] es@[b]).0@ by {
                        if b == es@.len() - 1 {
                            assert(before[a].0@ != key@);
                        } else {
                            assert(before[a].0@ != before[b].0@);
                        }
                    }
                }
            },
        }
        std::mem::swap(&mut es, &mut self.entries);
    }

    /// The map with the given pairs inserted in order (a later pair wins).
    pub fn from_pairs(pairs: Vec<(String, String)>) -> (r: VarMap)
        ensures
            r@ == entries_map(pairs@),
    {
        let mut m = VarMap::new();
        let mut pairs = pairs;
        let ghost all = pairs@;
        let mut rest: Vec<(String, String)> = Vec::new();
        // Reverse so that popping yields the pairs in order.
        while pairs.len() > 0
            invariant
                rest@ == all.skip(pairs@.len() as int).reverse(),
                pairs@ == all.take(pairs@.len() as int),
                pairs@.len() <= all.len(),
            decreases pairs@.len(),
        {
            let ghost before = pairs@;
            let p = pairs.pop().unwrap();
            proof {
                assert(pairs@ =~= all.take(pairs@.len() as int));
                assert(p == all[pairs@.len() as int]);
            }
            rest.push(p);
            assert(rest@ =~= all.skip(pairs@.len() as int).reverse());
        }
        assert(all.skip(0) == all);
        let n = rest.len();
        let mut k: usize = 0;
        while rest.len() > 0
            invariant
                k + rest@.len() == n,
                n == all.len(),
                rest@ == all.skip(k as int).reverse(),
                m@ == entries_map(all.take(k as int)),
            decreases rest@.len(),
        {
            let p = rest.pop().unwrap();
            proof {
                assert(p == all[k as int]);
                assert(rest@ =~= all.skip(k + 1).reverse());
                assert(all.take(k + 1).drop_last() == all.take(k as int));
            }
            m.insert(p.0, p.1);
            k = k + 1;
        }
        assert(all.take(n as int) == all);
        m
    }

    /// The entries in insertion order.
    pub fn entries(&self) -> (r: &Vec<(String, String)>)
        ensures
            entry_views(r@) == self.entry_list(),
            entries_map(r@) == self@,
            distinct_names(r@),
    {
        proof {
            use_type_invariant(self);
        }
        &self.entries
    }
}

/// A named variable of an environment.
#[derive(Clone, Debug)]
pub struct Variable {
    pub key: String,
    pub value: String,
    pub secret: bool,
    pub enabled: bool,
}

/// A named set of variables, such as "Development" or "Production".
#[derive(Clone, Debug)]
pub struct Environment {
    pub id: u128,
    pub name: String,
    pub variables: Vec<Variable>,
}

/// The map of the enabled variables among `vs`; a later variable wins.
pub open spec fn enabled_vars_map(vs: Seq<Variable>) -> Map<Seq<char>, Seq<char>>
    decreases vs.len(),
{
    if vs.len() == 0 {
        Map::empty()
    } else if vs.last().enabled {
        enabled_vars_map(vs.drop_last()).insert(vs.last().key@, vs.last().value@)
    } else {
        enabled_vars_map(vs.drop_last())
    }
}

impl Environment {
    /// A new environment with a fresh id and no variables.
    pub fn new(name: &str) -> (r: Environment)
        ensures
            r.name@ == name@,
            r.variables@.len() == 0,
            is_v4_uuid(r.id),
    {
        Environment { id: new_id(), name: to_owned_string(name), variables: Vec::new() }
    }

    /// The enabled variables as a map from name to value.
    pub fn to_map(&self) -> (r: VarMap)
        ensures
            r@ == enabled_vars_map(self.variables@),
    {
        let mut m = VarMap::new();
        let mut i: usize = 0;
        while i < self.variables.len()
            invariant
                0 <= i <= self.variables@.len(),
                m@ == enabled_vars_map(self.variables@.take(i as int)),
            decreases self.variables@.len() - i,
        {
            let v = &self.variables[i];
            assert(self.variables@.take((i + 1) as int).drop_last() == self.variables@.take(i as int));
            if v.enabled {
                m.insert(v.key.clone(), v.value.clone());
            }
            i = i + 1;
        }
        assert(self.variables@.take(self.variables@.len() as int) == self.variables@);
        m
    }
}

// ---------------------------------------------------------------------------
// Interpolation
// ---------------------------------------------------------------------------

/// The placeholder text `{{name}}`.
pub open spec fn placeholder(name: Seq<char>) -> Seq<char> {
    seq!['{', '{'] + name + seq!['}', '}']
}

/// What a placeholder is replaced by: the variable's value, or the placeholder
/// itself when the variable is missing.
pub open spec fn substitute(vars: Map<Seq<char>, Seq<char>>, name: Seq<char>) -> Seq<char> {
    if vars.contains_key(name) {
        vars[name]
    } else {
        placeholder(name)
    }
}

/// The text between placeholders interleaved with the placeholders' substitutes:
/// `pieces[0] + sub(names[0]) + pieces[1] + ... + pieces[n]`.
pub open spec fn weave(
    pieces: Seq<Seq<char>>,
    names: Seq<Seq<char>>,
    vars: Map<Seq<char>, Seq<char>>,
) -> Seq<char>
    decreases names.len(),
{
    if names.len() == 0 {
        if pieces.len() > 0 {
            pieces[0]
        } else {
            Seq::empty()
        }
    } else {
        pieces[0] + substitute(vars, names[0]) + weave(pieces.drop_first(), names.drop_first(), vars)
    }
}

/// The placeholder pattern: `{{`, a name of one or more word characters, `}}`;
/// the name is the first group.
pub const PLACEHOLDER_PATTERN: &'static str = r"\{\{(\w+)\}\}";

/// The texts that the regex `pattern` splits `s` into (`Regex::split`).
pub uninterp spec fn regex_split_pieces(pattern: Seq<char>, s: Seq<char>) -> Seq<Seq<char>>;

/// What the first group of the regex `pattern` captures in each of its matches in
/// `s`, in order (`Regex::captures_iter`).
pub uninterp spec fn regex_first_groups(pattern: Seq<char>, s: Seq<char>) -> Seq<Seq<char>>;

/// The texts around the placeholders of `s`.
pub open spec fn placeholder_pieces(s: Seq<char>) -> Seq<Seq<char>> {
    regex_split_pieces(PLACEHOLDER_PATTERN@, s)
}

/// The names in the placeholders of `s`, in order.
pub open spec fn placeholder_names(s: Seq<char>) -> Seq<Seq<char>> {
    regex_first_groups(PLACEHOLDER_PATTERN@, s)
}

/// The text that interpolation makes of `s`.
pub open spec fn interpolate(s: Seq<char>, vars: Map<Seq<char>, Seq<char>>) -> Seq<char> {
    weave(placeholder_pieces(s), placeholder_names(s), vars)
}

/// `Regex::new(pattern)` then `Regex::split`: the texts around the matches. What
/// the pattern matches is named, not stated. The pattern is the placeholder
/// pattern, which compiles.
#[verifier::external_body]
fn split_around_placeholders(pattern: &str, input: &str) -> (r: Vec<String>)
    requires
        pattern@ == PLACEHOLDER_PATTERN@,
    ensures
        views(r@) == regex_split_pieces(pattern@, input@),
{
    let re = regex::Regex::new(pattern).unwrap();
    re.split(input).map(|p| p.to_string()).collect()
}

/// `Regex::new(pattern)` then `Regex::captures_iter`: the first group of each match,
/// in order. For the placeholder pattern, which compiles, the regex crate documents
/// that `split` yields the text between consecutive matches, so there is one more
/// piece than there are matches, and the input is the pieces joined by the matched
/// placeholders `{{name}}`.
#[verifier::external_body]
fn placeholder_names_of(pattern: &str, input: &str) -> (r: Vec<String>)
    requires
        pattern@ == PLACEHOLDER_PATTERN@,
    ensures
        views(r@) == regex_first_groups(pattern@, input@),
        regex_split_pieces(pattern@, input@).len() == r@.len() + 1,
        weave(regex_split_pieces(pattern@, input@), views(r@), Map::empty()) == input@,
{
    let re = regex::Regex::new(pattern).unwrap();
    re.captures_iter(input).map(|c| c[1].to_string()).collect()
}

/// Whether `s` contains `{{`.
fn has_open_braces(s: &str) -> (r: bool)
    ensures
        r == contains_seq(s@, seq!['{', '{']),
{
    let v = crate::text::chars_of(s);
    if v.len() < 2 {
        proof {
            assert forall|i: int| !occurs_at(s@, seq!['{', '{'], i) by {}
        }
        return false;
    }
    let mut i: usize = 0;
    let last = v.len() - 1;
    while i < last
        invariant
            0 <= i <= last,
            last + 1 == v@.len(),
            v@ == s@,
            forall|k: int| 0 <= k < i ==> !occurs_at(s@, seq!['{', '{'], k),
        decreases v@.len() - i,
    {
        if v[i] == '{' && v[i + 1] == '{' {
            assert(s@.subrange(i as int, i + 2) =~= seq!['{', '{']);
            assert(occurs_at(s@, seq!['{', '{'], i as int));
            return true;
        }
        assert(!occurs_at(s@, seq!['{', '{'], i as int)) by {
            if occurs_at(s@, seq!['{', '{'], i as int) {
                assert(s@.subrange(i as int, i + 2)[0] == s@[i as int]);
                assert(s@.subrange(i as int, i + 2)[1] == s@[i + 1]);
            }
        }
        i = i + 1;
    }
    proof {
        assert forall|k: int| !occurs_at(s@, seq!['{', '{'], k) by {
            if 0 <= k && k >= i {
                assert(k + 2 > s@.len());
            }
        }
    }
    false
}

/// Interleaves texts with the substitutes of placeholder names: the function that
/// interpolation applies to what the placeholder regex found.
pub fn weave_placeholders(pieces: &Vec<String>, names: &Vec<String>, vars: &VarMap) -> (r: String)
    requires
        pieces@.len() == names@.len() + 1,
    ensures
        r@ == weave(views(pieces@), views(names@), vars@),
{
    let mut r = String::new();
    let mut i: usize = names.len();
    let mut tail = pieces[i].clone();
    // Build from the back: tail == weave(pieces[i..], names[i..]).
    proof {
        assert(views(pieces@).skip(i as int).len() == 1);
        assert(views(pieces@).skip(i as int)[0] == pieces@[i as int]@);
    }
    while i > 0
        invariant
            0 <= i <= names@.len(),
            pieces@.len() == names@.len() + 1,
            tail@ == weave(views(pieces@).skip(i as int), views(names@).skip(i as int), vars@),
        decreases i,
    {
        let j = i - 1;
        let mut t = pieces[j].clone();
        match vars.get(names[j].as_str()) {
            Some(v) => push_str(&mut t, v.as_str()),
            None => {
                push_str(&mut t, "{{");
                push_str(&mut t, names[j].as_str());
                push_str(&mut t, "}}");
                proof { reveal_strlit("{{"); reveal_strlit("}}"); }
            },
        }
        push_str(&mut t, tail.as_str());
        proof {
            let ps = views(pieces@).skip(j as int);
            let ns = views(names@).skip(j as int);
            assert(ps.drop_first() == views(pieces@).skip(i as int));
            assert(ns.drop_first() == views(names@).skip(i as int));
            assert(ps[0] == pieces@[j as int]@);
            assert(ns[0] == names@[j as int]@);
        }
        tail = t;
        i = j;
    }
    assert(views(pieces@).skip(0) == views(pieces@));
    assert(views(names@).skip(0) == views(names@));
    push_str(&mut r, tail.as_str());
    r
}

/// Interpolation of placeholders with no outside value involved.
pub struct Interpolator;

impl Interpolator {
    /// Replaces each `{{name}}` placeholder (a name of word characters) with the
    /// variable's value; placeholders of missing variables stay as they are. A text
    /// without `{{` is returned as it is; with no variables, every text is.
    pub fn replace(input: &str, vars: &VarMap) -> (r: String)
        ensures
            r@ == resolved_text(input@, vars@),
            vars@ == Map::<Seq<char>, Seq<char>>::empty() ==> r@ == input@,
    {
        if !has_open_braces(input) {
            return to_owned_string(input);
        }
        let names = placeholder_names_of(PLACEHOLDER_PATTERN, input);
        let pieces = split_around_placeholders(PLACEHOLDER_PATTERN, input);
        let r = weave_placeholders(&pieces, &names, vars);
        assert(vars@ == Map::<Seq<char>, Seq<char>>::empty() ==> r@ == input@);
        r
    }

    /// Interpolates the key and value of every pair, in place.
    pub fn resolve_pairs(pairs: &mut Vec<KeyValuePair>, vars: &VarMap)
        ensures
            pairs_view(final(pairs)@) == resolved_pairs(pairs_view(old(pairs)@), vars@),
            vars@ == Map::<Seq<char>, Seq<char>>::empty() ==> pairs_view(final(pairs)@)
                == pairs_view(old(pairs)@),
    {
        let ghost start = pairs_view(pairs@);
        let mut i: usize = 0;
        while i < pairs.len()
            invariant
                0 <= i <= pairs@.len(),
                start.len() == pairs@.len(),
                forall|k: int| 0 <= k < i ==> #[trigger] pairs_view(pairs@)[k] == resolved_pair(start[k], vars@),
                forall|k: int| i <= k < pairs@.len() ==> #[trigger] pairs_view(pairs@)[k] == start[k],
                vars@ == Map::<Seq<char>, Seq<char>>::empty() ==> forall|k: int| 0 <= k < i ==> #[trigger] resolved_pair(start[k], vars@) == start[k],
            decreases pairs@.len() - i,
        {
            assert(pairs_view(pairs@)[i as int] == start[i as int]);
            let np = {
                let p = &pairs[i];
                KeyValuePair {
                    key: Interpolator::replace(p.key.as_str(), vars),
                    value: Interpolator::replace(p.value.as_str(), vars),
                    enabled: p.enabled,
                    description: copy_opt_string(&p.description),
                }
            };
            let ghost prev = pairs@;
            let ghost npv = np@;
            pairs.set(i, np);
            proof {
                assert(pairs@ == prev.update(i as int, np));
                assert forall|k: int| 0 <= k < pairs@.len() implies #[trigger] pairs_view(pairs@)[k]
                    == (if k == i { npv } else { pairs_view(prev)[k] }) by {}
                assert(npv == resolved_pair(start[i as int], vars@));
            }
            i = i + 1;
        }
        assert(pairs_view(pairs@) =~= resolved_pairs(start, vars@));
    }

    /// A copy of the request with every placeholder in its URL, headers, query
    /// parameters and body replaced; with no variables, an equal copy.
    pub fn resolve(req: &RequestDefinition, vars: &VarMap) -> (r: RequestDefinition)
        ensures
            r@ == resolved_request(req@, vars@),
            vars@ == Map::<Seq<char>, Seq<char>>::empty() ==> r@ == req@,
    {
        let mut resolved = req.duplicate();
        resolved.url = Interpolator::replace(req.url.as_str(), vars);
        Interpolator::resolve_pairs(&mut resolved.headers, vars);
        Interpolator::resolve_pairs(&mut resolved.query_params, vars);
        resolved.body = match &req.body {
            BodyType::NoBody => BodyType::NoBody,
            BodyType::Raw { content, content_type } => BodyType::Raw {
                content: Interpolator::replace(content.as_str(), vars),
                content_type: *content_type,
            },
            BodyType::FormUrlEncoded(pairs) => {
                let mut p = crate::models::copy_pairs(pairs);
                Interpolator::resolve_pairs(&mut p, vars);
                BodyType::FormUrlEncoded(p)
            },
        };
        resolved
    }
}

/// What a text becomes: interpolated if it holds `{{`, unchanged otherwise.
pub open spec fn resolved_text(s: Seq<char>, vars: Map<Seq<char>, Seq<char>>) -> Seq<char> {
    if contains_seq(s, seq!['{', '{']) {
        interpolate(s, vars)
    } else {
        s
    }
}

/// A pair with its key and value resolved.
pub open spec fn resolved_pair(p: PairView, vars: Map<Seq<char>, Seq<char>>) -> PairView {
    PairView { key: resolved_text(p.key, vars), value: resolved_text(p.value, vars), ..p }
}

/// Every pair resolved.
pub open spec fn resolved_pairs(ps: Seq<PairView>, vars: Map<Seq<char>, Seq<char>>) -> Seq<PairView> {
    ps.map_values(|p: PairView| resolved_pair(p, vars))
}

/// A body with its texts resolved.
pub open spec fn resolved_body(b: BodyView, vars: Map<Seq<char>, Seq<char>>) -> BodyView {
    match b {
        BodyView::NoBody => BodyView::NoBody,
        BodyView::Raw { content, content_type } => BodyView::Raw {
            content: resolved_text(content, vars),
            content_type,
        },
        BodyView::Form(ps) => BodyView::Form(resolved_pairs(ps, vars)),
    }
}

/// A request with its URL, headers, query parameters and body resolved.
pub open spec fn resolved_request(r: RequestView, vars: Map<Seq<char>, Seq<char>>) -> RequestView {
    RequestView {
        url: resolved_text(r.url, vars),
        headers: resolved_pairs(r.headers, vars),
        query_params: resolved_pairs(r.query_params, vars),
        body: resolved_body(r.body, vars),
        ..r
    }
}

/// Placeholders whose variables are missing stay as they are: when no name is a
/// variable, weaving with the variables gives what weaving with none gives.
pub proof fn law_missing_variables_keep_placeholders(
    pieces: Seq<Seq<char>>,
    names: Seq<Seq<char>>,
    vars: Map<Seq<char>, Seq<char>>,
)
    requires
        forall|k: int| 0 <= k < names.len() ==> !vars.contains_key(#[trigger] names[k]),
    ensures
        weave(pieces, names, vars) == weave(pieces, names, Map::empty()),
    decreases names.len(),
{
    if names.len() > 0 {
        assert forall|k: int| 0 <= k < names.drop_first().len() implies !vars.contains_key(
            #[trigger] names.drop_first()[k],
        ) by {
            assert(names.drop_first()[k] == names[k + 1]);
        }
        law_missing_variables_keep_placeholders(pieces.drop_first(), names.drop_first(), vars);
        assert(!vars.contains_key(names[0]));
    }
}

/// A text without `{{` resolves to itself whatever the variables.
pub proof fn law_resolution_keeps_plain_text(s: Seq<char>, vars: Map<Seq<char>, Seq<char>>)
    requires
        !contains_seq(s, seq!['{', '{']),
    ensures
        resolved_text(s, vars) == s,
{
}

/// Only enabled variables take part in interpolation: every name the map holds
/// is the key of an enabled variable, with the value of the last such one.
pub proof fn law_only_enabled_variables(vs: Seq<Variable>, name: Seq<char>)
    ensures
        enabled_vars_map(vs).contains_key(name) ==> exists|i: int|
            0 <= i < vs.len() && (#[trigger] vs[i]).enabled && vs[i].key@ == name && enabled_vars_map(vs)[name]
                == vs[i].value@,
        (forall|i: int| 0 <= i < vs.len() ==> !(#[trigger] vs[i]).enabled) ==> !enabled_vars_map(vs).contains_key(
            name,
        ),
    decreases vs.len(),
{
    if vs.len() > 0 {
        law_only_enabled_variables(vs.drop_last(), name);
        let m = enabled_vars_map(vs.drop_last());
        let n = vs.len() - 1;
        if vs.last().enabled && vs.last().key@ == name {
            assert(vs[n].enabled && vs[n].key@ == name);
        } else if m.contains_key(name) {
            let i = choose|i: int|
                0 <= i < vs.drop_last().len() && (#[trigger] vs.drop_last()[i]).enabled && vs.drop_last()[i].key@ == name
                    && m[name] == vs.drop_last()[i].value@;
            assert(vs[i] == vs.drop_last()[i]);
        }
        if forall|i: int| 0 <= i < vs.len() ==> !(#[trigger] vs[i]).enabled {
            assert forall|i: int| 0 <= i < vs.drop_last().len() implies !(#[trigger] vs.drop_last()[i]).enabled by {
                assert(vs.drop_last()[i] == vs[i]);
            }
            assert(!vs[n].enabled);
        }
    }
}

/// Resolving a request treats every text alike: the URL, each header and query
/// key and value, and a raw body's content each become their interpolation when
/// they contain `{{` and stay as they are otherwise; a raw body keeps its content
/// type, and equal texts resolve to equal texts wherever they stand.
pub proof fn law_resolution_reaches_every_text(r: RequestView, vars: Map<Seq<char>, Seq<char>>)
    ensures
        resolved_request(r, vars).url == (if contains_seq(r.url, seq!['{', '{']) {
            interpolate(r.url, vars)
        } else {
            r.url
        }),
        r.body matches BodyView::Raw { content, content_type } ==> resolved_request(r, vars).body == (BodyView::Raw {
            content: if contains_seq(content, seq!['{', '{']) {
                interpolate(content, vars)
            } else {
                content
            },
            content_type,
        }),
        r.body matches BodyView::Raw { content, .. } ==> (content == r.url ==> resolved_request(r, vars).body->Raw_content
            == resolved_request(r, vars).url),
        forall|k: int|
            0 <= k < r.headers.len() ==> (#[trigger] resolved_request(r, vars).headers[k]).value == (if contains_seq(
                r.headers[k].value,
                seq!['{', '{'],
            ) {
                interpolate(r.headers[k].value, vars)
            } else {
                r.headers[k].value
            }),
        forall|k: int|
            0 <= k < r.query_params.len() ==> (#[trigger] resolved_request(r, vars).query_params[k]).value == (
            if contains_seq(r.query_params[k].value, seq!['{', '{']) {
                interpolate(r.query_params[k].value, vars)
            } else {
                r.query_params[k].value
            }),
{
}

} // verus!
