//! Route synthesis: one route per operation of every path template, with the
//! template's `{name}` parameters rewritten to `:name` placeholders whose
//! names are brought to one canonical spelling.
use vstd::prelude::*;
use vstd::string::*;
use std::sync::Arc;
use crate::openapi::{Components, HttpMethod, OpenApiSpec, Operation, PathItem, RouteDefinition, RouteView};
use crate::keyed::keys_unique;
use crate::text::{
    all_ascii, ascii_lower_char, break_between, insert_word_breaks, is_ascii_lower, is_ascii_upper, lemma_word_breaks_concat,
    lemma_word_breaks_none, lower_of, lowercase, word_breaks,
};

verus! {

/// Index of the first `c` in `s`, or -1.
pub open spec fn index_of(s: Seq<char>, c: char) -> int
    decreases s.len(),
{
    if s.len() == 0 {
        -1
    } else if s[0] == c {
        0
    } else {
        let r = index_of(s.drop_first(), c);
        if r < 0 { -1 } else { r + 1 }
    }
}

pub open spec fn ascii_lowered(s: Seq<char>) -> Seq<char> {
    s.map_values(|c: char| ascii_lower_char(c))
}

/// The canonical spelling of a parameter name: a separator at every
/// lower-to-upper boundary, then lower case (what `str::to_lowercase` gives,
/// which on ASCII text is the ASCII lower case).
pub open spec fn canonical_name(name: Seq<char>) -> Seq<char> {
    if all_ascii(word_breaks(name)) {
        ascii_lowered(word_breaks(name))
    } else {
        lower_of(word_breaks(name))
    }
}

pub open spec fn placeholder(name: Seq<char>) -> Seq<char> {
    seq![':'] + canonical_name(name)
}

/// The dispatch pattern of a path template: scanning from the left, every
/// `{`, followed by at least one character other than `}` and then by `}`,
/// is replaced with the placeholder of the name between the braces; all
/// other characters stay.
pub open spec fn dispatch_pattern(s: Seq<char>) -> Seq<char>
    decreases s.len(),
{
    if s.len() == 0 {
        s
    } else if s[0] == '{' && 2 <= index_of(s, '}') < s.len() {
        let j = index_of(s, '}');
        placeholder(s.subrange(1, j)) + dispatch_pattern(s.subrange(j + 1, s.len() as int))
    } else {
        seq![s[0]] + dispatch_pattern(s.drop_first())
    }
}

/// The placeholder `:name` for a template parameter.
pub fn param_placeholder(name: &str) -> (r: String)
    ensures
        r@ == placeholder(name@),
{
    let broken = insert_word_breaks(name);
    let low = lowercase(broken.as_str());
    proof {
        reveal_strlit(":");
    }
    let mut r = String::from_str(":");
    r.append(low.as_str());
    r
}

/// Relies on regex's `replace_all` with the pattern `\{([^}]+)\}`: scanning
/// from the left, each `{` that the next `}` closes with at least one
/// character between them is a match, and the closure gives its replacement
/// from the characters between the braces.
#[verifier::external_body]
fn replace_template_params(path: &str) -> (r: String)
    ensures
        r@ == dispatch_pattern(path@),
{
    let re = regex::Regex::new(r"\{([^}]+)\}").unwrap();
    re.replace_all(path, |caps: &regex::Captures| param_placeholder(&caps[1])).into_owned()
}

pub open spec fn route_view(
    method: HttpMethod,
    path: Seq<char>,
    op: Operation,
    components: Option<Arc<Components>>,
) -> RouteView {
    RouteView { method, path, operation: op, path_pattern: dispatch_pattern(path), components }
}

pub open spec fn method_routes(
    method: HttpMethod,
    path: Seq<char>,
    op: Option<Arc<Operation>>,
    components: Option<Arc<Components>>,
) -> Seq<RouteView> {
    match op {
        Some(o) => seq![route_view(method, path, *o, components)],
        None => Seq::empty(),
    }
}

/// The routes of one path template: GET, POST, PUT, DELETE, PATCH, each where
/// the template has it.
pub open spec fn item_routes(path: Seq<char>, item: PathItem, components: Option<Arc<Components>>) -> Seq<RouteView> {
    method_routes(HttpMethod::Get, path, item.get, components)
        + method_routes(HttpMethod::Post, path, item.post, components)
        + method_routes(HttpMethod::Put, path, item.put, components)
        + method_routes(HttpMethod::Delete, path, item.delete, components)
        + method_routes(HttpMethod::Patch, path, item.patch, components)
}

/// The routes of a document's path templates, template by template.
pub open spec fn document_routes(paths: Seq<(String, PathItem)>, components: Option<Arc<Components>>) -> Seq<RouteView>
    decreases paths.len(),
{
    if paths.len() == 0 {
        Seq::empty()
    } else {
        document_routes(paths.drop_last(), components)
            + item_routes(paths.last().0@, paths.last().1, components)
    }
}

/// The routes of a list of named documents, document by document.
pub open spec fn all_routes(specs: Seq<(String, OpenApiSpec)>) -> Seq<RouteView>
    decreases specs.len(),
{
    if specs.len() == 0 {
        Seq::empty()
    } else {
        all_routes(specs.drop_last())
            + document_routes(specs.last().1.paths@, specs.last().1.components)
    }
}

pub open spec fn views(routes: Seq<RouteDefinition>) -> Seq<RouteView> {
    routes.map_values(|r: RouteDefinition| r@)
}

fn share_components(c: &Option<Arc<Components>>) -> (r: Option<Arc<Components>>)
    ensures
        r == *c,
{
    match c {
        Some(a) => Some(a.clone()),
        None => None,
    }
}

fn push_route(
    routes: &mut Vec<RouteDefinition>,
    method: HttpMethod,
    path: &String,
    pattern: &String,
    op: &Option<Arc<Operation>>,
    components: &Option<Arc<Components>>,
)
    requires
        pattern@ == dispatch_pattern(path@),
    ensures
        views(final(routes)@) == views(old(routes)@) + method_routes(method, path@, *op, *components),
{
    match op {
        Some(o) => {
            let route = RouteDefinition {
                method,
                path: path.clone(),
                operation: o.clone(),
                path_pattern: pattern.clone(),
                components: share_components(components),
            };
            routes.push(route);
            assert(views(routes@) =~= views(old(routes)@) + method_routes(method, path@, *op, *components));
        },
        None => {
            assert(views(routes@) =~= views(old(routes)@) + method_routes(method, path@, *op, *components));
        },
    }
}

fn push_item_routes(
    routes: &mut Vec<RouteDefinition>,
    path: &String,
    item: &PathItem,
    components: &Option<Arc<Components>>,
)
    ensures
        views(final(routes)@) == views(old(routes)@) + item_routes(path@, *item, *components),
{
    let pattern = OpenApiParser::convert_path_to_pattern(path.as_str());
    let ghost start = views(routes@);
    push_route(routes, HttpMethod::Get, path, &pattern, &item.get, components);
    push_route(routes, HttpMethod::Post, path, &pattern, &item.post, components);
    push_route(routes, HttpMethod::Put, path, &pattern, &item.put, components);
    push_route(routes, HttpMethod::Delete, path, &pattern, &item.delete, components);
    push_route(routes, HttpMethod::Patch, path, &pattern, &item.patch, components);
    assert(views(routes@) =~= start + item_routes(path@, *item, *components));
}

/// Reads path templates and turns them into routes.
pub struct OpenApiParser;

impl OpenApiParser {
    /// The dispatch pattern of a path template (`/buckets/{bucketKey}`
    /// becomes `/buckets/:bucket_key`).
    pub fn convert_path_to_pattern(path: &str) -> (r: String)
        ensures
            r@ == dispatch_pattern(path@),
    {
        replace_template_params(path)
    }

    /// One route per operation of every path template of the document.
    pub fn extract_routes(spec: &OpenApiSpec) -> (r: Vec<RouteDefinition>)
        ensures
            views(r@) == document_routes(spec.paths@, spec.components),
    {
        let mut routes: Vec<RouteDefinition> = Vec::new();
        let mut i: usize = 0;
        while i < spec.paths.len()
            invariant
                i <= spec.paths@.len(),
                views(routes@) == document_routes(spec.paths@.subrange(0, i as int), spec.components),
            decreases spec.paths@.len() - i,
        {
            push_item_routes(&mut routes, &spec.paths[i].0, &spec.paths[i].1, &spec.components);
            proof {
                let done = spec.paths@.subrange(0, i + 1);
                assert(done.drop_last() =~= spec.paths@.subrange(0, i as int));
                assert(done.last() == spec.paths@[i as int]);
            }
            i = i + 1;
        }
        assert(spec.paths@.subrange(0, spec.paths@.len() as int) =~= spec.paths@);
        routes
    }
}

/// The routes of all documents, in the order the documents were loaded.
pub fn synthesize_routes(specs: &Vec<(String, OpenApiSpec)>) -> (r: Vec<RouteDefinition>)
    ensures
        views(r@) == all_routes(specs@),
{
    let mut routes: Vec<RouteDefinition> = Vec::new();
    let mut i: usize = 0;
    while i < specs.len()
        invariant
            i <= specs@.len(),
            views(routes@) == all_routes(specs@.subrange(0, i as int)),
        decreases specs@.len() - i,
    {
        let mut more = OpenApiParser::extract_routes(&specs[i].1);
        let ghost before = routes@;
        let ghost added = more@;
        routes.append(&mut more);
        proof {
            let done = specs@.subrange(0, i + 1);
            assert(done.drop_last() =~= specs@.subrange(0, i as int));
            assert(done.last() == specs@[i as int]);
            assert(views(routes@) =~= views(before) + views(added)) by {
                assert(routes@ =~= before + added);
            }
        }
        i = i + 1;
    }
    assert(specs@.subrange(0, specs@.len() as int) =~= specs@);
    routes
}

/// With no documents loaded there are no synthesized routes.
pub proof fn lemma_no_documents_no_routes(specs: Seq<(String, OpenApiSpec)>)
    requires
        specs.len() == 0,
    ensures
        all_routes(specs).len() == 0,
{
}

/// A path template given by its literal stretches and the parameter names
/// between them: `lits[0] {names[0]} lits[1] ... lits[n]`.
pub open spec fn template(lits: Seq<Seq<char>>, names: Seq<Seq<char>>) -> Seq<char>
    decreases names.len(),
{
    if names.len() == 0 {
        if lits.len() == 0 { Seq::empty() } else { lits[0] }
    } else {
        lits[0] + seq!['{'] + names[0] + seq!['}'] + template(lits.drop_first(), names.drop_first())
    }
}

/// The same template with every parameter replaced by its placeholder.
pub open spec fn template_pattern(lits: Seq<Seq<char>>, names: Seq<Seq<char>>) -> Seq<char>
    decreases names.len(),
{
    if names.len() == 0 {
        if lits.len() == 0 { Seq::empty() } else { lits[0] }
    } else {
        lits[0] + placeholder(names[0]) + template_pattern(lits.drop_first(), names.drop_first())
    }
}

pub open spec fn well_formed_template(lits: Seq<Seq<char>>, names: Seq<Seq<char>>) -> bool {
    &&& lits.len() == names.len() + 1
    &&& forall|i: int| 0 <= i < lits.len() ==> !(#[trigger] lits[i]).contains('{')
    &&& forall|i: int| 0 <= i < names.len() ==> (#[trigger] names[i]).len() > 0 && !names[i].contains('}')
}

proof fn lemma_index_of_at(s: Seq<char>, c: char, k: int)
    requires
        0 <= k < s.len(),
        s[k] == c,
        forall|j: int| 0 <= j < k ==> s[j] != c,
    ensures
        index_of(s, c) == k,
    decreases k,
{
    if k > 0 {
        lemma_index_of_at(s.drop_first(), c, k - 1);
    }
}

proof fn lemma_literal_prefix(p: Seq<char>, x: Seq<char>)
    requires
        !p.contains('{'),
    ensures
        dispatch_pattern(p + x) == p + dispatch_pattern(x),
    decreases p.len(),
{
    if p.len() > 0 {
        let s = p + x;
        assert(s[0] == p[0]);
        assert(s.drop_first() =~= p.drop_first() + x);
        assert(!p.drop_first().contains('{')) by {
            if p.drop_first().contains('{') {
                let j = choose|j: int| 0 <= j < p.drop_first().len() && p.drop_first()[j] == '{';
                assert(p[j + 1] == '{');
            }
        }
        assert(p[0] != '{') by {
            assert(p[0] == p[0]);
            if p[0] == '{' {
                assert(p.contains('{'));
            }
        }
        lemma_literal_prefix(p.drop_first(), x);
        assert(seq![p[0]] + p.drop_first() =~= p);
        assert(seq![p[0]] + (p.drop_first() + dispatch_pattern(x)) =~= p + dispatch_pattern(x));
    } else {
        assert(p + x =~= x);
        assert(p + dispatch_pattern(x) =~= dispatch_pattern(x));
    }
}

proof fn lemma_parameter(name: Seq<char>, x: Seq<char>)
    requires
        name.len() > 0,
        !name.contains('}'),
    ensures
        dispatch_pattern(seq!['{'] + name + seq!['}'] + x) == placeholder(name) + dispatch_pattern(x),
{
    let s = seq!['{'] + name + seq!['}'] + x;
    let j: int = name.len() as int + 1;
    assert forall|k: int| 0 <= k < j implies s[k] != '}' by {
        if k > 0 {
            assert(s[k] == name[k - 1]);
            if name[k - 1] == '}' {
                assert(name.contains('}'));
            }
        }
    }
    lemma_index_of_at(s, '}', j);
    assert(s.subrange(1, j) =~= name);
    assert(s.subrange(j + 1, s.len() as int) =~= x);
}

/// The dispatch pattern of a template is its literal stretches with each
/// parameter replaced by its placeholder.
pub proof fn lemma_template_pattern(lits: Seq<Seq<char>>, names: Seq<Seq<char>>)
    requires
        well_formed_template(lits, names),
    ensures
        dispatch_pattern(template(lits, names)) == template_pattern(lits, names),
    decreases names.len(),
{
    if names.len() == 0 {
        assert(dispatch_pattern(lits[0]) == lits[0]) by {
            lemma_literal_prefix(lits[0], Seq::empty());
            assert(lits[0] + Seq::<char>::empty() =~= lits[0]);
        }
    } else {
        let rest = template(lits.drop_first(), names.drop_first());
        assert(well_formed_template(lits.drop_first(), names.drop_first())) by {
            assert forall|i: int| 0 <= i < lits.drop_first().len() implies !(#[trigger] lits.drop_first()[i]).contains('{') by {
                assert(lits.drop_first()[i] == lits[i + 1]);
            }
            assert forall|i: int| 0 <= i < names.drop_first().len() implies (#[trigger] names.drop_first()[i]).len() > 0
                && !names.drop_first()[i].contains('}') by {
                assert(names.drop_first()[i] == names[i + 1]);
            }
        }
        lemma_template_pattern(lits.drop_first(), names.drop_first());
        let tail = seq!['{'] + names[0] + seq!['}'] + rest;
        assert(template(lits, names) =~= lits[0] + tail);
        assert(!lits[0].contains('{'));
        lemma_literal_prefix(lits[0], tail);
        lemma_parameter(names[0], rest);
        assert(lits[0] + (placeholder(names[0]) + dispatch_pattern(rest)) =~= template_pattern(lits, names));
    }
}

/// Two templates that differ only in how their parameters are spelled, where
/// each pair of spellings has one canonical form (`hubId` and `HubId`, say),
/// get character-for-character the same dispatch pattern.
pub proof fn lemma_parameter_spelling_irrelevant(
    lits: Seq<Seq<char>>,
    names1: Seq<Seq<char>>,
    names2: Seq<Seq<char>>,
)
    requires
        well_formed_template(lits, names1),
        well_formed_template(lits, names2),
        forall|i: int| 0 <= i < names1.len() ==> canonical_name(#[trigger] names1[i]) == canonical_name(names2[i]),
    ensures
        dispatch_pattern(template(lits, names1)) == dispatch_pattern(template(lits, names2)),
    decreases names1.len(),
{
    lemma_template_pattern(lits, names1);
    lemma_template_pattern(lits, names2);
    lemma_same_pattern(lits, names1, names2);
}

proof fn lemma_same_pattern(lits: Seq<Seq<char>>, names1: Seq<Seq<char>>, names2: Seq<Seq<char>>)
    requires
        names1.len() == names2.len(),
        forall|i: int| 0 <= i < names1.len() ==> canonical_name(#[trigger] names1[i]) == canonical_name(names2[i]),
    ensures
        template_pattern(lits, names1) == template_pattern(lits, names2),
    decreases names1.len(),
{
    if names1.len() > 0 {
        assert forall|i: int| 0 <= i < names1.drop_first().len() implies canonical_name(#[trigger] names1.drop_first()[i])
            == canonical_name(names2.drop_first()[i]) by {
            assert(names1.drop_first()[i] == names1[i + 1]);
            assert(names2.drop_first()[i] == names2[i + 1]);
        }
        lemma_same_pattern(lits.drop_first(), names1.drop_first(), names2.drop_first());
        assert(canonical_name(names1[0]) == canonical_name(names2[0]));
    }
}

pub open spec fn method_rank(m: HttpMethod) -> int {
    match m {
        HttpMethod::Get => 0,
        HttpMethod::Post => 1,
        HttpMethod::Put => 2,
        HttpMethod::Delete => 3,
        HttpMethod::Patch => 4,
    }
}

/// No two routes share both method and template path.
pub open spec fn no_repeated_route(r: Seq<RouteView>) -> bool {
    forall|i: int, j: int|
        0 <= i < j < r.len() ==> !((#[trigger] r[i]).method == (#[trigger] r[j]).method && r[i].path == r[j].path)
}

proof fn lemma_item_routes_distinct(path: Seq<char>, item: PathItem, components: Option<Arc<Components>>)
    ensures
        no_repeated_route(item_routes(path, item, components)),
        forall|i: int| 0 <= i < item_routes(path, item, components).len()
            ==> (#[trigger] item_routes(path, item, components)[i]).path == path,
{
    let a = method_routes(HttpMethod::Get, path, item.get, components);
    let b = method_routes(HttpMethod::Post, path, item.post, components);
    let c = method_routes(HttpMethod::Put, path, item.put, components);
    let d = method_routes(HttpMethod::Delete, path, item.delete, components);
    let e = method_routes(HttpMethod::Patch, path, item.patch, components);
    let all = a + b + c + d + e;
    assert forall|i: int| 0 <= i < all.len() implies (#[trigger] all[i]).path == path by {}
    assert forall|i: int, j: int| 0 <= i < j < all.len() implies method_rank((#[trigger] all[i]).method)
        < method_rank((#[trigger] all[j]).method) by {
        let la = a.len() as int;
        let lb = la + b.len();
        let lc = lb + c.len();
        let ld = lc + d.len();
        assert(a.len() <= 1 && b.len() <= 1 && c.len() <= 1 && d.len() <= 1 && e.len() <= 1);
        let ri = if i < la { 0int } else if i < lb { 1int } else if i < lc { 2int } else if i < ld { 3int } else { 4int };
        let rj = if j < la { 0int } else if j < lb { 1int } else if j < lc { 2int } else if j < ld { 3int } else { 4int };
        assert(method_rank(all[i].method) == ri);
        assert(method_rank(all[j].method) == rj);
    }
}

proof fn lemma_document_route_paths(paths: Seq<(String, PathItem)>, components: Option<Arc<Components>>)
    ensures
        forall|i: int| 0 <= i < document_routes(paths, components).len() ==> exists|k: int|
            0 <= k < paths.len() && (#[trigger] paths[k]).0@ == (#[trigger] document_routes(paths, components)[i]).path,
    decreases paths.len(),
{
    if paths.len() > 0 {
        let p = paths.drop_last();
        lemma_document_route_paths(p, components);
        lemma_item_routes_distinct(paths.last().0@, paths.last().1, components);
        let a = document_routes(p, components);
        let b = item_routes(paths.last().0@, paths.last().1, components);
        assert forall|i: int| 0 <= i < document_routes(paths, components).len() implies exists|k: int|
            0 <= k < paths.len() && (#[trigger] paths[k]).0@ == (#[trigger] document_routes(paths, components)[i]).path by {
            if i < a.len() {
                let k = choose|k: int| 0 <= k < p.len() && (#[trigger] p[k]).0@ == a[i].path;
                assert(paths[k] == p[k]);
            } else {
                assert(b[i - a.len()].path == paths.last().0@);
                assert(paths[paths.len() - 1] == paths.last());
            }
        }
    }
}

/// With distinct path templates, a document yields no two routes with the
/// same method and template path.
pub proof fn lemma_document_routes_distinct(paths: Seq<(String, PathItem)>, components: Option<Arc<Components>>)
    requires
        keys_unique(paths),
    ensures
        no_repeated_route(document_routes(paths, components)),
    decreases paths.len(),
{
    if paths.len() > 0 {
        let p = paths.drop_last();
        assert(keys_unique(p)) by {
            assert forall|i: int, j: int| 0 <= i < p.len() && 0 <= j < p.len() && i != j implies
                (#[trigger] p[i]).0@ != (#[trigger] p[j]).0@ by {
                assert(p[i] == paths[i] && p[j] == paths[j]);
            }
        }
        lemma_document_routes_distinct(p, components);
        lemma_document_route_paths(p, components);
        lemma_item_routes_distinct(paths.last().0@, paths.last().1, components);
        let a = document_routes(p, components);
        let b = item_routes(paths.last().0@, paths.last().1, components);
        let all = document_routes(paths, components);
        assert(all == a + b);
        assert forall|i: int, j: int| 0 <= i < j < all.len() implies
            !((#[trigger] all[i]).method == (#[trigger] all[j]).method && all[i].path == all[j].path) by {
            if j < a.len() {
                assert(all[i] == a[i] && all[j] == a[j]);
            } else if i >= a.len() {
                assert(all[i] == b[i - a.len()] && all[j] == b[j - a.len()]);
            } else {
                let k = choose|k: int| 0 <= k < p.len() && (#[trigger] p[k]).0@ == a[i].path;
                assert(paths[k] == p[k]);
                assert(all[j].path == paths.last().0@);
                assert(paths[paths.len() - 1] == paths.last());
            }
        }
    }
}

/// How a parameter name joins its words: `hubId`, `HubId` or `hub_id`.
#[derive(Clone, Copy, Debug, PartialEq, Eq, Structural)]
pub enum CaseStyle {
    Camel,
    Pascal,
    Snake,
}

/// A word of at least two ASCII lower-case letters.
pub open spec fn is_word(w: Seq<char>) -> bool {
    w.len() >= 2 && forall|i: int| 0 <= i < w.len() ==> is_ascii_lower(#[trigger] w[i])
}

pub open spec fn capitalized(w: Seq<char>) -> Seq<char> {
    seq![((w[0] as u32) - 32) as char] + w.drop_first()
}

pub open spec fn word_piece(w: Seq<char>, first: bool, style: CaseStyle) -> Seq<char> {
    match style {
        CaseStyle::Camel => if first { w } else { capitalized(w) },
        CaseStyle::Pascal => capitalized(w),
        CaseStyle::Snake => if first { w } else { seq!['_'] + w },
    }
}

/// A word list spelled in a case style.
pub open spec fn spelling(words: Seq<Seq<char>>, style: CaseStyle) -> Seq<char>
    decreases words.len(),
{
    if words.len() == 0 {
        Seq::empty()
    } else {
        spelling(words.drop_last(), style) + word_piece(words.last(), words.len() == 1, style)
    }
}

proof fn lemma_piece_facts(w: Seq<char>, first: bool, style: CaseStyle)
    requires
        is_word(w),
    ensures
        word_breaks(word_piece(w, first, style)) == word_piece(w, first, style),
        all_ascii(word_piece(w, first, style)),
        ascii_lowered(word_piece(w, first, style)) == (if style != CaseStyle::Snake && !first {
            w
        } else {
            word_piece(w, first, CaseStyle::Snake)
        }),
        is_ascii_lower(word_piece(w, first, style).last()),
        word_piece(w, first, style).len() > 0,
        !first ==> (style == CaseStyle::Snake) == (word_piece(w, first, style)[0] == '_'),
        !first && style != CaseStyle::Snake ==> is_ascii_upper(word_piece(w, first, style)[0]),
        first ==> word_piece(w, first, style)[0] != '_',
{
    let p = word_piece(w, first, style);
    assert(is_ascii_lower(w[0]));
    assert(is_ascii_lower(w.last()));
    let cap = capitalized(w);
    assert(cap.len() == w.len());
    assert forall|i: int| 1 <= i < cap.len() implies cap[i] == w[i] by {}
    assert(cap.last() == w.last());
    assert(is_ascii_upper(cap[0]));
    assert(ascii_lower_char(cap[0]) == w[0]);
    assert(ascii_lowered(cap) =~= w) by {
        assert forall|i: int| 0 <= i < w.len() implies ascii_lowered(cap)[i] == w[i] by {
            if i > 0 {
                assert(cap[i] == w[i]);
            }
        }
    }
    assert(ascii_lowered(w) =~= w);
    let under = seq!['_'] + w;
    assert(ascii_lowered(under) =~= under);
    assert(under.last() == w.last());
    assert forall|i: int| 1 <= i < p.len() implies !(is_ascii_lower(#[trigger] p[i - 1]) && is_ascii_upper(p[i])) by {
        if style == CaseStyle::Snake && !first {
            assert(p[i] == w[i - 1]);
        } else if style == CaseStyle::Camel && first {
            assert(p[i] == w[i]);
        } else {
            assert(p[i] == cap[i]);
            assert(cap[i] == w[i]);
        }
    }
    lemma_word_breaks_none(p);
    assert forall|i: int| 0 <= i < p.len() implies (#[trigger] p[i] as u32) < 128 by {
        if style == CaseStyle::Snake && !first {
            if i > 0 {
                assert(p[i] == w[i - 1]);
            }
        } else if style == CaseStyle::Camel && first {
        } else {
            if i > 0 {
                assert(p[i] == w[i]);
            }
        }
    }
}

/// The word breaks of a spelling, lowered, give the snake_case spelling.
proof fn lemma_spelling_breaks(words: Seq<Seq<char>>, style: CaseStyle)
    requires
        words.len() > 0,
        forall|i: int| 0 <= i < words.len() ==> is_word(#[trigger] words[i]),
    ensures
        all_ascii(word_breaks(spelling(words, style))),
        ascii_lowered(word_breaks(spelling(words, style))) == spelling(words, CaseStyle::Snake),
        spelling(words, style).len() > 0,
        is_ascii_lower(spelling(words, style).last()),
    decreases words.len(),
{
    let n = words.len();
    let first = n == 1;
    let w = words.last();
    assert(is_word(words[n - 1]));
    lemma_piece_facts(w, first, style);
    let p = word_piece(w, first, style);
    let q = spelling(words.drop_last(), style);
    assert(spelling(words, style) == q + p);
    if n == 1 {
        assert(q =~= Seq::<char>::empty());
        assert(spelling(words.drop_last(), CaseStyle::Snake) =~= Seq::<char>::empty());
        assert(q + p =~= p);
        assert(Seq::<char>::empty() + word_piece(w, first, CaseStyle::Snake) =~= word_piece(w, first, CaseStyle::Snake));
    } else {
        let rest = words.drop_last();
        assert forall|i: int| 0 <= i < rest.len() implies is_word(#[trigger] rest[i]) by {
            assert(rest[i] == words[i]);
        }
        lemma_spelling_breaks(rest, style);
        lemma_word_breaks_concat(q, p);
        let sep = break_between(q, p);
        let wq = word_breaks(q);
        assert(word_breaks(q + p) == wq + sep + p);
        assert((q + p).last() == p.last());
        if style == CaseStyle::Snake {
            assert(sep =~= Seq::<char>::empty());
            assert(ascii_lowered(wq + sep + p) =~= ascii_lowered(wq) + ascii_lowered(p));
        } else {
            assert(sep =~= seq!['_']);
            assert(ascii_lowered(wq + sep + p) =~= ascii_lowered(wq) + seq!['_'] + ascii_lowered(p));
            assert(seq!['_'] + w =~= word_piece(w, first, CaseStyle::Snake));
            assert(ascii_lowered(wq) + seq!['_'] + ascii_lowered(p) =~= ascii_lowered(wq) + (seq!['_'] + w));
        }
        let all = wq + sep + p;
        assert forall|i: int| 0 <= i < all.len() implies (#[trigger] all[i] as u32) < 128 by {
            if i < wq.len() {
                assert(all[i] == wq[i]);
            } else if i < wq.len() + sep.len() {
                assert(all[i] == sep[i - wq.len()]);
            } else {
                assert(all[i] == p[i - wq.len() - sep.len()]);
            }
        }
    }
}

/// Parameter names that spell one word list in camelCase, PascalCase or
/// snake_case (`hubId`, `HubId`, `hub_id`) all have the snake_case spelling
/// as canonical name; so templates that differ only in such spellings get
/// character-for-character the same dispatch pattern. Words have at least two
/// letters: with one-letter words the spellings part ways (`aBC` breaks as
/// `a_BC`, not `a_b_c`).
pub proof fn lemma_case_styles_share_pattern(
    lits: Seq<Seq<char>>,
    words: Seq<Seq<Seq<char>>>,
    styles1: Seq<CaseStyle>,
    styles2: Seq<CaseStyle>,
)
    requires
        lits.len() == words.len() + 1,
        styles1.len() == words.len(),
        styles2.len() == words.len(),
        forall|i: int| 0 <= i < lits.len() ==> !(#[trigger] lits[i]).contains('{'),
        forall|i: int| 0 <= i < words.len() ==> (#[trigger] words[i]).len() > 0
            && forall|j: int| 0 <= j < words[i].len() ==> is_word(#[trigger] words[i][j]),
    ensures
        dispatch_pattern(template(lits, Seq::new(words.len(), |i: int| spelling(words[i], styles1[i]))))
            == dispatch_pattern(template(lits, Seq::new(words.len(), |i: int| spelling(words[i], styles2[i])))),
        forall|i: int| 0 <= i < words.len() ==> #[trigger] canonical_name(spelling(words[i], styles1[i]))
            == spelling(words[i], CaseStyle::Snake),
{
    let n1 = Seq::new(words.len(), |i: int| spelling(words[i], styles1[i]));
    let n2 = Seq::new(words.len(), |i: int| spelling(words[i], styles2[i]));
    assert forall|i: int| 0 <= i < words.len() implies #[trigger] canonical_name(spelling(words[i], styles1[i]))
        == spelling(words[i], CaseStyle::Snake) && canonical_name(spelling(words[i], styles2[i]))
        == spelling(words[i], CaseStyle::Snake) by {
        lemma_spelling_breaks(words[i], styles1[i]);
        lemma_spelling_breaks(words[i], styles2[i]);
    }
    assert forall|i: int| 0 <= i < n1.len() implies (#[trigger] n1[i]).len() > 0 && !n1[i].contains('}') by {
        lemma_spelling_breaks(words[i], styles1[i]);
        lemma_no_brace(words[i], styles1[i]);
    }
    assert forall|i: int| 0 <= i < n2.len() implies (#[trigger] n2[i]).len() > 0 && !n2[i].contains('}') by {
        lemma_spelling_breaks(words[i], styles2[i]);
        lemma_no_brace(words[i], styles2[i]);
    }
    assert forall|i: int| 0 <= i < n1.len() implies canonical_name(#[trigger] n1[i]) == canonical_name(n2[i]) by {
        assert(canonical_name(spelling(words[i], styles1[i])) == spelling(words[i], CaseStyle::Snake));
        assert(canonical_name(spelling(words[i], styles2[i])) == spelling(words[i], CaseStyle::Snake));
    }
    lemma_parameter_spelling_irrelevant(lits, n1, n2);
}

proof fn lemma_no_brace(words: Seq<Seq<char>>, style: CaseStyle)
    requires
        forall|i: int| 0 <= i < words.len() ==> is_word(#[trigger] words[i]),
    ensures
        !spelling(words, style).contains('}'),
    decreases words.len(),
{
    if words.len() > 0 {
        let rest = words.drop_last();
        assert forall|i: int| 0 <= i < rest.len() implies is_word(#[trigger] rest[i]) by {
            assert(rest[i] == words[i]);
        }
        lemma_no_brace(rest, style);
        let w = words.last();
        assert(is_word(words[words.len() - 1]));
        lemma_piece_facts(w, words.len() == 1, style);
        let q = spelling(rest, style);
        let p = word_piece(w, words.len() == 1, style);
        if (q + p).contains('}') {
            let j = choose|j: int| 0 <= j < (q + p).len() && (q + p)[j] == '}';
            if j < q.len() {
                assert(q[j] == '}');
                assert(q.contains('}'));
            } else {
                assert(p[j - q.len()] == '}');
                assert((p[j - q.len()] as u32) < 128);
                assert(ascii_lowered(p)[j - q.len()] == '}');
                let s = word_piece(w, words.len() == 1, CaseStyle::Snake);
                if words.len() == 1 {
                    assert(s[j - q.len()] == w[j - q.len()]);
                } else if j - q.len() > 0 {
                    assert(s[j - q.len()] == w[j - q.len() - 1]);
                }
            }
        }
    }
}

} // verus!
