//! Routing: route templates, the trie built from them, and the lookup of a
//! request path in it.
use vstd::prelude::*;

use radix_trie::TrieCommon;

use crate::text::{
    Strip, lead_end, lead_end_exec, split_exec, split_on, trim, trim_exec, trim_start, trim_start_exec,
    views,
};

verus! {

/// One segment of a route.
#[derive(Clone, Debug)]
pub enum BoundOrUnbound {
    /// A literal segment.
    Bound(String),
    /// A variable segment, by its name.
    Var(String),
    /// The rest of the path, whatever it is.
    RestUnbound,
}

/// A segment, as text.
pub enum Segment {
    Bound(Seq<char>),
    Var(Seq<char>),
    Rest,
}

impl View for BoundOrUnbound {
    type V = Segment;

    open spec fn view(&self) -> Segment {
        match self {
            BoundOrUnbound::Bound(t) => Segment::Bound(t@),
            BoundOrUnbound::Var(t) => Segment::Var(t@),
            BoundOrUnbound::RestUnbound => Segment::Rest,
        }
    }
}

/// A route: its segments in order.
#[derive(Clone, Debug)]
pub struct Route(pub Vec<BoundOrUnbound>);

impl View for Route {
    type V = Seq<Segment>;

    open spec fn view(&self) -> Seq<Segment> {
        self.0@.map_values(|b: BoundOrUnbound| b@)
    }
}

/// A piece of a template with `::` at both ends.
pub open spec fn is_var_piece(p: Seq<char>) -> bool {
    p.len() >= 2 && p[0] == ':' && p[1] == ':' && p[p.len() - 2] == ':' && p[p.len() - 1] == ':'
}

/// The segment that a (trimmed) piece of a template stands for: `::name::`
/// is the variable `name`, `*` is the rest of the path, anything else is a
/// literal.
pub open spec fn classify(p: Seq<char>) -> Segment {
    if is_var_piece(p) {
        Segment::Var(trim(p, Strip::Colon))
    } else if p == seq!['*'] {
        Segment::Rest
    } else {
        Segment::Bound(p)
    }
}

/// The separator of segments in a route template.
pub const SEPARATOR: &'static str = "</>";

/// The route that a template stands for: its pieces between `</>`, each
/// trimmed of white space and classified.
pub open spec fn parse_route(s: Seq<char>) -> Seq<Segment> {
    split_on(s, SEPARATOR@).map_values(|p: Seq<char>| classify(trim(p, Strip::Space)))
}

/// The segment that a trimmed piece of a template stands for.
fn classify_exec(p: String) -> (r: BoundOrUnbound)
    ensures
        r@ == classify(p@),
{
    let t = p.as_str();
    let n = t.unicode_len();
    if n >= 2 && t.get_char(0) == ':' && t.get_char(1) == ':' && t.get_char(n - 2) == ':'
        && t.get_char(n - 1) == ':' {
        BoundOrUnbound::Var(trim_exec(t, Strip::Colon))
    } else if n == 1 && t.get_char(0) == '*' {
        assert(p@ =~= seq!['*']);
        BoundOrUnbound::RestUnbound
    } else {
        BoundOrUnbound::Bound(p)
    }
}

impl Route {
    /// The route that a template stands for. Segments are separated by
    /// `</>`; a segment `::name::` declares the variable `name`, a segment
    /// `*` the rest of the path, and any other is literal. White space
    /// around each segment is dropped.
    pub fn parse(route_str: &str) -> (r: Route)
        ensures
            r@ == parse_route(route_str@),
    {
        proof {
            reveal_strlit("</>");
        }
        let pieces = split_exec(route_str, SEPARATOR);
        let mut segs: Vec<BoundOrUnbound> = Vec::new();
        let mut i: usize = 0;
        while i < pieces.len()
            invariant
                0 <= i <= pieces.len(),
                views(pieces@) == split_on(route_str@, SEPARATOR@),
                segs@.len() == i,
                forall|k: int|
                    0 <= k < i ==> (#[trigger] segs@[k])@ == classify(
                        trim(pieces@[k]@, Strip::Space),
                    ),
            decreases pieces.len() - i,
        {
            let piece = trim_exec(pieces[i].as_str(), Strip::Space);
            segs.push(classify_exec(piece));
            i = i + 1;
        }
        let r = Route(segs);
        assert(r@ =~= parse_route(route_str@));
        r
    }

    /// A copy of this route.
    pub fn duplicate(&self) -> (r: Route)
        ensures
            r@ == self@,
    {
        let mut segs: Vec<BoundOrUnbound> = Vec::new();
        let mut i: usize = 0;
        while i < self.0.len()
            invariant
                0 <= i <= self.0.len(),
                segs@.len() == i,
                forall|k: int| 0 <= k < i ==> (#[trigger] segs@[k])@ == self.0@[k]@,
            decreases self.0.len() - i,
        {
            let s = match &self.0[i] {
                BoundOrUnbound::Bound(t) => BoundOrUnbound::Bound(t.clone()),
                BoundOrUnbound::Var(t) => BoundOrUnbound::Var(t.clone()),
                BoundOrUnbound::RestUnbound => BoundOrUnbound::RestUnbound,
            };
            segs.push(s);
            i = i + 1;
        }
        let r = Route(segs);
        assert(r@ =~= self@);
        r
    }
}

/// A segment as text: a literal as it is, a variable as `:name`, the rest
/// of the path as `*`.
pub open spec fn segment_text(s: Segment) -> Seq<char> {
    match s {
        Segment::Bound(t) => t,
        Segment::Var(t) => ":"@ + t,
        Segment::Rest => "*"@,
    }
}

/// The segments as text, separated by commas.
pub open spec fn route_text_spec(segs: Seq<Segment>) -> Seq<char>
    decreases segs.len(),
{
    if segs.len() == 0 {
        Seq::empty()
    } else if segs.len() == 1 {
        segment_text(segs[0])
    } else {
        route_text_spec(segs.drop_last()) + ","@ + segment_text(segs.last())
    }
}

/// A segment as text.
fn bound_or_unbound_text(bou: &BoundOrUnbound) -> (r: String)
    ensures
        r@ == segment_text(bou@),
{
    match bou {
        BoundOrUnbound::Bound(t) => t.clone(),
        BoundOrUnbound::Var(t) => {
            let mut s = String::from_str(":");
            s.append(t.as_str());
            s
        },
        BoundOrUnbound::RestUnbound => String::from_str("*"),
    }
}

/// A route as text: its segments, separated by commas.
pub fn route_text(route: &Route) -> (r: String)
    ensures
        r@ == route_text_spec(route@),
{
    let mut text = String::new();
    let mut i: usize = 0;
    while i < route.0.len()
        invariant
            0 <= i <= route.0.len(),
            text@ == route_text_spec(route@.take(i as int)),
        decreases route.0.len() - i,
    {
        assert(route@.take(i + 1).drop_last() =~= route@.take(i as int));
        assert(route@.take(i + 1).last() == route.0@[i as int]@);
        let part = bound_or_unbound_text(&route.0[i]);
        if i > 0 {
            text.append(",");
        } else {
            assert(Seq::<char>::empty() + part@ =~= part@);
        }
        text.append(part.as_str());
        i = i + 1;
    }
    assert(route@.take(route.0.len() as int) =~= route@);
    text
}

/// The root route, `/`.
pub fn root() -> (r: Route)
    ensures
        r@ == Seq::<Segment>::empty(),
{
    let r = Route(Vec::new());
    assert(r@ =~= Seq::<Segment>::empty());
    r
}

/// A route of one variable named `s`.
pub fn var(s: String) -> (r: Route)
    ensures
        r@ == seq![Segment::Var(s@)],
{
    let r = Route(vec![BoundOrUnbound::Var(s)]);
    assert(r@ =~= seq![Segment::Var(s@)]);
    r
}

/// A route that matches any path.
pub fn star() -> (r: Route)
    ensures
        r@ == seq![Segment::Rest],
{
    let r = Route(vec![BoundOrUnbound::RestUnbound]);
    assert(r@ =~= seq![Segment::Rest]);
    r
}

} // verus!

verus! {

/// A route together with the resource it maps to.
#[derive(Clone, Debug)]
pub struct RoutedResource<R>(pub Route, pub R);

/// What the routing trie holds at a key.
#[derive(Clone, Debug)]
pub enum RouteLeaf<R> {
    /// A complete route, with the names of its variables in order.
    RouteMatch(RoutedResource<R>, Vec<String>),
    /// A place where a variable segment must be consumed.
    RVar,
    /// Both a complete route and a place where a variable is consumed.
    RouteMatchOrVar(RoutedResource<R>, Vec<String>),
    /// A route that matches this prefix and any remainder.
    Wildcard(RoutedResource<R>),
}

/// A leaf, by the place of its resource in the routing table.
pub enum Leaf {
    Match(int, Seq<Seq<char>>),
    Var,
    MatchOrVar(int, Seq<Seq<char>>),
    Wildcard(int),
}

/// A leaf of the trie, by the place of its resource.
pub open spec fn leaf_view(l: RouteLeaf<usize>) -> Leaf {
    match l {
        RouteLeaf::RouteMatch(rr, vars) => Leaf::Match(rr.1 as int, views(vars@)),
        RouteLeaf::RVar => Leaf::Var,
        RouteLeaf::RouteMatchOrVar(rr, vars) => Leaf::MatchOrVar(rr.1 as int, views(vars@)),
        RouteLeaf::Wildcard(rr) => Leaf::Wildcard(rr.1 as int),
    }
}

/// What a key holds after `new` is inserted where `old` stood: earlier
/// routes win, except that a wildcard always wins, and a complete route and
/// a variable place at one key become both.
pub open spec fn merge_leaf(old: Leaf, new: Leaf) -> Leaf {
    match (old, new) {
        (Leaf::Wildcard(x), _) => Leaf::Wildcard(x),
        (_, Leaf::Wildcard(y)) => Leaf::Wildcard(y),
        (Leaf::Match(x, v), Leaf::Var) => Leaf::MatchOrVar(x, v),
        (Leaf::Match(x, v), Leaf::MatchOrVar(_, _)) => Leaf::MatchOrVar(x, v),
        (Leaf::Var, Leaf::Match(y, w)) => Leaf::MatchOrVar(y, w),
        _ => old,
    }
}

/// What base64 (standard alphabet, with padding) makes of the UTF-8 bytes of
/// a text.
pub uninterp spec fn base64_text(s: Seq<char>) -> Seq<char>;

/// Relies on `base64::encode`: the standard base64 encoding of the text's
/// UTF-8 bytes, which depends on the text alone.
#[verifier::external_body]
fn encode_key(s: &str) -> (r: String)
    ensures
        r@ == base64_text(s@),
{
    base64::encode(s.as_bytes())
}

#[verifier::external_type_specification]
#[verifier::external_body]
#[verifier::reject_recursive_types(K)]
#[verifier::reject_recursive_types(V)]
pub struct ExTrie<K, V>(radix_trie::Trie<K, V>);

/// The keys and leaves that a routing trie holds.
pub uninterp spec fn trie_entries(t: radix_trie::Trie<String, RouteLeaf<usize>>) -> Map<Seq<char>, RouteLeaf<usize>>;

/// The leaves of a routing trie, by the place of their resources.
pub open spec fn trie_view(t: radix_trie::Trie<String, RouteLeaf<usize>>) -> Map<Seq<char>, Leaf> {
    trie_entries(t).map_values(|l: RouteLeaf<usize>| leaf_view(l))
}

/// A trie without entries.
pub open spec fn no_entries() -> Map<Seq<char>, RouteLeaf<usize>> {
    Map::empty()
}

/// Relies on `radix_trie::Trie::new`: an empty trie.
#[verifier::external_body]
fn trie_new() -> (r: radix_trie::Trie<String, RouteLeaf<usize>>)
    ensures
        trie_entries(r) == no_entries(),
{
    radix_trie::Trie::new()
}

/// Relies on `radix_trie::Trie::insert`: the key then holds the value, and
/// the other keys keep theirs.
#[verifier::external_body]
fn trie_insert(t: &mut radix_trie::Trie<String, RouteLeaf<usize>>, key: String, value: RouteLeaf<usize>)
    ensures
        trie_entries(*final(t)) == trie_entries(*old(t)).insert(key@, value),
{
    t.insert(key, value);
}

/// Relies on `radix_trie::Trie::remove`: gives what the key held, if
/// anything, and the key then holds nothing.
#[verifier::external_body]
fn trie_remove(t: &mut radix_trie::Trie<String, RouteLeaf<usize>>, key: &String) -> (r: Option<RouteLeaf<usize>>)
    ensures
        r == (if trie_entries(*old(t)).contains_key(key@) {
            Some(trie_entries(*old(t))[key@])
        } else {
            None
        }),
        trie_entries(*final(t)) == trie_entries(*old(t)).remove(key@),
{
    t.remove(key)
}

/// `a` is a prefix of `b`.
pub open spec fn is_prefix(a: Seq<char>, b: Seq<char>) -> bool {
    a.len() <= b.len() && b.take(a.len() as int) == a
}

/// `k` is the longest key of `keys` that is a prefix of `path`.
pub open spec fn is_longest_prefix(keys: Set<Seq<char>>, path: Seq<char>, k: Seq<char>) -> bool {
    &&& keys.contains(k)
    &&& is_prefix(k, path)
    &&& forall|k2: Seq<char>| #[trigger] keys.contains(k2) && is_prefix(k2, path) ==> k2.len() <= k.len()
}

/// Relies on `radix_trie::Trie::get_ancestor` with `TrieCommon::key` and
/// `TrieCommon::value`: the key of the trie that is the longest prefix of
/// `path` (in bytes, which for keys and paths that are text is the same as
/// in characters), with its leaf; nothing when no key is a prefix of
/// `path`.
#[verifier::external_body]
fn trie_ancestor(t: &radix_trie::Trie<String, RouteLeaf<usize>>, path: &String) -> (r: Option<(String, RouteLeaf<usize>)>)
    ensures
        r matches Some((k, v)) ==> is_longest_prefix(trie_entries(*t).dom(), path@, k@) && v
            == trie_entries(*t)[k@],
        r is None ==> forall|k: Seq<char>| #[trigger] trie_entries(*t).contains_key(k) ==> !is_prefix(k, path@),
{
    match t.get_ancestor(path) {
        Some(sub) => match (sub.key(), sub.value()) {
            (Some(k), Some(v)) => Some((k.clone(), v.clone())),
            _ => None,
        },
        None => None,
    }
}

} // verus!

verus! {

/// Merges a new leaf into the one a key holds.
fn merge_values(l1: RouteLeaf<usize>, l2: RouteLeaf<usize>) -> (r: RouteLeaf<usize>)
    ensures
        leaf_view(r) == merge_leaf(leaf_view(l1), leaf_view(l2)),
{
    match (l1, l2) {
        (RouteLeaf::Wildcard(x), _) => RouteLeaf::Wildcard(x),
        (_, RouteLeaf::Wildcard(y)) => RouteLeaf::Wildcard(y),
        (RouteLeaf::RouteMatch(x, v), RouteLeaf::RVar) => RouteLeaf::RouteMatchOrVar(x, v),
        (RouteLeaf::RouteMatch(x, v), RouteLeaf::RouteMatchOrVar(_, _)) => RouteLeaf::RouteMatchOrVar(x, v),
        (RouteLeaf::RVar, RouteLeaf::RouteMatch(y, w)) => RouteLeaf::RouteMatchOrVar(y, w),
        (old, _) => old,
    }
}

/// `m` after `v` is merged in at `k`.
pub open spec fn insert_merged(m: Map<Seq<char>, Leaf>, k: Seq<char>, v: Leaf) -> Map<Seq<char>, Leaf> {
    m.insert(
        k,
        if m.contains_key(k) {
            merge_leaf(m[k], v)
        } else {
            v
        },
    )
}

/// The trie that the leaves make when merged in, in order, into `m`.
pub open spec fn merged_all(m: Map<Seq<char>, Leaf>, leaves: Seq<(Seq<char>, Leaf)>) -> Map<Seq<char>, Leaf>
    decreases leaves.len(),
{
    if leaves.len() == 0 {
        m
    } else {
        let prev = merged_all(m, leaves.drop_last());
        insert_merged(prev, leaves.last().0, leaves.last().1)
    }
}

/// Keys and leaves, as text and by place.
pub open spec fn entries_view(v: Seq<(String, RouteLeaf<usize>)>) -> Seq<(Seq<char>, Leaf)> {
    v.map_values(|e: (String, RouteLeaf<usize>)| (e.0@, leaf_view(e.1)))
}

/// Merges one key and leaf into the trie.
fn insert_or_replace(
    mut t: radix_trie::Trie<String, RouteLeaf<usize>>,
    kv: (String, RouteLeaf<usize>),
) -> (r: radix_trie::Trie<String, RouteLeaf<usize>>)
    ensures
        trie_view(r) == insert_merged(trie_view(t), kv.0@, leaf_view(kv.1)),
{
    let (key, new_value) = kv;
    let ghost before = trie_entries(t);
    match trie_remove(&mut t, &key) {
        Some(current_value) => {
            let merged_value = merge_values(current_value, new_value);
            let ghost mv = merged_value;
            trie_insert(&mut t, key, merged_value);
            let ghost old_view = before.map_values(|l: RouteLeaf<usize>| leaf_view(l));
            assert(trie_view(t) =~= insert_merged(old_view, key@, leaf_view(new_value)));
        },
        None => {
            let ghost nv = new_value;
            trie_insert(&mut t, key, new_value);
            let ghost old_view = before.map_values(|l: RouteLeaf<usize>| leaf_view(l));
            assert(trie_view(t) =~= insert_merged(old_view, key@, leaf_view(nv)));
        },
    }
    t
}

/// The trie that the leaves make, merged in order.
fn to_trie(route_leaves: Vec<(String, RouteLeaf<usize>)>) -> (r: radix_trie::Trie<String, RouteLeaf<usize>>)
    ensures
        trie_view(r) == merged_all(Map::empty(), entries_view(route_leaves@)),
{
    let mut leaves = route_leaves;
    let ghost all = entries_view(leaves@);
    let mut t = trie_new();
    assert(trie_view(t) =~= Map::<Seq<char>, Leaf>::empty());
    let n = leaves.len();
    let mut i: usize = 0;
    while i < n
        invariant
            0 <= i <= n,
            leaves@.len() == n - i,
            all.len() == n,
            entries_view(leaves@) == all.skip(i as int),
            trie_view(t) == merged_all(Map::empty(), all.take(i as int)),
        decreases n - i,
    {
        let ghost l0 = leaves@;
        assert(entries_view(l0)[0] == all.skip(i as int)[0]);
        let kv = leaves.remove(0);
        assert(all.take(i + 1).drop_last() =~= all.take(i as int));
        assert(all[i as int] == (kv.0@, leaf_view(kv.1)));
        t = insert_or_replace(t, kv);
        assert forall|k: int| 0 <= k < leaves@.len() implies #[trigger] entries_view(leaves@)[k] == all.skip(i + 1)[k] by {
            assert(leaves@[k] == l0[k + 1]);
            assert(entries_view(l0)[k + 1] == all.skip(i as int)[k + 1]);
        }
        assert(entries_view(leaves@) =~= all.skip(i + 1));
        i = i + 1;
    }
    assert(all.take(n as int) =~= all);
    t
}

/// The state of the fold over a route's segments: the key so far, the
/// leaves emitted so far, the variable names so far, and whether a wildcard
/// was met.
pub open spec fn fold_step(
    st: (Seq<char>, Seq<(Seq<char>, Leaf)>, Seq<Seq<char>>, bool),
    seg: Segment,
) -> (Seq<char>, Seq<(Seq<char>, Leaf)>, Seq<Seq<char>>, bool) {
    if st.3 {
        st
    } else {
        match seg {
            Segment::Bound(t) => (st.0 + "/"@ + t, st.1, st.2, false),
            Segment::Var(t) => (base64_text(st.0 + "var"@), st.1.push((st.0, Leaf::Var)), st.2.push(t), false),
            Segment::Rest => (st.0, st.1, st.2, true),
        }
    }
}

/// The fold over all the segments of a route.
pub open spec fn fold_route(segs: Seq<Segment>) -> (Seq<char>, Seq<(Seq<char>, Leaf)>, Seq<Seq<char>>, bool)
    decreases segs.len(),
{
    if segs.len() == 0 {
        (Seq::empty(), Seq::empty(), Seq::empty(), false)
    } else {
        fold_step(fold_route(segs.drop_last()), segs.last())
    }
}

/// The keys and leaves that a route mapped to the resource at place `idx`
/// puts in the trie: a variable place at the key reached before each
/// variable, then the route itself (a wildcard if it has `*`) at the key
/// reached at its end, `/` if that is empty. A literal segment adds `/` and
/// itself to the key; a variable makes the key the base64 text of the key
/// so far followed by `var`.
pub open spec fn route_leaves_spec(segs: Seq<Segment>, idx: int) -> Seq<(Seq<char>, Leaf)> {
    let st = fold_route(segs);
    let key = if st.0.len() == 0 {
        "/"@
    } else {
        st.0
    };
    st.1.push(
        (
            key,
            if st.3 {
                Leaf::Wildcard(idx)
            } else {
                Leaf::Match(idx, st.2)
            },
        ),
    )
}

/// One step of the fold over a route's segments.
fn route_fold_fun(
    fold_acc: (String, Vec<(String, RouteLeaf<usize>)>, Vec<String>, bool),
    bou: &BoundOrUnbound,
) -> (r: (String, Vec<(String, RouteLeaf<usize>)>, Vec<String>, bool))
    ensures
        (r.0@, entries_view(r.1@), views(r.2@), r.3) == fold_step(
            (fold_acc.0@, entries_view(fold_acc.1@), views(fold_acc.2@), fold_acc.3),
            bou@,
        ),
{
    let (key, mut routes, mut vars, wild) = fold_acc;
    if wild {
        return (key, routes, vars, true);
    }
    match bou {
        BoundOrUnbound::Bound(t) => {
            let mut part_key = key;
            part_key.append("/");
            part_key.append(t.as_str());
            (part_key, routes, vars, false)
        },
        BoundOrUnbound::Var(t) => {
            let mut part_key_str = key.clone();
            part_key_str.append("var");
            let part_key = encode_key(part_key_str.as_str());
            let ghost r0 = routes@;
            let ghost v0 = vars@;
            routes.push((key, RouteLeaf::RVar));
            vars.push(t.clone());
            assert(entries_view(routes@) =~= entries_view(r0).push((key@, Leaf::Var)));
            assert(views(vars@) =~= views(v0).push(t@));
            (part_key, routes, vars, false)
        },
        BoundOrUnbound::RestUnbound => (key, routes, vars, true),
    }
}

/// The keys and leaves that `route`, mapped to the resource at place `idx`,
/// puts in the trie.
fn route_leaves(route: &Route, idx: usize) -> (r: Vec<(String, RouteLeaf<usize>)>)
    ensures
        entries_view(r@) == route_leaves_spec(route@, idx as int),
{
    let mut acc: (String, Vec<(String, RouteLeaf<usize>)>, Vec<String>, bool) = (
        String::new(),
        Vec::new(),
        Vec::new(),
        false,
    );
    assert(entries_view(acc.1@) =~= Seq::<(Seq<char>, Leaf)>::empty());
    assert(views(acc.2@) =~= Seq::<Seq<char>>::empty());
    let mut i: usize = 0;
    while i < route.0.len()
        invariant
            0 <= i <= route.0.len(),
            (acc.0@, entries_view(acc.1@), views(acc.2@), acc.3) == fold_route(
                route@.take(i as int),
            ),
        decreases route.0.len() - i,
    {
        assert(route@.take(i + 1).drop_last() =~= route@.take(i as int));
        assert(route@.take(i + 1).last() == route.0@[i as int]@);
        acc = route_fold_fun(acc, &route.0[i]);
        i = i + 1;
    }
    assert(route@.take(route.0.len() as int) =~= route@);
    let (key, mut routes, vars, is_wild) = acc;
    let final_key = if key.as_str().unicode_len() == 0 {
        String::from_str("/")
    } else {
        key
    };
    let ghost r0 = routes@;
    let ghost vv = views(vars@);
    let final_leaf = if is_wild {
        RouteLeaf::Wildcard(RoutedResource(route.duplicate(), idx))
    } else {
        RouteLeaf::RouteMatch(RoutedResource(route.duplicate(), idx), vars)
    };
    assert(leaf_view(final_leaf) == (if is_wild {
        Leaf::Wildcard(idx as int)
    } else {
        Leaf::Match(idx as int, vv)
    }));
    routes.push((final_key, final_leaf));
    assert(entries_view(routes@) =~= entries_view(r0).push((final_key@, leaf_view(final_leaf))));
    routes
}

} // verus!

verus! {

/// The routes of an application, in order of registration: each a template
/// and the resource it maps to.
pub struct RoutingSpec<'a, R>(pub Vec<(&'a str, R)>);

/// The routing trie, and the routed resources that its leaves point to by
/// place.
pub struct RoutingTrie<R> {
    pub trie: radix_trie::Trie<String, RouteLeaf<usize>>,
    pub resources: Vec<RoutedResource<R>>,
}

/// The templates of the routes.
pub open spec fn templates<'a, R>(v: Seq<(&'a str, R)>) -> Seq<Seq<char>> {
    v.map_values(|p: (&'a str, R)| p.0@)
}

/// The keys and leaves of all the routes, in order of registration.
pub open spec fn all_leaves(ts: Seq<Seq<char>>) -> Seq<(Seq<char>, Leaf)>
    decreases ts.len(),
{
    if ts.len() == 0 {
        Seq::empty()
    } else {
        all_leaves(ts.drop_last()) + route_leaves_spec(parse_route(ts.last()), ts.len() - 1)
    }
}

/// Builds the routing trie of the routes: each route's keys and leaves,
/// merged in order of registration, so that earlier routes win and
/// wildcards always win.
pub fn run_router<'a, R>(routes: RoutingSpec<'a, R>) -> (r: RoutingTrie<R>)
    ensures
        trie_view(r.trie) == merged_all(Map::empty(), all_leaves(templates(routes.0@))),
        r.resources@.len() == routes.0@.len(),
        forall|i: int|
            0 <= i < routes.0@.len() ==> (#[trigger] r.resources@[i]).0@ == parse_route(
                routes.0@[i].0@,
            ) && r.resources@[i].1 == routes.0@[i].1,
{
    let mut pending = routes.0;
    let ghost given = pending@;
    let ghost ts = templates(given);
    let n = pending.len();
    let mut leaves: Vec<(String, RouteLeaf<usize>)> = Vec::new();
    let mut resources: Vec<RoutedResource<R>> = Vec::new();
    assert(entries_view(leaves@) =~= all_leaves(ts.take(0)));
    let mut i: usize = 0;
    while i < n
        invariant
            0 <= i <= n,
            n == given.len(),
            ts == templates(given),
            pending@ == given.skip(i as int),
            entries_view(leaves@) == all_leaves(ts.take(i as int)),
            resources@.len() == i,
            forall|k: int|
                0 <= k < i ==> (#[trigger] resources@[k]).0@ == parse_route(given[k].0@)
                    && resources@[k].1 == given[k].1,
        decreases n - i,
    {
        let ghost p0 = pending@;
        let (template, res) = pending.remove(0);
        assert(pending@ =~= given.skip(i + 1));
        assert(given[i as int] == p0[0]);
        let route = Route::parse(template);
        let mut more = route_leaves(&route, i);
        let ghost l0 = leaves@;
        let ghost m0 = more@;
        leaves.append(&mut more);
        assert(ts.take(i + 1).drop_last() =~= ts.take(i as int));
        assert(ts.take(i + 1).last() == template@);
        assert(entries_view(leaves@) =~= entries_view(l0) + entries_view(m0));
        resources.push(RoutedResource(route, res));
        i = i + 1;
    }
    assert(ts.take(n as int) =~= ts);
    let trie = to_trie(leaves);
    RoutingTrie { trie, resources }
}

/// The dispatch path: the dispatch prefix, if any, followed by the matched
/// text, split at `/`.
pub fn dispatch_list(dispatch: Option<String>, matched: &str) -> (r: Vec<String>)
    ensures
        views(r@) == split_on(
            match dispatch {
                Some(d) => d@ + matched@,
                None => matched@,
            },
            "/"@,
        ),
{
    let upd_dispatch = match dispatch {
        Some(path) => {
            let mut p = path;
            p.append(matched);
            p
        },
        None => String::from_str(matched),
    };
    proof {
        reveal_strlit("/");
    }
    split_exec(upd_dispatch.as_str(), "/")
}

/// Variable names paired with their values.
pub type Params = Seq<(Seq<char>, Seq<char>)>;

/// What a lookup gives: the routed resource, the variables paired with
/// their values, and the dispatch path.
pub type Found<'a, R> = Option<(&'a RoutedResource<R>, (Vec<(String, String)>, Vec<String>))>;

/// A lookup's result as values.
pub type Matched<R> = Option<(RoutedResource<R>, Params, Seq<Seq<char>>)>;

/// The names of the variables paired, in order, with the values collected.
pub open spec fn zip_params(vars: Seq<Seq<char>>, vals: Seq<Seq<char>>) -> Params {
    Seq::new(
        if vars.len() <= vals.len() {
            vars.len()
        } else {
            vals.len()
        },
        |i: int| (vars[i], vals[i]),
    )
}

/// Pairs of texts.
pub open spec fn pair_views(v: Seq<(String, String)>) -> Seq<(Seq<char>, Seq<char>)> {
    v.map_values(|p: (String, String)| (p.0@, p.1@))
}

/// The names of the variables paired, in order, with the values collected.
fn zip_exec(vars: &Vec<String>, vals: &Vec<String>) -> (r: Vec<(String, String)>)
    ensures
        pair_views(r@) == zip_params(views(vars@), views(vals@)),
{
    let n = if vars.len() <= vals.len() {
        vars.len()
    } else {
        vals.len()
    };
    let mut out: Vec<(String, String)> = Vec::new();
    let mut i: usize = 0;
    while i < n
        invariant
            0 <= i <= n,
            n <= vars.len(),
            n <= vals.len(),
            out@.len() == i,
            forall|k: int| 0 <= k < i ==> (#[trigger] out@[k]).0@ == vars@[k]@ && out@[k].1@ == vals@[k]@,
        decreases n - i,
    {
        out.push((vars[i].clone(), vals[i].clone()));
        i = i + 1;
    }
    assert(pair_views(out@) =~= zip_params(views(vars@), views(vals@)));
    out
}

/// The place of a leaf's resource.
pub open spec fn leaf_index(l: Leaf) -> int {
    match l {
        Leaf::Match(i, _) => i,
        Leaf::MatchOrVar(i, _) => i,
        Leaf::Wildcard(i) => i,
        Leaf::Var => 0,
    }
}

/// The variable names of a leaf's route.
pub open spec fn leaf_vars(l: Leaf) -> Seq<Seq<char>> {
    match l {
        Leaf::Match(_, v) => v,
        Leaf::MatchOrVar(_, v) => v,
        _ => Seq::empty(),
    }
}

/// Looks `key` up in the trie `m`, with the variable values `params`
/// collected so far, taking at most `fuel` more variable steps. The longest
/// key that is a prefix of `key` decides: a wildcard matches, with the rest
/// of the path (without its leading slashes) as the dispatch path; a
/// complete route matches when nothing is left, with its variables paired
/// with the values collected and the matched key split at `/` as the
/// dispatch path; a variable place consumes one segment of the rest, which
/// must start with one `/`, and the lookup goes on at the base64 text of
/// the matched key and `var`, followed by what is left after the segment.
pub open spec fn lookup(m: Map<Seq<char>, Leaf>, key: Seq<char>, params: Seq<Seq<char>>, fuel: nat) -> Option<(int, Params, Seq<Seq<char>>)>
    decreases fuel,
{
    if exists|k: Seq<char>| is_longest_prefix(m.dom(), key, k) {
        let k = choose|k: Seq<char>| is_longest_prefix(m.dom(), key, k);
        let rest = key.skip(k.len() as int);
        let leaf = m[k];
        if leaf is Wildcard {
            Some((leaf_index(leaf), Seq::empty(), seq![trim_start(rest, Strip::Slash)]))
        } else if rest.len() == 0 && (leaf is Match || leaf is MatchOrVar) {
            Some((leaf_index(leaf), zip_params(leaf_vars(leaf), params), split_on(k, "/"@)))
        } else if leaf is Match {
            None
        } else if rest.len() >= 1 && rest[0] == '/' && !(rest.len() >= 2 && rest[1] == '/') && fuel
            > 0 {
            let after = rest.skip(1);
            let end = lead_end(after, Strip::NonSlash, 0);
            lookup(
                m,
                base64_text(k + "var"@) + after.skip(end),
                params.push(after.take(end)),
                (fuel - 1) as nat,
            )
        } else {
            None
        }
    } else {
        None
    }
}

/// What looking `key` up in `routes` gives, with the variable values
/// `params` collected so far and at most `fuel` more variable steps.
pub open spec fn match_spec<R>(routes: RoutingTrie<R>, key: Seq<char>, params: Seq<Seq<char>>, fuel: nat) -> Matched<R> {
    match lookup(trie_view(routes.trie), key, params, fuel) {
        Some((i, ps, d)) => if 0 <= i < routes.resources@.len() {
            Some((routes.resources@[i], ps, d))
        } else {
            None
        },
        None => None,
    }
}

/// What looking `path` up in `routes` gives: the routed resource, the
/// variables paired with their values, and the dispatch path. A lookup
/// takes at most as many variable steps as the path has characters.
pub open spec fn route_spec<R>(routes: RoutingTrie<R>, path: Seq<char>) -> Matched<R> {
    match_spec(routes, path, Seq::empty(), path.len())
}

/// A lookup's result as values.
pub open spec fn found_view<'a, R>(r: Found<'a, R>) -> Matched<R> {
    match r {
        Some((rr, (ps, d))) => Some((*rr, pair_views(ps@), views(d@))),
        None => None,
    }
}

/// Two keys that are each the longest prefix are the same key.
proof fn lemma_longest_prefix_unique(keys: Set<Seq<char>>, path: Seq<char>, k1: Seq<char>, k2: Seq<char>)
    requires
        is_longest_prefix(keys, path, k1),
        is_longest_prefix(keys, path, k2),
    ensures
        k1 == k2,
{
    assert(k1.len() == k2.len());
    assert(k1 =~= k2);
}

/// Follows the trie from `key`: consumes a variable segment at each
/// variable place, until a route or a wildcard matches or nothing does.
fn match_route<'a, R>(routes: &'a RoutingTrie<R>, start: String, collected: Vec<String>, steps: usize) -> (r: Found<'a, R>)
    ensures
        found_view(r) == match_spec(*routes, start@, views(collected@), steps as nat),
{
    let ghost m = trie_view(routes.trie);
    let ghost goal = lookup(m, start@, views(collected@), steps as nat);
    let mut key = start;
    let mut params = collected;
    let mut fuel = steps;
    loop
        invariant
            m == trie_view(routes.trie),
            goal == lookup(m, start@, views(collected@), steps as nat),
            goal == lookup(m, key@, views(params@), fuel as nat),
        decreases fuel,
    {
        let found = trie_ancestor(&routes.trie, &key);
        match found {
            None => {
                assert(m.dom() =~= trie_entries(routes.trie).dom());
                assert(!exists|k: Seq<char>| is_longest_prefix(m.dom(), key@, k));
                return None;
            },
            Some((matched, leaf)) => {
                proof {
                    assert(m.dom() =~= trie_entries(routes.trie).dom());
                    assert(is_longest_prefix(m.dom(), key@, matched@));
                    let k = choose|k: Seq<char>| is_longest_prefix(m.dom(), key@, k);
                    lemma_longest_prefix_unique(m.dom(), key@, k, matched@);
                    assert(m[matched@] == leaf_view(leaf));
                }
                let klen = matched.as_str().unicode_len();
                let total = key.as_str().unicode_len();
                let rest = key.as_str().substring_char(klen, total);
                let rest_len = total - klen;
                assert(rest@ == key@.skip(klen as int));
                match &leaf {
                    RouteLeaf::Wildcard(rr) => {
                        assert(lookup(m, key@, views(params@), fuel as nat) == Some(
                            (rr.1 as int, Seq::<(Seq<char>, Seq<char>)>::empty(), seq![trim_start(rest@, Strip::Slash)]),
                        ));
                        if rr.1 < routes.resources.len() {
                            let dispatch = vec![trim_start_exec(rest, Strip::Slash)];
                            let params_map: Vec<(String, String)> = Vec::new();
                            assert(pair_views(params_map@) =~= Seq::<(Seq<char>, Seq<char>)>::empty());
                            assert(views(dispatch@) =~= seq![trim_start(rest@, Strip::Slash)]);
                            return Some((&routes.resources[rr.1], (params_map, dispatch)));
                        } else {
                            return None;
                        }
                    },
                    RouteLeaf::RouteMatch(rr, vars) => {
                        if rest_len == 0 && rr.1 < routes.resources.len() {
                            let params_map = zip_exec(vars, &params);
                            let dispatch = dispatch_list(None, matched.as_str());
                            return Some((&routes.resources[rr.1], (params_map, dispatch)));
                        } else {
                            return None;
                        }
                    },
                    RouteLeaf::RouteMatchOrVar(rr, vars) => {
                        if rest_len == 0 {
                            if rr.1 < routes.resources.len() {
                                let params_map = zip_exec(vars, &params);
                                let dispatch = dispatch_list(None, matched.as_str());
                                return Some((&routes.resources[rr.1], (params_map, dispatch)));
                            } else {
                                return None;
                            }
                        }
                    },
                    RouteLeaf::RVar => {},
                }
                if rest_len >= 1 && rest.get_char(0) == '/' && !(rest_len >= 2 && rest.get_char(1)
                    == '/') && fuel > 0 {
                    let after = rest.substring_char(1, rest_len);
                    let after_len = rest_len - 1;
                    let end = lead_end_exec(after, Strip::NonSlash);
                    let seg = String::from_str(after.substring_char(0, end));
                    let remaining = after.substring_char(end, after_len);
                    let mut prefix_text = matched.clone();
                    prefix_text.append("var");
                    let mut next = encode_key(prefix_text.as_str());
                    next.append(remaining);
                    let ghost p0 = params@;
                    params.push(seg);
                    assert(views(params@) =~= views(p0).push(after@.take(end as int)));
                    key = next;
                    fuel = fuel - 1;
                } else {
                    return None;
                }
            },
        }
    }
}

/// Looks the request path up in the routing trie: the routed resource, the
/// route's variables paired with the values in the path, and the dispatch
/// path; nothing when no route matches.
pub fn route<'a, R>(routes: &'a RoutingTrie<R>, path_info: String) -> (r: Found<'a, R>)
    ensures
        found_view(r) == route_spec(*routes, path_info@),
{
    let fuel = path_info.as_str().unicode_len();
    let params: Vec<String> = Vec::new();
    assert(views(params@) =~= Seq::<Seq<char>>::empty());
    match_route(routes, path_info, params, fuel)
}

/// Looking a path up twice in the same routing trie gives the same
/// resource, variables and dispatch path.
pub proof fn lemma_route_deterministic<R>(
    routes: RoutingTrie<R>,
    path: Seq<char>,
    first: Matched<R>,
    second: Matched<R>,
)
    requires
        first == route_spec(routes, path),
        second == route_spec(routes, path),
    ensures
        first == second,
{
}

} // verus!
