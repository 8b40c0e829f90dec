//! Routing requests to the consumers that share a listener.

use vstd::prelude::*;

use crate::http::publisher::{quote, quoted_text};
use crate::text::{chars_of, join2, join3, opt, same, texts};

verus! {

/// What a consumer is registered for: a path or every path, a method or every
/// method.
#[derive(Debug)]
pub struct RouteKey {
    pub path: Option<String>,
    pub method: Option<String>,
}

/// A registration over mathematical values.
pub struct KeyView {
    pub path: Option<Seq<char>>,
    pub method: Option<Seq<char>>,
}

impl View for RouteKey {
    type V = KeyView;

    open spec fn view(&self) -> KeyView {
        KeyView { path: opt(self.path), method: opt(self.method) }
    }
}

/// Whether two registrations claim the same requests: the same path, with methods
/// that are equal or not told apart.
pub open spec fn conflict(a: KeyView, b: KeyView) -> bool {
    a.path == b.path && (a.method == b.method || a.method is None || b.method is None)
}

/// Whether a registration is for this path.
pub open spec fn on_path(k: KeyView, path: Seq<char>) -> bool {
    k.path is None || k.path == Some(path)
}

/// Whether a registration is for this method.
pub open spec fn on_method(k: KeyView, method: Seq<char>) -> bool {
    k.method is None || k.method == Some(method)
}

/// How specific a registration is. A path weighs more than a method.
pub open spec fn specificity(k: KeyView) -> int {
    (if k.path is Some {
        2int
    } else {
        0
    }) + (if k.method is Some {
        1int
    } else {
        0
    })
}

/// Registrations over mathematical values.
pub open spec fn key_views(routes: Seq<(u64, RouteKey)>) -> Seq<KeyView> {
    routes.map_values(|r: (u64, RouteKey)| r.1@)
}

/// Whether no two registrations conflict.
pub open spec fn no_conflicts(keys: Seq<KeyView>) -> bool {
    forall|i: int, j: int|
        0 <= i < j < keys.len() ==> !conflict(#[trigger] keys[i], #[trigger] keys[j])
}

/// The table of the consumers that share a listener.
#[derive(Debug)]
pub struct SharedHttpRouter {
    pub routes: Vec<(u64, RouteKey)>,
}

/// Where a request goes.
#[derive(Debug)]
pub enum RouteMatchResult {
    /// To the registration at this position.
    Matched(usize),
    /// The path is known, but only for these methods.
    MethodNotAllowed(Vec<String>),
    NotFound,
}

/// Whether position `i` is where a request for this path and method goes: it matches,
/// and nothing that matches is more specific, nor as specific and earlier.
pub open spec fn is_best(keys: Seq<KeyView>, path: Seq<char>, method: Seq<char>, i: int) -> bool {
    &&& 0 <= i < keys.len()
    &&& on_path(keys[i], path)
    &&& on_method(keys[i], method)
    &&& forall|j: int|
        0 <= j < keys.len() && on_path(#[trigger] keys[j], path) && on_method(keys[j], method)
            ==> specificity(keys[j]) <= specificity(keys[i]) && (j < i ==> specificity(keys[j])
            < specificity(keys[i]))
}

/// Whether a registration for this path names a method.
pub open spec fn allows(keys: Seq<KeyView>, path: Seq<char>, method: Seq<char>) -> bool {
    exists|j: int|
        0 <= j < keys.len() && on_path(#[trigger] keys[j], path) && keys[j].method == Some(method)
}

/// Whether `a` comes before `b` in the order of their characters.
pub open spec fn comes_before(a: Seq<char>, b: Seq<char>) -> bool
    decreases a.len(),
{
    if b.len() == 0 {
        false
    } else if a.len() == 0 {
        true
    } else if a[0] != b[0] {
        a[0] < b[0]
    } else {
        comes_before(a.subrange(1, a.len() as int), b.subrange(1, b.len() as int))
    }
}

/// Whether the texts stand in strictly increasing order.
pub open spec fn strictly_sorted(names: Seq<Seq<char>>) -> bool {
    forall|i: int, j: int|
        0 <= i < j < names.len() ==> comes_before(#[trigger] names[i], #[trigger] names[j])
}

proof fn lemma_before_is_transitive(a: Seq<char>, b: Seq<char>, c: Seq<char>)
    requires
        comes_before(a, b),
        comes_before(b, c),
    ensures
        comes_before(a, c),
    decreases a.len(),
{
    if a.len() > 0 && b.len() > 0 && c.len() > 0 && a[0] == b[0] && b[0] == c[0] {
        lemma_before_is_transitive(
            a.subrange(1, a.len() as int),
            b.subrange(1, b.len() as int),
            c.subrange(1, c.len() as int),
        );
    }
}

proof fn lemma_before_is_total(a: Seq<char>, b: Seq<char>)
    ensures
        a == b || comes_before(a, b) || comes_before(b, a),
        !comes_before(a, a),
    decreases a.len(),
{
    if a.len() > 0 {
        let ta = a.subrange(1, a.len() as int);
        if b.len() > 0 {
            let tb = b.subrange(1, b.len() as int);
            lemma_before_is_total(ta, tb);
            if a[0] == b[0] && ta == tb {
                assert(a =~= seq![a[0]] + ta);
                assert(b =~= seq![b[0]] + tb);
            }
        } else {
            lemma_before_is_total(ta, ta);
        }
    } else if b.len() == 0 {
        assert(a =~= b);
    }
}

fn text_before(a: &str, b: &str) -> (res: bool)
    ensures
        res == comes_before(a@, b@),
{
    let x = chars_of(a);
    let y = chars_of(b);
    let mut i: usize = 0;
    assert(a@.subrange(0, a@.len() as int) =~= a@);
    assert(b@.subrange(0, b@.len() as int) =~= b@);
    loop
        invariant
            i <= x@.len(),
            i <= y@.len(),
            x@ == a@,
            y@ == b@,
            comes_before(a@, b@) == comes_before(
                a@.subrange(i as int, a@.len() as int),
                b@.subrange(i as int, b@.len() as int),
            ),
        decreases x@.len() - i,
    {
        if i == y.len() {
            return false;
        }
        if i == x.len() {
            return true;
        }
        if x[i] != y[i] {
            return x[i] < y[i];
        }
        assert(a@.subrange(i as int, a@.len() as int).subrange(1, a@.len() - i) =~= a@.subrange(
            i + 1,
            a@.len() as int,
        ));
        assert(b@.subrange(i as int, b@.len() as int).subrange(1, b@.len() - i) =~= b@.subrange(
            i + 1,
            b@.len() as int,
        ));
        i += 1;
    }
}

/// Puts a name at its place in a sorted list, unless it is there already.
fn insert_sorted(names: &mut Vec<String>, name: &str)
    requires
        strictly_sorted(texts(old(names)@)),
    ensures
        strictly_sorted(texts(final(names)@)),
        forall|t: Seq<char>|
            texts(final(names)@).contains(t) <==> (texts(old(names)@).contains(t) || t == name@),
{
    let ghost rows = texts(names@);
    let mut i: usize = 0;
    while i < names.len() && text_before(names[i].as_str(), name)
        invariant
            i <= names@.len(),
            rows == texts(names@),
            forall|k: int| 0 <= k < i ==> comes_before(#[trigger] rows[k], name@),
        decreases names@.len() - i,
    {
        assert(rows[i as int] == names@[i as int]@);
        i += 1;
    }
    if i < names.len() && same(names[i].as_str(), name) {
        assert(rows[i as int] == name@);
        return;
    }
    proof {
        if i < names@.len() {
            assert(rows[i as int] == names@[i as int]@);
            lemma_before_is_total(rows[i as int], name@);
        }
    }
    names.insert(i, name.to_owned());
    let ghost out = texts(names@);
    assert(out =~= rows.insert(i as int, name@));
    proof {
        assert forall|a: int, b: int| 0 <= a < b < out.len() implies comes_before(
            #[trigger] out[a],
            #[trigger] out[b],
        ) by {
            let oa = if a < i {
                a
            } else {
                a - 1
            };
            let ob = if b < i {
                b
            } else {
                b - 1
            };
            if a != i && b != i {
                assert(out[a] == rows[oa] && out[b] == rows[ob]);
            } else if b == i {
                assert(out[a] == rows[a]);
            } else {
                assert(out[b] == rows[b - 1]);
                if b - 1 > i {
                    lemma_before_is_transitive(name@, rows[i as int], rows[b - 1]);
                }
            }
        }
        assert forall|t: Seq<char>| out.contains(t) <==> (rows.contains(t) || t == name@) by {
            if out.contains(t) {
                let w = choose|w: int| 0 <= w < out.len() && out[w] == t;
                if w < i {
                    assert(rows[w] == t);
                } else if w > i {
                    assert(rows[w - 1] == t);
                }
            }
            if rows.contains(t) {
                let w = choose|w: int| 0 <= w < rows.len() && rows[w] == t;
                if w < i {
                    assert(out[w] == t);
                } else {
                    assert(out[w + 1] == t);
                }
            }
            assert(out[i as int] == name@);
        }
    }
}

fn same_option(a: &Option<String>, b: &Option<String>) -> (res: bool)
    ensures
        res == (opt(*a) == opt(*b)),
{
    match a {
        Some(x) => match b {
            Some(y) => same(x.as_str(), y.as_str()),
            None => false,
        },
        None => b.is_none(),
    }
}

/// Whether two registrations claim the same requests.
pub fn routes_conflict(left: &RouteKey, right: &RouteKey) -> (res: bool)
    ensures
        res == conflict(left@, right@),
{
    same_option(&left.path, &right.path) && (same_option(&left.method, &right.method)
        || left.method.is_none() || right.method.is_none())
}

/// Whether a registration is for this path.
pub fn route_matches_path(key: &RouteKey, path: &str) -> (res: bool)
    ensures
        res == on_path(key@, path@),
{
    match &key.path {
        Some(p) => same(p.as_str(), path),
        None => true,
    }
}

/// Whether a registration is for this method.
pub fn route_matches_method(key: &RouteKey, method: &str) -> (res: bool)
    ensures
        res == on_method(key@, method@),
{
    match &key.method {
        Some(m) => same(m.as_str(), method),
        None => true,
    }
}

/// How specific a registration is.
pub fn route_specificity(key: &RouteKey) -> (rank: u8)
    ensures
        rank == specificity(key@),
{
    let path: u8 = if key.path.is_some() {
        2
    } else {
        0
    };
    let method: u8 = if key.method.is_some() {
        1
    } else {
        0
    };
    path + method
}

/// An optional text as the standard library writes it for debugging, given how it
/// writes the text itself.
pub open spec fn shown(text: Option<Seq<char>>) -> Seq<char> {
    match text {
        Some(t) => "Some("@ + t + ")"@,
        None => "None"@,
    }
}

/// The message for a registration that conflicts with another.
pub open spec fn conflict_text(key: KeyView) -> Seq<char> {
    let path = match key.path {
        Some(p) => Some(quoted_text(p)),
        None => None,
    };
    "Conflicting HTTP consumer registration for path "@ + shown(path) + " and method "@ + shown(
        key.method,
    )
}

fn describe_conflict(key: &RouteKey) -> (text: String)
    ensures
        text@ == conflict_text(key@),
{
    let path = match &key.path {
        Some(p) => join3("Some(", quote(p.as_str()).as_str(), ")"),
        None => "None".to_owned(),
    };
    let method = match &key.method {
        Some(m) => join3("Some(", m.as_str(), ")"),
        None => "None".to_owned(),
    };
    let head = join3(
        "Conflicting HTTP consumer registration for path ",
        path.as_str(),
        " and method ",
    );
    join2(head.as_str(), method.as_str())
}

impl SharedHttpRouter {
    /// A table without registrations.
    pub fn new() -> (router: Self)
        ensures
            router.routes@.len() == 0,
            no_conflicts(key_views(router.routes@)),
    {
        SharedHttpRouter { routes: Vec::new() }
    }

    /// Registers a consumer, unless its registration conflicts with one that is there.
    pub fn register_route(&mut self, route_id: u64, key: RouteKey) -> (res: Result<(), String>)
        requires
            no_conflicts(key_views(old(self).routes@)),
        ensures
            res is Ok == (forall|i: int|
                0 <= i < old(self).routes@.len() ==> !conflict(
                    (#[trigger] old(self).routes@[i]).1@,
                    key@,
                )),
            match res {
                Ok(()) => final(self).routes@ == old(self).routes@.push((route_id, key)),
                Err(e) => final(self).routes@ == old(self).routes@ && e@ == conflict_text(key@),
            },
            no_conflicts(key_views(final(self).routes@)),
    {
        let ghost keys = key_views(self.routes@);
        let mut i: usize = 0;
        while i < self.routes.len()
            invariant
                i <= self.routes@.len(),
                self.routes@ == old(self).routes@,
                keys == key_views(self.routes@),
                no_conflicts(keys),
                forall|k: int|
                    0 <= k < i ==> !conflict((#[trigger] self.routes@[k]).1@, key@),
            decreases self.routes@.len() - i,
        {
            if routes_conflict(&self.routes[i].1, &key) {
                assert(conflict(old(self).routes@[i as int].1@, key@));
                return Err(describe_conflict(&key));
            }
            i += 1;
        }
        self.routes.push((route_id, key));
        let ghost after = key_views(self.routes@);
        assert(after =~= keys.push(key@));
        assert forall|a: int, b: int| 0 <= a < b < after.len() implies !conflict(
            #[trigger] after[a],
            #[trigger] after[b],
        ) by {
            assert(after[a] == keys[a]);
            if b < keys.len() {
                assert(after[b] == keys[b]);
            } else {
                assert(keys[a] == old(self).routes@[a].1@);
            }
        }
        Ok(())
    }

    /// Removes what was registered under an id, and says whether nothing is left.
    pub fn unregister_route(&mut self, route_id: u64) -> (is_empty: bool)
        requires
            no_conflicts(key_views(old(self).routes@)),
        ensures
            final(self).routes@ == keep_others(old(self).routes@, route_id),
            is_empty == (final(self).routes@.len() == 0),
            no_conflicts(key_views(final(self).routes@)),
    {
        let mut kept: Vec<(u64, RouteKey)> = Vec::new();
        let mut rest: Vec<(u64, RouteKey)> = Vec::new();
        rest.append(&mut self.routes);
        let ghost all = rest@;
        assert(all =~= old(self).routes@);
        assert(kept@ + keep_others(all, route_id) =~= keep_others(all, route_id));
        while rest.len() > 0
            invariant
                kept@ + keep_others(rest@, route_id) == keep_others(all, route_id),
            decreases rest@.len(),
        {
            let ghost before = rest@;
            let entry = rest.remove(0);
            assert(rest@ =~= before.subrange(1, before.len() as int));
            let ghost taken = kept@;
            if entry.0 != route_id {
                kept.push(entry);
                assert(taken.push(entry) + keep_others(rest@, route_id) =~= taken + (seq![entry]
                    + keep_others(rest@, route_id)));
            }
        }
        assert(kept@ + keep_others(rest@, route_id) =~= kept@);
        self.routes = kept;
        proof {
            lemma_keep_others(all, route_id);
        }
        self.routes.len() == 0
    }

    /// Decides where a request goes.
    pub fn match_route(&self, path: &str, method: &str) -> (res: RouteMatchResult)
        ensures
            ({
                let keys = key_views(self.routes@);
                match res {
                    RouteMatchResult::Matched(i) => is_best(keys, path@, method@, i as int),
                    RouteMatchResult::MethodNotAllowed(methods) => {
                        &&& exists|j: int| 0 <= j < keys.len() && on_path(#[trigger] keys[j], path@)
                        &&& forall|j: int|
                            0 <= j < keys.len() && on_path(#[trigger] keys[j], path@) ==> !on_method(
                                keys[j],
                                method@,
                            )
                        &&& strictly_sorted(texts(methods@))
                        &&& forall|m: Seq<char>|
                            #[trigger] texts(methods@).contains(m) <==> allows(keys, path@, m)
                    },
                    RouteMatchResult::NotFound => forall|j: int|
                        0 <= j < keys.len() ==> !on_path(#[trigger] keys[j], path@),
                }
            }),
    {
        let ghost keys = key_views(self.routes@);
        let mut matched_path = false;
        let mut best: Option<usize> = None;
        let mut best_rank: u8 = 0;
        let mut methods: Vec<String> = Vec::new();
        let mut i: usize = 0;
        while i < self.routes.len()
            invariant
                i <= self.routes@.len(),
                keys == key_views(self.routes@),
                matched_path == (exists|j: int|
                    0 <= j < i && on_path(#[trigger] keys[j], path@)),
                match best {
                    Some(b) => {
                        &&& b < i
                        &&& best_rank == specificity(keys[b as int])
                        &&& on_path(keys[b as int], path@)
                        &&& on_method(keys[b as int], method@)
                        &&& forall|j: int|
                            0 <= j < i && on_path(#[trigger] keys[j], path@) && on_method(
                                keys[j],
                                method@,
                            ) ==> specificity(keys[j]) <= best_rank && (j < b ==> specificity(
                                keys[j],
                            ) < best_rank)
                    },
                    None => forall|j: int|
                        0 <= j < i && on_path(#[trigger] keys[j], path@) ==> !on_method(
                            keys[j],
                            method@,
                        ),
                },
                strictly_sorted(texts(methods@)),
                forall|m: Seq<char>|
                    #[trigger] texts(methods@).contains(m) <==> (exists|j: int|
                        0 <= j < i && on_path(#[trigger] keys[j], path@) && keys[j].method == Some(
                            m,
                        )),
            decreases self.routes@.len() - i,
        {
            let key = &self.routes[i].1;
            assert(keys[i as int] == key@);
            let ghost listed = texts(methods@);
            if route_matches_path(key, path) {
                matched_path = true;
                if let Some(m) = &key.method {
                    insert_sorted(&mut methods, m.as_str());
                }
                if route_matches_method(key, method) {
                    let rank: u8 = route_specificity(key);
                    if best.is_none() || rank > best_rank {
                        best_rank = rank;
                        best = Some(i);
                    }
                }
            }
            assert forall|m: Seq<char>| #[trigger] texts(methods@).contains(m) <==> (exists|j: int|
                0 <= j < i + 1 && on_path(#[trigger] keys[j], path@) && keys[j].method == Some(
                    m,
                )) by {
                if exists|j: int|
                    0 <= j < i && on_path(#[trigger] keys[j], path@) && keys[j].method == Some(m) {
                    assert(listed.contains(m));
                }
            }
            i += 1;
        }
        match best {
            Some(b) => RouteMatchResult::Matched(b),
            None => if matched_path {
                RouteMatchResult::MethodNotAllowed(methods)
            } else {
                RouteMatchResult::NotFound
            },
        }
    }
}

/// The registrations under other ids, in order.
pub open spec fn keep_others(routes: Seq<(u64, RouteKey)>, id: u64) -> Seq<(u64, RouteKey)>
    decreases routes.len(),
{
    if routes.len() == 0 {
        seq![]
    } else {
        let later = keep_others(routes.subrange(1, routes.len() as int), id);
        if routes[0].0 == id {
            later
        } else {
            seq![routes[0]] + later
        }
    }
}

/// What is kept was there, in the same order, so that nothing new conflicts.
proof fn lemma_keep_others(routes: Seq<(u64, RouteKey)>, id: u64)
    requires
        no_conflicts(key_views(routes)),
    ensures
        no_conflicts(key_views(keep_others(routes, id))),
        forall|k: int|
            0 <= k < keep_others(routes, id).len() ==> (exists|w: int|
                0 <= w < routes.len() && #[trigger] routes[w] == #[trigger] keep_others(
                    routes,
                    id,
                )[k]),
    decreases routes.len(),
{
    if routes.len() > 0 {
        let tail = routes.subrange(1, routes.len() as int);
        let keys = key_views(routes);
        let tail_keys = key_views(tail);
        assert forall|a: int, b: int| 0 <= a < b < tail_keys.len() implies !conflict(
            #[trigger] tail_keys[a],
            #[trigger] tail_keys[b],
        ) by {
            assert(tail_keys[a] == keys[a + 1]);
            assert(tail_keys[b] == keys[b + 1]);
        }
        lemma_keep_others(tail, id);
        let later = keep_others(tail, id);
        let out = keep_others(routes, id);
        assert forall|k: int| 0 <= k < out.len() implies (exists|w: int|
            0 <= w < routes.len() && #[trigger] routes[w] == #[trigger] out[k]) by {
            if routes[0].0 == id {
                let w = choose|w: int| 0 <= w < tail.len() && #[trigger] tail[w] == later[k];
                assert(routes[w + 1] == out[k]);
            } else if k == 0 {
                assert(routes[0] == out[0]);
            } else {
                let w = choose|w: int| 0 <= w < tail.len() && #[trigger] tail[w] == later[k - 1];
                assert(routes[w + 1] == out[k]);
            }
        }
        if routes[0].0 != id {
            let ks = key_views(out);
            let ls = key_views(later);
            assert forall|a: int, b: int| 0 <= a < b < ks.len() implies !conflict(
                #[trigger] ks[a],
                #[trigger] ks[b],
            ) by {
                assert(ks[b] == ls[b - 1]);
                if a > 0 {
                    assert(ks[a] == ls[a - 1]);
                } else {
                    assert(out[b] == later[b - 1]);
                    let w = choose|w: int|
                        0 <= w < tail.len() && #[trigger] tail[w] == later[b - 1];
                    assert(keys[w + 1] == ks[b]);
                    assert(keys[0] == ks[0]);
                }
            }
        }
    }
}

/// In a table without conflicts a request has one best registration, whatever the
/// order in which they were made.
pub proof fn law_best_route_is_unique(
    keys: Seq<KeyView>,
    path: Seq<char>,
    method: Seq<char>,
    i: int,
    j: int,
)
    requires
        no_conflicts(keys),
        0 <= i < keys.len(),
        0 <= j < keys.len(),
        on_path(keys[i], path) && on_method(keys[i], method),
        on_path(keys[j], path) && on_method(keys[j], method),
        specificity(keys[i]) == specificity(keys[j]),
    ensures
        i == j,
{
    if i < j {
        assert(!conflict(keys[i], keys[j]));
    }
    if j < i {
        assert(!conflict(keys[j], keys[i]));
    }
}

} // verus!
