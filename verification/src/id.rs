use vstd::prelude::*;
use crate::error::{MizeError, MizeResult, texts, copy_strings};
use crate::text::{split_spec, split_text, contains_char, chars_of, string_from_chars};

verus! {

broadcast use vstd::std_specs::vec::group_vec_axioms;

/// The namespace an item lives in.
#[derive(Debug)]
pub struct Namespace(pub String);

/// The id of an item: its path, whose first step is the store part, and the
/// namespace it lives in.
#[derive(Debug)]
pub struct MizeId {
    pub path: Vec<String>,
    pub namespace: Namespace,
}

/// The mathematical model of an id.
pub struct IdView {
    pub path: Seq<Seq<char>>,
    pub namespace: Seq<char>,
}

impl View for Namespace {
    type V = Seq<char>;

    open spec fn view(&self) -> Seq<char> {
        self.0@
    }
}

impl View for MizeId {
    type V = IdView;

    open spec fn view(&self) -> IdView {
        IdView { path: texts(self.path@), namespace: self.namespace@ }
    }
}

impl Clone for Namespace {
    fn clone(&self) -> (r: Self)
        ensures
            r@ == self@,
    {
        Namespace(self.0.clone())
    }
}

impl Clone for MizeId {
    fn clone(&self) -> (r: Self)
        ensures
            r@ == self@,
    {
        MizeId { path: copy_strings(&self.path), namespace: self.namespace.clone() }
    }
}

impl Namespace {
    pub fn as_string(&self) -> (r: String)
        ensures
            r@ == self@,
    {
        self.0.clone()
    }

    pub fn as_real_string(&self) -> (r: String)
        ensures
            r@ == self@,
    {
        self.0.clone()
    }
}

/// Whether two namespaces are the same.
pub fn namespaces_equal(a: &Namespace, b: &Namespace) -> (r: bool)
    ensures
        r == (a@ == b@),
{
    a.0 == b.0
}

/// Whether two paths are the same.
pub fn paths_equal(a: &Vec<String>, b: &Vec<String>) -> (r: bool)
    ensures
        r == (texts(a@) == texts(b@)),
{
    if a.len() != b.len() {
        return false;
    }
    let mut i: usize = 0;
    while i < a.len()
        invariant
            i <= a.len(),
            a.len() == b.len(),
            forall|j: int| 0 <= j < i ==> a@[j]@ == b@[j]@,
        decreases a.len() - i,
    {
        if a[i] != b[i] {
            assert(texts(a@)[i as int] != texts(b@)[i as int]);
            return false;
        }
        i = i + 1;
    }
    assert(texts(a@) =~= texts(b@));
    true
}

/// Whether two ids are the same.
pub fn ids_equal(a: &MizeId, b: &MizeId) -> (r: bool)
    ensures
        r == (a@ == b@),
{
    paths_equal(&a.path, &b.path) && namespaces_equal(&a.namespace, &b.namespace)
}

/// The texts of `v` joined with `sep` between them.
pub open spec fn join_spec(v: Seq<Seq<char>>, sep: Seq<char>) -> Seq<char>
    decreases v.len(),
{
    if v.len() == 0 {
        Seq::empty()
    } else if v.len() == 1 {
        v[0]
    } else {
        join_spec(v.drop_last(), sep) + sep + v.last()
    }
}

/// Joins strings with `sep` between them, as `join` on a slice of strings does.
pub fn join_strings(v: &Vec<String>, sep: &str) -> (r: String)
    ensures
        r@ == join_spec(texts(v@), sep@),
{
    let ghost t = texts(v@);
    let mut r = String::new();
    let mut i: usize = 0;
    assert(t.take(0) =~= Seq::<Seq<char>>::empty());
    while i < v.len()
        invariant
            i <= v.len(),
            t == texts(v@),
            r@ == join_spec(t.take(i as int), sep@),
        decreases v.len() - i,
    {
        proof {
            assert(t.take(i + 1).drop_last() =~= t.take(i as int));
        }
        if i > 0 {
            r.append(sep);
        }
        r.append(v[i].as_str());
        proof {
            if i == 0 {
                assert(r@ =~= t.take(1)[0]);
            }
        }
        i = i + 1;
    }
    assert(t.take(t.len() as int) =~= t);
    r
}

impl MizeId {
    /// An id has at least one step, its store part.
    pub open spec fn wf(&self) -> bool {
        self.path@.len() > 0
    }

    /// The first step of the path.
    pub fn store_part(&self) -> (r: &str)
        requires
            self.wf(),
        ensures
            r@ == self@.path[0],
    {
        self.path[0].as_str()
    }

    /// The `n`-th step of the path.
    pub fn nth_part(&self, n: usize) -> (r: MizeResult<&str>)
        ensures
            match r {
                Ok(s) => n < self@.path.len() && s@ == self@.path[n as int],
                Err(_) => n >= self@.path.len(),
            },
    {
        if n < self.path.len() {
            Ok(self.path[n].as_str())
        } else {
            Err(MizeError::new().msg("id does not have that many parts"))
        }
    }

    pub fn path(&self) -> (r: Vec<String>)
        ensures
            texts(r@) == self@.path,
    {
        copy_strings(&self.path)
    }

    pub fn namespace(&self) -> (r: Namespace)
        ensures
            r@ == self@.namespace,
    {
        self.namespace.clone()
    }

    pub fn namespace_str(&self) -> (r: &str)
        ensures
            r@ == self@.namespace,
    {
        self.namespace.0.as_str()
    }

    /// The steps of the path after the store part.
    pub fn after_store_part(&self) -> (r: Vec<String>)
        requires
            self.wf(),
        ensures
            texts(r@) == self@.path.skip(1),
    {
        let mut r: Vec<String> = Vec::new();
        let mut i: usize = 1;
        while i < self.path.len()
            invariant
                1 <= i <= self.path@.len(),
                r@.len() == i - 1,
                forall|j: int| 0 <= j < r@.len() ==> #[trigger] r@[j]@ == self.path@[j + 1]@,
            decreases self.path@.len() - i,
        {
            r.push(self.path[i].clone());
            i = i + 1;
        }
        assert(texts(r@) =~= texts(self.path@).skip(1));
        r
    }

    /// The path written with `/` between its steps, as an id is displayed.
    pub fn to_text(&self) -> (r: String)
        ensures
            r@ == join_spec(self@.path, "/"@),
    {
        join_strings(&self.path, "/")
    }
}

/// The non-empty texts of `v`, in order.
pub open spec fn non_empty(v: Seq<Seq<char>>) -> Seq<Seq<char>>
    decreases v.len(),
{
    if v.len() == 0 {
        v
    } else if v.last().len() == 0 {
        non_empty(v.drop_last())
    } else {
        non_empty(v.drop_last()).push(v.last())
    }
}

/// The id that a path gives in namespace `ns`: a first step `namespace:store`
/// names its namespace and store part; otherwise the id is in `ns`.  `None`
/// for an empty path, or a first step with `:` and nothing after it to split.
pub open spec fn id_from_steps_spec(v: Seq<Seq<char>>, ns: Seq<char>) -> Option<IdView> {
    if v.len() == 0 {
        None
    } else if v[0].contains(':') {
        let parts = split_spec(v[0], ':');
        if parts.len() < 2 {
            None
        } else {
            Some(IdView { path: v.update(0, parts[1]), namespace: parts[0] })
        }
    } else {
        Some(IdView { path: v, namespace: ns })
    }
}

/// The id that a text gives in namespace `ns`: its `/`-separated non-empty
/// steps (see `id_from_steps_spec`).
pub open spec fn id_from_text_spec(s: Seq<char>, ns: Seq<char>) -> Option<IdView> {
    id_from_steps_spec(non_empty(split_spec(s, '/')), ns)
}

/// Reads an id from its steps in namespace `ns` (see `id_from_steps_spec`).
pub fn id_from_vec_string(vec_string: Vec<String>, ns: &Namespace) -> (r: MizeResult<MizeId>)
    ensures
        match r {
            Ok(id) => id_from_steps_spec(texts(vec_string@), ns@) == Some(id@) && id.wf(),
            Err(_) => id_from_steps_spec(texts(vec_string@), ns@) is None,
        },
{
    let mut vec_string = vec_string;
    if vec_string.len() == 0 {
        return Err(MizeError::new().msg("MizeId was empty"));
    }
    if contains_char(vec_string[0].as_str(), ':') {
        let parts = split_text(vec_string[0].as_str(), ':');
        if parts.len() < 2 {
            return Err(MizeError::new().msg("mizeid was like 'namespace:', there is no store part"));
        }
        let ns_part = parts[0].clone();
        let store_part = parts[1].clone();
        let ghost before = vec_string@;
        vec_string.set(0, store_part);
        assert(texts(vec_string@) =~= texts(before).update(0, parts@[1]@));
        Ok(MizeId { path: vec_string, namespace: Namespace(ns_part) })
    } else {
        Ok(MizeId { path: vec_string, namespace: ns.clone() })
    }
}

/// Reads an id from a `/`-separated text in namespace `ns` (see `id_from_text_spec`).
pub fn id_from_string(string: &str, ns: &Namespace) -> (r: MizeResult<MizeId>)
    ensures
        match r {
            Ok(id) => id_from_text_spec(string@, ns@) == Some(id@) && id.wf(),
            Err(_) => id_from_text_spec(string@, ns@) is None,
        },
{
    let pieces = split_text(string, '/');
    let ghost ps = split_spec(string@, '/');
    let mut kept: Vec<String> = Vec::new();
    let mut i: usize = 0;
    assert(ps.take(0) =~= Seq::<Seq<char>>::empty());
    while i < pieces.len()
        invariant
            i <= pieces@.len(),
            pieces@.len() == ps.len(),
            ps == split_spec(string@, '/'),
            forall|j: int| 0 <= j < pieces@.len() ==> #[trigger] pieces@[j]@ == ps[j],
            texts(kept@) == non_empty(ps.take(i as int)),
        decreases pieces@.len() - i,
    {
        proof {
            assert(ps.take(i + 1).drop_last() =~= ps.take(i as int));
        }
        if !pieces[i].as_str().is_empty() {
            let ghost before = kept@;
            kept.push(pieces[i].clone());
            assert(texts(kept@) =~= texts(before).push(ps[i as int]));
        }
        i = i + 1;
    }
    assert(ps.take(ps.len() as int) =~= ps);
    id_from_vec_string(kept, ns)
}

} // verus!
