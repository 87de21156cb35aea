use vstd::prelude::*;
use crate::expr::{Error, Expr, Proc};

verus! {

/// One frame of bindings; a later entry shadows an earlier one of the same name.
pub open spec fn frame_map<V>(f: Seq<(String, V)>) -> Map<Seq<char>, V>
    decreases f.len(),
{
    if f.len() == 0 {
        Map::empty()
    } else {
        frame_map(f.drop_last()).insert(f.last().0@, f.last().1)
    }
}

/// The binding of `k` in a chain of frames, searched from the last
/// (innermost) frame to the first (global) one.
pub open spec fn scope_find<V>(s: Seq<Map<Seq<char>, V>>, k: Seq<char>) -> Option<V>
    decreases s.len(),
{
    if s.len() == 0 {
        None
    } else if s.last().contains_key(k) {
        Some(s.last()[k])
    } else {
        scope_find(s.drop_last(), k)
    }
}

/// Bind `k` to `v` in the innermost frame of a chain.
pub open spec fn scope_bind<V>(s: Seq<Map<Seq<char>, V>>, k: Seq<char>, v: V) -> Seq<
    Map<Seq<char>, V>,
> {
    s.update(s.len() - 1, s.last().insert(k, v))
}

/// The two namespaces of an environment. Each is a chain of frames whose
/// first frame holds the global bindings.
pub struct EnvModel {
    pub vars: Seq<Map<Seq<char>, Expr>>,
    pub funs: Seq<Map<Seq<char>, Proc>>,
}

impl EnvModel {
    pub open spec fn find(self, k: Seq<char>) -> Option<Expr> {
        scope_find(self.vars, k)
    }

    pub open spec fn ffind(self, k: Seq<char>) -> Option<Proc> {
        scope_find(self.funs, k)
    }

    /// Number of local frames above the global one.
    pub open spec fn depth(self) -> int {
        self.vars.len() - 1
    }

    pub open spec fn wf(self) -> bool {
        self.vars.len() >= 1 && self.funs.len() == self.vars.len()
    }

    pub open spec fn pushed(self) -> EnvModel {
        EnvModel { vars: self.vars.push(Map::empty()), funs: self.funs.push(Map::empty()) }
    }

    pub open spec fn popped(self) -> EnvModel {
        if self.vars.len() > 1 {
            EnvModel { vars: self.vars.drop_last(), funs: self.funs.drop_last() }
        } else {
            self
        }
    }

    pub open spec fn registered(self, k: Seq<char>, v: Expr) -> EnvModel {
        EnvModel { vars: scope_bind(self.vars, k, v), funs: self.funs }
    }

    pub open spec fn fregistered(self, k: Seq<char>, p: Proc) -> EnvModel {
        EnvModel { vars: self.vars, funs: scope_bind(self.funs, k, p) }
    }
}

/// The evaluation environment: a value namespace and a function namespace,
/// each a global frame plus a stack of local frames.
pub struct Env {
    vars: Vec<Vec<(String, Expr)>>,
    funs: Vec<Vec<(String, Proc)>>,
}

impl View for Env {
    type V = EnvModel;

    closed spec fn view(&self) -> EnvModel {
        EnvModel {
            vars: Seq::new(self.vars@.len(), |i: int| frame_map(self.vars@[i]@)),
            funs: Seq::new(self.funs@.len(), |i: int| frame_map(self.funs@[i]@)),
        }
    }
}

fn frame_find<'a, V>(f: &'a Vec<(String, V)>, k: &String, n: usize) -> (r: Option<&'a V>)
    requires
        n <= f@.len(),
    ensures
        r is Some <==> frame_map(f@.subrange(0, n as int)).contains_key(k@),
        r is Some ==> *r->Some_0 == frame_map(f@.subrange(0, n as int))[k@],
    decreases n,
{
    if n == 0 {
        None
    } else {
        assert(f@.subrange(0, n as int).drop_last() =~= f@.subrange(0, n - 1));
        if f[n - 1].0 == *k {
            Some(&f[n - 1].1)
        } else {
            frame_find(f, k, n - 1)
        }
    }
}

fn chain_find<'a, V>(s: &'a Vec<Vec<(String, V)>>, k: &String, n: usize) -> (r: Option<&'a V>)
    requires
        n <= s@.len(),
    ensures
        r is Some <==> scope_find(Seq::new(n as nat, |i: int| frame_map(s@[i]@)), k@) is Some,
        r is Some ==> *r->Some_0 == scope_find(
            Seq::new(n as nat, |i: int| frame_map(s@[i]@)),
            k@,
        )->Some_0,
    decreases n,
{
    let ghost chain = Seq::new(n as nat, |i: int| frame_map(s@[i]@));
    if n == 0 {
        None
    } else {
        let f = &s[n - 1];
        assert(f@.subrange(0, f@.len() as int) =~= f@);
        let found = frame_find(f, k, f.len());
        assert(chain.drop_last() =~= Seq::new((n - 1) as nat, |i: int| frame_map(s@[i]@)));
        match found {
            Some(v) => Some(v),
            None => chain_find(s, k, n - 1),
        }
    }
}

/// Replacing the last entry of a name gives the frame with that name
/// rebound.
proof fn lemma_frame_replace<V>(f: Seq<(String, V)>, i: int, e: (String, V))
    requires
        0 <= i < f.len(),
        f[i].0@ == e.0@,
        forall|j: int| i < j < f.len() ==> (#[trigger] f[j]).0@ != e.0@,
    ensures
        frame_map(f.update(i, e)) == frame_map(f).insert(e.0@, e.1),
    decreases f.len(),
{
    let g = f.update(i, e);
    if i == f.len() - 1 {
        assert(g.drop_last() =~= f.drop_last());
        assert(frame_map(g) =~= frame_map(f).insert(e.0@, e.1));
    } else {
        assert(g.drop_last() =~= f.drop_last().update(i, e));
        lemma_frame_replace(f.drop_last(), i, e);
        assert(frame_map(g) =~= frame_map(f).insert(e.0@, e.1));
    }
}

/// The index of the last entry of `f` named `k`, if any.
fn last_index<V>(f: &Vec<(String, V)>, k: &String) -> (r: Option<usize>)
    ensures
        r is Some ==> r->Some_0 < f@.len() && f@[r->Some_0 as int].0@ == k@ && forall|j: int|
            r->Some_0 < j < f@.len() ==> (#[trigger] f@[j]).0@ != k@,
        r is None ==> forall|j: int| 0 <= j < f@.len() ==> (#[trigger] f@[j]).0@ != k@,
{
    let mut i = f.len();
    while i > 0
        invariant
            i <= f@.len(),
            forall|j: int| i <= j < f@.len() ==> (#[trigger] f@[j]).0@ != k@,
        decreases i,
    {
        if f[i - 1].0 == *k {
            return Some(i - 1);
        }
        i = i - 1;
    }
    None
}

fn frame_push<V>(s: &mut Vec<Vec<(String, V)>>, k: String, v: V)
    requires
        old(s)@.len() >= 1,
    ensures
        final(s)@.len() == old(s)@.len(),
        Seq::new(final(s)@.len(), |i: int| frame_map(final(s)@[i]@)) == scope_bind(
            Seq::new(old(s)@.len(), |i: int| frame_map(old(s)@[i]@)),
            k@,
            v,
        ),
{
    let last = s.len() - 1;
    let mut f = s.remove(last);
    let ghost kv = k@;
    let ghost f0 = f@;
    match last_index(&f, &k) {
        Some(i) => {
            let ghost e = (k, v);
            f.set(i, (k, v));
            proof {
                lemma_frame_replace(f0, i as int, e);
                assert(f@ == f0.update(i as int, e));
            }
        },
        None => {
            f.push((k, v));
            assert(f@.drop_last() =~= f0);
        },
    }
    assert(frame_map(f@) == frame_map(old(s)@[last as int]@).insert(kv, v));
    s.push(f);
    assert(Seq::new(s@.len(), |i: int| frame_map(s@[i]@)) =~= scope_bind(
        Seq::new(old(s)@.len(), |i: int| frame_map(old(s)@[i]@)),
        kv,
        v,
    ));
}

impl Env {
    pub open spec fn wf(&self) -> bool {
        self@.wf()
    }

    /// An environment with empty global frames and no local frame.
    pub fn new() -> (r: Env)
        ensures
            r.wf(),
            r@.depth() == 0,
            r@.vars[0] == Map::<Seq<char>, Expr>::empty(),
            r@.funs[0] == Map::<Seq<char>, Proc>::empty(),
    {
        let mut vars: Vec<Vec<(String, Expr)>> = Vec::new();
        vars.push(Vec::new());
        let mut funs: Vec<Vec<(String, Proc)>> = Vec::new();
        funs.push(Vec::new());
        let r = Env { vars, funs };
        assert(r@.vars[0] == frame_map(Seq::<(String, Expr)>::empty()));
        assert(r@.funs[0] == frame_map(Seq::<(String, Proc)>::empty()));
        r
    }

    /// Push a fresh local frame on both namespaces.
    pub fn new_local(&mut self)
        requires
            old(self).wf(),
        ensures
            final(self).wf(),
            final(self)@ == old(self)@.pushed(),
    {
        self.vars.push(Vec::new());
        self.funs.push(Vec::new());
        assert(self@.vars =~= old(self)@.vars.push(Map::empty()));
        assert(self@.funs =~= old(self)@.funs.push(Map::empty()));
    }

    /// Pop the innermost local frame of both namespaces, if there is one.
    pub fn end_local(&mut self)
        requires
            old(self).wf(),
        ensures
            final(self).wf(),
            final(self)@ == old(self)@.popped(),
    {
        if self.vars.len() > 1 {
            self.vars.pop();
            self.funs.pop();
            assert(self@.vars =~= old(self)@.vars.drop_last());
            assert(self@.funs =~= old(self)@.funs.drop_last());
        }
    }

    /// Bind a value in the innermost frame (the global one when no local
    /// frame is open).
    pub fn register(&mut self, name: String, value: Expr)
        requires
            old(self).wf(),
        ensures
            final(self).wf(),
            final(self)@ == old(self)@.registered(name@, value),
    {
        frame_push(&mut self.vars, name, value);
    }

    /// Bind a procedure in the innermost function frame.
    pub fn fregister(&mut self, name: String, value: Proc)
        requires
            old(self).wf(),
        ensures
            final(self).wf(),
            final(self)@ == old(self)@.fregistered(name@, value),
    {
        frame_push(&mut self.funs, name, value);
    }

    /// The value bound to `name`, innermost frame first.
    pub fn find(&self, name: &String) -> (r: Result<&Expr, Error>)
        requires
            self.wf(),
        ensures
            self@.find(name@) is Some ==> r is Ok && *r->Ok_0 == self@.find(name@)->Some_0,
            self@.find(name@) is None ==> r is Err && r->Err_0 == Error::Unbound(*name),
    {
        match chain_find(&self.vars, name, self.vars.len()) {
            Some(v) => Ok(v),
            None => Err(Error::Unbound(name.clone())),
        }
    }

    /// The procedure bound to `name`, innermost frame first.
    pub fn ffind(&self, name: &String) -> (r: Result<&Proc, Error>)
        requires
            self.wf(),
        ensures
            self@.ffind(name@) is Some ==> r is Ok && *r->Ok_0 == self@.ffind(name@)->Some_0,
            self@.ffind(name@) is None ==> r is Err && r->Err_0 == Error::Unbound(*name),
    {
        match chain_find(&self.funs, name, self.funs.len()) {
            Some(v) => Ok(v),
            None => Err(Error::Unbound(name.clone())),
        }
    }
}

} // verus!
