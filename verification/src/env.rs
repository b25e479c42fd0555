//! Frames of bindings, held in an arena and chained by index for lexical
//! scoping.
use vstd::prelude::*;
use crate::types::{clone_expr, Atom, Builtin, Expr, Value};

verus! {

/// The bit pattern of the double nearest to the circle constant.
pub const PI_BITS: u64 = 0x400921FB54442D18;

/// One frame, mathematically: its bindings and the frame it defers to.
pub struct FrameView {
    pub vars: Map<Seq<char>, Value>,
    pub outer: Option<nat>,
}

/// All frames, by index.
pub type Store = Seq<FrameView>;

/// Every frame defers to a frame made before it, so no chain has a cycle.
pub open spec fn chained(s: Store) -> bool {
    forall|i: int|
        0 <= i < s.len() ==> match (#[trigger] s[i]).outer {
            Some(j) => j < i,
            None => true,
        }
}

/// The value of `name` seen from frame `f`: the nearest binding on the chain
/// of outer frames, or nothing where no frame of the chain binds it.
pub open spec fn lookup(s: Store, f: nat, name: Seq<char>) -> Option<Value>
    decreases f,
{
    if f >= s.len() {
        None
    } else if s[f as int].vars.contains_key(name) {
        Some(s[f as int].vars[name])
    } else {
        match s[f as int].outer {
            Some(j) => if j < f {
                lookup(s, j, name)
            } else {
                None
            },
            None => None,
        }
    }
}

/// The store after `name` is bound to `v` in frame `f` alone.
pub open spec fn bind(s: Store, f: nat, name: Seq<char>, v: Value) -> Store {
    s.update(f as int, FrameView { vars: s[f as int].vars.insert(name, v), outer: s[f as int].outer })
}

/// The store with a fresh, empty frame that defers to `outer`.
pub open spec fn with_child(s: Store, outer: nat) -> Store {
    s.push(FrameView { vars: Map::empty(), outer: Some(outer) })
}

/// The bindings present at startup.
pub open spec fn global_vars() -> Map<Seq<char>, Value> {
    Map::<Seq<char>, Value>::empty().insert("pi"@, Value::Number(PI_BITS)).insert(
        "begin"@,
        Value::Builtin(Builtin::Begin),
    ).insert("define"@, Value::Builtin(Builtin::Define)).insert(
        "if"@,
        Value::Builtin(Builtin::If),
    ).insert("*"@, Value::Builtin(Builtin::Times)).insert(
        "-"@,
        Value::Builtin(Builtin::Sub),
    ).insert("="@, Value::Builtin(Builtin::Eq)).insert(
        "lambda"@,
        Value::Builtin(Builtin::Lambda),
    ).insert("quote"@, Value::Builtin(Builtin::Quote))
}

/// The store at startup: the global frame alone.
pub open spec fn global_store() -> Store {
    seq![FrameView { vars: global_vars(), outer: None }]
}

/// The bindings that the first `n` entries of a frame give, later entries
/// winning.
pub open spec fn vars_upto(names: Seq<String>, values: Seq<Expr>, n: nat) -> Map<Seq<char>, Value>
    decreases n,
{
    if n == 0 {
        Map::empty()
    } else {
        vars_upto(names, values, (n - 1) as nat).insert(names[n - 1]@, values[n - 1]@)
    }
}

proof fn lemma_vars_absent(names: Seq<String>, values: Seq<Expr>, n: nat, k: Seq<char>)
    requires
        n <= names.len(),
        forall|j: int| 0 <= j < n ==> names[j]@ != k,
    ensures
        !vars_upto(names, values, n).contains_key(k),
    decreases n,
{
    if n > 0 {
        lemma_vars_absent(names, values, (n - 1) as nat, k);
    }
}

proof fn lemma_vars_last(names: Seq<String>, values: Seq<Expr>, n: nat, i: int, k: Seq<char>)
    requires
        0 <= i < n <= names.len(),
        names[i]@ == k,
        forall|j: int| i < j < n ==> names[j]@ != k,
    ensures
        vars_upto(names, values, n).contains_key(k),
        vars_upto(names, values, n)[k] == values[i]@,
    decreases n,
{
    if n > i + 1 {
        lemma_vars_last(names, values, (n - 1) as nat, i, k);
    }
}

proof fn lemma_vars_prefix(
    names: Seq<String>,
    values: Seq<Expr>,
    names2: Seq<String>,
    values2: Seq<Expr>,
    n: nat,
)
    requires
        forall|j: int| 0 <= j < n ==> names[j]@ == names2[j]@ && values[j]@ == values2[j]@,
    ensures
        vars_upto(names, values, n) == vars_upto(names2, values2, n),
    decreases n,
{
    if n > 0 {
        lemma_vars_prefix(names, values, names2, values2, (n - 1) as nat);
    }
}

proof fn lemma_vars_overwrite(
    names: Seq<String>,
    values: Seq<Expr>,
    values2: Seq<Expr>,
    n: nat,
    i: int,
    k: Seq<char>,
)
    requires
        0 <= i < n <= names.len(),
        names[i]@ == k,
        forall|j: int| i < j < n ==> names[j]@ != k,
        forall|j: int| 0 <= j < n && j != i ==> values[j]@ == values2[j]@,
    ensures
        vars_upto(names, values2, n) == vars_upto(names, values, n).insert(k, values2[i]@),
    decreases n,
{
    let before = vars_upto(names, values, (n - 1) as nat);
    if n > i + 1 {
        lemma_vars_overwrite(names, values, values2, (n - 1) as nat, i, k);
        assert(before.insert(k, values2[i]@).insert(names[n - 1]@, values[n - 1]@)
            =~= before.insert(names[n - 1]@, values[n - 1]@).insert(k, values2[i]@));
    } else {
        lemma_vars_prefix(names, values, names, values2, (n - 1) as nat);
        assert(before.insert(k, values2[i]@) =~= before.insert(k, values[i]@).insert(
            k,
            values2[i]@,
        ));
    }
}

/// One frame: names and their values side by side, and the outer frame.
#[derive(Debug)]
pub struct Frame {
    names: Vec<String>,
    values: Vec<Expr>,
    outer: Option<usize>,
}

impl Frame {
    /// Every name has its value beside it.
    pub closed spec fn aligned(&self) -> bool {
        self.names.len() == self.values.len()
    }

    /// The bindings of this frame, a later entry of a name winning, and the
    /// frame it defers to.
    pub closed spec fn view(&self) -> FrameView {
        FrameView {
            vars: vars_upto(self.names@, self.values@, self.names.len() as nat),
            outer: match self.outer {
                Some(j) => Some(j as nat),
                None => None,
            },
        }
    }

    /// An empty frame.
    pub fn new(outer: Option<usize>) -> (r: Frame)
        ensures
            r.aligned(),
            r@.vars == Map::<Seq<char>, Value>::empty(),
            r@.outer == match outer {
                Some(j) => Some(j as nat),
                None => None,
            },
    {
        Frame { names: Vec::new(), values: Vec::new(), outer }
    }

    /// The outer frame's index.
    pub fn outer(&self) -> (r: Option<usize>)
        ensures
            self@.outer == match r {
                Some(j) => Some(j as nat),
                None => None,
            },
    {
        self.outer
    }

    fn find(&self, k: &String) -> (r: Option<usize>)
        requires
            self.aligned(),
        ensures
            match r {
                Some(i) => i < self.values.len() && self@.vars.contains_key(k@)
                    && self@.vars[k@] == self.values[i as int]@ && self.names[i as int]@ == k@
                    && forall|j: int| i < j < self.names.len() ==> self.names[j]@ != k@,
                None => !self@.vars.contains_key(k@),
            },
    {
        let mut i: usize = self.names.len();
        while i > 0
            invariant
                i <= self.names.len(),
                self.aligned(),
                forall|j: int| i <= j < self.names.len() ==> self.names[j]@ != k@,
            decreases i,
        {
            i -= 1;
            if self.names[i] == *k {
                proof {
                    lemma_vars_last(
                        self.names@,
                        self.values@,
                        self.names.len() as nat,
                        i as int,
                        k@,
                    );
                }
                return Some(i);
            }
        }
        proof {
            lemma_vars_absent(self.names@, self.values@, self.names.len() as nat, k@);
        }
        None
    }

    /// The value bound to `k` in this frame.
    pub fn get(&self, k: &String) -> (r: Option<Expr>)
        requires
            self.aligned(),
        ensures
            match r {
                Some(v) => self@.vars.contains_key(k@) && self@.vars[k@] == v@,
                None => !self@.vars.contains_key(k@),
            },
    {
        match self.find(k) {
            Some(i) => Some(clone_expr(&self.values[i])),
            None => None,
        }
    }

    /// Binds `k` to `v` here, and returns what `k` was bound to here before.
    pub fn insert(&mut self, k: String, v: Expr) -> (r: Option<Expr>)
        requires
            old(self).aligned(),
        ensures
            final(self).aligned(),
            final(self)@.vars == old(self)@.vars.insert(k@, v@),
            final(self)@.outer == old(self)@.outer,
            match r {
                Some(p) => old(self)@.vars.contains_key(k@) && old(self)@.vars[k@] == p@,
                None => !old(self)@.vars.contains_key(k@),
            },
    {
        let ghost names0 = self.names@;
        let ghost values0 = self.values@;
        match self.find(&k) {
            Some(i) => {
                let prev = clone_expr(&self.values[i]);
                self.values.set(i, v);
                proof {
                    lemma_vars_overwrite(
                        names0,
                        values0,
                        self.values@,
                        names0.len(),
                        i as int,
                        k@,
                    );
                }
                Some(prev)
            },
            None => {
                self.names.push(k);
                self.values.push(v);
                proof {
                    lemma_vars_prefix(names0, values0, self.names@, self.values@, names0.len());
                }
                None
            },
        }
    }
}

/// The arena of frames. Frame 0 is the global frame; a frame is named by its
/// index, which stays valid for as long as the arena lives.
#[derive(Debug)]
pub struct Env {
    frames: Vec<Frame>,
}

impl Env {
    /// The frames' views, by index.
    pub closed spec fn view(&self) -> Store {
        Seq::new(self.frames.len() as nat, |i: int| self.frames[i]@)
    }

    /// The arena holds the global frame, and its chains have no cycle.
    pub closed spec fn wf(&self) -> bool {
        &&& self.frames.len() >= 1
        &&& chained(self@)
        &&& forall|i: int| 0 <= i < self.frames.len() ==> (#[trigger] self.frames[i]).aligned()
    }

    /// What a well-formed arena gives to those who cannot see inside it.
    pub proof fn lemma_wf(&self)
        requires
            self.wf(),
        ensures
            self@.len() >= 1,
            chained(self@),
    {
    }

    /// An arena that holds one empty global frame.
    pub fn new() -> (r: Env)
        ensures
            r.wf(),
            r@ == seq![FrameView { vars: Map::<Seq<char>, Value>::empty(), outer: None }],
    {
        let mut frames: Vec<Frame> = Vec::new();
        frames.push(Frame::new(None));
        let r = Env { frames };
        assert(r@ =~= seq![FrameView { vars: Map::<Seq<char>, Value>::empty(), outer: None }]);
        r
    }

    /// How many frames there are.
    pub fn len(&self) -> (n: usize)
        ensures
            n == self@.len(),
    {
        self.frames.len()
    }

    /// Adds an empty frame that defers to `outer`, and returns its index.
    pub fn child(&mut self, outer: usize) -> (r: usize)
        requires
            old(self).wf(),
            outer < old(self)@.len(),
        ensures
            final(self).wf(),
            final(self)@ == with_child(old(self)@, outer as nat),
            r == old(self)@.len(),
    {
        let r = self.frames.len();
        self.frames.push(Frame::new(Some(outer)));
        assert(self@ =~= with_child(old(self)@, outer as nat));
        r
    }

    /// The value of `k` seen from `frame`: the nearest binding on its chain.
    pub fn get(&self, frame: usize, k: &String) -> (r: Option<Expr>)
        requires
            self.wf(),
        ensures
            match r {
                Some(v) => lookup(self@, frame as nat, k@) == Some(v@),
                None => lookup(self@, frame as nat, k@) == None::<Value>,
            },
    {
        if frame >= self.frames.len() {
            return None;
        }
        let mut f: usize = frame;
        loop
            invariant
                self.wf(),
                f < self.frames.len(),
                lookup(self@, f as nat, k@) == lookup(self@, frame as nat, k@),
            decreases f,
        {
            match self.frames[f].get(k) {
                Some(v) => {
                    return Some(v);
                },
                None => {
                    assert(self@[f as int] == self.frames[f as int]@);
                    match self.frames[f].outer() {
                        Some(j) => {
                            f = j;
                        },
                        None => {
                            return None;
                        },
                    }
                },
            }
        }
    }

    /// Binds `k` to `v` in `frame` alone, whatever outer frames hold, and
    /// returns what `k` was bound to in that frame before.
    pub fn insert(&mut self, frame: usize, k: String, v: Expr) -> (r: Option<Expr>)
        requires
            old(self).wf(),
            frame < old(self)@.len(),
        ensures
            final(self).wf(),
            final(self)@ == bind(old(self)@, frame as nat, k@, v@),
            match r {
                Some(p) => old(self)@[frame as int].vars.contains_key(k@) && old(
                    self,
                )@[frame as int].vars[k@] == p@,
                None => !old(self)@[frame as int].vars.contains_key(k@),
            },
    {
        let mut fr = Frame::new(None);
        self.frames.set_and_swap(frame, &mut fr);
        let r = fr.insert(k, v);
        self.frames.set_and_swap(frame, &mut fr);
        assert(self@ =~= bind(old(self)@, frame as nat, k@, v@));
        r
    }
}

/// The arena at startup: the global frame with the built-in forms and the
/// circle constant.
pub fn global_env() -> (r: Env)
    ensures
        r.wf(),
        r@ == global_store(),
{
    let mut env = Env::new();
    env.insert(0, "pi".to_owned(), Expr::Atom(Atom::Number(PI_BITS)));
    env.insert(0, "begin".to_owned(), Expr::Builtin(Builtin::Begin));
    env.insert(0, "define".to_owned(), Expr::Builtin(Builtin::Define));
    env.insert(0, "if".to_owned(), Expr::Builtin(Builtin::If));
    env.insert(0, "*".to_owned(), Expr::Builtin(Builtin::Times));
    env.insert(0, "-".to_owned(), Expr::Builtin(Builtin::Sub));
    env.insert(0, "=".to_owned(), Expr::Builtin(Builtin::Eq));
    env.insert(0, "lambda".to_owned(), Expr::Builtin(Builtin::Lambda));
    env.insert(0, "quote".to_owned(), Expr::Builtin(Builtin::Quote));
    assert(env@ =~= global_store());
    env
}

} // verus!
