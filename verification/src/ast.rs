use vstd::prelude::*;

verus! {

broadcast use vstd::std_specs::vec::group_vec_axioms;

/// The native functions that the builtin registry installs in the root
/// frame. The set is closed, so a small enum stands for the function
/// pointer that a host language would use.
#[derive(Clone, Copy, Debug, PartialEq, Eq, Structural)]
pub enum BuiltinFn {
    Plus,
    Minus,
    Times,
    Divide,
    Modulo,
    Equal,
    Less,
    Greater,
    BoolAnd,
    BoolOr,
    BoolNot,
    Car,
    Cdr,
    Random,
}

/// One tagged type stands for both syntax and runtime values.
/// A `Number` holds the bit pattern of an IEEE-754 double; all float
/// arithmetic goes through the `numerics` module.
#[derive(Debug)]
pub enum NylispExpression {
    Quote(Box<NylispExpression>),
    Symbol(String),
    Number(u64),
    Boolean(bool),
    Text(String),
    List(Vec<NylispExpression>),
    Function(BuiltinFn),
    Closure { args: Box<NylispExpression>, body: Box<NylispExpression> },
    ScopedLet { variables: Box<NylispExpression>, body: Box<NylispExpression> },
}

/// The mathematical model of an expression: strings become `Seq<char>`,
/// vectors become `Seq`, boxes disappear.
pub ghost enum ExprModel {
    Quote(Box<ExprModel>),
    Symbol(Seq<char>),
    Number(u64),
    Boolean(bool),
    Text(Seq<char>),
    List(Seq<ExprModel>),
    Function(BuiltinFn),
    Closure { args: Box<ExprModel>, body: Box<ExprModel> },
    ScopedLet { variables: Box<ExprModel>, body: Box<ExprModel> },
}

/// The model of an expression, defined structurally.
pub open spec fn expr_model(e: NylispExpression) -> ExprModel
    decreases e,
{
    match e {
        NylispExpression::Quote(q) => ExprModel::Quote(Box::new(expr_model(*q))),
        NylispExpression::Symbol(s) => ExprModel::Symbol(s.view()),
        NylispExpression::Number(n) => ExprModel::Number(n),
        NylispExpression::Boolean(b) => ExprModel::Boolean(b),
        NylispExpression::Text(s) => ExprModel::Text(s.view()),
        NylispExpression::List(l) => {
            proof {
                assert(decreases_to!(e => l));
                vstd::std_specs::vec::axiom_vec_decreases_to_view(l);
                assert(decreases_to!(e => l.view()));
            }
            ExprModel::List(exprs_model(l.view()))
        },
        NylispExpression::Function(f) => ExprModel::Function(f),
        NylispExpression::Closure { args, body } => ExprModel::Closure {
            args: Box::new(expr_model(*args)),
            body: Box::new(expr_model(*body)),
        },
        NylispExpression::ScopedLet { variables, body } => ExprModel::ScopedLet {
            variables: Box::new(expr_model(*variables)),
            body: Box::new(expr_model(*body)),
        },
    }
}

/// The models of a sequence of expressions, element by element.
pub open spec fn exprs_model(s: Seq<NylispExpression>) -> Seq<ExprModel>
    decreases s,
{
    if s.len() == 0 {
        Seq::empty()
    } else {
        proof {
            vstd::seq::axiom_seq_len_decreases(s, s.drop_last());
            vstd::seq::axiom_seq_index_decreases(s, s.len() - 1);
        }
        exprs_model(s.drop_last()).push(expr_model(s.last()))
    }
}

/// `exprs_model` maps the sequence pointwise.
pub broadcast proof fn lemma_exprs_model_index(s: Seq<NylispExpression>)
    ensures
        (#[trigger] exprs_model(s)).len() == s.len(),
        forall|i: int| 0 <= i < s.len() ==> exprs_model(s)[i] == expr_model(s[i]),
    decreases s.len(),
{
    if s.len() > 0 {
        lemma_exprs_model_index(s.drop_last());
    }
}

impl View for NylispExpression {
    type V = ExprModel;

    open spec fn view(&self) -> ExprModel {
        expr_model(*self)
    }
}

impl NylispExpression {
    /// A deep copy with the same model; shared subtrees are read-only,
    /// so a copy behaves exactly like its source.
    #[verifier::loop_isolation(false)]
    pub fn clone_expr(&self) -> (r: NylispExpression)
        ensures
            r.view() == self.view(),
        decreases self,
    {
        match self {
            NylispExpression::Quote(q) => NylispExpression::Quote(Box::new(q.clone_expr())),
            NylispExpression::Symbol(s) => NylispExpression::Symbol(s.clone()),
            NylispExpression::Number(n) => NylispExpression::Number(*n),
            NylispExpression::Boolean(b) => NylispExpression::Boolean(*b),
            NylispExpression::Text(s) => NylispExpression::Text(s.clone()),
            NylispExpression::List(l) => {
                let mut out: Vec<NylispExpression> = Vec::new();
                let mut i: usize = 0;
                while i < l.len()
                    invariant
                        i <= l.len(),
                        out.view().len() == i as int,
                        forall|k: int| 0 <= k < i ==> out[k].view() == l[k].view(),
                    decreases l.len() - i,
                {
                    proof {
                        assert(decreases_to!(*self => *l));
                        assert(decreases_to!(*l => l[i as int]));
                    }
                    out.push(l[i].clone_expr());
                    i = i + 1;
                }
                proof {
                    lemma_exprs_model_index(out.view());
                    lemma_exprs_model_index(l.view());
                    assert(exprs_model(out.view()) =~= exprs_model(l.view()));
                }
                NylispExpression::List(out)
            },
            NylispExpression::Function(f) => NylispExpression::Function(*f),
            NylispExpression::Closure { args, body } => NylispExpression::Closure {
                args: Box::new(args.clone_expr()),
                body: Box::new(body.clone_expr()),
            },
            NylispExpression::ScopedLet { variables, body } => NylispExpression::ScopedLet {
                variables: Box::new(variables.clone_expr()),
                body: Box::new(body.clone_expr()),
            },
        }
    }
}

/// The single error kind: a human-readable message.
#[derive(Clone, Debug)]
pub enum NylispError {
    Because(String),
}

impl View for NylispError {
    type V = Seq<char>;

    open spec fn view(&self) -> Seq<char> {
        match self {
            NylispError::Because(s) => s.view(),
        }
    }
}

impl NylispError {
    /// The message carried by the error.
    pub fn message(&self) -> (r: &String)
        ensures
            r.view() == self.view(),
    {
        match self {
            NylispError::Because(s) => s,
        }
    }
}

/// One scope frame: bindings in insertion order; a later entry for the
/// same name shadows an earlier one, which matches map insertion.
pub type Frame = Vec<(String, NylispExpression)>;

/// The model of one frame, built entry by entry so that later entries win.
pub open spec fn frame_model(entries: Seq<(Seq<char>, ExprModel)>) -> Map<Seq<char>, ExprModel>
    decreases entries.len(),
{
    if entries.len() == 0 {
        Map::empty()
    } else {
        frame_model(entries.drop_last()).insert(entries.last().0, entries.last().1)
    }
}

pub open spec fn frame_view(f: Frame) -> Map<Seq<char>, ExprModel> {
    frame_model(Seq::new(f.view().len(), |i: int| (f[i].0.view(), f[i].1.view())))
}

/// The chain of scope frames. The first frame is the root; the last is
/// the innermost. A child frame created for a closure call or a
/// `scoped-let` block is pushed on entry and popped on return, so the
/// chain always grows outward from the root and never cycles.
pub struct Environment {
    pub frames: Vec<Frame>,
}

impl View for Environment {
    type V = Seq<Map<Seq<char>, ExprModel>>;

    open spec fn view(&self) -> Seq<Map<Seq<char>, ExprModel>> {
        Seq::new(self.frames.view().len(), |i: int| frame_view(self.frames[i]))
    }
}

/// Lookup walks the chain from the innermost frame outward.
pub open spec fn lookup_model(env: Seq<Map<Seq<char>, ExprModel>>, key: Seq<char>) -> Option<
    ExprModel,
>
    decreases env.len(),
{
    if env.len() == 0 {
        None
    } else if env.last().contains_key(key) {
        Some(env.last()[key])
    } else {
        lookup_model(env.drop_last(), key)
    }
}

/// Scanning a frame's entries backward and stopping at the first hit
/// returns exactly what the frame's map holds.
proof fn lemma_frame_model_scan_hit(entries: Seq<(Seq<char>, ExprModel)>, key: Seq<char>, i: int)
    requires
        0 <= i < entries.len(),
        entries[i].0 == key,
        forall|j: int| i < j < entries.len() ==> entries[j].0 != key,
    ensures
        frame_model(entries).contains_key(key),
        frame_model(entries)[key] == entries[i].1,
    decreases entries.len(),
{
    if i == entries.len() - 1 {
    } else {
        assert(entries.drop_last()[i] == entries[i]);
        assert(forall|j: int|
            i < j < entries.drop_last().len() ==> entries.drop_last()[j].0 != key);
        lemma_frame_model_scan_hit(entries.drop_last(), key, i);
    }
}

/// A name that no entry carries is not in the frame's map.
proof fn lemma_frame_model_scan_miss(entries: Seq<(Seq<char>, ExprModel)>, key: Seq<char>)
    requires
        forall|j: int| 0 <= j < entries.len() ==> entries[j].0 != key,
    ensures
        !frame_model(entries).contains_key(key),
    decreases entries.len(),
{
    if entries.len() > 0 {
        assert(forall|j: int|
            0 <= j < entries.drop_last().len() ==> entries.drop_last()[j].0 != key);
        lemma_frame_model_scan_miss(entries.drop_last(), key);
    }
}

/// Look one name up in one frame, preferring the latest binding.
#[verifier::loop_isolation(false)]
fn frame_get(frame: &Frame, key: &String) -> (r: Option<NylispExpression>)
    ensures
        match r {
            Some(v) => frame_view(*frame).contains_key(key.view()) && frame_view(*frame)[key.view()]
                == v.view(),
            None => !frame_view(*frame).contains_key(key.view()),
        },
{
    let ghost entries = Seq::new(
        frame.view().len(),
        |i: int| (frame[i].0.view(), frame[i].1.view()),
    );
    let mut j: usize = frame.len();
    while j > 0
        invariant
            j <= frame.len(),
            forall|i: int| j <= i < frame.len() ==> entries[i].0 != key.view(),
        decreases j,
    {
        j = j - 1;
        if frame[j].0 == *key {
            proof {
                lemma_frame_model_scan_hit(entries, key.view(), j as int);
            }
            return Some(frame[j].1.clone_expr());
        }
    }
    proof {
        lemma_frame_model_scan_miss(entries, key.view());
    }
    None
}

/// Lookup walks the frame chain from the innermost frame passed to the
/// evaluator outward to the root, and reports a miss only when no frame
/// binds the name.
#[verifier::loop_isolation(false)]
pub fn get(key: &str, env: &Environment) -> (r: Option<NylispExpression>)
    ensures
        match r {
            Some(v) => lookup_model(env.view(), key.view()) == Some(v.view()),
            None => lookup_model(env.view(), key.view()) is None,
        },
{
    let owned = key.to_owned();
    let mut j: usize = env.frames.len();
    proof {
        assert(env.view().take(env.frames.len() as int) =~= env.view());
    }
    while j > 0
        invariant
            j <= env.frames.len(),
            lookup_model(env.view(), key.view()) == lookup_model(
                env.view().take(j as int),
                key.view(),
            ),
        decreases j,
    {
        proof {
            assert(env.view().take(j as int).last() == frame_view(env.frames[j - 1]));
            assert(env.view().take(j as int).drop_last() == env.view().take(j - 1));
        }
        j = j - 1;
        match frame_get(&env.frames[j], &owned) {
            Some(v) => {
                return Some(v);
            },
            None => {},
        }
    }
    proof {
        assert(env.view().take(0) =~= Seq::empty());
    }
    None
}

impl Environment {
    /// Bind a name in the current, innermost frame; never in an ancestor.
    pub fn insert(&mut self, name: String, value: NylispExpression)
        requires
            old(self).frames.len() > 0,
        ensures
            final(self).view() == old(self).view().update(
                old(self).view().len() - 1,
                old(self).view().last().insert(name.view(), value.view()),
            ),
    {
        let ghost oldframes = self.view();
        let mut frame = self.frames.pop().unwrap();
        let ghost oldframe = frame;
        frame.push((name, value));
        proof {
            let newentries = Seq::new(
                frame.view().len(),
                |i: int| (frame[i].0.view(), frame[i].1.view()),
            );
            let oldentries = Seq::new(
                oldframe.view().len(),
                |i: int| (oldframe[i].0.view(), oldframe[i].1.view()),
            );
            assert(newentries.drop_last() =~= oldentries);
        }
        self.frames.push(frame);
        proof {
            assert(self.view() =~= oldframes.update(
                oldframes.len() - 1,
                oldframes.last().insert(name.view(), value.view()),
            ));
        }
    }
}

} // verus!
