//! The recipe table: named, parameterized units of work with dependency
//! references and a body of lines, immutable once loaded. The planner,
//! binder and invocation layer all read this model.

use vstd::prelude::*;
use crate::expr::Expression;

verus! {

/// How a parameter consumes supplied arguments.
#[derive(Debug, Clone, PartialEq, Eq)]
pub enum ParamKind {
    /// Exactly one argument (or its default).
    Singular,
    /// A trailing parameter taking every remaining argument, at least one.
    OneOrMore,
    /// A trailing parameter taking every remaining argument, possibly none.
    ZeroOrMore,
}

/// A declared input of a recipe.
#[derive(Debug, PartialEq, Eq)]
pub struct Parameter {
    pub name: String,
    pub kind: ParamKind,
    /// Evaluated lazily, only when no argument is supplied, in a scope
    /// holding only the bindings of earlier parameters.
    pub default: Option<Expression>,
}

/// A dependency reference: the depended-on recipe's name and the argument
/// expressions to pass it, evaluated in the caller's scope.
#[derive(Debug, PartialEq, Eq)]
pub struct Dependency {
    pub recipe: String,
    pub arguments: Vec<Expression>,
}

/// One body line, with its per-line attributes.
#[derive(Debug, PartialEq, Eq)]
pub struct Line {
    pub text: Expression,
    /// Suppresses the echo of the command before running it.
    pub quiet: bool,
    /// A nonzero exit status of this line does not abort the plan.
    pub infallible: bool,
}

/// A named, parameterized unit of work.
#[derive(Debug, PartialEq, Eq)]
pub struct Recipe {
    pub name: String,
    pub parameters: Vec<Parameter>,
    pub dependencies: Vec<Dependency>,
    pub lines: Vec<Line>,
    pub quiet: bool,
    pub working_directory: Option<String>,
}

/// The table of recipes built once from parsed source. The first recipe
/// in declaration order is the default one.
#[derive(Debug, PartialEq, Eq)]
pub struct Table {
    pub recipes: Vec<Recipe>,
}

/// Whether a parameter demands a supplied argument when it has no
/// default: zero-or-more parameters never do.
pub open spec fn counts_toward_min(p: Parameter) -> bool {
    p.default is None && !(p.kind is ZeroOrMore)
}

/// How many of the first `n` parameters demand an argument.
pub open spec fn min_args_upto(params: Seq<Parameter>, n: int) -> nat
    decreases n,
{
    if n <= 0 || n > params.len() {
        0
    } else {
        min_args_upto(params, n - 1) + if counts_toward_min(params[n - 1]) {
            1nat
        } else {
            0nat
        }
    }
}

impl Recipe {
    /// The fewest supplied arguments the recipe accepts.
    pub open spec fn min_args(&self) -> nat {
        min_args_upto(self.parameters@, self.parameters@.len() as int)
    }

    /// Whether the recipe's last parameter is variadic, making the
    /// accepted argument count unbounded.
    pub open spec fn is_variadic(&self) -> bool {
        self.parameters@.len() > 0 && !(self.parameters@.last().kind is Singular)
    }

    /// The most supplied arguments the recipe accepts, meaningful only
    /// when it is not variadic.
    pub open spec fn max_args(&self) -> nat {
        self.parameters@.len() as nat
    }

    /// A variadic marker may stand only on the final parameter, and a
    /// parameter without a default may not follow one with a default,
    /// so parameters that demand an argument sit below the minimum.
    pub open spec fn wf(&self) -> bool {
        &&& forall|i: int|
            0 <= i < self.parameters@.len() - 1 ==> self.parameters@[i].kind is Singular
        &&& forall|i: int|
            0 <= i < self.parameters@.len() && (#[trigger] self.parameters@[i]).default is None
                && self.parameters@[i].kind is Singular ==> i < self.min_args()
        &&& (self.parameters@.len() > 0 && self.parameters@.last().default is None
            && self.parameters@.last().kind is OneOrMore) ==> self.min_args()
            > self.parameters@.len() - 1
    }

    /// Decides well-formedness, exactly as `wf` states it.
    #[verifier::loop_isolation(false)]
    pub fn check_wf(&self) -> (r: bool)
        ensures
            r == self.wf(),
    {
        let n = self.parameters.len();
        let min = self.count_min_args();
        let mut i: usize = 0;
        while n > 0 && i < n - 1
            invariant
                i <= n,
                forall|k: int| 0 <= k < i ==> self.parameters@[k].kind is Singular,
            decreases n - i,
        {
            let p = &self.parameters[i];
            match p.kind {
                ParamKind::Singular => {},
                _ => {
                    return false;
                },
            }
            i = i + 1;
        }
        let mut j: usize = 0;
        while j < n
            invariant
                j <= n,
                forall|k: int|
                    0 <= k < j && (#[trigger] self.parameters@[k]).default is None
                        && self.parameters@[k].kind is Singular ==> k < self.min_args(),
            decreases n - j,
        {
            let p = &self.parameters[j];
            let singular = match p.kind {
                ParamKind::Singular => true,
                _ => false,
            };
            if p.default.is_none() && singular && j >= min {
                return false;
            }
            j = j + 1;
        }
        if n > 0 {
            let last = &self.parameters[n - 1];
            let one_or_more = match last.kind {
                ParamKind::OneOrMore => true,
                _ => false,
            };
            if last.default.is_none() && one_or_more && min < n {
                return false;
            }
        }
        true
    }

    /// Counts the supplied arguments the recipe at least demands.
    pub fn count_min_args(&self) -> (r: usize)
        ensures
            r == self.min_args(),
    {
        let mut count: usize = 0;
        let mut i: usize = 0;
        let n = self.parameters.len();
        while i < n
            invariant
                i <= n,
                n == self.parameters@.len(),
                count <= i,
                count == min_args_upto(self.parameters@, i as int),
            decreases n - i,
        {
            let p = &self.parameters[i];
            let demands = match p.kind {
                ParamKind::ZeroOrMore => false,
                _ => p.default.is_none(),
            };
            if demands {
                count = count + 1;
            }
            i = i + 1;
        }
        count
    }
}

/// Whether two parameters agree in everything a usage line or an arity
/// check reads: name, kind, presence of a default, and how the default
/// writes back out.
pub open spec fn param_like(a: Parameter, b: Parameter) -> bool {
    &&& a.name@ == b.name@
    &&& a.kind == b.kind
    &&& (a.default is Some <==> b.default is Some)
    &&& crate::error::param_text(a) == crate::error::param_text(b)
}

impl Parameter {
    /// A copy of the parameter that displays identically.
    pub fn duplicate(&self) -> (r: Parameter)
        ensures
            param_like(r, *self),
    {
        Parameter {
            name: self.name.clone(),
            kind: match self.kind {
                ParamKind::Singular => ParamKind::Singular,
                ParamKind::OneOrMore => ParamKind::OneOrMore,
                ParamKind::ZeroOrMore => ParamKind::ZeroOrMore,
            },
            default: match &self.default {
                Option::Some(e) => Option::Some(e.duplicate()),
                Option::None => Option::None,
            },
        }
    }
}

/// A copy of a parameter list that displays identically, for carrying
/// into an error value.
pub fn clone_parameters(ps: &Vec<Parameter>) -> (r: Vec<Parameter>)
    ensures
        r@.len() == ps@.len(),
        forall|i: int| 0 <= i < ps@.len() ==> param_like(#[trigger] r@[i], ps@[i]),
        crate::error::params_text(r@, r@.len() as int) == crate::error::params_text(
            ps@,
            ps@.len() as int,
        ),
{
    let mut out: Vec<Parameter> = Vec::new();
    let mut i: usize = 0;
    while i < ps.len()
        invariant
            i <= ps@.len(),
            out@.len() == i as int,
            forall|j: int| 0 <= j < i ==> param_like(#[trigger] out@[j], ps@[j]),
            crate::error::params_text(out@, i as int) == crate::error::params_text(ps@, i as int),
        decreases ps@.len() - i,
    {
        let ghost before = out@;
        out.push(ps[i].duplicate());
        proof {
            crate::error::lemma_params_text_prefix(before, out@, i as int);
            assert(crate::error::params_text(out@, i + 1) == crate::error::params_text(
                ps@,
                i + 1,
            ));
        }
        i = i + 1;
    }
    out
}

impl Table {
    /// The index of the recipe named `name`.
    pub open spec fn index_of(&self, name: Seq<char>) -> int {
        choose|i: int| 0 <= i < self.recipes@.len() && self.recipes@[i].name@ == name
    }

    /// Whether some recipe carries `name`.
    pub open spec fn has_recipe(&self, name: Seq<char>) -> bool {
        exists|i: int| 0 <= i < self.recipes@.len() && self.recipes@[i].name@ == name
    }

    /// Recipe names are unique, every dependency resolves to a recipe of
    /// the table, and every recipe is itself well formed.
    pub open spec fn wf(&self) -> bool {
        &&& forall|i: int, j: int|
            0 <= i < j < self.recipes@.len() ==> self.recipes@[i].name@ != self.recipes@[j].name@
        &&& forall|i: int, d: int|
            0 <= i < self.recipes@.len() && 0 <= d < self.recipes@[i].dependencies@.len()
                ==> self.has_recipe(#[trigger] self.recipes@[i].dependencies@[d].recipe@)
        &&& forall|i: int| 0 <= i < self.recipes@.len() ==> (#[trigger] self.recipes@[i]).wf()
    }


    /// Decides well-formedness of the whole table, exactly as `wf`
    /// states it.
    #[verifier::loop_isolation(false)]
    pub fn check_wf(&self) -> (r: bool)
        ensures
            r == self.wf(),
    {
        let n = self.recipes.len();
        let mut i: usize = 0;
        while i < n
            invariant
                i <= n,
                forall|a: int, b: int|
                    0 <= a < b < n && a < i ==> self.recipes@[a].name@ != self.recipes@[b].name@,
            decreases n - i,
        {
            let mut j: usize = i + 1;
            while j < n
                invariant
                    i < j <= n,
                    forall|b: int| i < b < j ==> self.recipes@[i as int].name@ != self.recipes@[b].name@,
                decreases n - j,
            {
                if self.recipes[i].name == self.recipes[j].name {
                    return false;
                }
                j = j + 1;
            }
            i = i + 1;
        }
        let mut i: usize = 0;
        while i < n
            invariant
                i <= n,
                forall|a: int, d: int|
                    0 <= a < i && 0 <= d < self.recipes@[a].dependencies@.len()
                        ==> self.has_recipe(#[trigger] self.recipes@[a].dependencies@[d].recipe@),
                forall|a: int| 0 <= a < i ==> (#[trigger] self.recipes@[a]).wf(),
            decreases n - i,
        {
            let recipe = &self.recipes[i];
            if !recipe.check_wf() {
                return false;
            }
            let nd = recipe.dependencies.len();
            let mut d: usize = 0;
            while d < nd
                invariant
                    d <= nd,
                    nd == recipe.dependencies@.len(),
                    forall|k: int|
                        0 <= k < d ==> self.has_recipe(
                            #[trigger] recipe.dependencies@[k].recipe@,
                        ),
                decreases nd - d,
            {
                match self.find(&recipe.dependencies[d].recipe) {
                    Option::Some(_) => {},
                    Option::None => {
                        return false;
                    },
                }
                d = d + 1;
            }
            i = i + 1;
        }
        true
    }

    /// Finds the recipe named `name`.
    pub fn find(&self, name: &String) -> (r: Option<usize>)
        ensures
            match r {
                Option::Some(i) => i < self.recipes@.len() && self.recipes@[i as int].name@
                    == name@,
                Option::None => !self.has_recipe(name@),
            },
    {
        let n = self.recipes.len();
        let mut i: usize = 0;
        while i < n
            invariant
                i <= n,
                n == self.recipes@.len(),
                forall|j: int| 0 <= j < i ==> self.recipes@[j].name@ != name@,
            decreases n - i,
        {
            if self.recipes[i].name == *name {
                return Option::Some(i);
            }
            i = i + 1;
        }
        Option::None
    }
}

} // verus!
