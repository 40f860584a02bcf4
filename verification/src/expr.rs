//! The expression tree that recipe bodies, parameter defaults, and
//! dependency arguments are made of, together with its purely textual
//! properties: which expressions are literal-only, what literal text they
//! carry, and how an expression is written back out for usage lines.

use vstd::prelude::*;

verus! {

/// A tagged expression node. Concatenation keeps its parts in source
/// order so that non-interpolated text reproduces byte for byte.
#[derive(Debug, PartialEq, Eq)]
pub enum Expression {
    /// Verbatim text from the source body.
    Literal(String),
    /// A reference to a variable resolved against the scope chain.
    Variable(String),
    /// A call of a built-in function on argument expressions.
    Call { function: String, arguments: Vec<Expression> },
    /// Command substitution: the captured standard output of running the
    /// inner expression's rendered text as a shell script.
    Backtick(Box<Expression>),
    /// An ordered interleaving of literal fragments and interpolations.
    Concat(Vec<Expression>),
}

/// Whether every node of `e` is literal: no variable, call, or backtick.
pub open spec fn lit_only(e: Expression) -> bool
    decreases e,
{
    match e {
        Expression::Literal(_) => true,
        Expression::Variable(_) => false,
        Expression::Call { .. } => false,
        Expression::Backtick(_) => false,
        Expression::Concat(parts) => lit_only_upto(parts@, parts@.len() as int),
    }
}

/// Whether the first `n` parts are all literal-only.
pub open spec fn lit_only_upto(parts: Seq<Expression>, n: int) -> bool
    decreases parts, n,
{
    if n <= 0 || n > parts.len() {
        true
    } else {
        lit_only_upto(parts, n - 1) && lit_only(parts[n - 1])
    }
}

/// The text a literal-only expression denotes; empty for interpolating
/// nodes, whose value is not a function of the tree alone.
pub open spec fn lit_text(e: Expression) -> Seq<char>
    decreases e,
{
    match e {
        Expression::Literal(t) => t@,
        Expression::Concat(parts) => lit_text_upto(parts@, parts@.len() as int),
        _ => Seq::<char>::empty(),
    }
}

/// The concatenated literal text of the first `n` parts.
pub open spec fn lit_text_upto(parts: Seq<Expression>, n: int) -> Seq<char>
    decreases parts, n,
{
    if n <= 0 || n > parts.len() {
        Seq::<char>::empty()
    } else {
        lit_text_upto(parts, n - 1) + lit_text(parts[n - 1])
    }
}

/// How `e` is written back out in a usage line.
pub open spec fn unparse_spec(e: Expression) -> Seq<char>
    decreases e,
{
    match e {
        Expression::Literal(t) => "'"@ + t@ + "'"@,
        Expression::Variable(n) => n@,
        Expression::Call { function, arguments } => function@ + "("@ + unparse_args(
            arguments@,
            arguments@.len() as int,
        ) + ")"@,
        Expression::Backtick(inner) => "`"@ + unparse_spec(*inner) + "`"@,
        Expression::Concat(parts) => unparse_parts(parts@, parts@.len() as int),
    }
}

/// The first `n` call arguments written out, separated by ", ".
pub open spec fn unparse_args(args: Seq<Expression>, n: int) -> Seq<char>
    decreases args, n,
{
    if n <= 0 || n > args.len() {
        Seq::<char>::empty()
    } else if n == 1 {
        unparse_spec(args[0])
    } else {
        unparse_args(args, n - 1) + ", "@ + unparse_spec(args[n - 1])
    }
}

/// The first `n` concatenation parts written out, separated by " + ".
pub open spec fn unparse_parts(parts: Seq<Expression>, n: int) -> Seq<char>
    decreases parts, n,
{
    if n <= 0 || n > parts.len() {
        Seq::<char>::empty()
    } else if n == 1 {
        unparse_spec(parts[0])
    } else {
        unparse_parts(parts, n - 1) + " + "@ + unparse_spec(parts[n - 1])
    }
}


/// Writing out the first `n` arguments reads only those arguments.
pub proof fn lemma_unparse_args_prefix(a: Seq<Expression>, b: Seq<Expression>, n: int)
    requires
        n <= a.len(),
        n <= b.len(),
        forall|i: int| 0 <= i < n ==> a[i] == b[i],
    ensures
        unparse_args(a, n) == unparse_args(b, n),
    decreases n,
{
    if n > 0 {
        lemma_unparse_args_prefix(a, b, n - 1);
    }
}

/// Writing out the first `n` parts reads only those parts.
pub proof fn lemma_unparse_parts_prefix(a: Seq<Expression>, b: Seq<Expression>, n: int)
    requires
        n <= a.len(),
        n <= b.len(),
        forall|i: int| 0 <= i < n ==> a[i] == b[i],
    ensures
        unparse_parts(a, n) == unparse_parts(b, n),
    decreases n,
{
    if n > 0 {
        lemma_unparse_parts_prefix(a, b, n - 1);
    }
}

impl Expression {
    /// A copy of the expression tree that writes back out identically.
    pub fn duplicate(&self) -> (r: Expression)
        ensures
            unparse_spec(r) == unparse_spec(*self),
        decreases *self,
    {
        match self {
            Expression::Literal(t) => Expression::Literal(t.clone()),
            Expression::Variable(n) => Expression::Variable(n.clone()),
            Expression::Call { function, arguments } => {
                let mut args: Vec<Expression> = Vec::new();
                let mut i: usize = 0;
                while i < arguments.len()
                    invariant
                        i <= arguments@.len(),
                        *self == (Expression::Call {
                            function: *function,
                            arguments: *arguments,
                        }),
                        args@.len() == i as int,
                        unparse_args(args@, i as int) == unparse_args(arguments@, i as int),
                    decreases arguments@.len() - i,
                {
                    let e = &arguments[i];
                    proof {
                        assert(*arguments == self->Call_arguments);
                        assert(decreases_to!(*self => self->Call_arguments));
                        assert(decreases_to!(*arguments => arguments@));
                        assert(decreases_to!(arguments@ => arguments@[i as int]));
                    }
                    let ghost before = args@;
                    args.push(e.duplicate());
                    proof {
                        lemma_unparse_args_prefix(before, args@, i as int);
                        assert(unparse_args(args@, i + 1) == unparse_args(arguments@, i + 1));
                    }
                    i = i + 1;
                }
                let out = Expression::Call { function: function.clone(), arguments: args };
                proof {
                    assert(unparse_spec(out) == unparse_spec(*self));
                }
                out
            },
            Expression::Backtick(inner) => {
                proof {
                    assert(decreases_to!(*self => self->Backtick_0));
                }
                Expression::Backtick(Box::new(inner.duplicate()))
            },
            Expression::Concat(parts) => {
                let mut out: Vec<Expression> = Vec::new();
                let mut i: usize = 0;
                while i < parts.len()
                    invariant
                        i <= parts@.len(),
                        *self == Expression::Concat(*parts),
                        out@.len() == i as int,
                        unparse_parts(out@, i as int) == unparse_parts(parts@, i as int),
                    decreases parts@.len() - i,
                {
                    let e = &parts[i];
                    proof {
                        assert(*parts == self->Concat_0);
                        assert(decreases_to!(*self => self->Concat_0));
                        assert(decreases_to!(*parts => parts@));
                        assert(decreases_to!(parts@ => parts@[i as int]));
                    }
                    let ghost before = out@;
                    out.push(e.duplicate());
                    proof {
                        lemma_unparse_parts_prefix(before, out@, i as int);
                        assert(unparse_parts(out@, i + 1) == unparse_parts(parts@, i + 1));
                    }
                    i = i + 1;
                }
                let r = Expression::Concat(out);
                proof {
                    assert(unparse_spec(r) == unparse_spec(*self));
                }
                r
            },
        }
    }

    /// Writes the expression back out as source-like text, for display in
    /// usage lines.
    pub fn unparse(&self) -> (r: String)
        ensures
            r@ == unparse_spec(*self),
        decreases *self,
    {
        match self {
            Expression::Literal(t) => {
                let mut s = String::from_str("'");
                s.append(t.as_str());
                s.append("'");
                proof {
                    assert(s@ =~= unparse_spec(*self));
                }
                s
            },
            Expression::Variable(n) => {
                let s = String::from_str(n.as_str());
                s
            },
            Expression::Call { function, arguments } => {
                let mut s = String::from_str(function.as_str());
                s.append("(");
                let mut i: usize = 0;
                while i < arguments.len()
                    invariant
                        i <= arguments.len(),
                        *self == (Expression::Call {
                            function: *function,
                            arguments: *arguments,
                        }),
                        s@ == function@ + "("@ + unparse_args(arguments@, i as int),
                    decreases arguments.len() - i,
                {
                    if i > 0 {
                        s.append(", ");
                    }
                    let e = &arguments[i];
                    proof {
                        assert(*arguments == self->Call_arguments);
                        assert(decreases_to!(*self => self->Call_arguments));
                        assert(decreases_to!(*arguments => arguments@));
                        assert(decreases_to!(arguments@ => arguments@[i as int]));
                    }
                    let part = e.unparse();
                    s.append(part.as_str());
                    proof {
                        assert(s@ =~= function@ + "("@ + unparse_args(arguments@, i + 1));
                    }
                    i = i + 1;
                }
                s.append(")");
                proof {
                    assert(s@ =~= unparse_spec(*self));
                }
                s
            },
            Expression::Backtick(inner) => {
                let mut s = String::from_str("`");
                let part = inner.unparse();
                s.append(part.as_str());
                s.append("`");
                proof {
                    assert(s@ =~= unparse_spec(*self));
                }
                s
            },
            Expression::Concat(parts) => {
                let mut s = String::new();
                let mut i: usize = 0;
                while i < parts.len()
                    invariant
                        i <= parts.len(),
                        *self == Expression::Concat(*parts),
                        s@ == unparse_parts(parts@, i as int),
                    decreases parts.len() - i,
                {
                    if i > 0 {
                        s.append(" + ");
                    }
                    let e = &parts[i];
                    proof {
                        assert(*parts == self->Concat_0);
                        assert(decreases_to!(*self => self->Concat_0));
                        assert(decreases_to!(*parts => parts@));
                        assert(decreases_to!(parts@ => parts@[i as int]));
                    }
                    let part = e.unparse();
                    s.append(part.as_str());
                    proof {
                        assert(s@ =~= unparse_parts(parts@, i + 1));
                    }
                    i = i + 1;
                }
                proof {
                    assert(s@ =~= unparse_spec(*self));
                }
                s
            },
        }
    }
}

} // verus!
