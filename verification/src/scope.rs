//! The layered scope that expression evaluation reads: a chain of
//! read-only mappings from name to evaluated text, consulted
//! innermost-first, with later bindings in a layer shadowing earlier
//! ones. The outermost layers hold environment and environment-file
//! values; inner layers hold assignments and parameter bindings.

use vstd::prelude::*;

verus! {

/// One name bound to one evaluated string.
#[derive(Debug, Clone, PartialEq, Eq)]
pub struct Binding {
    pub name: String,
    pub value: String,
}

/// A chain of mapping layers. The last layer is the innermost and is
/// consulted first.
#[derive(Debug, Clone, PartialEq, Eq)]
pub struct Scope {
    pub layers: Vec<Vec<Binding>>,
}

/// The value of `name` in one layer: the last binding of that name, so
/// that later bindings shadow earlier ones.
pub open spec fn layer_lookup(layer: Seq<Binding>, name: Seq<char>) -> Option<Seq<char>>
    decreases layer.len(),
{
    if layer.len() == 0 {
        Option::None
    } else if layer.last().name@ == name {
        Option::Some(layer.last().value@)
    } else {
        layer_lookup(layer.drop_last(), name)
    }
}

/// The value of `name` in a chain of layers, innermost (last) first.
pub open spec fn chain_lookup(layers: Seq<Vec<Binding>>, name: Seq<char>) -> Option<Seq<char>>
    decreases layers.len(),
{
    if layers.len() == 0 {
        Option::None
    } else {
        match layer_lookup(layers.last()@, name) {
            Option::Some(v) => Option::Some(v),
            Option::None => chain_lookup(layers.drop_last(), name),
        }
    }
}

/// All names visible in a chain of layers, innermost layer first, and
/// within one layer in shadowing order (latest binding first).
pub open spec fn chain_names(layers: Seq<Vec<Binding>>) -> Seq<String>
    decreases layers.len(),
{
    if layers.len() == 0 {
        Seq::<String>::empty()
    } else {
        layer_names(layers.last()@) + chain_names(layers.drop_last())
    }
}

/// The names of one layer, latest binding first.
pub open spec fn layer_names(layer: Seq<Binding>) -> Seq<String>
    decreases layer.len(),
{
    if layer.len() == 0 {
        Seq::<String>::empty()
    } else {
        seq![layer.last().name] + layer_names(layer.drop_last())
    }
}

impl Scope {
    /// The value of `name` under this scope, or nothing when no layer
    /// binds it.
    pub open spec fn lookup_spec(&self, name: Seq<char>) -> Option<Seq<char>> {
        chain_lookup(self.layers@, name)
    }

    /// An empty scope with no layers.
    pub fn empty() -> (r: Scope)
        ensures
            r.layers@.len() == 0,
    {
        Scope { layers: Vec::new() }
    }

    /// Looks `name` up innermost-first; the returned value is the one the
    /// innermost binding layer gives it.
    #[verifier::loop_isolation(false)]
    pub fn lookup(&self, name: &String) -> (r: Option<String>)
        ensures
            match self.lookup_spec(name@) {
                Option::Some(v) => r matches Option::Some(x) && x@ == v,
                Option::None => r is None,
            },
    {
        let n = self.layers.len();
        proof {
            assert(self.layers@.take(n as int) =~= self.layers@);
        }
        let mut li: usize = n;
        while li > 0
            invariant
                li <= n,
                chain_lookup(self.layers@.take(li as int), name@) == self.lookup_spec(name@),
            decreases li,
        {
            li = li - 1;
            let layer = &self.layers[li];
            proof {
                assert(self.layers@.take(li + 1).last() == self.layers@[li as int]);
                assert(self.layers@.take(li + 1).drop_last() =~= self.layers@.take(li as int));
                assert(layer@.take(layer@.len() as int) =~= layer@);
            }
            let mut bi: usize = layer.len();
            while bi > 0
                invariant
                    bi <= layer@.len(),
                    layer_lookup(layer@.take(bi as int), name@) == layer_lookup(layer@, name@),
                decreases bi,
            {
                bi = bi - 1;
                let b = &layer[bi];
                proof {
                    assert(layer@.take(bi + 1).last() == layer@[bi as int]);
                    assert(layer@.take(bi + 1).drop_last() =~= layer@.take(bi as int));
                }
                if b.name == *name {
                    proof {
                        assert(layer_lookup(layer@, name@) == Option::Some(b.value@));
                    }
                    return Option::Some(b.value.clone());
                }
            }
            proof {
                assert(layer@.take(0) =~= Seq::<Binding>::empty());
                assert(layer_lookup(layer@, name@) is None);
            }
        }
        proof {
            assert(self.layers@.take(0) =~= Seq::<Vec<Binding>>::empty());
        }
        Option::None
    }

    /// Every name visible in the scope, innermost-first, for building
    /// unknown-variable suggestions.
    #[verifier::loop_isolation(false)]
    pub fn visible_names(&self) -> (r: Vec<String>)
        ensures
            r@ == chain_names(self.layers@),
    {
        let mut out: Vec<String> = Vec::new();
        let n = self.layers.len();
        proof {
            assert(self.layers@.take(n as int) =~= self.layers@);
        }
        let mut li: usize = n;
        while li > 0
            invariant
                li <= n,
                out@ + chain_names(self.layers@.take(li as int)) == chain_names(self.layers@),
            decreases li,
        {
            li = li - 1;
            let layer = &self.layers[li];
            proof {
                assert(self.layers@.take(li + 1).last() == self.layers@[li as int]);
                assert(self.layers@.take(li + 1).drop_last() =~= self.layers@.take(li as int));
                assert(layer@.take(layer@.len() as int) =~= layer@);
            }
            let mut bi: usize = layer.len();
            while bi > 0
                invariant
                    bi <= layer@.len(),
                    out@ + layer_names(layer@.take(bi as int)) + chain_names(
                        self.layers@.take(li as int),
                    ) == chain_names(self.layers@),
                decreases bi,
            {
                bi = bi - 1;
                let b = &layer[bi];
                proof {
                    assert(layer@.take(bi + 1).last() == layer@[bi as int]);
                    assert(layer@.take(bi + 1).drop_last() =~= layer@.take(bi as int));
                }
                out.push(b.name.clone());
                proof {
                    assert(out@ + layer_names(layer@.take(bi as int)) + chain_names(
                        self.layers@.take(li as int),
                    ) =~= chain_names(self.layers@));
                }
            }
            proof {
                assert(layer@.take(0) =~= Seq::<Binding>::empty());
                assert(out@ + chain_names(self.layers@.take(li as int)) =~= chain_names(
                    self.layers@,
                ));
            }
        }
        proof {
            assert(self.layers@.take(0) =~= Seq::<Vec<Binding>>::empty());
            assert(out@ =~= chain_names(self.layers@));
        }
        out
    }
}

} // verus!
