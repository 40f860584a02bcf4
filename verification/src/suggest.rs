//! Nearest-match suggestions: when a referenced name is unknown, the
//! closest known name by edit distance is proposed, provided it is close
//! enough to be a plausible misspelling.

use vstd::prelude::*;
use crate::error::Suggestion;
use crate::outside::{edist, name_distance};

verus! {

/// How far a known name may be from the unknown one and still be
/// offered.
pub open spec fn close_enough(d: nat) -> bool {
    d <= 2
}

/// The first index among the first `n` names achieving the least edit
/// distance to `target`, with that distance.
pub open spec fn best_upto(names: Seq<String>, target: Seq<char>, n: int) -> Option<(int, nat)>
    decreases n,
{
    if n <= 0 || n > names.len() {
        Option::None
    } else {
        let d = edist(names[n - 1]@, target);
        match best_upto(names, target, n - 1) {
            Option::None => Option::Some((n - 1, d)),
            Option::Some((bi, bd)) => if d < bd {
                Option::Some((n - 1, d))
            } else {
                Option::Some((bi, bd))
            },
        }
    }
}

/// The suggestion offered for `target` against `names`: the first name
/// at the least edit distance, when that distance is small enough.
pub open spec fn suggestion_for(names: Seq<String>, target: Seq<char>) -> Option<Suggestion> {
    match best_upto(names, target, names.len() as int) {
        Option::Some((bi, bd)) => if close_enough(bd) {
            Option::Some(Suggestion { name: names[bi] })
        } else {
            Option::None
        },
        Option::None => Option::None,
    }
}

/// Picks the known name nearest to `target`, exactly as
/// `suggestion_for` states.
#[verifier::loop_isolation(false)]
pub fn suggest(target: &str, names: &Vec<String>) -> (r: Option<Suggestion>)
    ensures
        r == suggestion_for(names@, target@),
{
    let mut best_index: usize = 0;
    let mut best_distance: usize = 0;
    let mut found = false;
    let mut i: usize = 0;
    while i < names.len()
        invariant
            i <= names@.len(),
            !found ==> i == 0,
            found ==> best_index < i,
            found ==> best_upto(names@, target@, i as int) == Option::Some(
                (best_index as int, best_distance as nat),
            ),
            !found ==> best_upto(names@, target@, i as int) is None,
        decreases names@.len() - i,
    {
        let d = name_distance(names[i].as_str(), target);
        if !found || d < best_distance {
            best_index = i;
            best_distance = d;
            found = true;
        }
        i = i + 1;
    }
    if found && best_distance <= 2 {
        Option::Some(Suggestion { name: names[best_index].clone() })
    } else {
        Option::None
    }
}

} // verus!
