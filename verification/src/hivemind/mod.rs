//! Peer consultation between the workers of a wave.
pub mod protocol;

use vstd::prelude::*;
use crate::text::{
    chars_of, char_index, find_char_from, slice_chars, starts_with, starts_with_chars, chars_eq,
    first_where, lemma_first_where_is, lemma_first_where_props, lemma_char_index,
};

verus! {

/// The pool of candidate responders is empty.
#[derive(Debug, Clone, Copy, PartialEq, Eq, Structural)]
pub struct NoCandidatesInWave;

/// The provider part of a worker name: the text before its first `-`.
pub open spec fn provider_prefix(s: Seq<char>) -> Seq<char> {
    let k = char_index(s, '-');
    if k < 0 {
        s
    } else {
        s.take(k)
    }
}

/// The texts of a list of strings.
pub open spec fn names(pool: Seq<String>) -> Seq<Seq<char>> {
    pool.map_values(|w: String| w@)
}

/// A worker name outside the provider of `from`.
pub open spec fn other_provider(from: Seq<char>) -> spec_fn(Seq<char>) -> bool {
    |w: Seq<char>| !starts_with(w, provider_prefix(from))
}

/// A worker name other than `from`.
pub open spec fn other_worker(from: Seq<char>) -> spec_fn(Seq<char>) -> bool {
    |w: Seq<char>| w != from
}

/// The responder for a worker `from`, out of `pool`: with `cross_provider_pref`, the
/// first worker whose name does not start with the provider part of `from`; otherwise,
/// or when there is none, the first worker other than `from`, or else the first worker.
pub open spec fn spec_pick(from: Seq<char>, pool: Seq<Seq<char>>, cross_provider_pref: bool) -> Option<Seq<char>> {
    let other = first_where(pool, other_provider(from));
    let not_self = first_where(pool, other_worker(from));
    if pool.len() == 0 {
        None
    } else if cross_provider_pref && other >= 0 {
        Some(pool[other])
    } else if not_self >= 0 {
        Some(pool[not_self])
    } else {
        Some(pool[0])
    }
}

/// Picks the worker that answers a consultation from `from` (see `spec_pick`); fails
/// when `pool` is empty.
pub fn pick_responder(from: &str, pool: &[String], cross_provider_pref: bool) -> (r: Result<String, NoCandidatesInWave>)
    ensures
        match spec_pick(from@, names(pool@), cross_provider_pref) {
            Some(w) => r matches Ok(s) && s@ == w,
            None => r is Err,
        },
{
    let ghost ns = names(pool@);
    if pool.len() == 0 {
        return Err(NoCandidatesInWave);
    }
    let f = chars_of(from);
    if cross_provider_pref {
        let prefix = match find_char_from(&f, '-', 0) {
            Some(k) => slice_chars(&f, 0, k),
            None => slice_chars(&f, 0, f.len()),
        };
        assert(f@.skip(0) == f@);
        assert(f@.subrange(0, f@.len() as int) == f@);
        assert(prefix@ == provider_prefix(from@));
        let ghost pred = other_provider(from@);
        let mut i: usize = 0;
        while i < pool.len()
            invariant
                i <= pool.len(),
                ns == names(pool@),
                prefix@ == provider_prefix(from@),
                pred == other_provider(from@),
                cross_provider_pref,
                pool.len() > 0,
                forall|j: int| 0 <= j < i ==> !pred(ns[j]),
            decreases pool.len() - i,
        {
            let w = chars_of(pool[i].as_str());
            assert(ns[i as int] == w@);
            if !starts_with_chars(&w, &prefix) {
                proof {
                    lemma_first_where_is(ns, pred, i as int);
                }
                return Ok(pool[i].clone());
            }
            i = i + 1;
        }
        proof {
            lemma_first_where_is(ns, pred, -1);
        }
    }
    let ghost pred2 = other_worker(from@);
    let mut i: usize = 0;
    while i < pool.len()
        invariant
            i <= pool.len(),
            ns == names(pool@),
            f@ == from@,
            pred2 == other_worker(from@),
            pool.len() > 0,
            cross_provider_pref ==> first_where(ns, other_provider(from@)) < 0,
            forall|j: int| 0 <= j < i ==> !pred2(ns[j]),
        decreases pool.len() - i,
    {
        let w = chars_of(pool[i].as_str());
        assert(ns[i as int] == w@);
        if !chars_eq(&w, &f) {
            proof {
                lemma_first_where_is(ns, pred2, i as int);
            }
            return Ok(pool[i].clone());
        }
        i = i + 1;
    }
    proof {
        lemma_first_where_is(ns, pred2, -1);
    }
    Ok(pool[0].clone())
}

/// A consultation is always answered by a member of the pool when the pool has one, and
/// never by the asking worker itself unless every member of the pool is that worker;
/// with the cross-provider preference, a worker of another provider answers whenever
/// the pool holds one.
pub proof fn responder_is_a_peer(from: Seq<char>, pool: Seq<Seq<char>>, cross_provider_pref: bool)
    ensures
        spec_pick(from, pool, cross_provider_pref) is Some <==> pool.len() > 0,
        spec_pick(from, pool, cross_provider_pref) matches Some(w) ==> pool.contains(w),
        spec_pick(from, pool, cross_provider_pref) == Some(from)
            ==> forall|j: int| 0 <= j < pool.len() ==> pool[j] == from,
        cross_provider_pref && (exists|j: int| 0 <= j < pool.len() && !starts_with(pool[j], provider_prefix(from)))
            ==> (spec_pick(from, pool, cross_provider_pref) matches Some(w)
                && !starts_with(w, provider_prefix(from))),
{
    let other = other_provider(from);
    let not_self = other_worker(from);
    lemma_first_where_props(pool, other);
    lemma_first_where_props(pool, not_self);
    let k = char_index(from, '-');
    lemma_char_index(from, '-');
    assert(starts_with(from, provider_prefix(from))) by {
        if k >= 0 {
            assert(from.take(k).len() == k);
        }
        assert(from.take(provider_prefix(from).len() as int) == provider_prefix(from));
    }
    match spec_pick(from, pool, cross_provider_pref) {
        Some(w) => {
            let o = first_where(pool, other);
            let n = first_where(pool, not_self);
            if cross_provider_pref && o >= 0 {
                assert(pool[o] == w);
                assert(other(w));
            } else if n >= 0 {
                assert(pool[n] == w);
            } else {
                assert(pool[0] == w);
            }
            assert(pool.contains(w));
            if w == from {
                assert forall|j: int| 0 <= j < pool.len() implies pool[j] == from by {
                    assert(!not_self(pool[j]));
                }
            }
        },
        None => {},
    }
    if cross_provider_pref && (exists|j: int| 0 <= j < pool.len() && !starts_with(pool[j], provider_prefix(from))) {
        let j = choose|j: int| 0 <= j < pool.len() && !starts_with(pool[j], provider_prefix(from));
        assert(other(pool[j]));
    }
}

} // verus!
