//! Drawers of the memory palace, and how a search picks them.
use vstd::prelude::*;
use crate::text::{chars_of, contains_str, has_sub, owned, push_char, string_from, take_chars, digit_char, digit_of};

verus! {

/// A note filed in a wing of the palace.
#[derive(Debug, Clone)]
pub struct Drawer {
    pub wing: String,
    pub title: String,
    pub body: String,
    pub tags: Vec<String>,
}

/// A drawer answers a search for `query`: its body or its title contains it.
pub open spec fn drawer_matches(d: Drawer, query: Seq<char>) -> bool {
    has_sub(d.body@, query) || has_sub(d.title@, query)
}

/// Whether `d` answers a search for `query` (see `drawer_matches`).
pub fn matches_query(d: &Drawer, query: &str) -> (r: bool)
    ensures
        r == drawer_matches(*d, query@),
{
    contains_str(d.body.as_str(), query) || contains_str(d.title.as_str(), query)
}

/// The snippet a search shows of a body: its first 100 characters.
pub fn snippet(body: &str) -> (r: String)
    ensures
        r@ == body@.take(if body@.len() < 100 { body@.len() as int } else { 100 }),
{
    let v = chars_of(body);
    let t = take_chars(&v, 100);
    string_from(&t)
}

/// The positions of the drawers among `ds` that answer `query`, in order.
pub open spec fn matching_positions(ds: Seq<Drawer>, query: Seq<char>) -> Seq<int>
    decreases ds.len(),
{
    if ds.len() == 0 {
        seq![]
    } else {
        matching_positions(ds.drop_last(), query) + if drawer_matches(ds.last(), query) {
            seq![ds.len() - 1]
        } else {
            seq![]
        }
    }
}

/// The positions of the first `n` drawers among `drawers` that answer `query`.
pub fn search_positions(drawers: &Vec<Drawer>, query: &str, n: usize) -> (r: Vec<usize>)
    ensures
        r@.map_values(|i: usize| i as int) == matching_positions(drawers@, query@).take(
            if n < matching_positions(drawers@, query@).len() {
                n as int
            } else {
                matching_positions(drawers@, query@).len() as int
            },
        ),
{
    let mut r: Vec<usize> = Vec::new();
    let mut i: usize = 0;
    while i < drawers.len()
        invariant
            i <= drawers.len(),
            r.len() <= n,
            r@.map_values(|k: usize| k as int) == matching_positions(drawers@.take(i as int), query@).take(
                if n < matching_positions(drawers@.take(i as int), query@).len() {
                    n as int
                } else {
                    matching_positions(drawers@.take(i as int), query@).len() as int
                },
            ),
        decreases drawers.len() - i,
    {
        let ghost prev = matching_positions(drawers@.take(i as int), query@);
        assert(drawers@.take(i + 1).drop_last() == drawers@.take(i as int));
        assert(drawers@.take(i + 1).last() == drawers@[i as int]);
        let hit = matches_query(&drawers[i], query);
        let ghost next = matching_positions(drawers@.take(i + 1), query@);
        let ghost before = r@.map_values(|k: usize| k as int);
        assert(before.len() == r.len());
        if hit {
            assert(next == prev + seq![i as int]);
            if r.len() < n {
                assert(prev.len() < n);
                assert(before =~= prev);
                r.push(i);
                assert(r@.map_values(|k: usize| k as int) =~= before.push(i as int));
                assert(r@.map_values(|k: usize| k as int) =~= next.take(
                    if n < next.len() { n as int } else { next.len() as int },
                ));
            } else {
                assert(prev.len() >= n);
                assert(next.take(n as int) =~= prev.take(n as int));
            }
        } else {
            assert(next =~= prev);
        }
        i = i + 1;
    }
    assert(drawers@.take(drawers.len() as int) == drawers@);
    r
}

/// The hex digits of `n`, most significant first.
pub open spec fn hex128(n: nat) -> Seq<char>
    decreases n,
{
    if n < 16 {
        seq![digit_char(n)]
    } else {
        hex128(n / 16).push(digit_char(n % 16))
    }
}

/// Appends the hex digits of `n` to `s`.
fn push_hex128(s: &mut String, n: u128)
    ensures
        final(s)@ == old(s)@ + hex128(n as nat),
    decreases n,
{
    if n >= 16 {
        push_hex128(s, n / 16);
        push_char(s, digit_of((n % 16) as u64));
        assert(s@ =~= old(s)@ + hex128(n as nat));
    } else {
        push_char(s, digit_of(n as u64));
        assert(s@ =~= old(s)@ + hex128(n as nat));
    }
}

/// The id of a new drawer: `drawer_` and the clock's nanoseconds in hex.
pub fn drawer_id(clock_nanos: u128) -> (r: String)
    ensures
        r@ == "drawer_"@ + hex128(clock_nanos as nat),
{
    let mut r = owned("drawer_");
    push_hex128(&mut r, clock_nanos);
    r
}

} // verus!
