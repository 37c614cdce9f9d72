//! Sorting of strings, and of (timestamp, string) pairs, in std's order.
use vstd::prelude::*;
use vstd::relations::{sorted_by, total_ordering};
use crate::text::{
    compare_str, str_views, lemma_lex_asymmetric, lemma_lex_irreflexive, lemma_lex_total, lemma_lex_transitive,
    lex_le, lex_lt, Order,
};

verus! {

broadcast use {vstd::seq_lib::to_multiset_insert, vstd::seq_lib::to_multiset_build};

/// `a <= b` for strings.
pub open spec fn str_leq() -> spec_fn(Seq<char>, Seq<char>) -> bool {
    |a: Seq<char>, b: Seq<char>| lex_le(a, b)
}

/// `a <= b` for (timestamp, string) pairs: by timestamp, then by string.
pub open spec fn stamp_leq() -> spec_fn((u64, Seq<char>), (u64, Seq<char>)) -> bool {
    |a: (u64, Seq<char>), b: (u64, Seq<char>)| a.0 < b.0 || (a.0 == b.0 && lex_le(a.1, b.1))
}

/// Views of (timestamp, string) pairs.
pub open spec fn stamped_view(v: Seq<(u64, String)>) -> Seq<(u64, Seq<char>)> {
    v.map_values(|p: (u64, String)| (p.0, p.1@))
}

pub proof fn lemma_str_leq_total()
    ensures
        total_ordering(str_leq()),
{
    assert forall|x: Seq<char>| #[trigger] str_leq()(x, x) by {}
    assert forall|x: Seq<char>, y: Seq<char>| #[trigger] str_leq()(x, y) && #[trigger] str_leq()(
        y,
        x,
    ) implies x == y by {
        if x != y {
            lemma_lex_asymmetric(x, y);
        }
    }
    assert forall|x: Seq<char>, y: Seq<char>, z: Seq<char>| #[trigger] str_leq()(x, y)
        && #[trigger] str_leq()(y, z) implies str_leq()(x, z) by {
        if x != y && y != z {
            lemma_lex_transitive(x, y, z);
        }
    }
    assert forall|x: Seq<char>, y: Seq<char>| #[trigger] str_leq()(x, y) || #[trigger] str_leq()(
        y,
        x,
    ) by {
        lemma_lex_total(x, y);
    }
}

pub proof fn lemma_stamp_leq_total()
    ensures
        total_ordering(stamp_leq()),
{
    assert forall|x: (u64, Seq<char>)| #[trigger] stamp_leq()(x, x) by {}
    assert forall|x: (u64, Seq<char>), y: (u64, Seq<char>)| #[trigger] stamp_leq()(x, y)
        && #[trigger] stamp_leq()(y, x) implies x == y by {
        if x.1 != y.1 && x.0 == y.0 {
            lemma_lex_asymmetric(x.1, y.1);
        }
    }
    assert forall|x: (u64, Seq<char>), y: (u64, Seq<char>), z: (u64, Seq<char>)| #[trigger] stamp_leq()(
        x,
        y,
    ) && #[trigger] stamp_leq()(y, z) implies stamp_leq()(x, z) by {
        if x.0 == y.0 && y.0 == z.0 && x.1 != y.1 && y.1 != z.1 {
            lemma_lex_transitive(x.1, y.1, z.1);
        }
    }
    assert forall|x: (u64, Seq<char>), y: (u64, Seq<char>)| #[trigger] stamp_leq()(x, y)
        || #[trigger] stamp_leq()(y, x) by {
        lemma_lex_total(x.1, y.1);
    }
}

/// Strings sorted in std's order.
pub fn sort_strings(input: Vec<String>) -> (out: Vec<String>)
    ensures
        str_views(out@) == str_views(input@).sort_by(str_leq()),
{
    proof {
        lemma_str_leq_total();
    }
    let ghost iv = str_views(input@);
    let mut out: Vec<String> = Vec::new();
    let ghost total = input@.len() as int;
    let n: usize = input.len();
    assert(total == n as int);
    let mut input = input;
    let mut consumed: usize = 0;
    let mut rest: Vec<String> = Vec::new();
    // reverse so that popping yields the input in order
    while input.len() > 0
        invariant
            str_views(rest@) + str_views(input@).reverse() == iv.reverse(),
        decreases input@.len(),
    {
        let ghost before_in = str_views(input@);
        let ghost before_rest = str_views(rest@);
        let x = input.pop().unwrap();
        rest.push(x);
        proof {
            assert(before_in =~= str_views(input@).push(x@));
            assert(str_views(rest@) =~= before_rest.push(x@));
            assert(before_in.reverse() =~= seq![x@] + str_views(input@).reverse());
            assert(str_views(rest@) + str_views(input@).reverse() =~= before_rest
                + before_in.reverse());
        }
    }
    assert(str_views(input@).reverse() =~= Seq::<Seq<char>>::empty());
    assert(str_views(rest@) =~= iv.reverse());
    assert(str_views(out@) =~= iv.take(0));
    while rest.len() > 0
        invariant
            total_ordering(str_leq()),
            iv.len() == total,
            total == n as int,
            consumed + rest@.len() == iv.len(),
            str_views(rest@) == iv.skip(consumed as int).reverse(),
            sorted_by(str_views(out@), str_leq()),
            str_views(out@).to_multiset() == iv.take(consumed as int).to_multiset(),
        decreases rest@.len(),
    {
        let ghost before_rest = str_views(rest@);
        let x = rest.pop().unwrap();
        proof {
            assert(before_rest =~= str_views(rest@).push(x@));
            assert(x@ == iv[consumed as int]) by {
                assert(iv.skip(consumed as int).reverse().last() == iv.skip(consumed as int)[0]);
            }
            assert(str_views(rest@) =~= iv.skip(consumed + 1).reverse()) by {
                assert(iv.skip(consumed as int).reverse().drop_last() =~= iv.skip(
                    consumed + 1,
                ).reverse());
            }
        }
        let mut j: usize = 0;
        while j < out.len() && compare_str(x.as_str(), out[j].as_str()) != Order::Less
            invariant
                j <= out@.len(),
                forall|k: int| 0 <= k < j ==> !lex_lt(x@, #[trigger] str_views(out@)[k]),
            decreases out@.len() - j,
        {
            j = j + 1;
        }
        let ghost ov = str_views(out@);
        proof {
            if j < out@.len() {
                assert(lex_lt(x@, ov[j as int]));
            }
        }
        out.insert(j, x);
        proof {
            let nv = str_views(out@);
            assert(nv =~= ov.insert(j as int, x@));
            assert forall|a: int, b: int| 0 <= a < b < nv.len() implies #[trigger] str_leq()(
                nv[a],
                nv[b],
            ) by {
                if a < j && b < j {
                } else if a < j && b == j {
                    lemma_lex_total(x@, ov[a]);
                } else if a < j {
                    lemma_lex_total(x@, ov[a]);
                    assert(str_leq()(ov[a], x@));
                    assert(str_leq()(x@, ov[j as int]));
                    assert(str_leq()(ov[j as int], ov[b - 1]) || j as int == b - 1);
                } else if a == j {
                    assert(str_leq()(x@, ov[j as int]));
                    assert(str_leq()(ov[j as int], ov[b - 1]) || j as int == b - 1);
                } else {
                }
            }
            assert(iv.take(consumed + 1) =~= iv.take(consumed as int).push(x@));
        }
        consumed = consumed + 1;
    }
    proof {
        assert(iv.take(consumed as int) =~= iv);
        iv.lemma_sort_by_ensures(str_leq());
        vstd::seq_lib::lemma_sorted_unique(str_views(out@), iv.sort_by(str_leq()), str_leq());
    }
    out
}

/// (timestamp, string) pairs sorted by timestamp, then string.
pub fn sort_stamped(input: Vec<(u64, String)>) -> (out: Vec<(u64, String)>)
    ensures
        stamped_view(out@) == stamped_view(input@).sort_by(stamp_leq()),
{
    proof {
        lemma_stamp_leq_total();
    }
    let ghost iv = stamped_view(input@);
    let mut out: Vec<(u64, String)> = Vec::new();
    let ghost total = input@.len() as int;
    let n: usize = input.len();
    assert(total == n as int);
    let mut input = input;
    let mut consumed: usize = 0;
    let mut rest: Vec<(u64, String)> = Vec::new();
    while input.len() > 0
        invariant
            stamped_view(rest@) + stamped_view(input@).reverse() == iv.reverse(),
        decreases input@.len(),
    {
        let ghost before_in = stamped_view(input@);
        let ghost before_rest = stamped_view(rest@);
        let x = input.pop().unwrap();
        let ghost xv = (x.0, x.1@);
        rest.push(x);
        proof {
            assert(before_in =~= stamped_view(input@).push(xv));
            assert(stamped_view(rest@) =~= before_rest.push(xv));
            assert(before_in.reverse() =~= seq![xv] + stamped_view(input@).reverse());
            assert(stamped_view(rest@) + stamped_view(input@).reverse() =~= before_rest
                + before_in.reverse());
        }
    }
    assert(stamped_view(input@).reverse() =~= Seq::<(u64, Seq<char>)>::empty());
    assert(stamped_view(rest@) =~= iv.reverse());
    assert(stamped_view(out@) =~= iv.take(0));
    while rest.len() > 0
        invariant
            total_ordering(stamp_leq()),
            iv.len() == total,
            total == n as int,
            consumed + rest@.len() == iv.len(),
            stamped_view(rest@) == iv.skip(consumed as int).reverse(),
            sorted_by(stamped_view(out@), stamp_leq()),
            stamped_view(out@).to_multiset() == iv.take(consumed as int).to_multiset(),
        decreases rest@.len(),
    {
        let ghost before_rest = stamped_view(rest@);
        let x = rest.pop().unwrap();
        let ghost xv = (x.0, x.1@);
        proof {
            assert(before_rest =~= stamped_view(rest@).push(xv));
            assert(xv == iv[consumed as int]) by {
                assert(iv.skip(consumed as int).reverse().last() == iv.skip(consumed as int)[0]);
            }
            assert(stamped_view(rest@) =~= iv.skip(consumed + 1).reverse()) by {
                assert(iv.skip(consumed as int).reverse().drop_last() =~= iv.skip(
                    consumed + 1,
                ).reverse());
            }
        }
        let mut j: usize = 0;
        while j < out.len() && !(x.0 < out[j].0 || (x.0 == out[j].0 && compare_str(
            x.1.as_str(),
            out[j].1.as_str(),
        ) == Order::Less))
            invariant
                j <= out@.len(),
                xv == (x.0, x.1@),
                forall|k: int|
                    0 <= k < j ==> !(xv.0 < #[trigger] stamped_view(out@)[k].0 || (xv.0
                        == stamped_view(out@)[k].0 && lex_lt(xv.1, stamped_view(out@)[k].1))),
            decreases out@.len() - j,
        {
            assert(stamped_view(out@)[j as int] == (out@[j as int].0, out@[j as int].1@));
            j = j + 1;
        }
        let ghost ov = stamped_view(out@);
        out.insert(j, x);
        proof {
            let nv = stamped_view(out@);
            assert(nv =~= ov.insert(j as int, xv));
            assert forall|a: int, b: int| 0 <= a < b < nv.len() implies #[trigger] stamp_leq()(
                nv[a],
                nv[b],
            ) by {
                if a < j && b < j {
                } else if a < j && b == j {
                    lemma_lex_total(xv.1, ov[a].1);
                } else if a < j {
                    lemma_lex_total(xv.1, ov[a].1);
                    assert(stamp_leq()(ov[a], xv));
                    assert(stamp_leq()(xv, ov[j as int]));
                    assert(stamp_leq()(ov[j as int], ov[b - 1]) || j as int == b - 1);
                } else if a == j {
                    assert(stamp_leq()(xv, ov[j as int]));
                    assert(stamp_leq()(ov[j as int], ov[b - 1]) || j as int == b - 1);
                } else {
                }
            }
            assert(iv.take(consumed + 1) =~= iv.take(consumed as int).push(xv));
        }
        consumed = consumed + 1;
    }
    proof {
        assert(iv.take(consumed as int) =~= iv);
        iv.lemma_sort_by_ensures(stamp_leq());
        vstd::seq_lib::lemma_sorted_unique(stamped_view(out@), iv.sort_by(stamp_leq()), stamp_leq());
    }
    out
}

/// `a <= b` for triples: by number, then string, then tiebreak.
pub open spec fn triple_leq() -> spec_fn((u64, Seq<char>, u64), (u64, Seq<char>, u64)) -> bool {
    |a: (u64, Seq<char>, u64), b: (u64, Seq<char>, u64)| triple_lt_spec(a, b) || a == b
}

/// `a < b` for triples.
pub open spec fn triple_lt_spec(a: (u64, Seq<char>, u64), b: (u64, Seq<char>, u64)) -> bool {
    a.0 < b.0 || (a.0 == b.0 && lex_lt(a.1, b.1)) || (a.0 == b.0 && a.1 == b.1 && a.2 < b.2)
}

/// Views of triples.
pub open spec fn triples_view(v: Seq<(u64, String, u64)>) -> Seq<(u64, Seq<char>, u64)> {
    v.map_values(|p: (u64, String, u64)| (p.0, p.1@, p.2))
}

pub proof fn lemma_triple_leq_total()
    ensures
        total_ordering(triple_leq()),
{
    assert forall|x: (u64, Seq<char>, u64), y: (u64, Seq<char>, u64)| #[trigger] triple_leq()(x, y)
        && #[trigger] triple_leq()(y, x) implies x == y by {
        if x.1 != y.1 && x.0 == y.0 {
            lemma_lex_asymmetric(x.1, y.1);
        }
        lemma_lex_irreflexive(x.1);
    }
    assert forall|x: (u64, Seq<char>, u64), y: (u64, Seq<char>, u64), z: (u64, Seq<char>, u64)| #[trigger] triple_leq()(
        x,
        y,
    ) && #[trigger] triple_leq()(y, z) implies triple_leq()(x, z) by {
        if x.0 == y.0 && y.0 == z.0 && x.1 != y.1 && y.1 != z.1 {
            lemma_lex_transitive(x.1, y.1, z.1);
        }
    }
    assert forall|x: (u64, Seq<char>, u64), y: (u64, Seq<char>, u64)| #[trigger] triple_leq()(x, y)
        || #[trigger] triple_leq()(y, x) by {
        lemma_lex_total(x.1, y.1);
    }
}

fn triple_lt(a: &(u64, String, u64), b: &(u64, String, u64)) -> (r: bool)
    ensures
        r == triple_lt_spec((a.0, a.1@, a.2), (b.0, b.1@, b.2)),
{
    if a.0 != b.0 {
        return a.0 < b.0;
    }
    match compare_str(a.1.as_str(), b.1.as_str()) {
        Order::Less => true,
        Order::Greater => {
            proof {
                lemma_lex_asymmetric(b.1@, a.1@);
            }
            false
        },
        Order::Equal => a.2 < b.2,
    }
}

/// (number, string, tiebreak) triples sorted by number, then string, then tiebreak.
pub fn sort_triples(input: Vec<(u64, String, u64)>) -> (out: Vec<(u64, String, u64)>)
    ensures
        triples_view(out@) == triples_view(input@).sort_by(triple_leq()),
{
    proof {
        lemma_triple_leq_total();
    }
    let ghost iv = triples_view(input@);
    let mut out: Vec<(u64, String, u64)> = Vec::new();
    let ghost total = input@.len() as int;
    let n: usize = input.len();
    assert(total == n as int);
    let mut input = input;
    let mut consumed: usize = 0;
    let mut rest: Vec<(u64, String, u64)> = Vec::new();
    while input.len() > 0
        invariant
            triples_view(rest@) + triples_view(input@).reverse() == iv.reverse(),
        decreases input@.len(),
    {
        let ghost before_in = triples_view(input@);
        let ghost before_rest = triples_view(rest@);
        let x = input.pop().unwrap();
        let ghost xv = (x.0, x.1@, x.2);
        rest.push(x);
        proof {
            assert(before_in =~= triples_view(input@).push(xv));
            assert(triples_view(rest@) =~= before_rest.push(xv));
            assert(before_in.reverse() =~= seq![xv] + triples_view(input@).reverse());
            assert(triples_view(rest@) + triples_view(input@).reverse() =~= before_rest
                + before_in.reverse());
        }
    }
    assert(triples_view(input@).reverse() =~= Seq::<(u64, Seq<char>, u64)>::empty());
    assert(triples_view(rest@) =~= iv.reverse());
    assert(triples_view(out@) =~= iv.take(0));
    while rest.len() > 0
        invariant
            total_ordering(triple_leq()),
            iv.len() == total,
            total == n as int,
            consumed + rest@.len() == iv.len(),
            triples_view(rest@) == iv.skip(consumed as int).reverse(),
            sorted_by(triples_view(out@), triple_leq()),
            triples_view(out@).to_multiset() == iv.take(consumed as int).to_multiset(),
        decreases rest@.len(),
    {
        let ghost before_rest = triples_view(rest@);
        let x = rest.pop().unwrap();
        let ghost xv = (x.0, x.1@, x.2);
        proof {
            assert(before_rest =~= triples_view(rest@).push(xv));
            assert(xv == iv[consumed as int]) by {
                assert(iv.skip(consumed as int).reverse().last() == iv.skip(consumed as int)[0]);
            }
            assert(triples_view(rest@) =~= iv.skip(consumed + 1).reverse()) by {
                assert(iv.skip(consumed as int).reverse().drop_last() =~= iv.skip(
                    consumed + 1,
                ).reverse());
            }
        }
        let mut j: usize = 0;
        while j < out.len() && !triple_lt(&x, &out[j])
            invariant
                j <= out@.len(),
                xv == (x.0, x.1@, x.2),
                forall|k: int|
                    0 <= k < j ==> !triple_lt_spec(xv, #[trigger] triples_view(out@)[k]),
            decreases out@.len() - j,
        {
            assert(triples_view(out@)[j as int] == (out@[j as int].0, out@[j as int].1@, out@[j as int].2));
            j = j + 1;
        }
        let ghost ov = triples_view(out@);
        out.insert(j, x);
        proof {
            let nv = triples_view(out@);
            assert(nv =~= ov.insert(j as int, xv));
            assert forall|a: int, b: int| 0 <= a < b < nv.len() implies #[trigger] triple_leq()(
                nv[a],
                nv[b],
            ) by {
                if a < j && b < j {
                } else if a < j && b == j {
                    lemma_lex_total(xv.1, ov[a].1);
                } else if a < j {
                    lemma_lex_total(xv.1, ov[a].1);
                    assert(triple_leq()(ov[a], xv));
                    assert(triple_leq()(xv, ov[j as int]));
                    assert(triple_leq()(ov[j as int], ov[b - 1]) || j as int == b - 1);
                } else if a == j {
                    assert(triple_leq()(xv, ov[j as int]));
                    assert(triple_leq()(ov[j as int], ov[b - 1]) || j as int == b - 1);
                } else {
                }
            }
            assert(iv.take(consumed + 1) =~= iv.take(consumed as int).push(xv));
        }
        consumed = consumed + 1;
    }
    proof {
        assert(iv.take(consumed as int) =~= iv);
        iv.lemma_sort_by_ensures(triple_leq());
        vstd::seq_lib::lemma_sorted_unique(triples_view(out@), iv.sort_by(triple_leq()), triple_leq());
    }
    out
}

/// `a <= b` for string pairs: by first, then second.
pub open spec fn pair_leq() -> spec_fn((Seq<char>, Seq<char>), (Seq<char>, Seq<char>)) -> bool {
    |a: (Seq<char>, Seq<char>), b: (Seq<char>, Seq<char>)| pair_lt_spec(a, b) || a == b
}

/// `a < b` for string pairs.
pub open spec fn pair_lt_spec(a: (Seq<char>, Seq<char>), b: (Seq<char>, Seq<char>)) -> bool {
    lex_lt(a.0, b.0) || (a.0 == b.0 && lex_lt(a.1, b.1))
}

/// Views of string pairs.
pub open spec fn string_pairs_view(v: Seq<(String, String)>) -> Seq<(Seq<char>, Seq<char>)> {
    v.map_values(|p: (String, String)| (p.0@, p.1@))
}

pub proof fn lemma_pair_leq_total()
    ensures
        total_ordering(pair_leq()),
{
    assert forall|x: (Seq<char>, Seq<char>), y: (Seq<char>, Seq<char>)| #[trigger] pair_leq()(x, y)
        && #[trigger] pair_leq()(y, x) implies x == y by {
        if lex_lt(x.0, y.0) {
            lemma_lex_asymmetric(x.0, y.0);
        }
        if x.0 == y.0 && lex_lt(x.1, y.1) {
            lemma_lex_asymmetric(x.1, y.1);
        }
        lemma_lex_irreflexive(x.0);
        lemma_lex_irreflexive(x.1);
    }
    assert forall|x: (Seq<char>, Seq<char>), y: (Seq<char>, Seq<char>), z: (Seq<char>, Seq<char>)| #[trigger] pair_leq()(
        x,
        y,
    ) && #[trigger] pair_leq()(y, z) implies pair_leq()(x, z) by {
        if lex_lt(x.0, y.0) && lex_lt(y.0, z.0) {
            lemma_lex_transitive(x.0, y.0, z.0);
        }
        if x.0 == y.0 && y.0 == z.0 && lex_lt(x.1, y.1) && lex_lt(y.1, z.1) {
            lemma_lex_transitive(x.1, y.1, z.1);
        }
    }
    assert forall|x: (Seq<char>, Seq<char>), y: (Seq<char>, Seq<char>)| #[trigger] pair_leq()(x, y)
        || #[trigger] pair_leq()(y, x) by {
        lemma_lex_total(x.0, y.0);
        lemma_lex_total(x.1, y.1);
    }
}

fn pair_lt(a: &(String, String), b: &(String, String)) -> (r: bool)
    ensures
        r == pair_lt_spec((a.0@, a.1@), (b.0@, b.1@)),
{
    match compare_str(a.0.as_str(), b.0.as_str()) {
        Order::Less => true,
        Order::Greater => {
            proof {
                lemma_lex_asymmetric(b.0@, a.0@);
                lemma_lex_irreflexive(a.0@);
            }
            false
        },
        Order::Equal => match compare_str(a.1.as_str(), b.1.as_str()) {
            Order::Less => {
                proof {
                    lemma_lex_irreflexive(a.0@);
                }
                true
            },
            _ => {
                proof {
                    lemma_lex_irreflexive(a.0@);
                    if lex_lt(a.1@, b.1@) {
                        lemma_lex_asymmetric(a.1@, b.1@);
                        lemma_lex_irreflexive(a.1@);
                    }
                }
                false
            },
        },
    }
}

/// String pairs sorted by first, then second, in std's order.
pub fn sort_string_pairs(input: Vec<(String, String)>) -> (out: Vec<(String, String)>)
    ensures
        string_pairs_view(out@) == string_pairs_view(input@).sort_by(pair_leq()),
{
    proof {
        lemma_pair_leq_total();
    }
    let ghost iv = string_pairs_view(input@);
    let mut out: Vec<(String, String)> = Vec::new();
    let ghost total = input@.len() as int;
    let n: usize = input.len();
    assert(total == n as int);
    let mut input = input;
    let mut consumed: usize = 0;
    let mut rest: Vec<(String, String)> = Vec::new();
    while input.len() > 0
        invariant
            string_pairs_view(rest@) + string_pairs_view(input@).reverse() == iv.reverse(),
        decreases input@.len(),
    {
        let ghost before_in = string_pairs_view(input@);
        let ghost before_rest = string_pairs_view(rest@);
        let x = input.pop().unwrap();
        let ghost xv = (x.0@, x.1@);
        rest.push(x);
        proof {
            assert(before_in =~= string_pairs_view(input@).push(xv));
            assert(string_pairs_view(rest@) =~= before_rest.push(xv));
            assert(before_in.reverse() =~= seq![xv] + string_pairs_view(input@).reverse());
            assert(string_pairs_view(rest@) + string_pairs_view(input@).reverse() =~= before_rest
                + before_in.reverse());
        }
    }
    assert(string_pairs_view(input@).reverse() =~= Seq::<(Seq<char>, Seq<char>)>::empty());
    assert(string_pairs_view(rest@) =~= iv.reverse());
    assert(string_pairs_view(out@) =~= iv.take(0));
    while rest.len() > 0
        invariant
            total_ordering(pair_leq()),
            iv.len() == total,
            total == n as int,
            consumed + rest@.len() == iv.len(),
            string_pairs_view(rest@) == iv.skip(consumed as int).reverse(),
            sorted_by(string_pairs_view(out@), pair_leq()),
            string_pairs_view(out@).to_multiset() == iv.take(consumed as int).to_multiset(),
        decreases rest@.len(),
    {
        let ghost before_rest = string_pairs_view(rest@);
        let x = rest.pop().unwrap();
        let ghost xv = (x.0@, x.1@);
        proof {
            assert(before_rest =~= string_pairs_view(rest@).push(xv));
            assert(xv == iv[consumed as int]) by {
                assert(iv.skip(consumed as int).reverse().last() == iv.skip(consumed as int)[0]);
            }
            assert(string_pairs_view(rest@) =~= iv.skip(consumed + 1).reverse()) by {
                assert(iv.skip(consumed as int).reverse().drop_last() =~= iv.skip(
                    consumed + 1,
                ).reverse());
            }
        }
        let mut j: usize = 0;
        while j < out.len() && !pair_lt(&x, &out[j])
            invariant
                j <= out@.len(),
                xv == (x.0@, x.1@),
                forall|k: int|
                    0 <= k < j ==> !pair_lt_spec(xv, #[trigger] string_pairs_view(out@)[k]),
            decreases out@.len() - j,
        {
            assert(string_pairs_view(out@)[j as int] == (out@[j as int].0@, out@[j as int].1@));
            j = j + 1;
        }
        let ghost ov = string_pairs_view(out@);
        out.insert(j, x);
        proof {
            let nv = string_pairs_view(out@);
            assert(nv =~= ov.insert(j as int, xv));
            assert forall|a: int, b: int| 0 <= a < b < nv.len() implies #[trigger] pair_leq()(
                nv[a],
                nv[b],
            ) by {
                if a < j && b < j {
                } else if a < j && b == j {
                    lemma_lex_total(xv.0, ov[a].0);
                    lemma_lex_total(xv.1, ov[a].1);
                } else if a < j {
                    lemma_lex_total(xv.0, ov[a].0);
                    lemma_lex_total(xv.1, ov[a].1);
                    assert(pair_leq()(ov[a], xv));
                    assert(pair_leq()(xv, ov[j as int]));
                    assert(pair_leq()(ov[j as int], ov[b - 1]) || j as int == b - 1);
                } else if a == j {
                    assert(pair_leq()(xv, ov[j as int]));
                    assert(pair_leq()(ov[j as int], ov[b - 1]) || j as int == b - 1);
                } else {
                }
            }
            assert(iv.take(consumed + 1) =~= iv.take(consumed as int).push(xv));
        }
        consumed = consumed + 1;
    }
    proof {
        assert(iv.take(consumed as int) =~= iv);
        iv.lemma_sort_by_ensures(pair_leq());
        vstd::seq_lib::lemma_sorted_unique(string_pairs_view(out@), iv.sort_by(pair_leq()), pair_leq());
    }
    out
}

} // verus!
