//! Making names unique among the names already in use.
use vstd::prelude::*;
use vstd::relations::injective_on;
use vstd::set_lib::{lemma_int_range, lemma_len_subset, lemma_map_size, set_int_range};

use crate::types::{decimal, digit_char, render_nat};

verus! {

/// Items that carry a name.
pub trait GetName {
    spec fn name_view(&self) -> Seq<char>;

    fn get_name(&self) -> (r: String)
        ensures
            r@ == self.name_view(),
    ;
}

pub open spec fn names_of<T: GetName>(v: Seq<T>) -> Seq<Seq<char>> {
    v.map_values(|x: T| x.name_view())
}

/// `s` with every space replaced by an underscore.
pub open spec fn underscored(s: Seq<char>) -> Seq<char> {
    s.map_values(|c: char| if c == ' ' { '_' } else { c })
}

/// The `k`-th name tried for `base`: `base` itself, then `base_1`, `base_2`, ...
pub open spec fn candidate(base: Seq<char>, k: nat) -> Seq<char> {
    if k == 0 {
        base
    } else {
        base + "_"@ + decimal(k)
    }
}

/// `r` is the first candidate for `base` that is not among `names`.
pub open spec fn first_free_candidate(base: Seq<char>, names: Seq<Seq<char>>, r: Seq<char>) -> bool {
    exists|k: nat|
        r == candidate(base, k) && !names.contains(r) && forall|j: nat| j < k ==> names.contains(
            #[trigger] candidate(base, j),
        )
}

/// Relies on str::replace: every occurrence of the one-character pattern " " becomes "_",
/// and every other character is kept in place.
#[verifier::external_body]
fn spaces_to_underscores(s: &str) -> (r: String)
    ensures
        r@ == underscored(s@),
{
    s.replace(" ", "_")
}

proof fn lemma_decimal_len(n: nat)
    ensures
        decimal(n).len() >= 1,
        n >= 10 ==> decimal(n).len() >= 2,
    decreases n,
{
    if n >= 10 {
        lemma_decimal_len(n / 10);
    }
}

proof fn lemma_decimal_injective(a: nat, b: nat)
    requires
        decimal(a) == decimal(b),
    ensures
        a == b,
    decreases a,
{
    lemma_decimal_len(a);
    lemma_decimal_len(b);
    if a < 10 && b < 10 {
        assert(decimal(a)[0] == digit_char(a));
        assert(decimal(b)[0] == digit_char(b));
    } else if a >= 10 && b >= 10 {
        let da = decimal(a);
        let db = decimal(b);
        assert(da.drop_last() =~= decimal(a / 10));
        assert(db.drop_last() =~= decimal(b / 10));
        assert(da.last() == digit_char(a % 10));
        assert(db.last() == digit_char(b % 10));
        lemma_decimal_injective(a / 10, b / 10);
    }
}

proof fn lemma_candidate_injective(base: Seq<char>, i: nat, j: nat)
    requires
        candidate(base, i) == candidate(base, j),
    ensures
        i == j,
{
    reveal_strlit("_");
    lemma_decimal_len(i);
    lemma_decimal_len(j);
    if i > 0 && j > 0 {
        let ci = candidate(base, i);
        let cj = candidate(base, j);
        assert(ci.subrange(base.len() as int + 1, ci.len() as int) =~= decimal(i));
        assert(cj.subrange(base.len() as int + 1, cj.len() as int) =~= decimal(j));
        lemma_decimal_injective(i, j);
    } else if i > 0 {
        assert(candidate(base, i).len() > base.len());
    } else if j > 0 {
        assert(candidate(base, j).len() > base.len());
    }
}

/// Only as many candidates as there are names can all be taken.
proof fn lemma_taken_candidates_fit(base: Seq<char>, names: Seq<Seq<char>>, n: nat)
    requires
        forall|j: nat| j < n ==> names.contains(#[trigger] candidate(base, j)),
    ensures
        n <= names.len(),
{
    let f = |j: int| candidate(base, j as nat);
    let dom = set_int_range(0, n as int);
    let cs = dom.map(f);
    lemma_int_range(0, n as int);
    assert(injective_on(f, dom)) by {
        assert forall|x: int, y: int| dom.contains(x) && dom.contains(y) && #[trigger] f(x) == #[trigger] f(y) implies x == y by {
            lemma_candidate_injective(base, x as nat, y as nat);
        }
    }
    lemma_map_size(dom, cs, f);
    assert(cs.subset_of(names.to_set())) by {
        assert forall|s: Seq<char>| cs.contains(s) implies names.to_set().contains(s) by {
            let x = choose|x: int| dom.contains(x) && f(x) == s;
            assert(names.contains(candidate(base, x as nat)));
        }
    }
    names.lemma_cardinality_of_set();
    lemma_len_subset(cs, names.to_set());
}

fn make_candidate(base: &String, k: usize) -> (r: String)
    ensures
        r@ == candidate(base@, k as nat),
{
    let mut r = base.clone();
    if k > 0 {
        r.append("_");
        let d = render_nat(k as u64);
        r.append(d.as_str());
    }
    r
}

fn name_taken<T: GetName>(vec: &Vec<T>, name: &String) -> (r: bool)
    ensures
        r == names_of(vec@).contains(name@),
{
    let mut k: usize = 0;
    while k < vec.len()
        invariant
            k <= vec.len(),
            forall|q: int| 0 <= q < k ==> names_of(vec@)[q] != name@,
        decreases vec.len() - k,
    {
        let n = vec[k].get_name();
        if n == *name {
            proof {
                assert(names_of(vec@)[k as int] == name@);
            }
            return true;
        }
        k += 1;
    }
    false
}

/// The first of `name`, `name_1`, `name_2`, ... (spaces turned into underscores) that no
/// item of `vec` is named.
pub fn uniquify_name<T: GetName>(input_name: String, vec: &Vec<T>) -> (r: String)
    ensures
        first_free_candidate(underscored(input_name@), names_of(vec@), r@),
{
    let base = spaces_to_underscores(input_name.as_str());
    let ghost names = names_of(vec@);
    let mut times: usize = 0;
    loop
        invariant
            times <= vec.len(),
            names == names_of(vec@),
            base@ == underscored(input_name@),
            forall|j: nat| j < times ==> names.contains(#[trigger] candidate(base@, j)),
        decreases vec.len() - times,
    {
        let c = make_candidate(&base, times);
        if !name_taken(vec, &c) {
            proof {
                let k = times as nat;
                assert(c@ == candidate(base@, k) && !names.contains(c@) && forall|j: nat| j < k ==> names.contains(
                    #[trigger] candidate(base@, j)));
            }
            return c;
        }
        proof {
            assert forall|j: nat| j < times + 1 implies names.contains(#[trigger] candidate(base@, j)) by {
                if j == times {
                    assert(c@ == candidate(base@, j));
                }
            }
            lemma_taken_candidates_fit(base@, names, (times + 1) as nat);
        }
        times += 1;
    }
}

} // verus!
