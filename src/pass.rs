use vstd::prelude::*;

verus! {

/// A for-sale item of a user, keyed by its upstream id.
pub struct Gamepass {
    pub id: u64,
    pub name: String,
    pub price: i64,
}

impl View for Gamepass {
    /// The id, the characters of the name, and the price.
    type V = (u64, Seq<char>, i64);

    open spec fn view(&self) -> (u64, Seq<char>, i64) {
        (self.id, self.name@, self.price)
    }
}

/// The views of a sequence of passes.
pub open spec fn views(ps: Seq<Gamepass>) -> Seq<(u64, Seq<char>, i64)> {
    ps.map_values(|p: Gamepass| p@)
}

/// `ps` holds a pass with this id.
pub open spec fn contains_id(ps: Seq<(u64, Seq<char>, i64)>, id: u64) -> bool {
    exists|i: int| 0 <= i < ps.len() && ps[i].0 == id
}

/// Every pass has a positive price, and no two passes share an id.
pub open spec fn well_formed(ps: Seq<(u64, Seq<char>, i64)>) -> bool {
    &&& forall|i: int| 0 <= i < ps.len() ==> ps[i].2 > 0
    &&& forall|i: int, j: int| 0 <= i < j < ps.len() ==> ps[i].0 != ps[j].0
}

/// A decoded price counts only when it is a positive integer.
pub open spec fn price_ok(price: Option<i64>) -> bool {
    match price {
        Some(p) => p > 0,
        None => false,
    }
}

/// A reported creator must be the requested user; an unreported one is accepted.
pub open spec fn creator_ok(user_id: u64, creator: Option<u64>) -> bool {
    match creator {
        Some(c) => c == user_id,
        None => true,
    }
}

/// Whether a candidate joins the accumulated passes `ps` of `user_id`.
pub open spec fn admissible(
    ps: Seq<(u64, Seq<char>, i64)>,
    user_id: u64,
    id: u64,
    price: Option<i64>,
    creator: Option<u64>,
) -> bool {
    price_ok(price) && creator_ok(user_id, creator) && !contains_id(ps, id)
}

/// The accumulated passes after a candidate has been offered.
pub open spec fn offered(
    ps: Seq<(u64, Seq<char>, i64)>,
    user_id: u64,
    id: u64,
    name: Seq<char>,
    price: Option<i64>,
    creator: Option<u64>,
) -> Seq<(u64, Seq<char>, i64)> {
    if admissible(ps, user_id, id, price, creator) {
        ps.push((id, name, price.unwrap()))
    } else {
        ps
    }
}

/// Whether `ps` holds a pass with id `id`.
pub fn has_id(ps: &Vec<Gamepass>, id: u64) -> (r: bool)
    ensures
        r == contains_id(views(ps@), id),
{
    let mut i: usize = 0;
    while i < ps.len()
        invariant
            i <= ps@.len(),
            forall|j: int| 0 <= j < i ==> ps@[j].id != id,
        decreases ps@.len() - i,
    {
        if ps[i].id == id {
            assert(views(ps@)[i as int].0 == id);
            return true;
        }
        i = i + 1;
    }
    assert(forall|j: int| 0 <= j < ps@.len() ==> views(ps@)[j].0 == ps@[j].id);
    false
}

/// Offers a candidate to the accumulated passes: it is appended when its price
/// is positive, its reported creator (if any) is `user_id`, and its id is new.
pub fn offer(
    ps: &mut Vec<Gamepass>,
    user_id: u64,
    id: u64,
    name: String,
    price: Option<i64>,
    creator: Option<u64>,
) -> (added: bool)
    requires
        well_formed(views(old(ps)@)),
    ensures
        added == admissible(views(old(ps)@), user_id, id, price, creator),
        views(final(ps)@) == offered(views(old(ps)@), user_id, id, name@, price, creator),
        well_formed(views(final(ps)@)),
{
    let p: i64 = match price {
        Some(p) => p,
        None => 0,
    };
    if p <= 0 {
        return false;
    }
    match creator {
        Some(c) => {
            if c != user_id {
                return false;
            }
        },
        None => {},
    }
    if has_id(ps, id) {
        return false;
    }
    let ghost before = views(ps@);
    let g = Gamepass { id, name, price: p };
    ps.push(g);
    assert(views(ps@) =~= before.push(g@));
    proof {
        lemma_offer_keeps_well_formed(before, user_id, id, g.name@, price, creator);
    }
    true
}

/// Passes ordered by ascending price.
pub open spec fn sorted_by_price(ps: Seq<(u64, Seq<char>, i64)>) -> bool {
    forall|i: int, j: int| 0 <= i < j < ps.len() ==> ps[i].2 <= ps[j].2
}

/// The position in `ps` of the pass with id `id`.
pub open spec fn id_position(ps: Seq<(u64, Seq<char>, i64)>, id: u64) -> int {
    choose|m: int| 0 <= m < ps.len() && ps[m].0 == id
}

/// In a sequence of distinct ids, `id_position` finds the pass at `m` by its id.
proof fn lemma_id_position(ps: Seq<(u64, Seq<char>, i64)>, m: int)
    requires
        well_formed(ps),
        0 <= m < ps.len(),
    ensures
        id_position(ps, ps[m].0) == m,
{
    let c = id_position(ps, ps[m].0);
    assert(0 <= c < ps.len() && ps[c].0 == ps[m].0);
}

/// The passes reordered by ascending price; passes of equal price keep their
/// order. The same passes come out as went in.
pub fn sort_by_price(ps: &Vec<Gamepass>) -> (r: Vec<Gamepass>)
    requires
        well_formed(views(ps@)),
    ensures
        sorted_by_price(views(r@)),
        views(r@).to_multiset() == views(ps@).to_multiset(),
        well_formed(views(r@)),
        forall|i: int, j: int|
            0 <= i < j < r@.len() && views(r@)[i].2 == views(r@)[j].2 ==> id_position(
                views(ps@),
                views(r@)[i].0,
            ) < id_position(views(ps@), views(r@)[j].0),
{
    let mut out: Vec<Gamepass> = Vec::new();
    let ghost mut idx: Seq<int> = Seq::empty();
    let mut k: usize = 0;
    assert(views(out@) =~= Seq::empty());
    assert(views(ps@).subrange(0, 0) =~= Seq::empty());
    while k < ps.len()
        invariant
            k <= ps@.len(),
            well_formed(views(ps@)),
            well_formed(views(out@)),
            sorted_by_price(views(out@)),
            views(out@).to_multiset() == views(ps@).subrange(0, k as int).to_multiset(),
            idx.len() == out@.len(),
            forall|q: int|
                0 <= q < out@.len() ==> 0 <= #[trigger] idx[q] < k && views(out@)[q] == views(
                    ps@,
                )[idx[q]],
            forall|i: int, j: int|
                0 <= i < j < out@.len() && views(out@)[i].2 == views(out@)[j].2 ==> idx[i]
                    < idx[j],
        decreases ps@.len() - k,
    {
        let x = Gamepass { id: ps[k].id, name: ps[k].name.clone(), price: ps[k].price };
        assert(x@ == views(ps@)[k as int]);
        let mut p: usize = 0;
        while p < out.len() && out[p].price <= x.price
            invariant
                p <= out@.len(),
                forall|q: int| 0 <= q < p ==> out@[q].price <= x.price,
            decreases out@.len() - p,
        {
            p = p + 1;
        }
        let ghost before = views(out@);
        let ghost old_idx = idx;
        let ghost kk = k as int;
        assert(forall|q: int| 0 <= q < before.len() ==> before[q] == out@[q]@);
        assert(forall|q: int| p <= q < before.len() ==> before[q].2 > x.price) by {
            assert forall|q: int| p <= q < before.len() implies before[q].2 > x.price by {
                assert(before[p as int].2 > x.price);
                assert(before[p as int].2 <= before[q].2);
            }
        }
        assert forall|q: int| 0 <= q < before.len() implies before[q].0 != x.id by {
            assert(0 <= old_idx[q] < kk);
            assert(views(ps@)[old_idx[q]].0 != views(ps@)[kk].0);
        }
        out.insert(p, x);
        proof {
            idx = old_idx.insert(p as int, kk);
        }
        let ghost after = views(out@);
        assert(after =~= before.insert(p as int, x@));
        assert(views(ps@).subrange(0, kk + 1) =~= views(ps@).subrange(0, kk).push(x@));
        proof {
            vstd::seq_lib::to_multiset_insert(before, p as int, x@);
            vstd::seq_lib::to_multiset_build(views(ps@).subrange(0, kk), x@);
        }
        assert forall|q: int| 0 <= q < after.len() implies 0 <= #[trigger] idx[q] < kk + 1
            && after[q] == views(ps@)[idx[q]] by {
            if q < p {
                assert(idx[q] == old_idx[q]);
            } else if q > p {
                assert(idx[q] == old_idx[q - 1]);
            }
        }
        assert forall|i: int, j: int|
            0 <= i < j < after.len() && after[i].2 == after[j].2 implies idx[i] < idx[j] by {
            if j < p {
            } else if j == p {
                assert(idx[i] == old_idx[i]);
            } else if i < p {
                assert(idx[j] == old_idx[j - 1]);
            } else if i == p {
                assert(after[j] == before[j - 1]);
            } else {
                assert(idx[i] == old_idx[i - 1] && idx[j] == old_idx[j - 1]);
            }
        }
        k = k + 1;
    }
    assert(views(ps@).subrange(0, ps@.len() as int) =~= views(ps@));
    assert forall|i: int, j: int|
        0 <= i < j < out@.len() && views(out@)[i].2 == views(out@)[j].2 implies id_position(
            views(ps@),
            views(out@)[i].0,
        ) < id_position(views(ps@), views(out@)[j].0) by {
        assert(0 <= idx[i] < ps@.len());
        assert(0 <= idx[j] < ps@.len());
        lemma_id_position(views(ps@), idx[i]);
        lemma_id_position(views(ps@), idx[j]);
    }
    out
}

/// A pass whose creator is reported as another account is never added, whatever
/// was accumulated before.
pub proof fn lemma_creator_mismatch_rejected(
    ps: Seq<(u64, Seq<char>, i64)>,
    user_id: u64,
    id: u64,
    name: Seq<char>,
    price: Option<i64>,
    other: u64,
)
    requires
        other != user_id,
    ensures
        !admissible(ps, user_id, id, price, Some(other)),
        offered(ps, user_id, id, name, price, Some(other)) == ps,
{
}

/// Offering a candidate keeps the accumulated passes free of duplicate ids and
/// of non-positive prices.
pub proof fn lemma_offer_keeps_well_formed(
    ps: Seq<(u64, Seq<char>, i64)>,
    user_id: u64,
    id: u64,
    name: Seq<char>,
    price: Option<i64>,
    creator: Option<u64>,
)
    requires
        well_formed(ps),
    ensures
        well_formed(offered(ps, user_id, id, name, price, creator)),
{
    let qs = offered(ps, user_id, id, name, price, creator);
    if admissible(ps, user_id, id, price, creator) {
        assert forall|i: int, j: int| 0 <= i < j < qs.len() implies qs[i].0 != qs[j].0 by {
            if j == ps.len() {
                assert(ps[i].0 == qs[i].0);
            }
        }
    }
}

/// Offering the same candidate twice has the effect of offering it once.
pub proof fn lemma_offer_twice_same_as_once(
    ps: Seq<(u64, Seq<char>, i64)>,
    user_id: u64,
    id: u64,
    name: Seq<char>,
    price: Option<i64>,
    creator: Option<u64>,
)
    ensures
        offered(offered(ps, user_id, id, name, price, creator), user_id, id, name, price, creator)
            == offered(ps, user_id, id, name, price, creator),
{
    let q = offered(ps, user_id, id, name, price, creator);
    if admissible(ps, user_id, id, price, creator) {
        assert(q[ps.len() as int].0 == id);
    }
}

} // verus!
