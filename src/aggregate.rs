//! Merging the recipes of every cookbook into one priority-ordered text.
use vstd::prelude::*;

use crate::recipe::{CookbookError, CookbookTrait, Recipe};

verus! {

/// What one cookbook answered when asked for its recipes.
pub struct CookbookListing {
    pub name: String,
    pub priority: u32,
    pub recipes: Result<Vec<Recipe>, CookbookError>,
}

/// The order of `str`: lexicographic over characters, which is the order of
/// their UTF-8 bytes.
pub open spec fn name_le(a: Seq<char>, b: Seq<char>) -> bool
    decreases a.len(),
{
    if a.len() == 0 {
        true
    } else if b.len() == 0 {
        false
    } else if a[0] != b[0] {
        a[0] < b[0]
    } else {
        name_le(a.drop_first(), b.drop_first())
    }
}

/// Whether `a` may stand before `b`: lower priority first, then by name.
pub open spec fn listing_le(a: CookbookListing, b: CookbookListing) -> bool {
    a.priority < b.priority || (a.priority == b.priority && name_le(a.name@, b.name@))
}

/// `t` with `x` placed after every element from the end of `t` that may stand
/// before it.
pub open spec fn insert_listing(t: Seq<CookbookListing>, x: CookbookListing) -> Seq<
    CookbookListing,
>
    decreases t.len(),
{
    if t.len() == 0 {
        seq![x]
    } else if listing_le(t.last(), x) {
        t.push(x)
    } else {
        insert_listing(t.drop_last(), x).push(t.last())
    }
}

/// The stable sort of `s` by priority, then name.
pub open spec fn sort_listings(s: Seq<CookbookListing>) -> Seq<CookbookListing>
    decreases s.len(),
{
    if s.len() == 0 {
        s
    } else {
        insert_listing(sort_listings(s.drop_last()), s.last())
    }
}

/// The line for one recipe: `cookbook: name`, a tab and the description if
/// there is one, and a newline.
pub open spec fn recipe_line(cookbook: Seq<char>, r: (Seq<char>, Option<Seq<char>>)) -> Seq<char> {
    let head = cookbook + seq![':', ' '] + r.0;
    match r.1 {
        Some(d) => head + seq!['\t'] + d + seq!['\n'],
        None => head + seq!['\n'],
    }
}

/// The lines for the recipes `rs` of one cookbook.
pub open spec fn recipes_text(cookbook: Seq<char>, rs: Seq<(Seq<char>, Option<Seq<char>>)>) -> Seq<
    char,
>
    decreases rs.len(),
{
    if rs.len() == 0 {
        Seq::empty()
    } else {
        recipes_text(cookbook, rs.drop_last()) + recipe_line(cookbook, rs.last())
    }
}

/// The lines one listing contributes: none where the cookbook failed.
pub open spec fn listing_text(l: CookbookListing) -> Seq<char> {
    match l.recipes {
        Ok(v) => recipes_text(l.name@, v@.map_values(|r: Recipe| r@)),
        Err(_) => Seq::empty(),
    }
}

/// The lines of the listings `s`, in their order.
pub open spec fn listings_text(s: Seq<CookbookListing>) -> Seq<char>
    decreases s.len(),
{
    if s.len() == 0 {
        Seq::empty()
    } else {
        listings_text(s.drop_last()) + listing_text(s.last())
    }
}

/// The aggregated text of the listings `s`.
pub open spec fn aggregate(s: Seq<CookbookListing>) -> Seq<char> {
    listings_text(sort_listings(s))
}

/// Compares two names as `str` orders them.
pub fn name_le_exec(a: &str, b: &str) -> (r: bool)
    ensures
        r == name_le(a@, b@),
{
    let la = a.unicode_len();
    let lb = b.unicode_len();
    let mut k: usize = 0;
    assert(a@.subrange(0, la as int) =~= a@);
    assert(b@.subrange(0, lb as int) =~= b@);
    loop
        invariant
            la == a@.len(),
            lb == b@.len(),
            k <= la,
            k <= lb,
            name_le(a@, b@) == name_le(
                a@.subrange(k as int, la as int),
                b@.subrange(k as int, lb as int),
            ),
        decreases la - k,
    {
        if k == la {
            return true;
        }
        if k == lb {
            return false;
        }
        let ca = a.get_char(k);
        let cb = b.get_char(k);
        if ca != cb {
            return ca < cb;
        }
        assert(a@.subrange(k as int, la as int).drop_first() =~= a@.subrange(k + 1, la as int));
        assert(b@.subrange(k as int, lb as int).drop_first() =~= b@.subrange(k + 1, lb as int));
        k = k + 1;
    }
}

/// Whether `a` may stand before `b`.
pub fn listing_le_exec(a: &CookbookListing, b: &CookbookListing) -> (r: bool)
    ensures
        r == listing_le(*a, *b),
{
    if a.priority != b.priority {
        a.priority < b.priority
    } else {
        name_le_exec(a.name.as_str(), b.name.as_str())
    }
}

/// Inserts `x` into `t` at its place in the order.
fn insert_sorted(t: &mut Vec<CookbookListing>, x: CookbookListing)
    ensures
        final(t)@ == insert_listing(old(t)@, x),
{
    let n = t.len();
    let mut p: usize = n;
    assert(t@.subrange(0, n as int) =~= t@);
    assert(insert_listing(t@, x) =~= insert_listing(t@.subrange(0, n as int), x) + t@.subrange(
        n as int,
        n as int,
    ));
    while p > 0 && !listing_le_exec(&t[p - 1], &x)
        invariant
            n == t@.len(),
            p <= n,
            insert_listing(t@, x) == insert_listing(t@.subrange(0, p as int), x) + t@.subrange(
                p as int,
                n as int,
            ),
        decreases p,
    {
        let ghost pre = t@.subrange(0, p as int);
        assert(pre.drop_last() =~= t@.subrange(0, p - 1));
        assert(insert_listing(pre, x) == insert_listing(t@.subrange(0, p - 1), x).push(t@[p - 1]));
        assert(insert_listing(t@.subrange(0, p - 1), x).push(t@[p - 1]) + t@.subrange(
            p as int,
            n as int,
        ) =~= insert_listing(t@.subrange(0, p - 1), x) + t@.subrange(p - 1, n as int));
        p = p - 1;
    }
    let ghost before = t@;
    t.insert(p, x);
    assert(t@ =~= insert_listing(before.subrange(0, p as int), x) + before.subrange(
        p as int,
        n as int,
    ));
}

/// Sorts listings by priority, then by name, keeping the order of equal ones.
pub fn sort_by_priority(v: Vec<CookbookListing>) -> (r: Vec<CookbookListing>)
    ensures
        r@ == sort_listings(v@),
{
    let ghost orig = v@;
    let n = v.len();
    let mut rest = v;
    let mut out: Vec<CookbookListing> = Vec::new();
    let mut i: usize = 0;
    assert(orig.subrange(0, 0) =~= Seq::<CookbookListing>::empty());
    assert(orig.subrange(0, n as int) =~= orig);
    while i < n
        invariant
            n == orig.len(),
            i <= n,
            rest@ == orig.subrange(i as int, n as int),
            out@ == sort_listings(orig.subrange(0, i as int)),
        decreases n - i,
    {
        let x = rest.remove(0);
        assert(orig.subrange(0, i + 1).drop_last() =~= orig.subrange(0, i as int));
        assert(rest@ =~= orig.subrange(i + 1, n as int));
        insert_sorted(&mut out, x);
        i = i + 1;
    }
    out
}

/// Appends the lines of one listing.
fn append_listing(out: &mut String, l: &CookbookListing)
    ensures
        final(out)@ == old(out)@ + listing_text(*l),
{
    match &l.recipes {
        Err(_) => {
            assert(old(out)@ + Seq::<char>::empty() =~= old(out)@);
        },
        Ok(v) => {
            let ghost rs = v@.map_values(|r: Recipe| r@);
            let ghost start = out@;
            let mut i: usize = 0;
            assert(rs.subrange(0, 0) =~= Seq::<(Seq<char>, Option<Seq<char>>)>::empty());
            assert(start + Seq::<char>::empty() =~= start);
            while i < v.len()
                invariant
                    rs == v@.map_values(|r: Recipe| r@),
                    i <= v@.len(),
                    out@ == start + recipes_text(l.name@, rs.subrange(0, i as int)),
                decreases v@.len() - i,
            {
                let r = &v[i];
                let ghost before = out@;
                proof {
                    reveal_strlit(": ");
                    reveal_strlit("\t");
                    reveal_strlit("\n");
                }
                out.append(l.name.as_str());
                out.append(": ");
                out.append(r.name.as_str());
                match &r.description {
                    Some(d) => {
                        out.append("\t");
                        out.append(d.as_str());
                    },
                    None => {},
                }
                out.append("\n");
                assert(rs.subrange(0, i + 1).drop_last() =~= rs.subrange(0, i as int));
                assert(rs.subrange(0, i + 1).last() == r@);
                assert(out@ =~= before + recipe_line(l.name@, r@));
                i = i + 1;
            }
            assert(rs.subrange(0, v@.len() as int) =~= rs);
        },
    }
}

/// The aggregated text of `listings`: sorted by priority then name, one line
/// per recipe, failed cookbooks left out.
pub fn aggregate_listings(listings: Vec<CookbookListing>) -> (r: String)
    ensures
        r@ == aggregate(listings@),
{
    let sorted = sort_by_priority(listings);
    let mut out = String::new();
    let mut i: usize = 0;
    assert(sorted@.subrange(0, 0) =~= Seq::<CookbookListing>::empty());
    while i < sorted.len()
        invariant
            i <= sorted@.len(),
            out@ == listings_text(sorted@.subrange(0, i as int)),
        decreases sorted@.len() - i,
    {
        append_listing(&mut out, &sorted[i]);
        assert(sorted@.subrange(0, i + 1).drop_last() =~= sorted@.subrange(0, i as int));
        i = i + 1;
    }
    assert(sorted@.subrange(0, sorted@.len() as int) =~= sorted@);
    out
}

/// Asks every cookbook for its recipes and aggregates the answers.
pub fn collect_all_recipes(cookbooks: &[Box<dyn CookbookTrait>]) -> (r: String)
    ensures
        exists|ls: Seq<CookbookListing>|
            ls.len() == cookbooks@.len() && r@ == #[trigger] aggregate(ls),
{
    let mut listings: Vec<CookbookListing> = Vec::new();
    let mut i: usize = 0;
    while i < cookbooks.len()
        invariant
            i <= cookbooks@.len(),
            listings@.len() == i,
        decreases cookbooks@.len() - i,
    {
        let c = &cookbooks[i];
        let name = c.name().to_owned();
        let priority = c.priority();
        let recipes = c.list_recipes();
        listings.push(CookbookListing { name, priority, recipes });
        i = i + 1;
    }
    let ghost ls = listings@;
    let r = aggregate_listings(listings);
    assert(ls.len() == cookbooks@.len() && r@ == aggregate(ls));
    r
}

/// Whether each listing of `s` may stand before the next one.
pub open spec fn ordered(s: Seq<CookbookListing>) -> bool {
    forall|i: int| 0 <= i < s.len() - 1 ==> #[trigger] listing_le(s[i], s[i + 1])
}

proof fn lemma_name_le_total(a: Seq<char>, b: Seq<char>)
    ensures
        name_le(a, b) || name_le(b, a),
    decreases a.len(),
{
    if a.len() > 0 && b.len() > 0 && a[0] == b[0] {
        lemma_name_le_total(a.drop_first(), b.drop_first());
    }
}

proof fn lemma_insert_shape(t: Seq<CookbookListing>, x: CookbookListing)
    ensures
        insert_listing(t, x).len() == t.len() + 1,
        insert_listing(t, x).last() == x || (t.len() > 0 && insert_listing(t, x).last() == t.last()),
        insert_listing(t, x).to_multiset() =~= t.to_multiset().insert(x),
    decreases t.len(),
{
    vstd::seq_lib::to_multiset_build(t, x);
    if t.len() == 0 {
        assert(seq![x] =~= t.push(x));
    } else if !listing_le(t.last(), x) {
        let u = insert_listing(t.drop_last(), x);
        lemma_insert_shape(t.drop_last(), x);
        vstd::seq_lib::to_multiset_build(u, t.last());
        vstd::seq_lib::to_multiset_build(t.drop_last(), t.last());
        assert(t.drop_last().push(t.last()) =~= t);
    }
}

proof fn lemma_insert_ordered(t: Seq<CookbookListing>, x: CookbookListing)
    requires
        ordered(t),
    ensures
        ordered(insert_listing(t, x)),
    decreases t.len(),
{
    let r = insert_listing(t, x);
    if t.len() == 0 {
    } else if listing_le(t.last(), x) {
        assert forall|i: int| 0 <= i < r.len() - 1 implies #[trigger] listing_le(r[i], r[i + 1]) by {
            if i < t.len() - 1 {
                assert(listing_le(t[i], t[i + 1]));
            }
        }
    } else {
        let d = t.drop_last();
        assert(ordered(d)) by {
            assert forall|i: int| 0 <= i < d.len() - 1 implies #[trigger] listing_le(d[i], d[i + 1]) by {
                assert(listing_le(t[i], t[i + 1]));
            }
        }
        lemma_insert_ordered(d, x);
        lemma_insert_shape(d, x);
        let u = insert_listing(d, x);
        lemma_name_le_total(x.name@, t.last().name@);
        if d.len() > 0 {
            let j = t.len() - 2;
            assert(listing_le(t[j], t[j + 1]));
            assert(d.last() == t[j] && t.last() == t[j + 1]);
        }
        assert(listing_le(u.last(), t.last()));
        assert forall|i: int| 0 <= i < r.len() - 1 implies #[trigger] listing_le(r[i], r[i + 1]) by {
            if i < u.len() - 1 {
                assert(listing_le(u[i], u[i + 1]));
            }
        }
    }
}

/// Priority ordering: the aggregated text is the text of the listings
/// rearranged so that priorities ascend, names ascending among equal
/// priorities; no listing is lost or repeated.
pub proof fn lemma_aggregate_order(ls: Seq<CookbookListing>)
    ensures
        ordered(sort_listings(ls)),
        sort_listings(ls).to_multiset() == ls.to_multiset(),
        aggregate(ls) == listings_text(sort_listings(ls)),
    decreases ls.len(),
{
    if ls.len() == 0 {
        assert(ls.to_multiset() =~= vstd::multiset::Multiset::empty()) by {
            broadcast use vstd::seq_lib::group_to_multiset_ensures;
        }
    } else {
        let d = ls.drop_last();
        lemma_aggregate_order(d);
        lemma_insert_ordered(sort_listings(d), ls.last());
        lemma_insert_shape(sort_listings(d), ls.last());
        vstd::seq_lib::to_multiset_build(d, ls.last());
        assert(d.push(ls.last()) =~= ls);
    }
}

/// The listings of `s` whose cookbook answered, in order.
pub open spec fn answered(s: Seq<CookbookListing>) -> Seq<CookbookListing>
    decreases s.len(),
{
    if s.len() == 0 {
        s
    } else if s.last().recipes is Ok {
        answered(s.drop_last()).push(s.last())
    } else {
        answered(s.drop_last())
    }
}

proof fn lemma_name_le_trans(a: Seq<char>, b: Seq<char>, c: Seq<char>)
    requires
        name_le(a, b),
        name_le(b, c),
    ensures
        name_le(a, c),
    decreases a.len(),
{
    if a.len() > 0 && b.len() > 0 && c.len() > 0 && a[0] == b[0] && b[0] == c[0] {
        lemma_name_le_trans(a.drop_first(), b.drop_first(), c.drop_first());
    }
}

proof fn lemma_listing_le_trans(a: CookbookListing, b: CookbookListing, c: CookbookListing)
    requires
        listing_le(a, b),
        listing_le(b, c),
    ensures
        listing_le(a, c),
{
    if a.priority == b.priority && b.priority == c.priority {
        lemma_name_le_trans(a.name@, b.name@, c.name@);
    }
}

/// In an ordered sequence, every element may stand before the last one.
proof fn lemma_ordered_before_last(t: Seq<CookbookListing>, j: int)
    requires
        ordered(t),
        0 <= j < t.len(),
    ensures
        listing_le(t[j], t.last()),
    decreases t.len() - j,
{
    if j < t.len() - 1 {
        lemma_ordered_before_last(t, j + 1);
        assert(listing_le(t[j], t[j + 1]));
        lemma_listing_le_trans(t[j], t[j + 1], t.last());
    } else {
        lemma_name_le_total(t[j].name@, t[j].name@);
    }
}

proof fn lemma_ordered_drop_last(t: Seq<CookbookListing>)
    requires
        ordered(t),
        t.len() > 0,
    ensures
        ordered(t.drop_last()),
{
    let d = t.drop_last();
    assert forall|i: int| 0 <= i < d.len() - 1 implies #[trigger] listing_le(d[i], d[i + 1]) by {
        assert(listing_le(t[i], t[i + 1]));
    }
}

/// Every listing that `answered(t)` keeps is one of `t`.
proof fn lemma_answered_from(t: Seq<CookbookListing>)
    ensures
        answered(t).len() <= t.len(),
        forall|i: int|
            0 <= i < answered(t).len() ==> exists|j: int|
                0 <= j < t.len() && #[trigger] answered(t)[i] == t[j],
    decreases t.len(),
{
    if t.len() > 0 {
        let d = t.drop_last();
        lemma_answered_from(d);
        assert forall|i: int| 0 <= i < answered(t).len() implies exists|j: int|
            0 <= j < t.len() && #[trigger] answered(t)[i] == t[j] by {
            if i < answered(d).len() {
                assert(answered(t)[i] == answered(d)[i]);
                let j = choose|j: int| 0 <= j < d.len() && #[trigger] answered(d)[i] == d[j];
                assert(d[j] == t[j]);
            } else {
                assert(answered(t)[i] == t[t.len() - 1]);
            }
        }
    }
}

proof fn lemma_answered_insert(t: Seq<CookbookListing>, x: CookbookListing)
    requires
        ordered(t),
    ensures
        answered(insert_listing(t, x)) == if x.recipes is Ok {
            insert_listing(answered(t), x)
        } else {
            answered(t)
        },
    decreases t.len(),
{
    let r = insert_listing(t, x);
    if t.len() == 0 {
        assert(r.drop_last() =~= t);
    } else if listing_le(t.last(), x) {
        assert(r.drop_last() =~= t);
        if x.recipes is Ok {
            let a = answered(t);
            if a.len() > 0 {
                lemma_answered_from(t);
                let j = choose|j: int| 0 <= j < t.len() && #[trigger] a[a.len() - 1] == t[j];
                lemma_ordered_before_last(t, j);
                lemma_listing_le_trans(a.last(), t.last(), x);
            }
        }
    } else {
        let d = t.drop_last();
        lemma_ordered_drop_last(t);
        lemma_answered_insert(d, x);
        assert(r.drop_last() =~= insert_listing(d, x));
        assert(r.last() == t.last());
        if t.last().recipes is Ok {
            assert(answered(t).drop_last() =~= answered(d));
            assert(answered(t).last() == t.last());
        } else {
            assert(answered(t) == answered(d));
        }
    }
}

/// `answered` drops exactly the listings that add no text.
proof fn lemma_answered_text(t: Seq<CookbookListing>)
    ensures
        listings_text(answered(t)) == listings_text(t),
    decreases t.len(),
{
    if t.len() > 0 {
        lemma_answered_text(t.drop_last());
        if t.last().recipes is Ok {
            assert(answered(t).drop_last() =~= answered(t.drop_last()));
        } else {
            assert(listings_text(t) =~= listings_text(t.drop_last()));
        }
    }
}

proof fn lemma_sort_answered(s: Seq<CookbookListing>)
    ensures
        answered(sort_listings(s)) == sort_listings(answered(s)),
    decreases s.len(),
{
    if s.len() > 0 {
        let d = s.drop_last();
        lemma_sort_answered(d);
        lemma_aggregate_order(d);
        lemma_answered_insert(sort_listings(d), s.last());
        if s.last().recipes is Ok {
            assert(answered(s).drop_last() =~= answered(d));
        }
    }
}

/// Fault tolerance: the aggregated text depends only on the cookbooks that
/// answered; those that failed, wherever they stand, leave it exactly as the
/// others make it.
pub proof fn lemma_failed_cookbooks_ignored(ls: Seq<CookbookListing>)
    ensures
        aggregate(ls) == aggregate(answered(ls)),
{
    lemma_sort_answered(ls);
    lemma_answered_text(sort_listings(ls));
}

} // verus!
