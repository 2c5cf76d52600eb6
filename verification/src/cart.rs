//! Cart editing on an order: adding menu items, quantities, notes, merging
//! carts when tables are combined, and kitchen-ticket (KOT) batches.
use vstd::prelude::*;

use crate::models::{lines_view, opt_view, CartLine, CartLineView, Order};
use crate::text::{chars_eq, chars_of};

verus! {

// ---------------------------------------------------------------------------
// Specifications
// ---------------------------------------------------------------------------

/// Everything of an order but its cart and selected cart line is unchanged.
pub open spec fn same_but_cart<M>(a: Order<M>, b: Order<M>) -> bool {
    &&& a.id == b.id
    &&& a.label == b.label
    &&& a.service == b.service
    &&& a.table_number == b.table_number
    &&& a.area == b.area
    &&& a.is_ac == b.is_ac
    &&& a.ac_rate == b.ac_rate
    &&& a.discount_percent == b.discount_percent
    &&& a.status == b.status
    &&& a.customer_mobile == b.customer_mobile
    &&& a.payment_mode == b.payment_mode
    &&& a.kot_sent_count == b.kot_sent_count
}

/// Index of the first line of `cart` named `name`.
pub open spec fn first_named<M>(cart: Seq<CartLineView<M>>, name: Seq<char>) -> Option<int>
    decreases cart.len(),
{
    if cart.len() == 0 {
        None
    } else if cart.last().name == name && first_named(cart.drop_last(), name) is None {
        Some(cart.len() - 1)
    } else {
        first_named(cart.drop_last(), name)
    }
}

/// Index of the first line of `cart` with the same name and note as `l`.
pub open spec fn first_same_dish<M>(cart: Seq<CartLineView<M>>, l: CartLineView<M>) -> Option<int>
    decreases cart.len(),
{
    if cart.len() == 0 {
        None
    } else if cart.last().name == l.name && cart.last().note == l.note
        && first_same_dish(cart.drop_last(), l) is None {
        Some(cart.len() - 1)
    } else {
        first_same_dish(cart.drop_last(), l)
    }
}

/// The cart after one unit of the dish `name` at `price` is added: the first
/// line with that name gains one unit, or a new line of one unit is appended.
pub open spec fn cart_with_item<M>(cart: Seq<CartLineView<M>>, name: Seq<char>, price: M) -> Seq<
    CartLineView<M>,
> {
    match first_named(cart, name) {
        Some(i) => cart.update(i, CartLineView { qty: cart[i].qty + 1, ..cart[i] }),
        None => cart.push(
            CartLineView { name, unit_price: price, qty: 1, note: None, kot_sent_qty: 0 },
        ),
    }
}

/// `l` folded into `target`: added to the quantity of the first line with the
/// same name and note, or appended as it is.
pub open spec fn merge_line<M>(target: Seq<CartLineView<M>>, l: CartLineView<M>) -> Seq<
    CartLineView<M>,
> {
    match first_same_dish(target, l) {
        Some(i) => target.update(i, CartLineView { qty: target[i].qty + l.qty, ..target[i] }),
        None => target.push(l),
    }
}

/// The lines of `src`, in order, folded into `target`.
pub open spec fn merge_lines<M>(target: Seq<CartLineView<M>>, src: Seq<CartLineView<M>>) -> Seq<
    CartLineView<M>,
>
    decreases src.len(),
{
    if src.len() == 0 {
        target
    } else {
        merge_lines(merge_line(target, src[0]), src.drop_first())
    }
}

/// Total number of units in a cart.
pub open spec fn total_qty<M>(cart: Seq<CartLineView<M>>) -> nat
    decreases cart.len(),
{
    if cart.len() == 0 {
        0
    } else {
        total_qty(cart.drop_last()) + cart.last().qty
    }
}

/// Units of a line not yet sent to the kitchen.
pub open spec fn unsent_qty<M>(l: CartLineView<M>) -> nat {
    if l.qty > l.kot_sent_qty {
        (l.qty - l.kot_sent_qty) as nat
    } else {
        0
    }
}

/// The lines that still have units to send, each carrying only those units.
pub open spec fn delta_lines<M>(cart: Seq<CartLineView<M>>) -> Seq<CartLineView<M>>
    decreases cart.len(),
{
    if cart.len() == 0 {
        Seq::empty()
    } else if unsent_qty(cart.last()) > 0 {
        delta_lines(cart.drop_last()).push(
            CartLineView { qty: unsent_qty(cart.last()), ..cart.last() },
        )
    } else {
        delta_lines(cart.drop_last())
    }
}

/// The cart after a kitchen ticket: every unit counts as sent.
pub open spec fn all_sent<M>(cart: Seq<CartLineView<M>>) -> Seq<CartLineView<M>> {
    cart.map_values(|l: CartLineView<M>| CartLineView { kot_sent_qty: l.qty, ..l })
}

/// What the next kitchen ticket of a cart holds, and how it is marked:
/// (lines, is_reprint, is_delta). Nothing new after an earlier ticket reprints
/// the whole cart; new units after an earlier ticket print as an add-on.
pub open spec fn kot_batch<M>(cart: Seq<CartLineView<M>>, kot_sent_count: nat) -> (
    Seq<CartLineView<M>>,
    bool,
    bool,
) {
    let delta = delta_lines(cart);
    let is_delta = delta.len() > 0 && kot_sent_count > 0;
    let is_reprint = delta.len() == 0 && kot_sent_count > 0;
    let items = if is_reprint {
        cart
    } else if delta.len() > 0 {
        delta
    } else {
        cart
    };
    (items, is_reprint, is_delta)
}

// ---------------------------------------------------------------------------
// Lemmas
// ---------------------------------------------------------------------------

pub proof fn lemma_first_named_bounds<M>(cart: Seq<CartLineView<M>>, name: Seq<char>)
    ensures
        first_named(cart, name) matches Some(i) ==> 0 <= i < cart.len() && cart[i].name == name,
        first_named(cart, name) is None ==> forall|j: int| 0 <= j < cart.len() ==> cart[j].name != name,
        first_named(cart, name) matches Some(i) ==> forall|j: int| 0 <= j < i ==> cart[j].name != name,
    decreases cart.len(),
{
    if cart.len() > 0 {
        let d = cart.drop_last();
        lemma_first_named_bounds(d, name);
        assert(forall|j: int| 0 <= j < d.len() ==> d[j] == cart[j]);
    }
}

pub proof fn lemma_first_same_dish_bounds<M>(cart: Seq<CartLineView<M>>, l: CartLineView<M>)
    ensures
        first_same_dish(cart, l) matches Some(i) ==> 0 <= i < cart.len() && cart[i].name == l.name
            && cart[i].note == l.note,
        first_same_dish(cart, l) is None ==> forall|j: int|
            0 <= j < cart.len() ==> !(cart[j].name == l.name && cart[j].note == l.note),
        first_same_dish(cart, l) matches Some(i) ==> forall|j: int|
            0 <= j < i ==> !(cart[j].name == l.name && cart[j].note == l.note),
    decreases cart.len(),
{
    if cart.len() > 0 {
        let d = cart.drop_last();
        lemma_first_same_dish_bounds(d, l);
        assert(forall|j: int| 0 <= j < d.len() ==> d[j] == cart[j]);
    }
}

/// The first match is characterised by being a match with no match before it.
pub proof fn lemma_first_named_unique<M>(cart: Seq<CartLineView<M>>, name: Seq<char>, i: int)
    requires
        0 <= i < cart.len(),
        cart[i].name == name,
        forall|j: int| 0 <= j < i ==> cart[j].name != name,
    ensures
        first_named(cart, name) == Some(i),
    decreases cart.len(),
{
    lemma_first_named_bounds(cart, name);
    if i < cart.len() - 1 {
        lemma_first_named_unique(cart.drop_last(), name, i);
    } else {
        lemma_first_named_bounds(cart.drop_last(), name);
    }
}

pub proof fn lemma_first_same_dish_unique<M>(cart: Seq<CartLineView<M>>, l: CartLineView<M>, i: int)
    requires
        0 <= i < cart.len(),
        cart[i].name == l.name && cart[i].note == l.note,
        forall|j: int| 0 <= j < i ==> !(cart[j].name == l.name && cart[j].note == l.note),
    ensures
        first_same_dish(cart, l) == Some(i),
    decreases cart.len(),
{
    lemma_first_same_dish_bounds(cart, l);
    if i < cart.len() - 1 {
        lemma_first_same_dish_unique(cart.drop_last(), l, i);
    } else {
        lemma_first_same_dish_bounds(cart.drop_last(), l);
    }
}

pub proof fn lemma_total_qty_update<M>(cart: Seq<CartLineView<M>>, i: int, l: CartLineView<M>)
    requires
        0 <= i < cart.len(),
    ensures
        total_qty(cart.update(i, l)) + cart[i].qty == total_qty(cart) + l.qty,
    decreases cart.len(),
{
    if i < cart.len() - 1 {
        lemma_total_qty_update(cart.drop_last(), i, l);
        assert(cart.update(i, l).drop_last() =~= cart.drop_last().update(i, l));
    } else {
        assert(cart.update(i, l).drop_last() =~= cart.drop_last());
    }
}

pub proof fn lemma_total_qty_push<M>(cart: Seq<CartLineView<M>>, l: CartLineView<M>)
    ensures
        total_qty(cart.push(l)) == total_qty(cart) + l.qty,
{
    assert(cart.push(l).drop_last() =~= cart);
}

/// Folding one line into a cart adds exactly its units.
pub proof fn lemma_merge_line_total<M>(target: Seq<CartLineView<M>>, l: CartLineView<M>)
    ensures
        total_qty(merge_line(target, l)) == total_qty(target) + l.qty,
        merge_line(target, l).len() >= target.len(),
{
    lemma_first_same_dish_bounds(target, l);
    match first_same_dish(target, l) {
        Some(i) => {
            lemma_total_qty_update(target, i, CartLineView { qty: target[i].qty + l.qty, ..target[i] });
        },
        None => {
            lemma_total_qty_push(target, l);
        },
    }
}

pub proof fn lemma_total_qty_drop_first<M>(s: Seq<CartLineView<M>>)
    requires
        s.len() > 0,
    ensures
        total_qty(s) == s[0].qty + total_qty(s.drop_first()),
    decreases s.len(),
{
    if s.len() > 1 {
        let d = s.drop_last();
        lemma_total_qty_drop_first(d);
        assert(d.drop_first() =~= s.drop_first().drop_last());
        assert(d[0] == s[0]);
        assert(s.drop_first().last() == s.last());
    } else {
        assert(s.drop_first().len() == 0);
        assert(s.drop_last().len() == 0);
        assert(total_qty(s.drop_last()) == 0);
        assert(total_qty(s.drop_first()) == 0);
    }
}

/// Merging two carts keeps every unit: no dish is lost or duplicated.
pub proof fn lemma_merge_lines_total<M>(target: Seq<CartLineView<M>>, src: Seq<CartLineView<M>>)
    ensures
        total_qty(merge_lines(target, src)) == total_qty(target) + total_qty(src),
    decreases src.len(),
{
    if src.len() > 0 {
        lemma_merge_line_total(target, src[0]);
        lemma_merge_lines_total(merge_line(target, src[0]), src.drop_first());
        lemma_total_qty_drop_first(src);
    }
}

/// Units on the lines of `cart` that carry the dish `name` with the cooking
/// note `note`.
pub open spec fn dish_qty<M>(cart: Seq<CartLineView<M>>, name: Seq<char>, note: Option<Seq<char>>) -> nat
    decreases cart.len(),
{
    if cart.len() == 0 {
        0
    } else {
        dish_qty(cart.drop_last(), name, note) + if cart.last().name == name && cart.last().note == note {
            cart.last().qty
        } else {
            0nat
        }
    }
}

/// Units of `l` that count as the dish `name` with note `note`.
pub open spec fn line_dish_qty<M>(l: CartLineView<M>, name: Seq<char>, note: Option<Seq<char>>) -> nat {
    if l.name == name && l.note == note {
        l.qty
    } else {
        0
    }
}

proof fn lemma_dish_qty_update<M>(
    cart: Seq<CartLineView<M>>,
    i: int,
    l: CartLineView<M>,
    name: Seq<char>,
    note: Option<Seq<char>>,
)
    requires
        0 <= i < cart.len(),
    ensures
        dish_qty(cart.update(i, l), name, note) + line_dish_qty(cart[i], name, note) == dish_qty(cart, name, note)
            + line_dish_qty(l, name, note),
    decreases cart.len(),
{
    if i < cart.len() - 1 {
        lemma_dish_qty_update(cart.drop_last(), i, l, name, note);
        assert(cart.update(i, l).drop_last() =~= cart.drop_last().update(i, l));
    } else {
        assert(cart.update(i, l).drop_last() =~= cart.drop_last());
    }
}

proof fn lemma_dish_qty_drop_first<M>(s: Seq<CartLineView<M>>, name: Seq<char>, note: Option<Seq<char>>)
    requires
        s.len() > 0,
    ensures
        dish_qty(s, name, note) == line_dish_qty(s[0], name, note) + dish_qty(s.drop_first(), name, note),
    decreases s.len(),
{
    if s.len() > 1 {
        let d = s.drop_last();
        lemma_dish_qty_drop_first(d, name, note);
        assert(d.drop_first() =~= s.drop_first().drop_last());
        assert(d[0] == s[0]);
        assert(s.drop_first().last() == s.last());
    } else {
        assert(s.drop_first().len() == 0);
        assert(s.drop_last().len() == 0);
        assert(dish_qty(s.drop_last(), name, note) == 0);
        assert(dish_qty(s.drop_first(), name, note) == 0);
    }
}

/// Folding one line into a cart adds its units to its own dish and note, and
/// to no other.
proof fn lemma_merge_line_dish<M>(
    target: Seq<CartLineView<M>>,
    l: CartLineView<M>,
    name: Seq<char>,
    note: Option<Seq<char>>,
)
    ensures
        dish_qty(merge_line(target, l), name, note) == dish_qty(target, name, note) + line_dish_qty(l, name, note),
{
    lemma_first_same_dish_bounds(target, l);
    match first_same_dish(target, l) {
        Some(i) => {
            lemma_dish_qty_update(target, i, CartLineView { qty: target[i].qty + l.qty, ..target[i] }, name, note);
        },
        None => {
            assert(target.push(l).drop_last() =~= target);
        },
    }
}

/// Merging two carts keeps every dish with its cooking note apart: for each
/// dish name and note, the merged cart holds exactly the units that the two
/// carts held under that same name and note, so a line is only ever combined
/// with a line of the same dish and the same note.
pub proof fn lemma_merge_keeps_dishes_and_notes<M>(
    target: Seq<CartLineView<M>>,
    src: Seq<CartLineView<M>>,
    name: Seq<char>,
    note: Option<Seq<char>>,
)
    ensures
        dish_qty(merge_lines(target, src), name, note) == dish_qty(target, name, note) + dish_qty(src, name, note),
    decreases src.len(),
{
    if src.len() > 0 {
        lemma_merge_line_dish(target, src[0], name, note);
        lemma_merge_keeps_dishes_and_notes(merge_line(target, src[0]), src.drop_first(), name, note);
        lemma_dish_qty_drop_first(src, name, note);
    } else {
        assert(dish_qty(src, name, note) == 0);
    }
}

/// Line `b` is line `a` with perhaps another quantity.
pub open spec fn same_line_but_qty<M>(a: CartLineView<M>, b: CartLineView<M>) -> bool {
    a.name == b.name && a.note == b.note && a.unit_price == b.unit_price && a.kot_sent_qty == b.kot_sent_qty
}

/// The lines from `start` on each carry a dish and note that no earlier line carries.
pub open spec fn new_dishes_from<M>(c: Seq<CartLineView<M>>, start: int) -> bool {
    forall|i: int, j: int|
        0 <= i < j < c.len() && start <= j ==> !(#[trigger] c[i].name == #[trigger] c[j].name && c[i].note == c[j].note)
}

/// The shape of a merge into `target` of lines taken from `src`: the target's
/// lines stay where they were, changed at most in quantity; every further
/// line is one of `src`'s lines (perhaps with more units) for a dish and note
/// that no earlier line carries.
pub open spec fn merge_shape<M>(
    target: Seq<CartLineView<M>>,
    src: Seq<CartLineView<M>>,
    c: Seq<CartLineView<M>>,
) -> bool {
    &&& c.len() >= target.len()
    &&& forall|j: int| 0 <= j < target.len() ==> same_line_but_qty(#[trigger] target[j], c[j])
    &&& forall|j: int|
        target.len() <= j < c.len() ==> exists|m: int| 0 <= m < src.len() && same_line_but_qty(src[m], #[trigger] c[j])
    &&& new_dishes_from(c, target.len() as int)
}

proof fn lemma_merge_shape_step<M>(
    target: Seq<CartLineView<M>>,
    all: Seq<CartLineView<M>>,
    c: Seq<CartLineView<M>>,
    rest: Seq<CartLineView<M>>,
)
    requires
        merge_shape(target, all, c),
        forall|k: int| 0 <= k < rest.len() ==> all.contains(#[trigger] rest[k]),
    ensures
        merge_shape(target, all, merge_lines(c, rest)),
    decreases rest.len(),
{
    if rest.len() > 0 {
        let l = rest[0];
        assert(all.contains(rest[0]));
        let m0 = choose|m: int| 0 <= m < all.len() && all[m] == rest[0];
        let c2 = merge_line(c, l);
        lemma_first_same_dish_bounds(c, l);
        match first_same_dish(c, l) {
            Some(i) => {
                let x = CartLineView { qty: c[i].qty + l.qty, ..c[i] };
                assert(c2 == c.update(i, x));
                assert forall|j: int| target.len() <= j < c2.len() implies exists|m: int|
                    0 <= m < all.len() && same_line_but_qty(all[m], #[trigger] c2[j]) by {
                    let mm = choose|m: int| 0 <= m < all.len() && same_line_but_qty(all[m], #[trigger] c[j]);
                    assert(same_line_but_qty(all[mm], c2[j]));
                }
                assert forall|a: int, b: int|
                    0 <= a < b < c2.len() && target.len() <= b implies !(#[trigger] c2[a].name == #[trigger] c2[b].name
                    && c2[a].note == c2[b].note) by {
                    assert(c[a].name == c2[a].name && c[a].note == c2[a].note);
                    assert(c[b].name == c2[b].name && c[b].note == c2[b].note);
                }
            },
            None => {
                assert(c2 == c.push(l));
                assert forall|j: int| target.len() <= j < c2.len() implies exists|m: int|
                    0 <= m < all.len() && same_line_but_qty(all[m], #[trigger] c2[j]) by {
                    if j == c.len() {
                        assert(same_line_but_qty(all[m0], c2[j]));
                    } else {
                        let mm = choose|m: int| 0 <= m < all.len() && same_line_but_qty(all[m], #[trigger] c[j]);
                        assert(same_line_but_qty(all[mm], c2[j]));
                    }
                }
                assert forall|a: int, b: int|
                    0 <= a < b < c2.len() && target.len() <= b implies !(#[trigger] c2[a].name == #[trigger] c2[b].name
                    && c2[a].note == c2[b].note) by {
                    assert(c2[a] == c[a]);
                    if b < c.len() {
                        assert(c2[b] == c[b]);
                    }
                }
            },
        }
        assert forall|k: int| 0 <= k < rest.drop_first().len() implies all.contains(#[trigger] rest.drop_first()[k]) by {
            assert(rest.drop_first()[k] == rest[k + 1]);
            assert(all.contains(rest[k + 1]));
        }
        lemma_merge_shape_step(target, all, c2, rest.drop_first());
    }
}

/// Merging two carts keeps the target's lines in place, changed at most in
/// quantity, and appends a line of the source only for a dish and note that
/// the cart does not hold yet, so no two lines past the target's share a
/// dish and note with any earlier line.
pub proof fn lemma_merge_appends_only_new_dishes<M>(target: Seq<CartLineView<M>>, src: Seq<CartLineView<M>>)
    ensures
        merge_shape(target, src, merge_lines(target, src)),
{
    assert forall|k: int| 0 <= k < src.len() implies src.contains(#[trigger] src[k]) by {
        assert(src[k] == src[k]);
    }
    lemma_merge_shape_step(target, src, target, src);
}

/// After a kitchen ticket every unit is sent, so the next ticket without new
/// items reprints the whole cart.
pub proof fn lemma_nothing_unsent_after_ticket<M>(cart: Seq<CartLineView<M>>, count: nat)
    ensures
        delta_lines(all_sent(cart)).len() == 0,
        count > 0 ==> kot_batch(all_sent(cart), count) == (all_sent(cart), true, false),
    decreases cart.len(),
{
    if cart.len() > 0 {
        lemma_nothing_unsent_after_ticket(cart.drop_last(), count);
        assert(all_sent(cart).drop_last() =~= all_sent(cart.drop_last()));
    }
}

/// A cart that never went to the kitchen prints whole, as a first ticket.
pub proof fn lemma_first_ticket_is_whole_cart<M>(cart: Seq<CartLineView<M>>)
    requires
        forall|i: int| 0 <= i < cart.len() ==> #[trigger] cart[i].kot_sent_qty == 0 && cart[i].qty > 0,
    ensures
        kot_batch(cart, 0) == (cart, false, false),
    decreases cart.len(),
{
    if cart.len() > 0 {
        lemma_first_ticket_is_whole_cart(cart.drop_last());
        assert(delta_lines(cart.drop_last()) =~= cart.drop_last());
        assert(cart.drop_last().push(CartLineView { qty: unsent_qty(cart.last()), ..cart.last() })
            =~= cart);
    }
}

pub proof fn lemma_delta_lines_len<M>(cart: Seq<CartLineView<M>>)
    ensures
        delta_lines(cart).len() <= cart.len(),
    decreases cart.len(),
{
    if cart.len() > 0 {
        lemma_delta_lines_len(cart.drop_last());
    }
}

// ---------------------------------------------------------------------------
// Executable operations
// ---------------------------------------------------------------------------

/// A copy of an optional string.
pub fn copy_note(n: &Option<String>) -> (r: Option<String>)
    ensures
        opt_view(r) == opt_view(*n),
        r == *n,
{
    match n {
        Some(s) => Some(s.clone()),
        None => None,
    }
}

/// A copy of a cart line.
pub fn copy_line<M: Copy>(l: &CartLine<M>) -> (r: CartLine<M>)
    ensures
        r@ == l@,
        r == *l,
{
    CartLine {
        name: l.name.clone(),
        unit_price: l.unit_price,
        qty: l.qty,
        note: copy_note(&l.note),
        kot_sent_qty: l.kot_sent_qty,
    }
}

/// A copy of every line of a cart.
pub fn copy_lines<M: Copy>(cart: &Vec<CartLine<M>>) -> (r: Vec<CartLine<M>>)
    ensures
        lines_view(r@) == lines_view(cart@),
{
    let mut r: Vec<CartLine<M>> = Vec::new();
    let mut i: usize = 0;
    while i < cart.len()
        invariant
            i <= cart.len(),
            r@.len() == i,
            forall|k: int| 0 <= k < i ==> #[trigger] r@[k]@ == cart@[k]@,
        decreases cart.len() - i,
    {
        r.push(copy_line(&cart[i]));
        i = i + 1;
    }
    assert(lines_view(r@) =~= lines_view(cart@));
    r
}

/// Index of the first line named `name`.
pub fn find_line_named<M>(cart: &Vec<CartLine<M>>, name: &str) -> (r: Option<usize>)
    ensures
        r matches Some(i) ==> first_named(lines_view(cart@), name@) == Some(i as int),
        r is None ==> first_named(lines_view(cart@), name@) is None,
{
    let target = chars_of(name);
    let mut i: usize = 0;
    while i < cart.len()
        invariant
            i <= cart.len(),
            target@ == name@,
            forall|j: int| 0 <= j < i ==> lines_view(cart@)[j].name != name@,
        decreases cart.len() - i,
    {
        let line_name = chars_of(cart[i].name.as_str());
        if chars_eq(&line_name, &target) {
            proof {
                lemma_first_named_unique(lines_view(cart@), name@, i as int);
            }
            return Some(i);
        }
        i = i + 1;
    }
    proof {
        lemma_first_named_bounds(lines_view(cart@), name@);
        if first_named(lines_view(cart@), name@) is Some {
            let k = first_named(lines_view(cart@), name@)->0;
            assert(lines_view(cart@)[k].name != name@);
        }
    }
    None
}

/// Whether two optional notes are equal.
pub fn notes_eq(a: &Option<String>, b: &Option<String>) -> (r: bool)
    ensures
        r == (opt_view(*a) == opt_view(*b)),
{
    match (a, b) {
        (Some(x), Some(y)) => {
            let vx = chars_of(x.as_str());
            let vy = chars_of(y.as_str());
            chars_eq(&vx, &vy)
        },
        (None, None) => true,
        _ => false,
    }
}

/// Index of the first line with the same name and note as `l`.
pub fn find_same_dish<M>(cart: &Vec<CartLine<M>>, l: &CartLine<M>) -> (r: Option<usize>)
    ensures
        r matches Some(i) ==> first_same_dish(lines_view(cart@), l@) == Some(i as int),
        r is None ==> first_same_dish(lines_view(cart@), l@) is None,
{
    let target = chars_of(l.name.as_str());
    let mut i: usize = 0;
    while i < cart.len()
        invariant
            i <= cart.len(),
            target@ == l.name@,
            forall|j: int|
                0 <= j < i ==> !(lines_view(cart@)[j].name == l@.name && lines_view(cart@)[j].note
                    == l@.note),
        decreases cart.len() - i,
    {
        let line_name = chars_of(cart[i].name.as_str());
        if chars_eq(&line_name, &target) && notes_eq(&cart[i].note, &l.note) {
            proof {
                lemma_first_same_dish_unique(lines_view(cart@), l@, i as int);
            }
            return Some(i);
        }
        i = i + 1;
    }
    proof {
        lemma_first_same_dish_bounds(lines_view(cart@), l@);
        if first_same_dish(lines_view(cart@), l@) is Some {
            let k = first_same_dish(lines_view(cart@), l@)->0;
            assert(!(lines_view(cart@)[k].name == l@.name && lines_view(cart@)[k].note == l@.note));
        }
    }
    None
}

/// Whether one more unit of `name` can be added without the quantity overflowing.
pub open spec fn can_add_item<M>(cart: Seq<CartLineView<M>>, name: Seq<char>) -> bool {
    first_named(cart, name) matches Some(i) ==> cart[i].qty < u32::MAX
}

/// Adds one unit of the dish `name` at `price`: the first line with that name
/// gains a unit, otherwise a new line is appended.
pub fn add_item<M>(cart: &mut Vec<CartLine<M>>, name: &str, price: M)
    requires
        can_add_item(lines_view(old(cart)@), name@),
    ensures
        lines_view(final(cart)@) == cart_with_item(lines_view(old(cart)@), name@, price),
{
    match find_line_named(cart, name) {
        Some(i) => {
            proof {
                lemma_first_named_bounds(lines_view(cart@), name@);
            }
            cart[i].qty = cart[i].qty + 1;
            assert(lines_view(cart@) =~= cart_with_item(lines_view(old(cart)@), name@, price));
        },
        None => {
            cart.push(CartLine::new(name, price, 1));
            assert(lines_view(cart@) =~= cart_with_item(lines_view(old(cart)@), name@, price));
        },
    }
}

/// Whether every fold of `merge_lines(target, src)` stays within `u32`.
pub open spec fn merge_fits<M>(target: Seq<CartLineView<M>>, src: Seq<CartLineView<M>>) -> bool {
    total_qty(target) + total_qty(src) <= u32::MAX
}

pub proof fn lemma_total_bounds_line<M>(cart: Seq<CartLineView<M>>, i: int)
    requires
        0 <= i < cart.len(),
    ensures
        cart[i].qty <= total_qty(cart),
    decreases cart.len(),
{
    if i < cart.len() - 1 {
        lemma_total_bounds_line(cart.drop_last(), i);
    }
}

/// Folds the lines of `src` into `target`, in order.
pub fn merge_carts<M: Copy>(target: &mut Vec<CartLine<M>>, src: Vec<CartLine<M>>)
    requires
        merge_fits(lines_view(old(target)@), lines_view(src@)),
    ensures
        lines_view(final(target)@) == merge_lines(lines_view(old(target)@), lines_view(src@)),
        forall|name: Seq<char>, note: Option<Seq<char>>|
            #[trigger] dish_qty(lines_view(final(target)@), name, note) == dish_qty(lines_view(old(target)@), name, note)
                + dish_qty(lines_view(src@), name, note),
        merge_shape(lines_view(old(target)@), lines_view(src@), lines_view(final(target)@)),
{
    let ghost whole = lines_view(src@);
    let n = src.len();
    let mut k: usize = 0;
    assert(whole.subrange(0, n as int) =~= whole);
    assert(lines_view(src@).subrange(0 as int, n as int) =~= whole);
    while k < n
        invariant
            n == src@.len(),
            whole == lines_view(src@),
            k <= n,
            merge_lines(lines_view(target@), whole.subrange(k as int, n as int)) == merge_lines(
                lines_view(old(target)@),
                whole,
            ),
            total_qty(lines_view(target@)) + total_qty(whole.subrange(k as int, n as int))
                <= u32::MAX,
        decreases n - k,
    {
        let l = copy_line(&src[k]);
        let ghost before = lines_view(target@);
        let ghost remaining = whole.subrange(k as int, n as int);
        proof {
            assert(remaining[0] == l@);
            assert(remaining.drop_first() =~= whole.subrange(k + 1, n as int));
            lemma_total_qty_drop_first(remaining);
            lemma_first_same_dish_bounds(before, l@);
            lemma_merge_line_total(before, l@);
        }
        match find_same_dish(target, &l) {
            Some(i) => {
                proof {
                    lemma_total_bounds_line(before, i as int);
                }
                let add = l.qty;
                target[i].qty = target[i].qty + add;
            },
            None => {
                target.push(l);
            },
        }
        assert(lines_view(target@) =~= merge_line(before, l@));
        k = k + 1;
    }
    proof {
        assert(whole.subrange(n as int, n as int) =~= Seq::<CartLineView<M>>::empty());
        assert forall|name: Seq<char>, note: Option<Seq<char>>|
            #[trigger] dish_qty(lines_view(target@), name, note) == dish_qty(lines_view(old(target)@), name, note)
                + dish_qty(lines_view(src@), name, note) by {
            lemma_merge_keeps_dishes_and_notes(lines_view(old(target)@), whole, name, note);
        }
        lemma_merge_appends_only_new_dishes(lines_view(old(target)@), whole);
    }
}

/// Number of units on a list of lines.
pub fn count_units<M>(lines: &[CartLine<M>]) -> (n: u64)
    requires
        total_qty(lines_view(lines@)) <= u64::MAX,
    ensures
        n == total_qty(lines_view(lines@)),
{
    let mut n: u64 = 0;
    let mut i: usize = 0;
    while i < lines.len()
        invariant
            i <= lines.len(),
            total_qty(lines_view(lines@)) <= u64::MAX,
            n == total_qty(lines_view(lines@.subrange(0, i as int))),
        decreases lines.len() - i,
    {
        proof {
            assert(lines_view(lines@.subrange(0, i + 1)).drop_last() =~= lines_view(
                lines@.subrange(0, i as int),
            ));
            lemma_total_prefix_bound(lines_view(lines@), i + 1);
            assert(lines_view(lines@).subrange(0, i + 1) =~= lines_view(lines@.subrange(0, i + 1)));
        }
        n = n + lines[i].qty as u64;
        i = i + 1;
    }
    assert(lines@.subrange(0, lines.len() as int) =~= lines@);
    n
}

pub proof fn lemma_total_prefix_bound<M>(s: Seq<CartLineView<M>>, k: int)
    requires
        0 <= k <= s.len(),
    ensures
        total_qty(s.subrange(0, k)) <= total_qty(s),
    decreases s.len() - k,
{
    if k < s.len() {
        lemma_total_prefix_bound(s, k + 1);
        assert(s.subrange(0, k + 1).drop_last() =~= s.subrange(0, k));
    } else {
        assert(s.subrange(0, k) =~= s);
    }
}

/// The lines that still have units to send to the kitchen, each carrying only
/// those units.
pub fn unsent_lines<M: Copy>(cart: &Vec<CartLine<M>>) -> (r: Vec<CartLine<M>>)
    ensures
        lines_view(r@) == delta_lines(lines_view(cart@)),
{
    let mut r: Vec<CartLine<M>> = Vec::new();
    let mut i: usize = 0;
    while i < cart.len()
        invariant
            i <= cart.len(),
            lines_view(r@) == delta_lines(lines_view(cart@.subrange(0, i as int))),
        decreases cart.len() - i,
    {
        let ghost pre = lines_view(cart@.subrange(0, i as int));
        assert(lines_view(cart@.subrange(0, i + 1)).drop_last() =~= pre);
        let unsent = if cart[i].qty > cart[i].kot_sent_qty {
            cart[i].qty - cart[i].kot_sent_qty
        } else {
            0
        };
        if unsent > 0 {
            let mut l = copy_line(&cart[i]);
            l.qty = unsent;
            r.push(l);
        }
        i = i + 1;
        assert(lines_view(r@) =~= delta_lines(lines_view(cart@.subrange(0, i as int))));
    }
    assert(cart@.subrange(0, cart.len() as int) =~= cart@);
    r
}

/// Marks every unit of the cart as sent to the kitchen.
pub fn mark_all_sent<M>(cart: &mut Vec<CartLine<M>>)
    ensures
        lines_view(final(cart)@) == all_sent(lines_view(old(cart)@)),
{
    let mut i: usize = 0;
    while i < cart.len()
        invariant
            i <= cart.len(),
            cart@.len() == old(cart)@.len(),
            forall|j: int|
                0 <= j < i ==> #[trigger] cart@[j]@ == (CartLineView {
                    kot_sent_qty: old(cart)@[j]@.qty,
                    ..old(cart)@[j]@
                }),
            forall|j: int| i <= j < cart@.len() ==> #[trigger] cart@[j] == old(cart)@[j],
        decreases cart.len() - i,
    {
        let q = cart[i].qty;
        cart[i].kot_sent_qty = q;
        i = i + 1;
    }
    assert(lines_view(cart@) =~= all_sent(lines_view(old(cart)@)));
}

/// Decides the next kitchen ticket of an order: the lines to print, and
/// whether it is a reprint or an add-on.
pub fn next_kot_batch<M: Copy>(order: &Order<M>) -> (r: (Vec<CartLine<M>>, bool, bool))
    ensures
        (lines_view(r.0@), r.1, r.2) == kot_batch(lines_view(order.cart@), order.kot_sent_count as nat),
{
    let delta = unsent_lines(&order.cart);
    let is_delta = delta.len() > 0 && order.kot_sent_count > 0;
    let is_reprint = delta.len() == 0 && order.kot_sent_count > 0;
    let items = if is_reprint {
        copy_lines(&order.cart)
    } else if delta.len() > 0 {
        delta
    } else {
        copy_lines(&order.cart)
    };
    (items, is_reprint, is_delta)
}

} // verus!
