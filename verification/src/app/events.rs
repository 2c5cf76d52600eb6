//! Key handling: what each key does in each panel and popup.
use vstd::prelude::*;

use super::billing::{billing_begun, offer_applied};
use super::cart::{
    cart_cleared, editable, item_added, item_note_saved, line_adjusted, line_removed,
    note_prompt_opened, only_active_order_changed, stock_toggled,
};
use super::kot::{kds_bumped, kds_opened, recent_bill_reprinted, recent_kot_reprinted};
use super::reports::{bill_search_opened, bill_search_updated, customer_looked_up, historical_bill_reprinted};
use super::orders::{
    order_closed, payment_selected, stage_advanced, table_cleaned, table_order_opened, takeout_opened,
};
use super::tables::{table_move_opened, table_moved_or_merged};
use super::{App, AppEffect};
use crate::cart::{can_add_item, find_line_named, first_named, lemma_first_named_bounds, total_qty};
use crate::models::{all_payment_modes, lines_view, CartLineView, Focus, PaymentMode, RecentTab};
use crate::seqs::lemma_first_index;
use super::search::{search_order, splits_cleanly};
use crate::seqs::first_index;
use crate::tables::{find_order_at_table, has_id, seated_at, slot_order, slot_status};
use crate::text::{decimal_seq, trim_seq, unicode_lowercase};
use crate::text::{chars_of, decimal, push_char, string_of};
use vstd::utf8::encode_utf8;

verus! {

/// The text after its last character is removed (nothing happens to empty
/// text).
pub fn pop_char(s: &mut String)
    ensures
        final(s)@ == if old(s)@.len() > 0 {
            old(s)@.drop_last()
        } else {
            old(s)@
        },
{
    let mut v = chars_of(s.as_str());
    if v.len() > 0 {
        v.pop();
        *s = string_of(&v);
    }
}

/// Units on a cart, counted up to 2^32.
pub fn capped_units<M>(cart: &Vec<crate::models::CartLine<M>>) -> (r: u64)
    ensures
        r == if total_qty(lines_view(cart@)) < 0x1_0000_0000 {
            total_qty(lines_view(cart@))
        } else {
            0x1_0000_0000
        },
{
    let mut t: u64 = 0;
    let mut i: usize = 0;
    while i < cart.len()
        invariant
            i <= cart@.len(),
            t == if total_qty(lines_view(cart@.take(i as int))) < 0x1_0000_0000 {
                total_qty(lines_view(cart@.take(i as int)))
            } else {
                0x1_0000_0000
            },
        decreases cart.len() - i,
    {
        proof {
            assert(lines_view(cart@.take(i + 1)).drop_last() =~= lines_view(cart@.take(i as int)));
        }
        let q = cart[i].qty as u64;
        t = if t + q >= 0x1_0000_0000 {
            0x1_0000_0000
        } else {
            t + q
        };
        i = i + 1;
    }
    assert(cart@.take(cart@.len() as int) =~= cart@);
    t
}

/// The value of a decimal digit character.
fn digit_value(c: char) -> (d: u8)
    requires
        '0' <= c <= '9',
    ensures
        d as int == c as int - '0' as int,
{
    match c {
        '0' => 0,
        '1' => 1,
        '2' => 2,
        '3' => 3,
        '4' => 4,
        '5' => 5,
        '6' => 6,
        '7' => 7,
        '8' => 8,
        _ => 9,
    }
}

/// Panels and popups in which `q` and Esc do not quit.
pub open spec fn protected_focus(f: Focus) -> bool {
    match f {
        Focus::Search | Focus::MobileEntry | Focus::PaymentMode | Focus::OfferSelect
        | Focus::TableJump | Focus::DailyReport | Focus::BillSearch | Focus::UpiQr | Focus::TableMove
        | Focus::ItemNote | Focus::KitchenDisplay | Focus::Analytics => true,
        _ => false,
    }
}

/// Panels and popups that take typed text.
pub open spec fn text_focus(f: Focus) -> bool {
    match f {
        Focus::Search | Focus::TableJump | Focus::MobileEntry | Focus::BillSearch | Focus::ItemNote => true,
        _ => false,
    }
}

/// Popups that keep the global shortcuts for panels to themselves.
pub open spec fn modal_focus(f: Focus) -> bool {
    match f {
        Focus::PaymentMode | Focus::OfferSelect | Focus::DailyReport | Focus::TableMove | Focus::UpiQr
        | Focus::KitchenDisplay | Focus::Analytics => true,
        _ => false,
    }
}

/// `q` or Esc.
pub open spec fn quit_key(key: super::Key) -> bool {
    key == super::Key::Char('q') || key == super::Key::Esc
}

/// The open order after `a` of `n`, going round (`]`).
pub open spec fn next_order_index(a: int, n: int) -> int {
    (a + 1) % n
}

/// The open order before `a` of `n`, going round (`[`): `a + n - 1`, capped
/// at `usize::MAX`, modulo `n`.
pub open spec fn prev_order_index(a: int, n: int) -> int {
    (if a + (n - 1) > usize::MAX {
        usize::MAX as int
    } else {
        a + (n - 1)
    }) % n
}

/// `]` then `[` (or `[` then `]`) comes back to the same open order, for any
/// number of orders that fits twice in a `usize`.
pub proof fn lemma_order_cycle_round_trip(a: int, n: int)
    requires
        0 <= a < n,
        2 * n <= usize::MAX,
    ensures
        prev_order_index(next_order_index(a, n), n) == a,
        next_order_index(prev_order_index(a, n), n) == a,
{
    if a + 1 < n {
        assert((a + 1) % n == a + 1) by (nonlinear_arith)
            requires
                0 <= a + 1 < n,
        ;
        assert((a + 1 + (n - 1)) % n == a) by (nonlinear_arith)
            requires
                0 <= a < n,
        ;
    } else {
        assert((a + 1) % n == 0) by (nonlinear_arith)
            requires
                a + 1 == n,
                n > 0,
        ;
        assert((n - 1) % n == n - 1) by (nonlinear_arith)
            requires
                n > 0,
        ;
    }
    if a == 0 {
        assert((n - 1) % n == n - 1) by (nonlinear_arith)
            requires
                n > 0,
        ;
        assert(n % n == 0) by (nonlinear_arith)
            requires
                n > 0,
        ;
    } else {
        assert((a + (n - 1)) % n == a - 1) by (nonlinear_arith)
            requires
                0 < a < n,
        ;
        assert(a % n == a) by (nonlinear_arith)
            requires
                0 <= a < n,
        ;
    }
}

/// Keys that act the same in every panel outside the text boxes (help,
/// order cycling, reports, kitchen display, numbered boxes) and so never
/// reach the focused panel.
pub open spec fn global_key(f: Focus, key: super::Key) -> bool {
    !text_focus(f) && {
        ||| key == super::Key::Char('?')
        ||| key == super::Key::Char(']')
        ||| key == super::Key::Char('[')
        ||| key == super::Key::Char('z') && f != Focus::DailyReport
        ||| !modal_focus(f) && (key == super::Key::Char('a') || key == super::Key::Char('A')
            || key == super::Key::F(8) || key == super::Key::F(7))
        ||| !modal_focus(f) && (key matches super::Key::Char(c) && '1' <= c <= '7')
    }
}

/// The key goes to the focused panel or popup.
pub open spec fn routed(f: Focus, key: super::Key) -> bool {
    !(quit_key(key) && !protected_focus(f)) && !global_key(f, key)
}

/// A cursor moved up one place (it stays at the top).
pub open spec fn step_up(i: usize) -> usize {
    if i > 0 {
        (i - 1) as usize
    } else {
        i
    }
}

/// A cursor moved down one place in a list of `n` entries (it stays at the
/// last one).
pub open spec fn step_down(i: usize, n: nat) -> usize {
    if n > 0 && i < n - 1 {
        (i + 1) as usize
    } else {
        i
    }
}

/// The previous of `n` entries, going round (nothing moves when `n` is 0).
pub open spec fn cycle_back(i: usize, n: nat) -> usize {
    if n > 0 {
        if (i as nat) % n == 0 {
            (n - 1) as usize
        } else {
            ((i as nat) % n - 1) as usize
        }
    } else {
        i
    }
}

/// The next of `n` entries, going round (nothing moves when `n` is 0).
pub open spec fn cycle_forward(i: usize, n: nat) -> usize {
    if n > 0 {
        if (i as nat) % n + 1 == n {
            0
        } else {
            ((i as nat) % n + 1) as usize
        }
    } else {
        i
    }
}

/// The number of tables of area `a`, 0 when there is no such area.
pub open spec fn area_table_count<M>(app: App<M>, a: usize) -> nat {
    if a < app.areas@.len() {
        app.areas@[a as int].table_count as nat
    } else {
        0
    }
}

/// A table cursor kept inside an area of `max` tables.
pub open spec fn clamp_cursor(i: usize, max: nat) -> usize {
    if i >= max {
        if max > 0 {
            (max - 1) as usize
        } else {
            0
        }
    } else {
        i
    }
}

/// `n` is `o` with `e` queued.
pub open spec fn queued<M>(o: App<M>, n: App<M>, e: AppEffect) -> bool {
    &&& n.pending_effects@ == o.pending_effects@.push(e)
    &&& n == (App { pending_effects: n.pending_effects, ..o })
}

/// `n` is `o` with the table-jump box opened empty.
pub open spec fn jump_opened<M>(o: App<M>, n: App<M>) -> bool {
    &&& n.table_input@.len() == 0
    &&& n == (App { focus: Focus::TableJump, table_input: n.table_input, table_search_index: 0, ..o })
}

/// `n` is `o` with the popup closed and the previous panel back.
pub open spec fn returned<M>(o: App<M>, n: App<M>) -> bool {
    n == (App { focus: o.focus_return, ..o })
}

/// The text without its last character (empty text stays empty).
pub open spec fn popped(s: Seq<char>) -> Seq<char> {
    if s.len() > 0 {
        s.drop_last()
    } else {
        s
    }
}

/// What the navigation keys of the menu search box do.
pub open spec fn search_moves<M: Copy>(o: App<M>, n: App<M>, key: super::Key) -> bool {
    &&& (key is Char) ==> n.search@ == o.search@.push(key->Char_0) && n == (App {
        search: n.search,
        menu_index: 0,
        ..o
    })
    &&& key == super::Key::Backspace ==> n.search@ == popped(o.search@) && n == (App {
        search: n.search,
        menu_index: 0,
        ..o
    })
    &&& (key == super::Key::Esc || key == super::Key::Down || key == super::Key::Tab) ==> n == (App {
        focus: Focus::Menu,
        ..o
    })
    &&& key == super::Key::BackTab ==> n == (App { focus: Focus::Tables, ..o })
    &&& key == super::Key::Enter ==> if o.selected_add_fits() {
        item_added(o, n)
    } else {
        n == o
    }
}

/// What the navigation keys of the menu list do.
pub open spec fn menu_moves<M: Copy>(o: App<M>, n: App<M>, key: super::Key) -> bool {
    &&& (key == super::Key::Up || key == super::Key::Char('k')) ==> n == (App {
        menu_index: step_up(o.menu_index),
        ..o
    })
    &&& (key == super::Key::Down || key == super::Key::Char('j')) ==> n == (App {
        menu_index: step_down(o.menu_index, o.spec_visible().len()),
        ..o
    })
    &&& (key == super::Key::Left || key == super::Key::Char('h')) ==> if o.categories@.len() > 0 {
        n == (App {
            selected_category_index: cycle_back(o.selected_category_index, o.categories@.len()),
            menu_index: 0,
            ..o
        })
    } else {
        n == o
    }
    &&& (key == super::Key::Right || key == super::Key::Char('l')) ==> if o.categories@.len() > 0 {
        n == (App {
            selected_category_index: cycle_forward(o.selected_category_index, o.categories@.len()),
            menu_index: 0,
            ..o
        })
    } else {
        n == o
    }
    &&& (key == super::Key::Enter || key == super::Key::Char(' ')) ==> if o.selected_add_fits() {
        item_added(o, n)
    } else {
        n == o
    }
    &&& key == super::Key::Tab ==> n == (App { focus: Focus::Cart, ..o })
    &&& (key == super::Key::BackTab || key == super::Key::Char('/')) ==> n == (App {
        focus: Focus::Search,
        ..o
    })
    &&& key == super::Key::Char('o') ==> stock_toggled(o, n)
    &&& key == super::Key::Char('c') ==> cart_cleared(o, n)
    &&& key == super::Key::Char('p') ==> billing_begun(o, n)
    &&& key == super::Key::Char('e') ==> queued(o, n, AppEffect::ExportConfig)
    &&& key == super::Key::Char('i') ==> queued(o, n, AppEffect::ImportConfig)
    &&& key == super::Key::Char('K') ==> queued(o, n, AppEffect::SendKot { full: false })
    &&& key == super::Key::Char('g') ==> jump_opened(o, n)
}

/// The active order with its bill cursor at `ci`.
pub open spec fn with_cart_cursor<M>(o: App<M>, ci: usize) -> Seq<crate::models::Order<M>> {
    o.orders@.update(o.active_order as int, crate::models::Order { cart_index: ci, ..o.active() })
}

/// What the navigation keys of the bill panel do.
pub open spec fn cart_moves<M: Copy>(o: App<M>, n: App<M>, key: super::Key) -> bool {
    &&& (key == super::Key::Up || key == super::Key::Char('w')) ==> if o.orders@.len() > 0 {
        n.orders@ == with_cart_cursor(o, step_up(o.active().cart_index)) && n == (App {
            orders: n.orders,
            ..o
        })
    } else {
        n == o
    }
    &&& (key == super::Key::Down || key == super::Key::Char('s')) ==> if o.orders@.len() > 0 {
        n.orders@ == with_cart_cursor(o, step_down(o.active().cart_index, o.active().cart@.len()))
            && n == (App { orders: n.orders, ..o })
    } else {
        n == o
    }
    &&& key == super::Key::Char('k') ==> queued(o, n, AppEffect::SendKot { full: false })
    &&& key == super::Key::Char('K') ==> queued(o, n, AppEffect::SendKot { full: true })
    &&& key == super::Key::Char('C') ==> cart_cleared(o, n)
    &&& key == super::Key::Char('n') ==> note_prompt_opened(o, n)
    &&& (key == super::Key::Char('=') || key == super::Key::Char('+')) ==> if o.adjust_fits(1i32) {
        line_adjusted(o, n, 1i32)
    } else {
        n == o
    }
    &&& key == super::Key::Char('-') ==> if o.adjust_fits(-1i32) {
        line_adjusted(o, n, -1i32)
    } else {
        n == o
    }
    &&& (key == super::Key::Delete || key == super::Key::Char('x')) ==> line_removed(o, n)
    &&& (key == super::Key::Enter || key == super::Key::Char('p')) ==> billing_begun(o, n)
    &&& key == super::Key::Char('g') ==> jump_opened(o, n)
    &&& key == super::Key::Tab ==> n == (App { focus: Focus::RecentBills, recent_tab: RecentTab::Bills, ..o })
    &&& key == super::Key::BackTab ==> n == (App { focus: Focus::Menu, ..o })
}

/// What the navigation keys of the floor plan do.
pub open spec fn tables_moves<M: Copy>(o: App<M>, n: App<M>, key: super::Key, now: i64) -> bool {
    &&& (key == super::Key::Left || key == super::Key::Char('h')) ==> n == (App {
        selected_table_index: step_up(o.selected_table_index),
        ..o
    })
    &&& (key == super::Key::Right || key == super::Key::Char('l')) ==> n == (App {
        selected_table_index: step_down(o.selected_table_index, area_table_count(o, o.selected_area_index)),
        ..o
    })
    &&& (key == super::Key::Up || key == super::Key::Char('k')) ==> if o.areas@.len() > 0 {
        let a = cycle_back(o.selected_area_index, o.areas@.len());
        n == (App {
            selected_area_index: a,
            selected_table_index: clamp_cursor(o.selected_table_index, area_table_count(o, a)),
            ..o
        })
    } else {
        n == o
    }
    &&& (key == super::Key::Down || key == super::Key::Char('j')) ==> if o.areas@.len() > 0 {
        let a = cycle_forward(o.selected_area_index, o.areas@.len());
        n == (App {
            selected_area_index: a,
            selected_table_index: clamp_cursor(o.selected_table_index, area_table_count(o, a)),
            ..o
        })
    } else {
        n == o
    }
    &&& key == super::Key::Char('K') ==> queued(o, n, AppEffect::SendKot { full: false })
    &&& key == super::Key::Char('g') ==> jump_opened(o, n)
    &&& key == super::Key::Enter ==> table_order_opened(o, n, now)
    &&& key == super::Key::Char('m') ==> table_move_opened(o, n)
    &&& key == super::Key::Char('t') ==> takeout_opened(o, n)
    &&& key == super::Key::Char('c') ==> order_closed(o, n, now)
    &&& key == super::Key::Char('s') ==> stage_advanced(o, n, now)
    &&& key == super::Key::Char('r') ==> table_cleaned(o, n, now)
    &&& (key == super::Key::Char('b') || key == super::Key::Char('p')) ==> billing_begun(o, n)
    &&& key == super::Key::BackTab ==> n == (App { focus: Focus::RecentBills, recent_tab: RecentTab::Kots, ..o })
    &&& key == super::Key::Tab ==> n == (App { focus: Focus::Search, ..o })
}

/// What the navigation keys of the recent bills and tickets panel do.
pub open spec fn recent_moves<M: Copy>(o: App<M>, n: App<M>, key: super::Key) -> bool {
    &&& (key == super::Key::Left || key == super::Key::Char('h')) ==> n == (App {
        recent_tab: RecentTab::Bills,
        ..o
    })
    &&& (key == super::Key::Right || key == super::Key::Char('l')) ==> n == (App {
        recent_tab: RecentTab::Kots,
        ..o
    })
    &&& (key == super::Key::Up || key == super::Key::Char('k')) ==> match o.recent_tab {
        RecentTab::Bills => n == (App { recent_bill_index: step_up(o.recent_bill_index), ..o }),
        RecentTab::Kots => n == (App { recent_kot_index: step_up(o.recent_kot_index), ..o }),
    }
    &&& (key == super::Key::Down || key == super::Key::Char('j')) ==> match o.recent_tab {
        RecentTab::Bills => n == (App {
            recent_bill_index: step_down(o.recent_bill_index, o.recent_bills@.len()),
            ..o
        }),
        RecentTab::Kots => n == (App {
            recent_kot_index: step_down(o.recent_kot_index, o.recent_kots@.len()),
            ..o
        }),
    }
    &&& (key == super::Key::Char('/') || key == super::Key::Char('s')) ==> bill_search_opened(o, n)
    &&& (key == super::Key::Char('p') || key == super::Key::Char('r') || key == super::Key::Enter) ==> match o.recent_tab {
        RecentTab::Bills => recent_bill_reprinted(o, n),
        RecentTab::Kots => recent_kot_reprinted(o, n),
    }
    &&& key == super::Key::Char('K') ==> kds_opened(o, n)
    &&& key == super::Key::Tab ==> match o.recent_tab {
        RecentTab::Bills => n == (App { recent_tab: RecentTab::Kots, ..o }),
        RecentTab::Kots => n == (App { focus: Focus::Tables, ..o }),
    }
    &&& key == super::Key::BackTab ==> match o.recent_tab {
        RecentTab::Bills => n == (App { focus: Focus::Cart, ..o }),
        RecentTab::Kots => n == (App { recent_tab: RecentTab::Bills, ..o }),
    }
}

/// What the keys of the customer mobile popup do: up to ten digits are
/// taken (looking the customer up as they come); Enter with ten digits or
/// none bills straight away when there are no offers, else opens the offer
/// popup; Enter with another count says how many digits there are.
pub open spec fn mobile_moves<M>(o: App<M>, n: App<M>, key: super::Key) -> bool {
    let len = encode_utf8(o.mobile_buffer@).len() as usize;
    &&& key matches super::Key::Char(c) ==> if '0' <= c <= '9' && len < 10 {
        n.mobile_buffer@ == o.mobile_buffer@.push(c) && customer_looked_up(
            App { mobile_buffer: n.mobile_buffer, ..o },
            n,
        )
    } else {
        n == o
    }
    &&& key == super::Key::Backspace ==> n.mobile_buffer@ == popped(o.mobile_buffer@) && customer_looked_up(
        App { mobile_buffer: n.mobile_buffer, ..o },
        n,
    )
    &&& key == super::Key::Enter ==> if len == 10 || o.mobile_buffer@.len() == 0 {
        &&& n.mobile_buffer@.len() == 0
        &&& if o.offers@.len() == 0 {
            &&& n.pending_effects@ == o.pending_effects@.push(
                AppEffect::CompleteBilling { mobile: o.mobile_buffer, offer_id: None },
            )
            &&& n == (App { mobile_buffer: n.mobile_buffer, pending_effects: n.pending_effects, ..o })
        } else {
            n == (App {
                mobile_buffer: n.mobile_buffer,
                offer_index: 0,
                focus: Focus::OfferSelect,
                pending_mobile: o.mobile_buffer,
                ..o
            })
        }
    } else {
        &&& n.notes() == o.notes().push(
            "Mobile number needs 10 digits ("@ + crate::text::decimal_seq(len as nat)
                + " so far, or press Enter on empty to skip)."@,
        )
        &&& n == (App { notifications: n.notifications, ..o })
    }
    &&& key == super::Key::Esc ==> returned(o, n)
}

/// What the navigation keys of the payment popup do (`q` shows the UPI QR).
pub open spec fn payment_moves<M: Copy>(o: App<M>, n: App<M>, key: super::Key, now: i64) -> bool {
    &&& (key == super::Key::Up || key == super::Key::Char('k')) ==> n == (App {
        payment_mode_index: step_up(o.payment_mode_index),
        ..o
    })
    &&& (key == super::Key::Down || key == super::Key::Char('j')) ==> n == (App {
        payment_mode_index: step_down(o.payment_mode_index, 5),
        ..o
    })
    &&& (key == super::Key::Char('c') || key == super::Key::Char('C')) ==> payment_selected(o, n, PaymentMode::Cash, now)
    &&& (key == super::Key::Char('u') || key == super::Key::Char('U')) ==> payment_selected(o, n, PaymentMode::Upi, now)
    &&& (key == super::Key::Char('d') || key == super::Key::Char('D')) ==> payment_selected(o, n, PaymentMode::Card, now)
    &&& key matches super::Key::Char(c) ==> ('1' <= c <= '5' ==> payment_selected(
        o,
        n,
        all_payment_modes()[c as int - '1' as int],
        now,
    ))
    &&& key == super::Key::Enter ==> if o.payment_mode_index < 5 {
        payment_selected(o, n, all_payment_modes()[o.payment_mode_index as int], now)
    } else {
        n == o
    }
    &&& (key == super::Key::Char('q') || key == super::Key::Char('Q')) ==> if o.orders@.len() == 0 {
        n.notes() == o.notes().push("No active order for UPI QR."@) && n == (App {
            notifications: n.notifications,
            ..o
        })
    } else {
        n == (App { focus_return: o.focus, focus: Focus::UpiQr, ..o })
    }
    &&& key == super::Key::Esc ==> returned(o, n)
}

/// What the navigation keys of the offer popup do.
pub open spec fn offer_moves<M: Copy>(o: App<M>, n: App<M>, key: super::Key) -> bool {
    &&& (key == super::Key::Up || key == super::Key::Char('k')) ==> n == (App {
        offer_index: step_up(o.offer_index),
        ..o
    })
    &&& (key == super::Key::Down || key == super::Key::Char('j')) ==> n == (App {
        offer_index: step_down(o.offer_index, o.offers@.len() + 1),
        ..o
    })
    &&& key matches super::Key::Char(c) ==> ('0' <= c <= '9' ==> if c as int - '0' as int <= o.offers@.len() {
        offer_applied(o, n, (c as int - '0' as int) as usize)
    } else {
        n == o
    })
    &&& key == super::Key::Enter ==> offer_applied(o, n, o.offer_index)
    &&& key == super::Key::Esc ==> n.pending_mobile@.len() == 0 && n == (App {
        pending_mobile: n.pending_mobile,
        focus: o.focus_return,
        ..o
    })
}

/// The floor-plan slots the table-jump box lists, best first; none when the
/// lowercased query cannot be cut after its first two bytes (see
/// `matching_tables`).
pub open spec fn jump_slots<M>(o: App<M>) -> Seq<(int, nat)> {
    let q = unicode_lowercase(trim_seq(o.table_input@));
    if splits_cleanly(q) {
        search_order(q, o.selected_area_index as int, o.areas@, o.physical_tables@, o.orders@)
    } else {
        Seq::empty()
    }
}

/// `n` is `o` after Enter in the table-jump box: the highlighted (or last)
/// listed table becomes the selected one, its order (if open) the active
/// one, and the floor plan gets the focus; with nothing listed a typed query
/// is reported as matching nothing, and an empty one just closes the box.
pub open spec fn jumped<M>(o: App<M>, n: App<M>) -> bool {
    let s = jump_slots(o);
    if s.len() > 0 {
        let k = if o.table_search_index < s.len() {
            o.table_search_index as int
        } else {
            s.len() - 1
        };
        let a = s[k].0;
        let num = s[k].1;
        let name = o.areas@[a].name@;
        &&& n.selected_area_index == a
        &&& n.selected_table_index == (if num > 0 {
            (num - 1) as usize
        } else {
            0usize
        })
        &&& n.active_order == match slot_order(o.orders@, name, num) {
            Some(oid) => match first_index(o.orders@, has_id::<M>(oid)) {
                Some(j) => j as usize,
                None => o.active_order,
            },
            None => o.active_order,
        }
        &&& n.notes() =~= o.notes().push(
            "Jumped to "@ + name + " Table "@ + decimal_seq(num) + " ("@ + slot_status(
                o.physical_tables@,
                name,
                num,
            ).spec_title() + ")."@,
        )
        &&& n.table_input@.len() == 0
        &&& n == (App {
            selected_area_index: n.selected_area_index,
            selected_table_index: n.selected_table_index,
            active_order: n.active_order,
            notifications: n.notifications,
            table_input: n.table_input,
            table_search_index: 0,
            focus: Focus::Tables,
            ..o
        })
    } else if o.table_input@.len() > 0 {
        &&& n.notes() =~= o.notes().push("No tables match '"@ + o.table_input@ + "'."@)
        &&& n == (App { notifications: n.notifications, ..o })
    } else {
        n == (App { focus: Focus::Tables, ..o })
    }
}

/// What the keys of the table-jump box do.
pub open spec fn table_jump_moves<M>(o: App<M>, n: App<M>, key: super::Key) -> bool {
    &&& (key is Char) ==> n.table_input@ == o.table_input@.push(key->Char_0) && n == (App {
        table_input: n.table_input,
        table_search_index: 0,
        ..o
    })
    &&& key == super::Key::Backspace ==> n.table_input@ == popped(o.table_input@) && n == (App {
        table_input: n.table_input,
        table_search_index: 0,
        ..o
    })
    &&& (key == super::Key::Up || key == super::Key::BackTab) ==> n == (App {
        table_search_index: step_up(o.table_search_index),
        ..o
    })
    &&& (key == super::Key::Down || key == super::Key::Tab) ==> n == (App {
        table_search_index: step_down(o.table_search_index, jump_slots(o).len()),
        ..o
    })
    &&& key == super::Key::Enter ==> jumped(o, n)
    &&& key == super::Key::Esc ==> n.table_input@.len() == 0 && n == (App {
        table_input: n.table_input,
        table_search_index: 0,
        focus: Focus::Tables,
        ..o
    })
}

/// What the keys of the popups that only show something do.
pub open spec fn viewer_moves<M>(o: App<M>, n: App<M>, key: super::Key) -> bool {
    match o.focus {
        Focus::DailyReport => {
            &&& (key == super::Key::Char('p') || key == super::Key::Char('P')) ==> queued(
                o,
                n,
                AppEffect::PrintDailyReport,
            )
            &&& (key == super::Key::Esc || key == super::Key::Enter || key == super::Key::Char('q')
                || key == super::Key::Char('z')) ==> returned(o, n)
        },
        Focus::UpiQr => (key == super::Key::Esc || key == super::Key::Enter || key == super::Key::Char('q')
            || key == super::Key::Char('Q')) ==> returned(o, n),
        _ => (key == super::Key::Esc || key == super::Key::Char('q') || key == super::Key::Char('a')
            || key == super::Key::Char('A') || key == super::Key::Enter) ==> returned(o, n),
    }
}

/// What the navigation keys of the bill search do.
pub open spec fn bill_search_moves<M: Copy>(o: App<M>, n: App<M>, key: super::Key) -> bool {
    &&& (key == super::Key::Up || key == super::Key::BackTab) ==> n == (App {
        bill_search_index: step_up(o.bill_search_index),
        ..o
    })
    &&& (key == super::Key::Down || key == super::Key::Tab) ==> n == (App {
        bill_search_index: step_down(o.bill_search_index, o.bill_search_results@.len()),
        ..o
    })
    &&& (key is Char) ==> n.bill_search_query@ == o.bill_search_query@.push(key->Char_0) && bill_search_updated(
        App { bill_search_query: n.bill_search_query, ..o },
        n,
    )
    &&& key == super::Key::Backspace ==> n.bill_search_query@ == popped(o.bill_search_query@) && bill_search_updated(
        App { bill_search_query: n.bill_search_query, ..o },
        n,
    )
    &&& key == super::Key::Enter ==> historical_bill_reprinted(o, n)
    &&& key == super::Key::Esc ==> returned(o, n)
}

/// What the navigation keys of the table-move popup do.
pub open spec fn table_move_moves<M: Copy>(o: App<M>, n: App<M>, key: super::Key) -> bool {
    &&& (key == super::Key::Up || key == super::Key::Left || key == super::Key::Char('k')
        || key == super::Key::Char('h')) ==> n == (App {
        table_move_target_index: step_up(o.table_move_target_index),
        ..o
    })
    &&& (key == super::Key::Down || key == super::Key::Right || key == super::Key::Char('j')
        || key == super::Key::Char('l')) ==> n == (App {
        table_move_target_index: step_down(o.table_move_target_index, o.move_slots().len()),
        ..o
    })
    &&& key == super::Key::Enter ==> if o.merge_fits_any() {
        table_moved_or_merged(o, n)
    } else {
        n == o
    }
    &&& key == super::Key::Esc ==> n == (App { focus: Focus::Tables, ..o })
}

/// What the editing keys of the item-note popup do.
pub open spec fn item_note_moves<M: Copy>(o: App<M>, n: App<M>, key: super::Key) -> bool {
    &&& (key is Char) ==> n.item_note_buffer@ == o.item_note_buffer@.push(key->Char_0) && n == (App {
        item_note_buffer: n.item_note_buffer,
        ..o
    })
    &&& key == super::Key::Backspace ==> n.item_note_buffer@ == popped(o.item_note_buffer@) && n == (App {
        item_note_buffer: n.item_note_buffer,
        ..o
    })
    &&& key == super::Key::Enter ==> if o.orders@.len() > 0 {
        item_note_saved(o, n)
    } else {
        returned(o, n)
    }
    &&& key == super::Key::Esc ==> returned(o, n)
}

/// What the navigation keys of the kitchen display do.
pub open spec fn kds_moves<M: Copy>(o: App<M>, n: App<M>, key: super::Key) -> bool {
    &&& (key == super::Key::Esc || key == super::Key::Char('q') || key == super::Key::Char('k')
        || key == super::Key::Char('K')) ==> returned(o, n)
    &&& (key == super::Key::Up || key == super::Key::Char('w')) ==> n == (App {
        kds_index: step_up(o.kds_index),
        ..o
    })
    &&& (key == super::Key::Down || key == super::Key::Char('s')) ==> n == (App {
        kds_index: step_down(o.kds_index, o.kds_kots@.len()),
        ..o
    })
    &&& (key == super::Key::Char(' ') || key == super::Key::Enter) ==> kds_bumped(o, n)
    &&& (key == super::Key::Char('r') || key == super::Key::F(5)) ==> if o.has_database {
        queued(o, n, AppEffect::RefreshKitchenDisplay)
    } else {
        n == o
    }
}

/// `n` is `o` after a jump to numbered box `b` (see `switch_to_box`).
pub open spec fn box_switched<M>(o: App<M>, n: App<M>, b: int) -> bool {
    &&& b == 1 ==> n == (App { focus: Focus::Tables, ..o })
    &&& b == 2 ==> jump_opened(o, n)
    &&& b == 3 ==> n == (App { focus: Focus::Search, ..o })
    &&& b == 4 ==> n == (App { focus: Focus::Menu, ..o })
    &&& b == 5 ==> n == (App { focus: Focus::Cart, ..o })
    &&& b == 6 ==> n == (App { focus: Focus::RecentBills, recent_tab: RecentTab::Bills, ..o })
    &&& b == 7 ==> n == (App { focus: Focus::RecentBills, recent_tab: RecentTab::Kots, ..o })
}

/// What a key routed to the focused panel or popup does, as far as the
/// navigation and editing keys go.
pub open spec fn key_moves<M: Copy>(o: App<M>, n: App<M>, key: super::Key, now: i64) -> bool {
    match o.focus {
        Focus::Search => search_moves(o, n, key),
        Focus::Menu => menu_moves(o, n, key),
        Focus::Cart => cart_moves(o, n, key),
        Focus::Tables => tables_moves(o, n, key, now),
        Focus::RecentBills => recent_moves(o, n, key),
        Focus::MobileEntry => mobile_moves(o, n, key),
        Focus::PaymentMode => payment_moves(o, n, key, now),
        Focus::OfferSelect => offer_moves(o, n, key),
        Focus::TableJump => table_jump_moves(o, n, key),
        Focus::BillSearch => bill_search_moves(o, n, key),
        Focus::TableMove => table_move_moves(o, n, key),
        Focus::ItemNote => item_note_moves(o, n, key),
        Focus::KitchenDisplay => kds_moves(o, n, key),
        Focus::DailyReport | Focus::UpiQr | Focus::Analytics => viewer_moves(o, n, key),
    }
}

impl<M: Copy> App<M> {
    /// Whether adding the menu item under the cursor fits (see
    /// `selected_add_fits`).
    pub fn can_add_selected(&self) -> (r: bool)
        requires
            self.wf(),
        ensures
            r == self.selected_add_fits(),
    {
        let vis = self.visible_items();
        if self.menu_index >= vis.len() {
            return true;
        }
        let idx = vis[self.menu_index];
        if self.orders.len() == 0 || self.orders[self.active_order].status == crate::models::OrderStatus::Paid {
            return true;
        }
        let cart = &self.orders[self.active_order].cart;
        match find_line_named(cart, self.items[idx].name.as_str()) {
            Some(i) => {
                proof {
                    lemma_first_named_bounds(lines_view(cart@), self.items@[idx as int].name@);
                }
                cart[i].qty < 0xFFFF_FFFFu32
            },
            None => true,
        }
    }

    /// Whether merging the order at the selected table into any other order
    /// fits (see `merge_fits_any`).
    pub fn merge_fits_now(&self) -> (r: bool)
        requires
            self.wf(),
        ensures
            r == self.merge_fits_any(),
    {
        let area = self.selected_area_name();
        let src = match find_order_at_table(&self.orders, area.as_str(), self.selected_table_index + 1) {
            Some(s) => s,
            None => {
                return true;
            },
        };
        assert(self.selected_order_index() == Some(src as int));
        let a = capped_units(&self.orders[src].cart);
        let mut j: usize = 0;
        while j < self.orders.len()
            invariant
                j <= self.orders@.len(),
                src < self.orders@.len(),
                self.selected_order_index() == Some(src as int),
                a == if total_qty(lines_view(self.orders@[src as int].cart@)) < 0x1_0000_0000 {
                    total_qty(lines_view(self.orders@[src as int].cart@))
                } else {
                    0x1_0000_0000
                },
                forall|k: int|
                    0 <= k < j ==> total_qty(lines_view(self.orders@[src as int].cart@)) + total_qty(
                        lines_view(#[trigger] self.orders@[k].cart@),
                    ) <= u32::MAX,
            decreases self.orders.len() - j,
        {
            let b = capped_units(&self.orders[j].cart);
            if a + b > 0xFFFF_FFFFu64 {
                assert(!(total_qty(lines_view(self.orders@[src as int].cart@)) + total_qty(
                    lines_view(self.orders@[j as int].cart@),
                ) <= u32::MAX));
                return false;
            }
            j = j + 1;
        }
        true
    }
}

impl<M: Copy> App<M> {
    /// Opens the table-jump box with an empty query.
    pub fn open_table_jump(&mut self)
        ensures
            *final(self) == (App {
                focus: Focus::TableJump,
                table_input: final(self).table_input,
                table_search_index: 0,
                ..*old(self)
            }),
            final(self).table_input@.len() == 0,
    {
        self.focus = Focus::TableJump;
        self.table_input = String::new();
        self.table_search_index = 0;
    }

    /// Keys of the menu search box.
    fn search_key(&mut self, key: super::Key)
        requires
            old(self).wf(),
            old(self).focus == Focus::Search,
        ensures
            final(self).wf(),
            search_moves(*old(self), *final(self), key),
    {
        match key {
            super::Key::Char(c) => {
                push_char(&mut self.search, c);
                self.menu_index = 0;
            },
            super::Key::Backspace => {
                pop_char(&mut self.search);
                self.menu_index = 0;
            },
            super::Key::Esc | super::Key::Down | super::Key::Tab => {
                self.focus = Focus::Menu;
            },
            super::Key::Enter => {
                if self.can_add_selected() {
                    self.add_selected_to_cart();
                }
            },
            super::Key::BackTab => {
                self.focus = Focus::Tables;
            },
            _ => {},
        }
    }

    /// Keys of the menu list.
    fn menu_key(&mut self, key: super::Key)
        requires
            old(self).wf(),
        ensures
            final(self).wf(),
            menu_moves(*old(self), *final(self), key),
    {
        match key {
            super::Key::Up | super::Key::Char('k') => {
                if self.menu_index > 0 {
                    self.menu_index = self.menu_index - 1;
                }
            },
            super::Key::Down | super::Key::Char('j') => {
                let n = self.visible_items().len();
                if n > 0 && self.menu_index < n - 1 {
                    self.menu_index = self.menu_index + 1;
                }
            },
            super::Key::Left | super::Key::Char('h') => {
                let n = self.categories.len();
                if n > 0 {
                    let m = self.selected_category_index % n;
                    self.selected_category_index = if m == 0 {
                        n - 1
                    } else {
                        m - 1
                    };
                    self.menu_index = 0;
                }
            },
            super::Key::Right | super::Key::Char('l') => {
                let n = self.categories.len();
                if n > 0 {
                    let m = self.selected_category_index % n;
                    self.selected_category_index = if m + 1 == n {
                        0
                    } else {
                        m + 1
                    };
                    self.menu_index = 0;
                }
            },
            super::Key::Enter | super::Key::Char(' ') => {
                if self.can_add_selected() {
                    self.add_selected_to_cart();
                }
            },
            super::Key::Tab => {
                self.focus = Focus::Cart;
            },
            super::Key::BackTab | super::Key::Char('/') => {
                self.focus = Focus::Search;
            },
            super::Key::Char('o') => {
                self.toggle_selected_menu_item_stock();
            },
            super::Key::Char('c') => {
                self.clear_active_cart();
            },
            super::Key::Char('p') => {
                self.begin_billing();
            },
            super::Key::Char('e') => {
                self.queue_effect(AppEffect::ExportConfig);
            },
            super::Key::Char('i') => {
                self.queue_effect(AppEffect::ImportConfig);
            },
            super::Key::Char('K') => {
                self.queue_effect(AppEffect::SendKot { full: false });
            },
            super::Key::Char('g') => {
                self.open_table_jump();
            },
            _ => {},
        }
    }

    /// Keys of the bill (cart) panel.
    fn cart_key(&mut self, key: super::Key)
        requires
            old(self).wf(),
        ensures
            final(self).wf(),
            cart_moves(*old(self), *final(self), key),
    {
        match key {
            super::Key::Up | super::Key::Char('w') => {
                if self.orders.len() > 0 {
                    let i = self.active_order;
                    let ci = self.orders[i].cart_index;
                    let next = if ci > 0 {
                        ci - 1
                    } else {
                        ci
                    };
                    self.orders[i].cart_index = next;
                }
            },
            super::Key::Down | super::Key::Char('s') => {
                if self.orders.len() > 0 {
                    let i = self.active_order;
                    let ci = self.orders[i].cart_index;
                    let n = self.orders[i].cart.len();
                    let next = if n > 0 && ci < n - 1 {
                        ci + 1
                    } else {
                        ci
                    };
                    self.orders[i].cart_index = next;
                }
            },
            super::Key::Char('k') => {
                self.queue_effect(AppEffect::SendKot { full: false });
            },
            super::Key::Char('K') => {
                self.queue_effect(AppEffect::SendKot { full: true });
            },
            super::Key::Char('C') => {
                self.clear_active_cart();
            },
            super::Key::Char('n') => {
                self.open_item_note_prompt();
            },
            super::Key::Char('=') | super::Key::Char('+') => {
                if self.can_adjust(1) {
                    self.adjust_selected_line_quantity(1);
                }
            },
            super::Key::Char('-') => {
                if self.can_adjust(-1) {
                    self.adjust_selected_line_quantity(-1);
                }
            },
            super::Key::Delete | super::Key::Char('x') => {
                self.remove_selected_line();
            },
            super::Key::Char('g') => {
                self.open_table_jump();
            },
            super::Key::Enter | super::Key::Char('p') => {
                self.begin_billing();
            },
            super::Key::Tab => {
                self.focus = Focus::RecentBills;
                self.recent_tab = RecentTab::Bills;
            },
            super::Key::BackTab => {
                self.focus = Focus::Menu;
            },
            _ => {},
        }
    }

    /// Whether changing the selected line's quantity by `change` fits (see
    /// `adjust_fits`).
    pub fn can_adjust(&self, change: i32) -> (r: bool)
        requires
            self.wf(),
        ensures
            r == self.adjust_fits(change),
    {
        if self.orders.len() == 0 || self.orders[self.active_order].status == crate::models::OrderStatus::Paid {
            return true;
        }
        let o = &self.orders[self.active_order];
        if o.cart_index >= o.cart.len() {
            return true;
        }
        let q = o.cart[o.cart_index].qty;
        if change > 0 {
            (q as u64) + (change as u64) <= 0xFFFF_FFFFu64
        } else if q > 1 {
            change > i32::MIN && (q as i64) >= -(change as i64)
        } else {
            true
        }
    }
}

impl<M: Copy> App<M> {
    /// Keeps the table cursor inside the selected area.
    fn clamp_table_cursor(&mut self)
        requires
            old(self).wf(),
        ensures
            final(self).wf(),
            final(self).selected_table_index == clamp_cursor(
                old(self).selected_table_index,
                area_table_count(*old(self), old(self).selected_area_index),
            ),
            *final(self) == (App { selected_table_index: final(self).selected_table_index, ..*old(self) }),
    {
        let max = match self.selected_area() {
            Some(a) => a.table_count,
            None => 0,
        };
        if self.selected_table_index >= max {
            self.selected_table_index = if max > 0 {
                max - 1
            } else {
                0
            };
        }
    }

    /// Keys of the floor plan.
    fn tables_key(&mut self, key: super::Key, now: i64)
        requires
            old(self).wf(),
        ensures
            final(self).wf(),
            tables_moves(*old(self), *final(self), key, now),
    {
        match key {
            super::Key::Left | super::Key::Char('h') => {
                if self.selected_table_index > 0 {
                    self.selected_table_index = self.selected_table_index - 1;
                }
            },
            super::Key::Right | super::Key::Char('l') => {
                let max = match self.selected_area() {
                    Some(a) => a.table_count,
                    None => 0,
                };
                if max > 0 && self.selected_table_index < max - 1 {
                    self.selected_table_index = self.selected_table_index + 1;
                }
            },
            super::Key::Up | super::Key::Char('k') => {
                let n = self.areas.len();
                if n > 0 {
                    let m = self.selected_area_index % n;
                    self.selected_area_index = if m == 0 {
                        n - 1
                    } else {
                        m - 1
                    };
                    self.clamp_table_cursor();
                }
            },
            super::Key::Down | super::Key::Char('j') => {
                let n = self.areas.len();
                if n > 0 {
                    let m = self.selected_area_index % n;
                    self.selected_area_index = if m + 1 == n {
                        0
                    } else {
                        m + 1
                    };
                    self.clamp_table_cursor();
                }
            },
            super::Key::Enter => {
                self.open_table_order(now);
            },
            super::Key::Char('m') => {
                self.open_table_move();
            },
            super::Key::Char('t') => {
                self.open_takeout_order();
            },
            super::Key::Char('c') => {
                self.close_order(now);
            },
            super::Key::Char('s') => {
                self.advance_stage(now);
            },
            super::Key::Char('r') => {
                self.clean_selected_table(now);
            },
            super::Key::Char('K') => {
                self.queue_effect(AppEffect::SendKot { full: false });
            },
            super::Key::Char('g') => {
                self.open_table_jump();
            },
            super::Key::Char('b') | super::Key::Char('p') => {
                self.begin_billing();
            },
            super::Key::BackTab => {
                self.focus = Focus::RecentBills;
                self.recent_tab = RecentTab::Kots;
            },
            super::Key::Tab => {
                self.focus = Focus::Search;
            },
            _ => {},
        }
    }

    /// Keys of the recent bills and tickets panel.
    fn recent_key(&mut self, key: super::Key)
        requires
            old(self).wf(),
        ensures
            final(self).wf(),
            recent_moves(*old(self), *final(self), key),
    {
        match key {
            super::Key::Left | super::Key::Char('h') => {
                self.recent_tab = RecentTab::Bills;
            },
            super::Key::Right | super::Key::Char('l') => {
                self.recent_tab = RecentTab::Kots;
            },
            super::Key::Up | super::Key::Char('k') => {
                match self.recent_tab {
                    RecentTab::Bills => {
                        if self.recent_bill_index > 0 {
                            self.recent_bill_index = self.recent_bill_index - 1;
                        }
                    },
                    RecentTab::Kots => {
                        if self.recent_kot_index > 0 {
                            self.recent_kot_index = self.recent_kot_index - 1;
                        }
                    },
                }
            },
            super::Key::Down | super::Key::Char('j') => {
                match self.recent_tab {
                    RecentTab::Bills => {
                        let n = self.recent_bills.len();
                        if n > 0 && self.recent_bill_index < n - 1 {
                            self.recent_bill_index = self.recent_bill_index + 1;
                        }
                    },
                    RecentTab::Kots => {
                        let n = self.recent_kots.len();
                        if n > 0 && self.recent_kot_index < n - 1 {
                            self.recent_kot_index = self.recent_kot_index + 1;
                        }
                    },
                }
            },
            super::Key::Char('/') | super::Key::Char('s') => {
                self.open_bill_search();
            },
            super::Key::Char('p') | super::Key::Char('r') | super::Key::Enter => {
                match self.recent_tab {
                    RecentTab::Bills => {
                        self.reprint_selected_recent_bill();
                    },
                    RecentTab::Kots => {
                        self.reprint_selected_recent_kot();
                    },
                }
            },
            super::Key::Char('K') => {
                self.open_kds();
            },
            super::Key::Tab => {
                match self.recent_tab {
                    RecentTab::Bills => {
                        self.recent_tab = RecentTab::Kots;
                    },
                    RecentTab::Kots => {
                        self.focus = Focus::Tables;
                    },
                }
            },
            super::Key::BackTab => {
                match self.recent_tab {
                    RecentTab::Bills => {
                        self.focus = Focus::Cart;
                    },
                    RecentTab::Kots => {
                        self.recent_tab = RecentTab::Bills;
                    },
                }
            },
            _ => {},
        }
    }

    /// Keys of the customer mobile popup: up to ten digits; Enter with ten
    /// digits or none goes on to the offer popup, or straight to billing
    /// when there are no offers.
    fn mobile_key(&mut self, key: super::Key)
        requires
            old(self).wf(),
        ensures
            final(self).wf(),
            mobile_moves(*old(self), *final(self), key),
    {
        match key {
            super::Key::Char(c) => {
                if '0' <= c && c <= '9' {
                    if self.mobile_buffer.as_str().len() < 10 {
                        push_char(&mut self.mobile_buffer, c);
                        self.update_customer_crm();
                    }
                }
            },
            super::Key::Backspace => {
                pop_char(&mut self.mobile_buffer);
                self.update_customer_crm();
            },
            super::Key::Enter => {
                let len = self.mobile_buffer.as_str().len();
                if len == 10 || self.mobile_buffer.unicode_len() == 0 {
                    let mut mobile = String::new();
                    std::mem::swap(&mut mobile, &mut self.mobile_buffer);
                    if self.offers.len() == 0 {
                        self.queue_effect(AppEffect::CompleteBilling { mobile, offer_id: None });
                    } else {
                        self.offer_index = 0;
                        self.focus = Focus::OfferSelect;
                        self.pending_mobile = mobile;
                    }
                } else {
                    let d = decimal(len as u64);
                    let msg = super::orders::msg3(
                        "Mobile number needs 10 digits (",
                        d.as_str(),
                        " so far, or press Enter on empty to skip).",
                    );
                    self.notify(msg);
                }
            },
            super::Key::Esc => {
                self.focus = self.focus_return;
            },
            _ => {},
        }
    }

    /// Keys of the payment popup.
    fn payment_key(&mut self, key: super::Key, now: i64)
        requires
            old(self).wf(),
        ensures
            final(self).wf(),
            payment_moves(*old(self), *final(self), key, now),
    {
        match key {
            super::Key::Up | super::Key::Char('k') => {
                if self.payment_mode_index > 0 {
                    self.payment_mode_index = self.payment_mode_index - 1;
                }
            },
            super::Key::Down | super::Key::Char('j') => {
                if self.payment_mode_index < 4 {
                    self.payment_mode_index = self.payment_mode_index + 1;
                }
            },
            super::Key::Char('c') | super::Key::Char('C') => {
                self.select_payment_mode(PaymentMode::Cash, now);
            },
            super::Key::Char('u') | super::Key::Char('U') => {
                self.select_payment_mode(PaymentMode::Upi, now);
            },
            super::Key::Char('d') | super::Key::Char('D') => {
                self.select_payment_mode(PaymentMode::Card, now);
            },
            super::Key::Char('q') | super::Key::Char('Q') => {
                self.show_upi_qr();
            },
            super::Key::Char(c) => {
                if '1' <= c && c <= '5' {
                    let idx = (digit_value(c) - 1) as usize;
                    let modes = PaymentMode::all();
                    self.select_payment_mode(modes[idx], now);
                }
            },
            super::Key::Enter => {
                if self.payment_mode_index < 5 {
                    let modes = PaymentMode::all();
                    self.select_payment_mode(modes[self.payment_mode_index], now);
                }
            },
            super::Key::Esc => {
                self.focus = self.focus_return;
            },
            _ => {},
        }
    }

    /// Keys of the offer popup: 0 means no offer, `k` the k-th offer.
    fn offer_key(&mut self, key: super::Key)
        requires
            old(self).wf(),
        ensures
            final(self).wf(),
            offer_moves(*old(self), *final(self), key),
    {
        let count = self.offers.len();
        match key {
            super::Key::Up | super::Key::Char('k') => {
                if self.offer_index > 0 {
                    self.offer_index = self.offer_index - 1;
                }
            },
            super::Key::Down | super::Key::Char('j') => {
                if self.offer_index < count {
                    self.offer_index = self.offer_index + 1;
                }
            },
            super::Key::Char(c) => {
                if '0' <= c && c <= '9' {
                    let idx = digit_value(c) as usize;
                    if idx <= count {
                        self.apply_offer_and_bill(idx);
                    }
                }
            },
            super::Key::Enter => {
                let idx = self.offer_index;
                self.apply_offer_and_bill(idx);
            },
            super::Key::Esc => {
                self.pending_mobile = String::new();
                self.focus = self.focus_return;
            },
            _ => {},
        }
    }
}

impl<M: Copy> App<M> {
    /// Keys of the table-jump box.
    fn table_jump_key(&mut self, key: super::Key)
        requires
            old(self).wf(),
        ensures
            final(self).wf(),
            table_jump_moves(*old(self), *final(self), key),
    {
        match key {
            super::Key::Char(c) => {
                push_char(&mut self.table_input, c);
                self.table_search_index = 0;
            },
            super::Key::Backspace => {
                pop_char(&mut self.table_input);
                self.table_search_index = 0;
            },
            super::Key::Up | super::Key::BackTab => {
                if self.table_search_index > 0 {
                    self.table_search_index = self.table_search_index - 1;
                }
            },
            super::Key::Down | super::Key::Tab => {
                let n = match self.matching_tables() {
                    Some(v) => v.len(),
                    None => 0,
                };
                if n > 0 && self.table_search_index < n - 1 {
                    self.table_search_index = self.table_search_index + 1;
                }
            },
            super::Key::Enter => {
                let matches = match self.matching_tables() {
                    Some(v) => v,
                    None => Vec::new(),
                };
                if matches.len() > 0 {
                    let idx = if self.table_search_index < matches.len() {
                        self.table_search_index
                    } else {
                        matches.len() - 1
                    };
                    let target = &matches[idx];
                    self.selected_area_index = target.area_index;
                    self.selected_table_index = if target.table_number > 0 {
                        target.table_number - 1
                    } else {
                        0
                    };
                    match target.order_id {
                        Some(oid) => {
                            match crate::tables::find_order_by_id(&self.orders, oid) {
                                Some(k) => {
                                    self.active_order = k;
                                },
                                None => {},
                            }
                        },
                        None => {},
                    }
                    let mut msg = super::orders::msg3("Jumped to ", target.area_name.as_str(), " Table ");
                    let d = decimal(target.table_number as u64);
                    crate::text::push_str(&mut msg, d.as_str());
                    crate::text::push_str(&mut msg, " (");
                    crate::text::push_str(&mut msg, target.status.title());
                    crate::text::push_str(&mut msg, ").");
                    self.notify(msg);
                    self.table_input = String::new();
                    self.table_search_index = 0;
                    self.focus = Focus::Tables;
                } else if self.table_input.unicode_len() > 0 {
                    let msg = super::orders::msg3("No tables match '", self.table_input.as_str(), "'.");
                    self.notify(msg);
                } else {
                    self.focus = Focus::Tables;
                }
            },
            super::Key::Esc => {
                self.table_input = String::new();
                self.table_search_index = 0;
                self.focus = Focus::Tables;
            },
            _ => {},
        }
    }

    /// Keys of the popups that only show something: daily report, UPI QR,
    /// sales analytics.
    fn viewer_key(&mut self, key: super::Key)
        requires
            old(self).wf(),
        ensures
            final(self).wf(),
            viewer_moves(*old(self), *final(self), key),
    {
        match self.focus {
            Focus::DailyReport => match key {
                super::Key::Char('p') | super::Key::Char('P') => {
                    self.print_daily_report();
                },
                super::Key::Esc | super::Key::Enter | super::Key::Char('q') | super::Key::Char('z') => {
                    self.focus = self.focus_return;
                },
                _ => {},
            },
            Focus::UpiQr => match key {
                super::Key::Esc | super::Key::Enter | super::Key::Char('q') | super::Key::Char('Q') => {
                    self.focus = self.focus_return;
                },
                _ => {},
            },
            _ => match key {
                super::Key::Esc | super::Key::Char('q') | super::Key::Char('a') | super::Key::Char('A')
                | super::Key::Enter => {
                    self.focus = self.focus_return;
                },
                _ => {},
            },
        }
    }

    /// Keys of the bill search.
    fn bill_search_key(&mut self, key: super::Key)
        requires
            old(self).wf(),
        ensures
            final(self).wf(),
            bill_search_moves(*old(self), *final(self), key),
    {
        match key {
            super::Key::Char(c) => {
                push_char(&mut self.bill_search_query, c);
                self.update_bill_search();
            },
            super::Key::Backspace => {
                pop_char(&mut self.bill_search_query);
                self.update_bill_search();
            },
            super::Key::Up | super::Key::BackTab => {
                if self.bill_search_index > 0 {
                    self.bill_search_index = self.bill_search_index - 1;
                }
            },
            super::Key::Down | super::Key::Tab => {
                let n = self.bill_search_results.len();
                if n > 0 && self.bill_search_index < n - 1 {
                    self.bill_search_index = self.bill_search_index + 1;
                }
            },
            super::Key::Enter => {
                self.reprint_selected_historical_bill();
            },
            super::Key::Esc => {
                self.focus = self.focus_return;
            },
            _ => {},
        }
    }

    /// Keys of the table-move popup.
    fn table_move_key(&mut self, key: super::Key)
        requires
            old(self).wf(),
        ensures
            final(self).wf(),
            table_move_moves(*old(self), *final(self), key),
    {
        match key {
            super::Key::Up | super::Key::Left | super::Key::Char('k') | super::Key::Char('h') => {
                if self.table_move_target_index > 0 {
                    self.table_move_target_index = self.table_move_target_index - 1;
                }
            },
            super::Key::Down | super::Key::Right | super::Key::Char('j') | super::Key::Char('l') => {
                let n = self.table_move_targets().len();
                if n > 0 && self.table_move_target_index < n - 1 {
                    self.table_move_target_index = self.table_move_target_index + 1;
                }
            },
            super::Key::Enter => {
                if self.merge_fits_now() {
                    self.execute_table_move_or_merge();
                }
            },
            super::Key::Esc => {
                self.focus = Focus::Tables;
            },
            _ => {},
        }
    }

    /// Keys of the item-note popup.
    fn item_note_key(&mut self, key: super::Key)
        requires
            old(self).wf(),
        ensures
            final(self).wf(),
            item_note_moves(*old(self), *final(self), key),
    {
        match key {
            super::Key::Char(c) => {
                push_char(&mut self.item_note_buffer, c);
            },
            super::Key::Backspace => {
                pop_char(&mut self.item_note_buffer);
            },
            super::Key::Enter => {
                if self.orders.len() > 0 {
                    self.save_item_note();
                } else {
                    self.focus = self.focus_return;
                }
            },
            super::Key::Esc => {
                self.focus = self.focus_return;
            },
            _ => {},
        }
    }

    /// Keys of the kitchen display.
    fn kds_key(&mut self, key: super::Key)
        requires
            old(self).wf(),
        ensures
            final(self).wf(),
            kds_moves(*old(self), *final(self), key),
    {
        match key {
            super::Key::Esc | super::Key::Char('q') | super::Key::Char('k') | super::Key::Char('K') => {
                self.focus = self.focus_return;
            },
            super::Key::Up | super::Key::Char('w') => {
                if self.kds_index > 0 {
                    self.kds_index = self.kds_index - 1;
                }
            },
            super::Key::Down | super::Key::Char('s') => {
                let n = self.kds_kots.len();
                if n > 0 && self.kds_index < n - 1 {
                    self.kds_index = self.kds_index + 1;
                }
            },
            super::Key::Char(' ') | super::Key::Enter => {
                self.kds_bump_status();
            },
            super::Key::Char('r') | super::Key::F(5) => {
                if self.has_database {
                    self.queue_effect(AppEffect::RefreshKitchenDisplay);
                }
            },
            _ => {},
        }
    }
}

impl<M: Copy> App<M> {
    /// Handles one key press at time `now` (seconds); returns whether the
    /// application should quit. `q` and Esc quit except in the search box and
    /// the popups; `?` toggles the help outside text boxes; outside text
    /// boxes `]`/`[` cycle the open orders, `z` opens the daily report, `a`/F8
    /// the analytics, F7 the kitchen display and 1-7 jump between boxes
    /// (the last three not in popups); every other key goes to the focused
    /// panel or popup, whose keys `key_moves` lists. Keys whose action would
    /// push a quantity past `u32` do nothing.
    pub fn handle_key(&mut self, key: super::Key, now: i64) -> (quit: bool)
        requires
            old(self).wf(),
        ensures
            final(self).wf(),
            quit == (quit_key(key) && !protected_focus(old(self).focus)),
            quit ==> *final(self) == *old(self),
            !quit && key == super::Key::Char('?') && !text_focus(old(self).focus) ==> *final(self) == (App {
                show_help: !old(self).show_help,
                ..*old(self)
            }),
            !text_focus(old(self).focus) && key == super::Key::Char(']') ==> {
                &&& old(self).orders@.len() == 0 ==> *final(self) == *old(self)
                &&& old(self).orders@.len() > 0 ==> final(self).active_order == next_order_index(
                    old(self).active_order as int,
                    old(self).orders@.len() as int,
                ) && final(self).notes() == old(self).notes().push(
                    "Switched to "@ + final(self).active().label@ + "."@,
                ) && *final(self) == (App {
                    active_order: final(self).active_order,
                    notifications: final(self).notifications,
                    ..*old(self)
                })
            },
            !text_focus(old(self).focus) && key == super::Key::Char('[') ==> {
                let n = old(self).orders@.len();
                &&& n == 0 ==> *final(self) == *old(self)
                &&& n > 0 ==> final(self).active_order == prev_order_index(old(self).active_order as int, n as int)
                    && final(self).notes() == old(self).notes().push(
                    "Switched to "@ + final(self).active().label@ + "."@,
                ) && *final(self) == (App {
                    active_order: final(self).active_order,
                    notifications: final(self).notifications,
                    ..*old(self)
                })
            },
            !text_focus(old(self).focus) && key == super::Key::Char('z') && old(self).focus != Focus::DailyReport
                ==> final(self).pending_effects@ == old(self).pending_effects@.push(AppEffect::OpenDailyReport)
                && *final(self) == (App {
                pending_effects: final(self).pending_effects,
                focus_return: old(self).focus,
                focus: Focus::DailyReport,
                ..*old(self)
            }),
            !text_focus(old(self).focus) && !modal_focus(old(self).focus) && (key == super::Key::Char('a')
                || key == super::Key::Char('A') || key == super::Key::F(8)) ==> final(self).pending_effects@
                == old(self).pending_effects@.push(AppEffect::OpenSalesAnalytics) && *final(self) == (App {
                pending_effects: final(self).pending_effects,
                focus_return: old(self).focus,
                focus: Focus::Analytics,
                ..*old(self)
            }),
            !text_focus(old(self).focus) && !modal_focus(old(self).focus) ==> (key matches super::Key::Char(c)
                ==> ('1' <= c <= '7' ==> box_switched(*old(self), *final(self), c as int - '0' as int))),
            !text_focus(old(self).focus) && !modal_focus(old(self).focus) && key == super::Key::F(7) ==> kds_opened(
                *old(self),
                *final(self),
            ),
            routed(old(self).focus, key) ==> key_moves(*old(self), *final(self), key, now),
    {
        let focus = self.focus;
        let protected = match focus {
            Focus::Search | Focus::MobileEntry | Focus::PaymentMode | Focus::OfferSelect
            | Focus::TableJump | Focus::DailyReport | Focus::BillSearch | Focus::UpiQr
            | Focus::TableMove | Focus::ItemNote | Focus::KitchenDisplay | Focus::Analytics => true,
            _ => false,
        };
        let is_quit = match key {
            super::Key::Char(c) => c == 'q',
            super::Key::Esc => true,
            _ => false,
        };
        if is_quit && !protected {
            return true;
        }
        let in_text = match focus {
            Focus::Search | Focus::TableJump | Focus::MobileEntry | Focus::BillSearch | Focus::ItemNote => true,
            _ => false,
        };
        if !in_text {
            let in_modal = match focus {
                Focus::PaymentMode | Focus::OfferSelect | Focus::DailyReport | Focus::TableMove
                | Focus::UpiQr | Focus::KitchenDisplay | Focus::Analytics => true,
                _ => false,
            };
            match key {
                super::Key::Char('?') => {
                    self.show_help = !self.show_help;
                    return false;
                },
                super::Key::Char(']') => {
                    if self.orders.len() > 0 {
                        self.active_order = (self.active_order + 1) % self.orders.len();
                        let msg = super::orders::msg3("Switched to ", self.orders[self.active_order].label.as_str(), ".");
                        self.notify(msg);
                    }
                    return false;
                },
                super::Key::Char('[') => {
                    let n = self.orders.len();
                    if n > 0 {
                        let sum = if self.active_order > usize::MAX - (n - 1) {
                            usize::MAX
                        } else {
                            self.active_order + (n - 1)
                        };
                        self.active_order = sum % n;
                        let msg = super::orders::msg3("Switched to ", self.orders[self.active_order].label.as_str(), ".");
                        self.notify(msg);
                    }
                    return false;
                },
                super::Key::Char('z') => {
                    if focus != Focus::DailyReport {
                        self.open_daily_report();
                        return false;
                    }
                },
                super::Key::Char('a') | super::Key::Char('A') | super::Key::F(8) => {
                    if !in_modal {
                        self.open_sales_analytics();
                        return false;
                    }
                },
                super::Key::F(7) => {
                    if !in_modal {
                        self.open_kds();
                        return false;
                    }
                },
                super::Key::Char(c) => {
                    if !in_modal && '1' <= c && c <= '7' {
                        self.switch_to_box(digit_value(c));
                        return false;
                    }
                },
                _ => {},
            }
        }
        match focus {
            Focus::Search => self.search_key(key),
            Focus::Menu => self.menu_key(key),
            Focus::Cart => self.cart_key(key),
            Focus::Tables => self.tables_key(key, now),
            Focus::RecentBills => self.recent_key(key),
            Focus::MobileEntry => self.mobile_key(key),
            Focus::PaymentMode => self.payment_key(key, now),
            Focus::OfferSelect => self.offer_key(key),
            Focus::TableJump => self.table_jump_key(key),
            Focus::BillSearch => self.bill_search_key(key),
            Focus::TableMove => self.table_move_key(key),
            Focus::ItemNote => self.item_note_key(key),
            Focus::KitchenDisplay => self.kds_key(key),
            Focus::DailyReport | Focus::UpiQr | Focus::Analytics => self.viewer_key(key),
        }
        false
    }
}

} // verus!
