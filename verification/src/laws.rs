//! Properties of the xpay module and of doughnuts that span calls.
use vstd::prelude::*;
use crate::xpay_diner::{
    after_insert_into_diner, after_remove_from_diner, bill_after_order, bill_after_payment,
    bill_after_take_back, bill_of, bill_with_one_more, dec_wrap, first_line_of, first_unpaid,
    has_line_for, inc_wrap, lemma_first_line_is, lemma_has_line_has_first, lemma_no_line,
    purchase_for_diner_result, remove_from_diner_result, after_purchase_for_diner,
};
use crate::doughnut::{validate_result, within_validity, Doughnut};
use crate::xpay_profile::{after_remove_profile, after_save_profile};
use crate::storage::XPayModel;
use crate::types::{
    AccountId, AssetId, Balance, DinerEntry, Item, ItemId, Price, Profile, XPayError,
};
use crate::xpay::{after_create_item, purchase_item_result, total_price, Payment};

verus! {

/// The id the next item gets is not in use: creating an item never
/// overwrites an item or a price.
pub proof fn lemma_next_item_id_is_fresh(s: XPayModel)
    requires
        s.wf(),
    ensures
        !s.items.contains_key(s.next_item_id),
        !s.item_prices.contains_key(s.next_item_id),
{
}

/// After an item is created, reading its id gives back the item and its
/// price, the creator lists it last, and every item and price that stood
/// before stands unchanged.
pub proof fn lemma_create_item_then_read(s: XPayModel, owner: AccountId, item: Item, price: Price)
    requires
        s.wf(),
        s.next_item_id < ItemId::MAX,
    ensures
        ({
            let t = after_create_item(s, owner, item, price);
            let id = s.next_item_id;
            &&& t.items.contains_key(id) && t.items[id] == item
            &&& t.item_prices.contains_key(id) && t.item_prices[id] == price
            &&& t.owned_by(owner).len() == s.owned_by(owner).len() + 1
            &&& t.owned_by(owner).last() == id
            &&& t.next_item_id == id + 1
            &&& forall|k: ItemId| #[trigger]
                s.items.contains_key(k) ==> t.items.contains_key(k) && t.items[k] == s.items[k]
                    && t.item_prices[k] == s.item_prices[k]
        }),
{
}

/// Taking an item back from a bill undoes ordering it, where the bill has
/// exactly one line for the item; the taking back is refused only where the
/// order wrapped the line's unpaid count to 0.
pub proof fn lemma_take_back_undoes_order(s: XPayModel, item: ItemId, diner: u32)
    requires
        s.diners.contains_key(diner),
        has_line_for(s.diners[diner], item),
        forall|i: int, j: int|
            0 <= i < j < s.diners[diner].len() && #[trigger] s.diners[diner][i].0 == item
                ==> #[trigger] s.diners[diner][j].0 != item,
    ensures
        after_remove_from_diner(after_insert_into_diner(s, item, diner), item, diner) == s,
        remove_from_diner_result(after_insert_into_diner(s, item, diner), item, diner) == (if first_unpaid(s.diners[diner], item) == 255 {
            Err::<(), XPayError>(XPayError::NoUnpaidItemToRemove)
        } else {
            Ok(())
        }),
{
    let bill = s.diners[diner];
    assert(bill_of(s, diner) == bill);
    let ordered = bill_after_order(bill, item);
    assert(ordered == bill_with_one_more(bill, item));
    let t = after_insert_into_diner(s, item, diner);
    assert(t.diners[diner] == ordered);
    assert(ordered.len() == bill.len());
    assert forall|j: int| 0 <= j < bill.len() implies #[trigger] ordered[j].0 == bill[j].0 by {}
    lemma_has_line_has_first(bill, item);
    let i = first_line_of(bill, item);
    assert forall|j: int| 0 <= j < i implies #[trigger] ordered[j].0 != item by {
        assert(bill[j].0 != item);
    }
    assert(ordered[i].0 == item);
    lemma_first_line_is(ordered, item, i);
    let back = bill_after_take_back(ordered, item);
    assert(dec_wrap(inc_wrap(bill[i].2)) == bill[i].2);
    assert forall|j: int| 0 <= j < bill.len() implies #[trigger] back[j] == bill[j] by {
        if j != i && bill[j].0 == item {
            if j < i {
                assert(bill[j].0 != item);
            } else {
                assert(bill[i].0 == item);
            }
        }
    }
    assert(back =~= bill);
    assert(first_unpaid(ordered, item) == inc_wrap(bill[i].2));
    assert(after_remove_from_diner(t, item, diner).diners =~= s.diners);
}

/// Ordering an item that is not on a diner's bill (or for a diner without a
/// bill) adds a last line with one unpaid unit of it; taking it back then
/// succeeds and leaves that line with nothing paid and nothing unpaid.
pub proof fn lemma_order_adds_new_line(s: XPayModel, item: ItemId, diner: u32)
    requires
        !has_line_for(bill_of(s, diner), item),
    ensures
        after_insert_into_diner(s, item, diner).diners[diner] == bill_of(s, diner).push(
            (item, 0u8, 1u8),
        ),
        remove_from_diner_result(after_insert_into_diner(s, item, diner), item, diner) == Ok::<
            (),
            XPayError,
        >(()),
        after_remove_from_diner(after_insert_into_diner(s, item, diner), item, diner).diners[diner]
            == bill_of(s, diner).push((item, 0u8, 0u8)),
{
    let bill = bill_of(s, diner);
    let ordered = bill.push((item, 0u8, 1u8));
    lemma_no_line(bill, item);
    let n = bill.len() as int;
    assert forall|j: int| 0 <= j < n implies #[trigger] ordered[j].0 != item by {
        assert(ordered[j] == bill[j]);
    }
    lemma_first_line_is(ordered, item, n);
    assert(bill_after_take_back(ordered, item) =~= bill.push((item, 0u8, 0u8)));
}

/// Paying for an item moves one unit of its first line from unpaid to paid:
/// the sum of the two counts stays the same (modulo 256), and every other
/// line stays as it is.
pub proof fn lemma_payment_keeps_line_total(bill: Seq<DinerEntry>, item: ItemId)
    requires
        has_line_for(bill, item),
    ensures
        ({
            let i = first_line_of(bill, item);
            let paid = bill_after_payment(bill, item);
            &&& paid.len() == bill.len()
            &&& paid[i].0 == item
            &&& (paid[i].1 + paid[i].2) % 256 == (bill[i].1 + bill[i].2) % 256
            &&& forall|j: int| 0 <= j < bill.len() && j != i ==> #[trigger] paid[j] == bill[j]
        }),
{
    lemma_has_line_has_first(bill, item);
}

/// The paid (`paid` true) or unpaid units of a bill line.
pub open spec fn line_units(e: DinerEntry, paid: bool) -> int {
    if paid {
        e.1 as int
    } else {
        e.2 as int
    }
}

/// The paid (`paid` true) or unpaid units on a bill.
pub open spec fn bill_units(bill: Seq<DinerEntry>, paid: bool) -> int
    decreases bill.len(),
{
    if bill.len() == 0 {
        0
    } else {
        bill_units(bill.drop_last(), paid) + line_units(bill.last(), paid)
    }
}

/// The paid (`paid` true) or unpaid units on all the bills in storage.
pub open spec fn store_units(s: XPayModel, paid: bool) -> int {
    s.diners.dom().fold(0int, |acc: int, d: u32| acc + bill_units(s.diners[d], paid))
}

/// Replacing one line of a bill changes its units by the difference.
pub proof fn lemma_bill_units_update(bill: Seq<DinerEntry>, i: int, e: DinerEntry, paid: bool)
    requires
        0 <= i < bill.len(),
    ensures
        bill_units(bill.update(i, e), paid) == bill_units(bill, paid) - line_units(bill[i], paid)
            + line_units(e, paid),
    decreases bill.len(),
{
    let u = bill.update(i, e);
    if i == bill.len() - 1 {
        assert(u.drop_last() =~= bill.drop_last());
    } else {
        assert(u.drop_last() =~= bill.drop_last().update(i, e));
        lemma_bill_units_update(bill.drop_last(), i, e, paid);
    }
}

/// Folds of two sums over a finite set agree where the summands agree.
proof fn lemma_fold_sums_agree(
    keys: Set<u32>,
    f: spec_fn(int, u32) -> int,
    g: spec_fn(int, u32) -> int,
)
    requires
        keys.finite(),
        vstd::set::fold::is_fun_commutative(f),
        vstd::set::fold::is_fun_commutative(g),
        forall|acc: int, d: u32| keys.contains(d) ==> #[trigger] f(acc, d) == g(acc, d),
    ensures
        keys.fold(0int, f) == keys.fold(0int, g),
    decreases keys.len(),
{
    if keys.len() == 0 {
        assert(keys =~= Set::<u32>::empty());
        vstd::set::fold::lemma_fold_empty(0int, f);
        vstd::set::fold::lemma_fold_empty(0int, g);
    } else {
        let a = keys.choose();
        let rest = keys.remove(a);
        assert(rest.insert(a) =~= keys);
        vstd::set::fold::lemma_fold_insert(rest, 0int, f, a);
        vstd::set::fold::lemma_fold_insert(rest, 0int, g, a);
        lemma_fold_sums_agree(rest, f, g);
    }
}

/// Where storage changes the bill of one diner only, its units change by
/// the difference between that bill's old and new units.
proof fn lemma_store_units_one_bill(s: XPayModel, t: XPayModel, diner: u32, paid: bool)
    requires
        s.diners.dom().finite(),
        s.diners.contains_key(diner),
        t.diners == s.diners.insert(diner, t.diners[diner]),
    ensures
        store_units(t, paid) == store_units(s, paid) - bill_units(s.diners[diner], paid)
            + bill_units(t.diners[diner], paid),
{
    let fs = |acc: int, d: u32| acc + bill_units(s.diners[d], paid);
    let ft = |acc: int, d: u32| acc + bill_units(t.diners[d], paid);
    assert(t.diners.dom() =~= s.diners.dom());
    let rest = s.diners.dom().remove(diner);
    assert(rest.insert(diner) =~= s.diners.dom());
    vstd::set::fold::lemma_fold_insert(rest, 0int, fs, diner);
    vstd::set::fold::lemma_fold_insert(rest, 0int, ft, diner);
    assert forall|acc: int, d: u32| rest.contains(d) implies #[trigger] fs(acc, d) == ft(acc, d) by {
        assert(t.diners[d] == s.diners[d]);
    }
    lemma_fold_sums_agree(rest, fs, ft);
}

/// Paying for an item that has an unpaid unit, on a line whose paid count
/// is below 255, moves exactly one unit from unpaid to paid: every line
/// keeps its paid plus unpaid count, and over all bills in storage the paid
/// units grow by one and the unpaid units shrink by one.
pub proof fn lemma_payment_moves_one_unit(s: XPayModel, item: ItemId, diner: u32)
    requires
        s.wf(),
        purchase_for_diner_result(s, item, diner) is Ok,
        s.diners[diner][first_line_of(s.diners[diner], item)].1 < 255,
    ensures
        ({
            let t = after_purchase_for_diner(s, item, diner);
            &&& t.diners.dom() == s.diners.dom()
            &&& forall|d: u32| #[trigger]
                t.diners.contains_key(d) ==> t.diners[d].len() == s.diners[d].len()
            &&& forall|d: u32, j: int|
                t.diners.contains_key(d) && 0 <= j < t.diners[d].len() ==> #[trigger] t.diners[d][j].1
                    + t.diners[d][j].2 == s.diners[d][j].1 + s.diners[d][j].2
            &&& store_units(t, true) == store_units(s, true) + 1
            &&& store_units(t, false) == store_units(s, false) - 1
        }),
{
    let bill = s.diners[diner];
    lemma_has_line_has_first(bill, item);
    let i = first_line_of(bill, item);
    let e = (bill[i].0, inc_wrap(bill[i].1), dec_wrap(bill[i].2));
    let t = after_purchase_for_diner(s, item, diner);
    assert(t.diners[diner] == bill.update(i, e));
    assert(t.diners.dom() =~= s.diners.dom());
    assert(t.diners == s.diners.insert(diner, t.diners[diner]));
    lemma_bill_units_update(bill, i, e, true);
    lemma_bill_units_update(bill, i, e, false);
    lemma_store_units_one_bill(s, t, diner, true);
    lemma_store_units_one_bill(s, t, diner, false);
}

/// After an account saves a profile, reading its profile gives it back,
/// and the profiles of other accounts stand unchanged.
pub proof fn lemma_save_profile_then_read(s: XPayModel, account: AccountId, profile: Profile)
    ensures
        after_save_profile(s, account, profile).profiles.contains_key(account),
        after_save_profile(s, account, profile).profiles[account] == profile,
        forall|other: AccountId|
            other != account ==> (#[trigger] after_save_profile(
                s,
                account,
                profile,
            ).profiles.contains_key(other) == s.profiles.contains_key(other))
                && after_save_profile(s, account, profile).profiles[other] == s.profiles[other],
{
}

/// Saving the same profile twice is saving it once.
pub proof fn lemma_save_profile_idempotent(s: XPayModel, account: AccountId, profile: Profile)
    ensures
        after_save_profile(after_save_profile(s, account, profile), account, profile)
            == after_save_profile(s, account, profile),
{
    assert(after_save_profile(after_save_profile(s, account, profile), account, profile).profiles
        =~= after_save_profile(s, account, profile).profiles);
}

/// Removing a profile after saving one leaves what removing it alone
/// leaves: no profile for the account.
pub proof fn lemma_remove_after_save_profile(s: XPayModel, account: AccountId, profile: Profile)
    ensures
        after_remove_profile(after_save_profile(s, account, profile), account)
            == after_remove_profile(s, account),
        !after_remove_profile(s, account).profiles.contains_key(account),
{
    assert(after_remove_profile(after_save_profile(s, account, profile), account).profiles
        =~= after_remove_profile(s, account).profiles);
}

/// A purchase that is not refused asks for exactly the item's price times
/// the quantity, from the buyer to a seller that lists the item; paid in
/// the price's own asset it asks for no more than the buyer allows.
pub proof fn lemma_purchase_pays_total_price(
    s: XPayModel,
    buyer: AccountId,
    seller: AccountId,
    item_id: ItemId,
    diner: u32,
    paying_asset_id: AssetId,
    paying_amount_max: Balance,
    quantity: u32,
)
    requires
        purchase_item_result(
            s,
            buyer,
            seller,
            item_id,
            diner,
            paying_asset_id,
            paying_amount_max,
            quantity,
        ) is Ok,
    ensures
        s.item_prices.contains_key(item_id),
        s.owned_by(seller).contains(item_id),
        match purchase_item_result(
            s,
            buyer,
            seller,
            item_id,
            diner,
            paying_asset_id,
            paying_amount_max,
            quantity,
        ) {
            Ok(Payment::Transfer { asset_id, from, to, amount }) => {
                &&& asset_id == s.item_prices[item_id].0
                &&& asset_id == paying_asset_id
                &&& from == buyer && to == seller
                &&& amount == s.item_prices[item_id].1 * quantity
                &&& amount <= paying_amount_max
            },
            Ok(
                Payment::Swap {
                    buyer: b,
                    recipient,
                    asset_sold,
                    asset_bought,
                    buy_amount,
                    max_paying_amount,
                },
            ) => {
                &&& b == buyer && recipient == seller
                &&& asset_sold == paying_asset_id
                &&& asset_bought == s.item_prices[item_id].0
                &&& asset_bought != asset_sold
                &&& buy_amount == s.item_prices[item_id].1 * quantity
                &&& max_paying_amount == paying_amount_max
            },
            Err(_) => false,
        },
{
    let unit = s.item_prices[item_id].1;
    assert(total_price(unit, quantity) is Some);
}

/// A doughnut accepted at `now` is valid from its start up to its expiry:
/// it is accepted at every later time before it expires, and refused once
/// it has expired.
pub proof fn lemma_doughnut_valid_until_expiry(d: Doughnut, now: u64, later: u64)
    requires
        validate_result(d, now, true) is Ok,
        now <= later,
    ensures
        within_validity(d.certificate, now),
        later < d.certificate.expires ==> validate_result(d, later, true) is Ok,
        later >= d.certificate.expires ==> validate_result(d, later, true) is Err,
{
}

} // verus!
