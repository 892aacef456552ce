//! The bills of diners: ordering an item, taking it back, and paying for it.
//!
//! The counters of a bill line are bytes that wrap around, as the runtime
//! computes them, and a refused call keeps what it wrote before it was
//! refused.
use vstd::prelude::*;
use crate::storage::{XPay, XPayModel};
use crate::types::{DinerEntry, ItemId, XPayError};

verus! {

/// One more, wrapping from 255 to 0.
pub open spec fn inc_wrap(x: u8) -> u8 {
    if x == 255 {
        0
    } else {
        (x + 1) as u8
    }
}

/// One less, wrapping from 0 to 255.
pub open spec fn dec_wrap(x: u8) -> u8 {
    if x == 0 {
        255
    } else {
        (x - 1) as u8
    }
}

/// `i` is the first line of `bill` that is for `item`.
pub open spec fn is_first_line_of(bill: Seq<DinerEntry>, item: ItemId, i: int) -> bool {
    &&& 0 <= i < bill.len()
    &&& bill[i].0 == item
    &&& forall|j: int| 0 <= j < i ==> #[trigger] bill[j].0 != item
}

/// The first line of `bill` that is for `item`; -1 where none is.
pub open spec fn first_line_of(bill: Seq<DinerEntry>, item: ItemId) -> int {
    if exists|i: int| is_first_line_of(bill, item, i) {
        choose|i: int| is_first_line_of(bill, item, i)
    } else {
        -1
    }
}

/// `bill` has a line for `item`.
pub open spec fn has_line_for(bill: Seq<DinerEntry>, item: ItemId) -> bool {
    exists|i: int| 0 <= i < bill.len() && #[trigger] bill[i].0 == item
}

/// Every line for `item` gets one more unpaid.
pub open spec fn bill_with_one_more(bill: Seq<DinerEntry>, item: ItemId) -> Seq<DinerEntry> {
    bill.map_values(|e: DinerEntry| if e.0 == item { (e.0, e.1, inc_wrap(e.2)) } else { e })
}

/// The bill after one more `item` is ordered on it: every line for `item`
/// gets one more unpaid, and a bill without a line for `item` gets a new
/// last line with one unpaid `item`.
pub open spec fn bill_after_order(bill: Seq<DinerEntry>, item: ItemId) -> Seq<DinerEntry> {
    if has_line_for(bill, item) {
        bill_with_one_more(bill, item)
    } else {
        bill.push((item, 0u8, 1u8))
    }
}

/// The bill after one `item` is taken back: its first line gets one unpaid
/// less.
pub open spec fn bill_after_take_back(bill: Seq<DinerEntry>, item: ItemId) -> Seq<DinerEntry> {
    let i = first_line_of(bill, item);
    if i < 0 {
        bill
    } else {
        bill.update(i, (bill[i].0, bill[i].1, dec_wrap(bill[i].2)))
    }
}

/// The bill after one `item` is paid: its first line gets one paid more and
/// one unpaid less.
pub open spec fn bill_after_payment(bill: Seq<DinerEntry>, item: ItemId) -> Seq<DinerEntry> {
    let i = first_line_of(bill, item);
    if i < 0 {
        bill
    } else {
        bill.update(i, (bill[i].0, inc_wrap(bill[i].1), dec_wrap(bill[i].2)))
    }
}

/// The unpaid count of the first line of `bill` for `item`.
pub open spec fn first_unpaid(bill: Seq<DinerEntry>, item: ItemId) -> u8 {
    bill[first_line_of(bill, item)].2
}

/// The bill of `diner`; empty for a diner without one.
pub open spec fn bill_of(s: XPayModel, diner: u32) -> Seq<DinerEntry> {
    if s.diners.contains_key(diner) {
        s.diners[diner]
    } else {
        Seq::empty()
    }
}

/// The storage after `item` is ordered for `diner`: the diner's bill (empty
/// where it has none) as `bill_after_order`.
pub open spec fn after_insert_into_diner(s: XPayModel, item: ItemId, diner: u32) -> XPayModel {
    XPayModel { diners: s.diners.insert(diner, bill_after_order(bill_of(s, diner), item)), ..s }
}

/// What taking an `item` back from `diner`'s bill answers.
pub open spec fn remove_from_diner_result(s: XPayModel, item: ItemId, diner: u32) -> Result<
    (),
    XPayError,
> {
    if !s.diners.contains_key(diner) {
        Err(XPayError::DinerDoesNotExist)
    } else if !has_line_for(s.diners[diner], item) {
        Err(XPayError::ItemNotInDiner)
    } else if first_unpaid(s.diners[diner], item) == 0 {
        Err(XPayError::NoUnpaidItemToRemove)
    } else {
        Ok(())
    }
}

/// The storage after an `item` is taken back from `diner`'s bill, whatever
/// the answer.
pub open spec fn after_remove_from_diner(s: XPayModel, item: ItemId, diner: u32) -> XPayModel {
    if s.diners.contains_key(diner) {
        XPayModel {
            diners: s.diners.insert(diner, bill_after_take_back(s.diners[diner], item)),
            ..s
        }
    } else {
        s
    }
}

/// What paying for an `item` on `diner`'s bill answers.
pub open spec fn purchase_for_diner_result(s: XPayModel, item: ItemId, diner: u32) -> Result<
    (),
    XPayError,
> {
    if !s.diners.contains_key(diner) {
        Err(XPayError::DinerDoesNotExist)
    } else if !has_line_for(s.diners[diner], item) {
        Err(XPayError::ItemNotInDiner)
    } else if first_unpaid(s.diners[diner], item) == 0 {
        Err(XPayError::NoUnpaidItemToPay)
    } else {
        Ok(())
    }
}

/// The storage after an `item` on `diner`'s bill is paid for, whatever the
/// answer.
pub open spec fn after_purchase_for_diner(s: XPayModel, item: ItemId, diner: u32) -> XPayModel {
    if s.diners.contains_key(diner) {
        XPayModel {
            diners: s.diners.insert(diner, bill_after_payment(s.diners[diner], item)),
            ..s
        }
    } else {
        s
    }
}

/// `i` is the first line for `item`, so `first_line_of` names it.
pub proof fn lemma_first_line_is(bill: Seq<DinerEntry>, item: ItemId, i: int)
    requires
        is_first_line_of(bill, item, i),
    ensures
        first_line_of(bill, item) == i,
        has_line_for(bill, item),
{
    let c = choose|k: int| is_first_line_of(bill, item, k);
    assert(is_first_line_of(bill, item, c));
    if c < i {
        assert(bill[c].0 != item);
    } else if i < c {
        assert(bill[i].0 != item);
    }
    assert(0 <= i < bill.len() && bill[i].0 == item);
}

/// No line is for `item`, so `first_line_of` is -1.
pub proof fn lemma_no_line(bill: Seq<DinerEntry>, item: ItemId)
    requires
        forall|j: int| 0 <= j < bill.len() ==> #[trigger] bill[j].0 != item,
    ensures
        first_line_of(bill, item) == -1,
        !has_line_for(bill, item),
{
    if exists|i: int| is_first_line_of(bill, item, i) {
        let c = choose|k: int| is_first_line_of(bill, item, k);
        assert(bill[c].0 != item);
    }
}

/// Where a bill has a line for `item`, it has a first one.
pub proof fn lemma_has_line_has_first(bill: Seq<DinerEntry>, item: ItemId)
    requires
        has_line_for(bill, item),
    ensures
        0 <= first_line_of(bill, item) < bill.len(),
        is_first_line_of(bill, item, first_line_of(bill, item)),
    decreases bill.len(),
{
    let k = choose|i: int| 0 <= i < bill.len() && #[trigger] bill[i].0 == item;
    if bill[0].0 == item {
        lemma_first_line_is(bill, item, 0);
    } else {
        let rest = bill.drop_first();
        assert(rest[k - 1].0 == item);
        lemma_has_line_has_first(rest, item);
        let f = first_line_of(rest, item);
        assert forall|j: int| 0 <= j < f + 1 implies #[trigger] bill[j].0 != item by {
            if j > 0 {
                assert(bill[j] == rest[j - 1]);
            }
        }
        lemma_first_line_is(bill, item, f + 1);
    }
}

/// The index of the first line of `bill` for `item`.
fn position_of(bill: &Vec<DinerEntry>, item: ItemId) -> (r: Option<usize>)
    ensures
        match r {
            Some(i) => is_first_line_of(bill@, item, i as int) && first_line_of(bill@, item)
                == i && has_line_for(bill@, item),
            None => first_line_of(bill@, item) == -1 && !has_line_for(bill@, item),
        },
{
    let mut i: usize = 0;
    while i < bill.len()
        invariant
            i <= bill.len(),
            forall|j: int| 0 <= j < i ==> #[trigger] bill@[j].0 != item,
        decreases bill.len() - i,
    {
        if bill[i].0 == item {
            proof {
                lemma_first_line_is(bill@, item, i as int);
            }
            return Some(i);
        }
        i = i + 1;
    }
    proof {
        lemma_no_line(bill@, item);
    }
    None
}

/// `x` plus one, wrapping from 255 to 0.
fn inc_u8(x: u8) -> (r: u8)
    ensures
        r == inc_wrap(x),
{
    if x == 255 {
        0
    } else {
        x + 1
    }
}

/// `x` minus one, wrapping from 0 to 255.
fn dec_u8(x: u8) -> (r: u8)
    ensures
        r == dec_wrap(x),
{
    if x == 0 {
        255
    } else {
        x - 1
    }
}

/// Orders one more `item_id` on the bill of `diner`: each line of the bill
/// for the item gets one more unpaid; where the bill has no line for the
/// item, or the diner has no bill yet, a line with one unpaid `item_id` is
/// added at its end. Always succeeds.
pub fn insert_into_diner(storage: &mut XPay, item_id: ItemId, diner: u32) -> (r: Result<
    (),
    XPayError,
>)
    ensures
        r == Ok::<(), XPayError>(()),
        final(storage)@ == after_insert_into_diner(old(storage)@, item_id, diner),
{
    let mut bill: Vec<DinerEntry> = match storage.take_bill(diner) {
        Some(b) => b,
        None => Vec::new(),
    };
    let ghost old_bill = bill@;
    assert(old_bill == bill_of(old(storage)@, diner));
    let mut found = false;
    let mut i: usize = 0;
    while i < bill.len()
        invariant
            i <= bill.len(),
            bill@.len() == old_bill.len(),
            found <==> exists|j: int| 0 <= j < i && #[trigger] old_bill[j].0 == item_id,
            forall|j: int|
                0 <= j < i ==> #[trigger] bill@[j] == bill_with_one_more(old_bill, item_id)[j],
            forall|j: int| i <= j < bill@.len() ==> #[trigger] bill@[j] == old_bill[j],
        decreases bill.len() - i,
    {
        let (v, paid, unpaid) = bill[i];
        if v == item_id {
            let u = inc_u8(unpaid);
            bill.set(i, (v, paid, u));
            found = true;
        }
        i = i + 1;
    }
    if found {
        assert(bill@ =~= bill_with_one_more(old_bill, item_id));
    } else {
        assert(!has_line_for(old_bill, item_id));
        assert(bill@ =~= old_bill);
        bill.push((item_id, 0, 1));
    }
    assert(bill@ =~= bill_after_order(old_bill, item_id));
    storage.put_bill(diner, bill);
    proof {
        assert(storage@.diners =~= after_insert_into_diner(old(storage)@, item_id, diner).diners);
    }
    Ok(())
}

/// Takes one `item_id` back from the bill of `diner`: the first line for the
/// item gets one unpaid less. Refused where the diner has no bill, where the
/// bill has no line for the item, or where that line has nothing unpaid (the
/// count then wraps to 255, and stays so).
pub fn remove_from_diner(storage: &mut XPay, item_id: ItemId, diner: u32) -> (r: Result<
    (),
    XPayError,
>)
    ensures
        r == remove_from_diner_result(old(storage)@, item_id, diner),
        final(storage)@ == after_remove_from_diner(old(storage)@, item_id, diner),
{
    match storage.take_bill(diner) {
        None => {
            assert(storage@.diners =~= old(storage)@.diners);
            Err(XPayError::DinerDoesNotExist)
        },
        Some(bill) => {
            let ghost old_bill = bill@;
            let mut bill = bill;
            let mut fail = false;
            let mut fail_unpaid = false;
            match position_of(&bill, item_id) {
                Some(index) => {
                    let (v, paid, unpaid) = bill[index];
                    if unpaid == 0 {
                        fail_unpaid = true;
                    }
                    let u = dec_u8(unpaid);
                    bill.set(index, (v, paid, u));
                },
                None => {
                    fail = true;
                },
            }
            assert(bill@ =~= bill_after_take_back(old_bill, item_id));
            storage.put_bill(diner, bill);
            proof {
                assert(storage@.diners =~= after_remove_from_diner(
                    old(storage)@,
                    item_id,
                    diner,
                ).diners);
            }
            if fail {
                Err(XPayError::ItemNotInDiner)
            } else if fail_unpaid {
                Err(XPayError::NoUnpaidItemToRemove)
            } else {
                Ok(())
            }
        },
    }
}

/// Pays for one `item_id` on the bill of `diner`: the first line for the
/// item gets one paid more and one unpaid less. Refused where the diner has
/// no bill, where the bill has no line for the item, or where that line has
/// nothing unpaid (the counts then change all the same, wrapping).
pub fn purchase_for_diner(storage: &mut XPay, item_id: ItemId, diner: u32) -> (r: Result<
    (),
    XPayError,
>)
    ensures
        r == purchase_for_diner_result(old(storage)@, item_id, diner),
        final(storage)@ == after_purchase_for_diner(old(storage)@, item_id, diner),
{
    match storage.take_bill(diner) {
        None => {
            assert(storage@.diners =~= old(storage)@.diners);
            Err(XPayError::DinerDoesNotExist)
        },
        Some(bill) => {
            let ghost old_bill = bill@;
            let mut bill = bill;
            let mut fail = false;
            let mut fail_unpaid = false;
            match position_of(&bill, item_id) {
                Some(index) => {
                    let (v, paid, unpaid) = bill[index];
                    if unpaid == 0 {
                        fail_unpaid = true;
                    }
                    let p = inc_u8(paid);
                    let u = dec_u8(unpaid);
                    bill.set(index, (v, p, u));
                },
                None => {
                    fail = true;
                },
            }
            assert(bill@ =~= bill_after_payment(old_bill, item_id));
            storage.put_bill(diner, bill);
            proof {
                assert(storage@.diners =~= after_purchase_for_diner(
                    old(storage)@,
                    item_id,
                    diner,
                ).diners);
            }
            if fail {
                Err(XPayError::ItemNotInDiner)
            } else if fail_unpaid {
                Err(XPayError::NoUnpaidItemToPay)
            } else {
                Ok(())
            }
        },
    }
}

} // verus!
