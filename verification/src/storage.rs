//! The storage of the xpay module and its abstract model.
use std::collections::HashMap;
use vstd::prelude::*;
use crate::types::{AccountId, DinerEntry, Item, ItemId, Price, Profile, XPayEvent};

verus! {

/// What the storage of the xpay module holds, as mathematical maps.
pub struct XPayModel {
    /// `Items`: the item stored under each id.
    pub items: Map<ItemId, Item>,
    /// `NextItemId`: the id the next created item gets.
    pub next_item_id: ItemId,
    /// `OwnerItemIds`: the ids of the items each account created, oldest first.
    pub owner_item_ids: Map<AccountId, Seq<ItemId>>,
    /// `DinerItemIds`: the bill of each diner.
    pub diners: Map<u32, Seq<DinerEntry>>,
    /// `ItemPrices`: the price of each item.
    pub item_prices: Map<ItemId, Price>,
    /// `Profiles`: the profile of each account.
    pub profiles: Map<AccountId, Profile>,
    /// The events deposited so far, oldest first.
    pub events: Seq<XPayEvent>,
}

impl XPayModel {
    /// Every item id in use lies below `next_item_id`, items and prices are
    /// stored for the same ids, every id an owner lists is an item, and
    /// finitely many diners have a bill.
    pub open spec fn wf(self) -> bool {
        &&& self.diners.dom().finite()
        &&& forall|id: ItemId| #[trigger] self.items.contains_key(id) ==> id < self.next_item_id
        &&& forall|id: ItemId|
            #![trigger self.items.contains_key(id)]
            #![trigger self.item_prices.contains_key(id)]
            self.items.contains_key(id) <==> self.item_prices.contains_key(id)
        &&& forall|owner: AccountId, i: int|
            #![trigger self.owner_item_ids[owner][i]]
            self.owner_item_ids.contains_key(owner) && 0 <= i < self.owner_item_ids[owner].len()
                ==> self.items.contains_key(self.owner_item_ids[owner][i])
    }

    /// The items an account created; none for an account that created none.
    pub open spec fn owned_by(self, owner: AccountId) -> Seq<ItemId> {
        if self.owner_item_ids.contains_key(owner) {
            self.owner_item_ids[owner]
        } else {
            Seq::empty()
        }
    }
}

/// The tables of the xpay module, with no invariant of their own.
pub(crate) struct Tables {
    /// Each item together with its price.
    records: HashMap<ItemId, (Item, Price)>,
    next_item_id: ItemId,
    owner_item_ids: HashMap<AccountId, Vec<ItemId>>,
    diner_item_ids: HashMap<u32, Vec<DinerEntry>>,
    profiles: HashMap<AccountId, Profile>,
    events: Vec<XPayEvent>,
}

impl View for Tables {
    type V = XPayModel;

    closed spec fn view(&self) -> XPayModel {
        XPayModel {
            items: self.records@.map_values(|r: (Item, Price)| r.0),
            next_item_id: self.next_item_id,
            owner_item_ids: self.owner_item_ids@.map_values(|v: Vec<ItemId>| v@),
            diners: self.diner_item_ids@.map_values(|v: Vec<DinerEntry>| v@),
            item_prices: self.records@.map_values(|r: (Item, Price)| r.1),
            profiles: self.profiles@,
            events: self.events@,
        }
    }
}

/// The model of empty storage.
pub open spec fn empty_model() -> XPayModel {
    XPayModel {
        items: Map::empty(),
        next_item_id: 0,
        owner_item_ids: Map::empty(),
        diners: Map::empty(),
        item_prices: Map::empty(),
        profiles: Map::empty(),
        events: Seq::empty(),
    }
}

impl Tables {
    /// Empty tables.
    fn empty() -> (t: Tables)
        ensures
            t@ == empty_model(),
    {
        let t = Tables {
            records: HashMap::new(),
            next_item_id: 0,
            owner_item_ids: HashMap::new(),
            diner_item_ids: HashMap::new(),
            profiles: HashMap::new(),
            events: Vec::new(),
        };
        assert(t@.items =~= Map::<ItemId, Item>::empty());
        assert(t@.item_prices =~= Map::<ItemId, Price>::empty());
        assert(t@.owner_item_ids =~= Map::<AccountId, Seq<ItemId>>::empty());
        assert(t@.diners =~= Map::<u32, Seq<DinerEntry>>::empty());
        t
    }
}

/// The storage of the xpay module. Its model always satisfies
/// `XPayModel::wf`.
pub struct XPay {
    tables: Tables,
}

impl View for XPay {
    type V = XPayModel;

    closed spec fn view(&self) -> XPayModel {
        self.tables@
    }
}

/// A copy of a list of plain values.
fn copy_vec<T: Copy>(v: &Vec<T>) -> (r: Vec<T>)
    ensures
        r@ == v@,
{
    let mut r: Vec<T> = Vec::new();
    let mut i: usize = 0;
    while i < v.len()
        invariant
            i <= v.len(),
            r@ == v@.take(i as int),
        decreases v.len() - i,
    {
        let e: T = v[i];
        r.push(e);
        i = i + 1;
        assert(r@ =~= v@.take(i as int));
    }
    assert(v@.take(v.len() as int) =~= v@);
    r
}

impl XPay {
    /// The model of every storage satisfies `wf`.
    #[verifier::type_invariant]
    pub open spec fn well_formed(&self) -> bool {
        self@.wf()
    }

    /// Empty storage: no items, no bills, no profiles, no events, and the
    /// first item id 0.
    pub fn new() -> (s: XPay)
        ensures
            s@ == empty_model(),
            s@.wf(),
    {
        XPay { tables: Tables::empty() }
    }

    /// Takes the tables out, leaving empty storage behind.
    fn take_tables(&mut self) -> (t: Tables)
        ensures
            t@ == old(self)@,
            t@.wf(),
    {
        proof {
            use_type_invariant(&*self);
        }
        let mut taken = XPay::new();
        std::mem::swap(&mut taken, self);
        proof {
            use_type_invariant(&taken);
        }
        let XPay { tables } = taken;
        tables
    }

    /// Puts well-formed tables back.
    fn restore_tables(&mut self, t: Tables)
        requires
            t@.wf(),
        ensures
            final(self)@ == t@,
    {
        *self = XPay { tables: t };
    }

    /// The item stored under `item_id`.
    pub fn item(&self, item_id: ItemId) -> (r: Option<&Item>)
        ensures
            r == (if self@.items.contains_key(item_id) {
                Some(&self@.items[item_id])
            } else {
                None
            }),
    {
        match self.tables.records.get(&item_id) {
            Some(rec) => Some(&rec.0),
            None => None,
        }
    }

    /// The id the next created item gets.
    pub fn next_item_id(&self) -> (r: ItemId)
        ensures
            r == self@.next_item_id,
    {
        self.tables.next_item_id
    }

    /// The ids of the items `owner` created, oldest first.
    pub fn owner_itemids(&self, owner: AccountId) -> (r: Vec<ItemId>)
        ensures
            r@ == self@.owned_by(owner),
    {
        match self.tables.owner_item_ids.get(&owner) {
            Some(v) => copy_vec(v),
            None => Vec::new(),
        }
    }

    /// The bill of `diner`; empty for a diner without one.
    pub fn diner_items(&self, diner: u32) -> (r: Vec<DinerEntry>)
        ensures
            r@ == (if self@.diners.contains_key(diner) {
                self@.diners[diner]
            } else {
                Seq::empty()
            }),
    {
        match self.tables.diner_item_ids.get(&diner) {
            Some(v) => copy_vec(v),
            None => Vec::new(),
        }
    }

    /// The price of `item_id`.
    pub fn item_price(&self, item_id: ItemId) -> (r: Option<Price>)
        ensures
            r == (if self@.item_prices.contains_key(item_id) {
                Some(self@.item_prices[item_id])
            } else {
                None
            }),
    {
        match self.tables.records.get(&item_id) {
            Some(rec) => Some(rec.1),
            None => None,
        }
    }

    /// The profile of `account`.
    pub fn profile(&self, account: AccountId) -> (r: Option<&Profile>)
        ensures
            r == (if self@.profiles.contains_key(account) {
                Some(&self@.profiles[account])
            } else {
                None
            }),
    {
        self.tables.profiles.get(&account)
    }

    /// The events deposited so far, oldest first.
    pub fn events(&self) -> (r: &Vec<XPayEvent>)
        ensures
            r@ == self@.events,
    {
        &self.tables.events
    }

    /// Whether `owner` lists `item_id` among its items.
    pub(crate) fn owner_has_item(&self, owner: AccountId, item_id: ItemId) -> (r: bool)
        ensures
            r == self@.owned_by(owner).contains(item_id),
    {
        match self.tables.owner_item_ids.get(&owner) {
            Some(v) => {
                assert(self@.owned_by(owner) == v@);
                let mut i: usize = 0;
                while i < v.len()
                    invariant
                        i <= v.len(),
                        self@.owned_by(owner) == v@,
                        forall|j: int| 0 <= j < i ==> v@[j] != item_id,
                    decreases v.len() - i,
                {
                    if v[i] == item_id {
                        assert(v@[i as int] == item_id);
                        return true;
                    }
                    i = i + 1;
                }
                false
            },
            None => false,
        }
    }

    /// Takes the bill of `diner` out of storage.
    pub(crate) fn take_bill(&mut self, diner: u32) -> (r: Option<Vec<DinerEntry>>)
        ensures
            match r {
                Some(v) => old(self)@.diners.contains_key(diner) && v@ == old(self)@.diners[diner],
                None => !old(self)@.diners.contains_key(diner),
            },
            final(self)@ == (XPayModel { diners: old(self)@.diners.remove(diner), ..old(self)@ }),
    {
        let mut t = self.take_tables();
        let r = t.diner_item_ids.remove(&diner);
        assert(t@.diners =~= old(self)@.diners.remove(diner));
        self.restore_tables(t);
        r
    }

    /// Stores `bill` as the bill of `diner`.
    pub(crate) fn put_bill(&mut self, diner: u32, bill: Vec<DinerEntry>)
        ensures
            final(self)@ == (XPayModel { diners: old(self)@.diners.insert(diner, bill@), ..old(self)@ }),
    {
        let ghost b = bill@;
        let mut t = self.take_tables();
        t.diner_item_ids.insert(diner, bill);
        assert(t@.diners =~= old(self)@.diners.insert(diner, b));
        self.restore_tables(t);
    }

    /// Stores `profile` as the profile of `account`.
    pub(crate) fn put_profile(&mut self, account: AccountId, profile: Profile)
        ensures
            final(self)@ == (XPayModel {
                profiles: old(self)@.profiles.insert(account, profile),
                ..old(self)@
            }),
    {
        let mut t = self.take_tables();
        t.profiles.insert(account, profile);
        assert(t@ == (XPayModel { profiles: old(self)@.profiles.insert(account, profile), ..old(self)@ }));
        self.restore_tables(t);
    }

    /// Removes the profile of `account`.
    pub(crate) fn drop_profile(&mut self, account: AccountId)
        ensures
            final(self)@ == (XPayModel { profiles: old(self)@.profiles.remove(account), ..old(self)@ }),
    {
        let mut t = self.take_tables();
        t.profiles.remove(&account);
        assert(t@ == (XPayModel { profiles: old(self)@.profiles.remove(account), ..old(self)@ }));
        self.restore_tables(t);
    }

    /// Appends `event` to the deposited events.
    pub(crate) fn deposit_event(&mut self, event: XPayEvent)
        ensures
            final(self)@ == (XPayModel { events: old(self)@.events.push(event), ..old(self)@ }),
    {
        let mut t = self.take_tables();
        t.events.push(event);
        assert(t@ == (XPayModel { events: old(self)@.events.push(event), ..old(self)@ }));
        self.restore_tables(t);
    }

    /// Stores `item` and its `price` under `item_id`, an id below
    /// `next_item_id`.
    pub(crate) fn put_item(&mut self, item_id: ItemId, item: Item, price: Price)
        requires
            item_id < old(self)@.next_item_id,
        ensures
            final(self)@ == (XPayModel {
                items: old(self)@.items.insert(item_id, item),
                item_prices: old(self)@.item_prices.insert(item_id, price),
                ..old(self)@
            }),
    {
        let mut t = self.take_tables();
        t.records.insert(item_id, (item, price));
        assert(t@.items =~= old(self)@.items.insert(item_id, item));
        assert(t@.item_prices =~= old(self)@.item_prices.insert(item_id, price));
        self.restore_tables(t);
    }

    /// Moves the id the next created item gets up to `item_id`.
    pub(crate) fn put_next_item_id(&mut self, item_id: ItemId)
        requires
            old(self)@.next_item_id <= item_id,
        ensures
            final(self)@ == (XPayModel { next_item_id: item_id, ..old(self)@ }),
    {
        let mut t = self.take_tables();
        t.next_item_id = item_id;
        self.restore_tables(t);
    }

    /// Appends `item_id`, an item, to the items of `owner`, starting the
    /// list where the owner has none.
    pub(crate) fn push_owner_item(&mut self, owner: AccountId, item_id: ItemId)
        requires
            old(self)@.items.contains_key(item_id),
        ensures
            final(self)@ == (XPayModel {
                owner_item_ids: old(self)@.owner_item_ids.insert(
                    owner,
                    old(self)@.owned_by(owner).push(item_id),
                ),
                ..old(self)@
            }),
    {
        let ghost s0 = old(self)@;
        let mut t = self.take_tables();
        let mut v = match t.owner_item_ids.remove(&owner) {
            Some(v) => v,
            None => Vec::new(),
        };
        assert(v@ == s0.owned_by(owner));
        v.push(item_id);
        t.owner_item_ids.insert(owner, v);
        let ghost s = t@;
        assert(s.owner_item_ids =~= s0.owner_item_ids.insert(owner, s0.owned_by(owner).push(item_id)));
        assert forall|o: AccountId, i: int|
            #![trigger s.owner_item_ids[o][i]]
            s.owner_item_ids.contains_key(o) && 0 <= i < s.owner_item_ids[o].len()
                implies s.items.contains_key(s.owner_item_ids[o][i]) by {
            if o != owner || i < s0.owned_by(owner).len() {
                assert(s0.owner_item_ids[o][i] == s.owner_item_ids[o][i]);
            }
        }
        self.restore_tables(t);
    }
}

} // verus!
