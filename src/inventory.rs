use vstd::prelude::*;
use crate::chunk::BlockId;

verus! {

#[derive(Clone, Copy, Debug, PartialEq, Eq, Structural)]
pub enum ToolType {
    WoodenPickaxe,
    StonePickaxe,
    IronPickaxe,
    DiamondPickaxe,
}

#[derive(Clone, Copy, Debug, PartialEq, Eq, Structural)]
pub enum ItemType {
    Block(BlockId),
    Tool(ToolType),
    Empty,
}

/// One inventory slot: a kind of item and how many.
#[derive(Clone, Copy, Debug, PartialEq, Eq, Structural)]
pub struct ItemStack {
    pub item_type: ItemType,
    pub count: u32,
}

pub open spec fn stack_empty(s: ItemStack) -> bool {
    s.item_type == ItemType::Empty || s.count == 0
}

pub open spec fn max_stack(t: ItemType) -> int {
    match t {
        ItemType::Block(_) => 64,
        ItemType::Tool(_) => 1,
        ItemType::Empty => 0,
    }
}

/// What a slot adds to the amount held of `t`.
pub open spec fn held(s: ItemStack, t: ItemType) -> int {
    if !stack_empty(s) && s.item_type == t {
        s.count as int
    } else {
        0
    }
}

/// How many items of kind `t` the slots hold.
pub open spec fn amount(s: Seq<ItemStack>, t: ItemType) -> int
    decreases s.len(),
{
    if s.len() == 0 {
        0
    } else {
        amount(s.drop_last(), t) + held(s.last(), t)
    }
}

/// Room that a slot offers to items of kind `t`: what its stack lacks of a
/// full stack, when it holds items of that kind.
pub open spec fn room_in(s: ItemStack, t: ItemType) -> int {
    if !stack_empty(s) && s.item_type == t && (s.count as int) < max_stack(t) {
        max_stack(t) - s.count
    } else {
        0
    }
}

/// Room that the slots offer to items of kind `t` on existing stacks.
pub open spec fn room(s: Seq<ItemStack>, t: ItemType) -> int
    decreases s.len(),
{
    if s.len() == 0 {
        0
    } else {
        room(s.drop_last(), t) + room_in(s.last(), t)
    }
}

/// Some slot is empty.
pub open spec fn has_empty_slot(s: Seq<ItemStack>) -> bool {
    exists|i: int| 0 <= i < s.len() && stack_empty(#[trigger] s[i])
}

proof fn lemma_room_take(s: Seq<ItemStack>, i: int, t: ItemType)
    requires
        0 <= i < s.len(),
    ensures
        room(s.take(i + 1), t) == room(s.take(i), t) + room_in(s[i], t),
{
    assert(s.take(i + 1).drop_last() =~= s.take(i));
}

pub proof fn lemma_amount_nonneg(s: Seq<ItemStack>, t: ItemType)
    ensures
        amount(s, t) >= 0,
    decreases s.len(),
{
    if s.len() > 0 {
        lemma_amount_nonneg(s.drop_last(), t);
    }
}

pub proof fn lemma_amount_update(s: Seq<ItemStack>, i: int, v: ItemStack, t: ItemType)
    requires
        0 <= i < s.len(),
    ensures
        amount(s.update(i, v), t) == amount(s, t) - held(s[i], t) + held(v, t),
    decreases s.len(),
{
    let u = s.update(i, v);
    if i == s.len() - 1 {
        assert(u.drop_last() =~= s.drop_last());
    } else {
        assert(u.drop_last() =~= s.drop_last().update(i, v));
        lemma_amount_update(s.drop_last(), i, v, t);
    }
}

pub proof fn lemma_amount_take(s: Seq<ItemStack>, i: int, t: ItemType)
    requires
        0 <= i < s.len(),
    ensures
        amount(s.take(i + 1), t) == amount(s.take(i), t) + held(s[i], t),
{
    assert(s.take(i + 1).drop_last() =~= s.take(i));
}

pub open spec fn empty_stack() -> ItemStack {
    ItemStack { item_type: ItemType::Empty, count: 0 }
}

pub open spec fn stack_of(t: ItemType, n: u32) -> ItemStack {
    ItemStack { item_type: t, count: n }
}

impl ItemStack {
    pub fn new(item_type: ItemType, count: u32) -> (r: ItemStack)
        ensures
            r.item_type == item_type && r.count == count,
    {
        ItemStack { item_type, count }
    }

    pub fn empty() -> (r: ItemStack)
        ensures
            r.item_type == ItemType::Empty && r.count == 0,
    {
        ItemStack { item_type: ItemType::Empty, count: 0 }
    }

    pub fn is_empty(&self) -> (r: bool)
        ensures
            r == stack_empty(*self),
    {
        self.item_type == ItemType::Empty || self.count == 0
    }

    pub fn can_stack_with(&self, other: &ItemStack) -> (r: bool)
        ensures
            r == (self.item_type == other.item_type && !stack_empty(*self) && !stack_empty(*other)),
    {
        self.item_type == other.item_type && !self.is_empty() && !other.is_empty()
    }

    pub fn max_stack_size(&self) -> (r: u32)
        ensures
            r == max_stack(self.item_type),
    {
        match self.item_type {
            ItemType::Block(_) => 64,
            ItemType::Tool(_) => 1,
            ItemType::Empty => 0,
        }
    }
}

/// The player's nine hotbar slots, 27 main slots, and the selected hotbar slot.
pub struct PlayerInventory {
    pub hotbar: Vec<ItemStack>,
    pub main: Vec<ItemStack>,
    pub selected_slot: usize,
}

impl PlayerInventory {
    pub open spec fn wf(&self) -> bool {
        self.hotbar@.len() == 9 && self.main@.len() == 27 && self.selected_slot < 9
    }

    /// All slots, hotbar first.
    pub open spec fn slots(&self) -> Seq<ItemStack> {
        self.hotbar@ + self.main@
    }

    /// Nine empty hotbar slots, 27 empty main slots, the first selected.
    pub fn empty_inventory() -> (r: PlayerInventory)
        ensures
            r.wf(),
            r.selected_slot == 0,
            forall|i: int| 0 <= i < 36 ==> #[trigger] r.slots()[i] == empty_stack(),
    {
        let mut hotbar: Vec<ItemStack> = Vec::new();
        let mut main: Vec<ItemStack> = Vec::new();
        let mut i: usize = 0;
        while i < 9
            invariant
                i <= 9,
                hotbar@.len() == i,
                forall|j: int| 0 <= j < i ==> hotbar@[j] == empty_stack(),
            decreases 9 - i,
        {
            hotbar.push(ItemStack::empty());
            i = i + 1;
        }
        let mut k: usize = 0;
        while k < 27
            invariant
                k <= 27,
                main@.len() == k,
                forall|j: int| 0 <= j < k ==> main@[j] == empty_stack(),
            decreases 27 - k,
        {
            main.push(ItemStack::empty());
            k = k + 1;
        }
        let r = PlayerInventory { hotbar, main, selected_slot: 0 };
        assert forall|i: int| 0 <= i < 36 implies #[trigger] r.slots()[i] == empty_stack() by {
            if i >= 9 {
                assert(r.slots()[i] == r.main@[i - 9]);
            }
        }
        r
    }

    /// A starting inventory: grass, dirt, stone and bedrock, 64 of each, and
    /// a diamond pickaxe in the first five hotbar slots.
    pub fn new() -> (r: PlayerInventory)
        ensures
            r.wf(),
            r.selected_slot == 0,
            r.hotbar@[0] == stack_of(ItemType::Block(BlockId::Grass), 64),
            r.hotbar@[1] == stack_of(ItemType::Block(BlockId::Dirt), 64),
            r.hotbar@[2] == stack_of(ItemType::Block(BlockId::Stone), 64),
            r.hotbar@[3] == stack_of(ItemType::Block(BlockId::Bedrock), 64),
            r.hotbar@[4] == stack_of(ItemType::Tool(ToolType::DiamondPickaxe), 1),
            forall|i: int| 5 <= i < 36 ==> #[trigger] r.slots()[i] == empty_stack(),
    {
        let mut inv = PlayerInventory::empty_inventory();
        let ghost before = inv.slots();
        inv.hotbar.set(0, ItemStack::new(ItemType::Block(BlockId::Grass), 64));
        inv.hotbar.set(1, ItemStack::new(ItemType::Block(BlockId::Dirt), 64));
        inv.hotbar.set(2, ItemStack::new(ItemType::Block(BlockId::Stone), 64));
        inv.hotbar.set(3, ItemStack::new(ItemType::Block(BlockId::Bedrock), 64));
        inv.hotbar.set(4, ItemStack::new(ItemType::Tool(ToolType::DiamondPickaxe), 1));
        assert forall|i: int| 5 <= i < 36 implies #[trigger] inv.slots()[i] == empty_stack() by {
            assert(before[i] == empty_stack());
            if i < 9 {
                assert(inv.slots()[i] == inv.hotbar@[i]);
                assert(before[i] == before.subrange(0, 9)[i]);
            } else {
                assert(inv.slots()[i] == inv.main@[i - 9]);
            }
        }
        inv
    }

    pub fn get_selected_item(&self) -> (r: &ItemStack)
        requires
            self.wf(),
        ensures
            *r == self.hotbar@[self.selected_slot as int],
    {
        &self.hotbar[self.selected_slot]
    }

    /// Selects a hotbar slot; an index past the hotbar is ignored.
    pub fn select_slot(&mut self, slot: usize)
        ensures
            final(self).selected_slot == (if slot < 9 { slot } else { old(self).selected_slot }),
            final(self).hotbar == old(self).hotbar,
            final(self).main == old(self).main,
    {
        if slot < 9 {
            self.selected_slot = slot;
        }
    }

    fn slot(&self, i: usize) -> (r: ItemStack)
        requires
            self.wf(),
            i < 36,
        ensures
            r == self.slots()[i as int],
    {
        if i < 9 {
            self.hotbar[i]
        } else {
            self.main[i - 9]
        }
    }

    fn set_slot(&mut self, i: usize, v: ItemStack)
        requires
            old(self).wf(),
            i < 36,
        ensures
            final(self).wf(),
            final(self).slots() == old(self).slots().update(i as int, v),
            final(self).selected_slot == old(self).selected_slot,
    {
        if i < 9 {
            self.hotbar.set(i, v);
        } else {
            self.main.set(i - 9, v);
        }
        assert(self.slots() =~= old(self).slots().update(i as int, v));
    }

    /// Puts `item` away: first onto stacks of the same kind up to their
    /// size, then whole into the first empty slot. What did not fit comes
    /// back; no item is lost or made.
    pub fn add_item(&mut self, item: ItemStack) -> (r: ItemStack)
        requires
            old(self).wf(),
        ensures
            final(self).wf(),
            final(self).selected_slot == old(self).selected_slot,
            stack_empty(item) ==> r == item && final(self).slots() == old(self).slots(),
            !stack_empty(item) ==> r == empty_stack() || (r.item_type == item.item_type && r.count
                <= item.count),
            !stack_empty(item) ==> amount(final(self).slots(), item.item_type) + r.count == amount(
                old(self).slots(),
                item.item_type,
            ) + item.count,
            forall|t: ItemType| t != item.item_type ==> amount(final(self).slots(), t) == amount(old(self).slots(), t),
            !stack_empty(item) && (has_empty_slot(old(self).slots()) || room(old(self).slots(), item.item_type)
                >= item.count) ==> r == empty_stack(),
    {
        if item.is_empty() {
            return item;
        }
        proof {
            assert(old(self).slots().take(0).len() == 0);
            assert(old(self).slots().take(36) =~= old(self).slots());
        }
        let t = item.item_type;
        let mut remaining = item;
        let mut i: usize = 0;
        while i < 36 && remaining.count > 0
            invariant
                self.wf(),
                self.selected_slot == old(self).selected_slot,
                i <= 36,
                remaining.item_type == t,
                t == item.item_type,
                !stack_empty(item),
                remaining.count <= item.count,
                amount(self.slots(), t) + remaining.count == amount(old(self).slots(), t) + item.count,
                forall|u: ItemType| u != t ==> amount(self.slots(), u) == amount(old(self).slots(), u),
                remaining.count == 0 || remaining.count + room(old(self).slots().take(i as int), t) == item.count,
                forall|k: int| i <= k < 36 ==> #[trigger] self.slots()[k] == old(self).slots()[k],
                forall|k: int| 0 <= k < 36 && stack_empty(old(self).slots()[k]) ==> stack_empty(#[trigger] self.slots()[k]),
                old(self).slots().len() == 36,
            decreases 36 - i,
        {
            let s = self.slot(i);
            proof {
                lemma_room_take(old(self).slots(), i as int, t);
                assert(s == old(self).slots()[i as int]);
            }
            if s.can_stack_with(&remaining) {
                let max = s.max_stack_size();
                let room: u32 = if s.count < max { max - s.count } else { 0 };
                let add: u32 = if remaining.count < room { remaining.count } else { room };
                let v = ItemStack { item_type: s.item_type, count: s.count + add };
                let ghost before = self.slots();
                self.set_slot(i, v);
                proof {
                    lemma_amount_update(before, i as int, v, t);
                    assert forall|u: ItemType| u != t implies amount(self.slots(), u) == amount(old(self).slots(), u) by {
                        lemma_amount_update(before, i as int, v, u);
                    }
                }
                remaining.count = remaining.count - add;
            }
            i = i + 1;
        }
        let mut j: usize = 0;
        while j < 36 && remaining.count > 0
            invariant
                self.wf(),
                self.selected_slot == old(self).selected_slot,
                j <= 36,
                remaining.item_type == t,
                t == item.item_type,
                !stack_empty(item),
                remaining.count <= item.count,
                amount(self.slots(), t) + remaining.count == amount(old(self).slots(), t) + item.count,
                forall|u: ItemType| u != t ==> amount(self.slots(), u) == amount(old(self).slots(), u),
                remaining.count > 0 ==> forall|k: int| 0 <= k < 36 && stack_empty(old(self).slots()[k]) ==> stack_empty(#[trigger] self.slots()[k]),
                remaining.count > 0 ==> forall|k: int| 0 <= k < j ==> !stack_empty(#[trigger] self.slots()[k]),
                remaining.count > 0 ==> !(room(old(self).slots(), t) >= item.count),
                old(self).slots().len() == 36,
            decreases 36 - j,
        {
            let s = self.slot(j);
            if s.is_empty() {
                let ghost before = self.slots();
                self.set_slot(j, remaining);
                proof {
                    assert(before[j as int] == s);
                    assert(held(s, t) == 0);
                    assert(held(remaining, t) == remaining.count);
                    lemma_amount_update(before, j as int, remaining, t);
                    assert forall|u: ItemType| u != t implies amount(self.slots(), u) == amount(old(self).slots(), u) by {
                        lemma_amount_update(before, j as int, remaining, u);
                    }
                }
                remaining.count = 0;
            }
            j = j + 1;
        }
        proof {
            if remaining.count > 0 && has_empty_slot(old(self).slots()) {
                let k = choose|k: int| 0 <= k < old(self).slots().len() && stack_empty(#[trigger] old(self).slots()[k]);
                assert(stack_empty(self.slots()[k]));
            }
        }
        if remaining.count == 0 {
            ItemStack::empty()
        } else {
            remaining
        }
    }

    /// Takes up to `count` items of kind `item_type` out of the slots, in
    /// slot order; emptied slots are cleared. Returns how many it took: all
    /// asked for, or all there were.
    pub fn remove_item(&mut self, item_type: ItemType, count: u32) -> (removed: u32)
        requires
            old(self).wf(),
        ensures
            final(self).wf(),
            final(self).selected_slot == old(self).selected_slot,
            removed as int == (if count as int <= amount(old(self).slots(), item_type) {
                count as int
            } else {
                amount(old(self).slots(), item_type)
            }),
            amount(final(self).slots(), item_type) == amount(old(self).slots(), item_type) - removed,
            forall|t: ItemType| t != item_type ==> amount(final(self).slots(), t) == amount(old(self).slots(), t),
    {
        let ghost orig = self.slots();
        let mut removed: u32 = 0;
        let mut i: usize = 0;
        proof {
            assert(orig.take(0).len() == 0);
        }
        while i < 36
            invariant
                self.wf(),
                self.selected_slot == old(self).selected_slot,
                orig == old(self).slots(),
                orig.len() == 36,
                i <= 36,
                removed <= count,
                removed as int == (if count as int <= amount(orig.take(i as int), item_type) {
                    count as int
                } else {
                    amount(orig.take(i as int), item_type)
                }),
                forall|k: int| i <= k < 36 ==> #[trigger] self.slots()[k] == orig[k],
                amount(self.slots(), item_type) == amount(orig, item_type) - removed,
                forall|t: ItemType| t != item_type ==> amount(self.slots(), t) == amount(orig, t),
            decreases 36 - i,
        {
            let s = self.slot(i);
            proof {
                lemma_amount_take(orig, i as int, item_type);
                lemma_amount_nonneg(orig.take(i as int), item_type);
            }
            if s.item_type == item_type && !s.is_empty() {
                let left: u32 = count - removed;
                let take: u32 = if left < s.count { left } else { s.count };
                let v = if s.count - take == 0 {
                    ItemStack::empty()
                } else {
                    ItemStack { item_type: s.item_type, count: s.count - take }
                };
                let ghost before = self.slots();
                self.set_slot(i, v);
                proof {
                    lemma_amount_update(before, i as int, v, item_type);
                    assert forall|t: ItemType| t != item_type implies amount(self.slots(), t) == amount(orig, t) by {
                        lemma_amount_update(before, i as int, v, t);
                    }
                }
                removed = removed + take;
                if removed == count {
                    proof {
                        assert forall|k: int| i + 1 <= k <= 36 implies amount(orig.take(k), item_type) >= count by {
                            lemma_amount_monotone(orig, i + 1, k, item_type);
                        }
                        lemma_amount_monotone(orig, i + 1, 36, item_type);
                        assert(orig.take(36) =~= orig);
                    }
                    return removed;
                }
            }
            i = i + 1;
        }
        proof {
            assert(orig.take(36) =~= orig);
        }
        removed
    }
}

pub proof fn lemma_amount_monotone(s: Seq<ItemStack>, a: int, b: int, t: ItemType)
    requires
        0 <= a <= b <= s.len(),
    ensures
        amount(s.take(a), t) <= amount(s.take(b), t),
    decreases b - a,
{
    if a < b {
        lemma_amount_monotone(s, a, b - 1, t);
        lemma_amount_take(s, b - 1, t);
    }
}

} // verus!
