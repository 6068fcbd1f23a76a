//! The skill tree: upgrades that coins buy, once each, one from each group,
//! and each only after the upgrade it follows.

use crate::id_set::IdSet;
use crate::resources::Coins;
use crate::weapon::{Upgrade, Weapon};
use vstd::prelude::*;

verus! {

/// The price of the first upgrade of a group.
pub const FIRST_COST: u32 = 20;

/// The price of the second upgrade of a group.
pub const SECOND_COST: u32 = 120;

/// One upgrade as the tree's definition lists it. An upgrade is known by
/// its place in the definition.
#[derive(Clone, Copy, Debug, PartialEq, Eq, Structural)]
pub struct NodeDef {
    /// The coins that the upgrade costs.
    pub cost: u32,
    /// The group of upgrades of which only one can be bought.
    pub group: u32,
    /// What the upgrade does to the weapon.
    pub effect: Upgrade,
    /// The place of the upgrade that has to be bought before this one, if
    /// there is one.
    pub after: Option<u64>,
}

/// One upgrade on the open tree.
#[derive(Clone, Copy, Debug, PartialEq, Eq, Structural)]
pub struct UpgradeNode {
    pub cost: u32,
    pub group: u32,
    pub effect: Upgrade,
    /// The place of the upgrade that has to be bought before this one, if
    /// there is one.
    pub after: Option<u64>,
    /// Whether the upgrade is closed to buying: another of its group was
    /// bought, or the upgrade that it follows was not.
    pub locked: bool,
    /// Whether the upgrade was bought.
    pub purchased: bool,
}

/// The upgrades bought in this run, by their places in the tree's
/// definition.
pub struct Upgrades(pub IdSet);

/// The open tree.
pub struct SkillTree {
    pub nodes: Vec<UpgradeNode>,
}

impl View for Upgrades {
    type V = Set<u64>;

    open spec fn view(&self) -> Set<u64> {
        self.0@
    }
}

impl Default for Upgrades {
    /// Nothing bought.
    fn default() -> (upgrades: Upgrades)
        ensures
            upgrades@ == Set::<u64>::empty(),
    {
        Upgrades(IdSet::new())
    }
}

impl Upgrades {
    /// Whether the upgrade at place `node` was bought.
    pub fn contains(&self, node: u64) -> (bought: bool)
        ensures
            bought == self@.contains(node),
    {
        self.0.contains(node)
    }
}

/// The definition of the tree: two groups of two upgrades each, the
/// projectiles and the narrowings of the fan. In each group the second
/// upgrade follows the first.
///
/// The second upgrade of a group is locked until the first is bought, and
/// buying the first locks the rest of its group. So the second upgrades of
/// this tree are never open to buying; [`lemma_standard_seconds_stay_locked`]
/// proves it.
pub open spec fn standard_defs() -> Seq<NodeDef> {
    seq![
        NodeDef { cost: FIRST_COST, group: 0, effect: Upgrade::Rocket, after: None },
        NodeDef { cost: SECOND_COST, group: 0, effect: Upgrade::SawBlade, after: Some(0) },
        NodeDef { cost: FIRST_COST, group: 1, effect: Upgrade::SpreadFirst, after: None },
        NodeDef { cost: SECOND_COST, group: 1, effect: Upgrade::SpreadSecond, after: Some(2) },
    ]
}

/// Builds [`standard_defs`].
pub fn standard_tree() -> (defs: Vec<NodeDef>)
    ensures
        defs@ == standard_defs(),
{
    let mut defs: Vec<NodeDef> = Vec::new();
    defs.push(NodeDef { cost: FIRST_COST, group: 0, effect: Upgrade::Rocket, after: None });
    defs.push(NodeDef { cost: SECOND_COST, group: 0, effect: Upgrade::SawBlade, after: Some(0) });
    defs.push(NodeDef { cost: FIRST_COST, group: 1, effect: Upgrade::SpreadFirst, after: None });
    defs.push(
        NodeDef { cost: SECOND_COST, group: 1, effect: Upgrade::SpreadSecond, after: Some(2) },
    );
    assert(defs@ =~= standard_defs());
    defs
}

/// Whether another upgrade of the group of the one at place `i` was bought.
pub open spec fn rival_bought(defs: Seq<NodeDef>, bought: Set<u64>, i: int) -> bool {
    exists|j: int|
        0 <= j < defs.len() && j != i && (#[trigger] defs[j]).group == defs[i].group
            && bought.contains(j as u64)
}

/// Whether the upgrade at place `i` follows one that was not bought.
pub open spec fn awaits(defs: Seq<NodeDef>, bought: Set<u64>, i: int) -> bool {
    defs[i].after matches Some(first) && !bought.contains(first)
}

/// The state of the upgrade at place `i`, given what was bought: it is
/// bought if its place is among the purchases, and locked if another of its
/// group is or the upgrade that it follows is not.
pub open spec fn node_state(defs: Seq<NodeDef>, bought: Set<u64>, i: int) -> UpgradeNode {
    UpgradeNode {
        cost: defs[i].cost,
        group: defs[i].group,
        effect: defs[i].effect,
        after: defs[i].after,
        locked: rival_bought(defs, bought, i) || awaits(defs, bought, i),
        purchased: bought.contains(i as u64),
    }
}

/// The tree as it opens, given its definition and what was bought. It
/// depends on nothing else, so opening the tree again shows the same.
pub open spec fn opened(defs: Seq<NodeDef>, bought: Set<u64>) -> Seq<UpgradeNode> {
    Seq::new(defs.len(), |i: int| node_state(defs, bought, i))
}

/// Whether the upgrade at place `node` can be bought with the coins at
/// hand: it is on the tree, neither bought nor locked, and not too dear.
pub open spec fn can_buy(nodes: Seq<UpgradeNode>, node: int, coins: Coins) -> bool {
    &&& 0 <= node < nodes.len()
    &&& !nodes[node].purchased
    &&& !nodes[node].locked
    &&& coins.0 >= nodes[node].cost
}

/// Whether the tree shows another upgrade of the group of the one at place
/// `i` as bought.
pub open spec fn rival_purchased(nodes: Seq<UpgradeNode>, i: int) -> bool {
    exists|j: int|
        0 <= j < nodes.len() && j != i && (#[trigger] nodes[j]).group == nodes[i].group
            && nodes[j].purchased
}

/// The tree with its locks brought up to date after the upgrade at place
/// `node` was bought. Every other upgrade of its group is locked. An upgrade
/// of another group that follows it is locked from now on only if the tree
/// shows one of its own group as bought. Everything else stays.
pub open spec fn relocked(nodes: Seq<UpgradeNode>, node: int) -> Seq<UpgradeNode> {
    Seq::new(
        nodes.len(),
        |i: int|
            if i == node {
                nodes[i]
            } else if nodes[i].group == nodes[node].group {
                UpgradeNode { locked: true, ..nodes[i] }
            } else if nodes[i].after == Some(node as u64) {
                UpgradeNode { locked: rival_purchased(nodes, i), ..nodes[i] }
            } else {
                nodes[i]
            },
    )
}

/// The tree after the upgrade at place `node` was bought: that upgrade is
/// bought, and the locks are brought up to date as [`relocked`] says.
pub open spec fn bought_at(nodes: Seq<UpgradeNode>, node: int) -> Seq<UpgradeNode> {
    relocked(nodes.update(node, UpgradeNode { purchased: true, ..nodes[node] }), node)
}

/// Everything that a purchase touches.
pub struct Shop {
    pub nodes: Seq<UpgradeNode>,
    pub coins: Coins,
    pub weapon: Weapon,
    pub bought: Set<u64>,
}

/// The shop after an attempt to buy the upgrade at place `node`. Where the
/// upgrade cannot be bought nothing changes. Where it can, its price leaves
/// the purse, its effect is applied to the weapon, its place is added to the
/// purchases, and the tree changes as [`bought_at`] says.
pub open spec fn purchased(shop: Shop, node: int) -> Shop {
    if can_buy(shop.nodes, node, shop.coins) {
        Shop {
            nodes: bought_at(shop.nodes, node),
            coins: Coins((shop.coins.0 - shop.nodes[node].cost) as u32),
            weapon: shop.weapon.upgraded(shop.nodes[node].effect),
            bought: shop.bought.insert(node as u64),
        }
    } else {
        shop
    }
}

impl SkillTree {
    /// Opens the tree: each upgrade of the definition with its state, which
    /// follows from the purchases alone.
    pub fn open(defs: &Vec<NodeDef>, upgrades: &Upgrades) -> (tree: SkillTree)
        ensures
            tree.nodes@ == opened(defs@, upgrades@),
    {
        let count = defs.len();
        let mut nodes: Vec<UpgradeNode> = Vec::new();
        let mut i: usize = 0;
        while i < count
            invariant
                count == defs@.len(),
                i <= count,
                nodes@.len() == i,
                forall|k: int| 0 <= k < i ==> #[trigger] nodes@[k] == node_state(defs@, upgrades@, k),
            decreases count - i,
        {
            let mut rival = false;
            let mut j: usize = 0;
            while j < count
                invariant
                    count == defs@.len(),
                    i < count,
                    j <= count,
                    rival == exists|m: int|
                        0 <= m < j && m != i && (#[trigger] defs@[m]).group == defs@[i as int].group
                            && upgrades@.contains(m as u64),
                decreases count - j,
            {
                if j != i && defs[j].group == defs[i].group && upgrades.contains(j as u64) {
                    rival = true;
                }
                j += 1;
            }
            let waiting = match defs[i].after {
                Some(first) => !upgrades.contains(first),
                None => false,
            };
            nodes.push(
                UpgradeNode {
                    cost: defs[i].cost,
                    group: defs[i].group,
                    effect: defs[i].effect,
                    after: defs[i].after,
                    locked: rival || waiting,
                    purchased: upgrades.contains(i as u64),
                },
            );
            i += 1;
        }
        assert(nodes@ =~= opened(defs@, upgrades@));
        SkillTree { nodes }
    }

    /// Whether the tree shows another upgrade of the group of the one at
    /// place `node` as bought.
    fn has_rival(&self, node: usize) -> (rival: bool)
        requires
            node < self.nodes@.len(),
        ensures
            rival == rival_purchased(self.nodes@, node as int),
    {
        let count = self.nodes.len();
        let mut rival = false;
        let mut j: usize = 0;
        while j < count
            invariant
                count == self.nodes@.len(),
                node < count,
                j <= count,
                rival == exists|m: int|
                    0 <= m < j && m != node && (#[trigger] self.nodes@[m]).group
                        == self.nodes@[node as int].group && self.nodes@[m].purchased,
            decreases count - j,
        {
            if j != node && self.nodes[j].group == self.nodes[node].group && self.nodes[j].purchased {
                rival = true;
            }
            j += 1;
        }
        rival
    }

    /// Brings the locks up to date after the upgrade at place `node` was
    /// bought: every other upgrade of its group is locked, and an upgrade of
    /// another group that follows it is open unless one of its own group was
    /// bought. Nothing happens where `node` is not on the tree.
    pub fn update_locks(&mut self, node: usize)
        ensures
            node >= old(self).nodes@.len() ==> final(self).nodes@ == old(self).nodes@,
            node < old(self).nodes@.len() ==> final(self).nodes@ == relocked(
                old(self).nodes@,
                node as int,
            ),
    {
        let count = self.nodes.len();
        if node >= count {
            return ;
        }
        let group = self.nodes[node].group;
        let mut i: usize = 0;
        while i < count
            invariant
                count == self.nodes@.len(),
                count == old(self).nodes@.len(),
                node < count,
                i <= count,
                group == old(self).nodes@[node as int].group,
                forall|k: int|
                    0 <= k < count ==> (#[trigger] self.nodes@[k]).group == old(self).nodes@[k].group
                        && self.nodes@[k].purchased == old(self).nodes@[k].purchased,
                forall|k: int|
                    0 <= k < i ==> #[trigger] self.nodes@[k] == relocked(old(self).nodes@, node as int)[k],
                forall|k: int| i <= k < count ==> #[trigger] self.nodes@[k] == old(self).nodes@[k],
            decreases count - i,
        {
            if i != node {
                if self.nodes[i].group == group {
                    self.nodes[i].locked = true;
                } else {
                    let follows = match self.nodes[i].after {
                        Some(first) => first == node as u64,
                        None => false,
                    };
                    if follows {
                        let rival = self.has_rival(i);
                        proof {
                            lemma_rivals_by_group_and_purchase(
                                self.nodes@,
                                old(self).nodes@,
                                i as int,
                            );
                        }
                        self.nodes[i].locked = rival;
                    }
                }
            }
            i += 1;
        }
        assert(self.nodes@ =~= relocked(old(self).nodes@, node as int));
    }

    /// Tries to buy the upgrade at place `node` and says whether it was
    /// bought.
    ///
    /// Nothing happens where `node` is not on the tree, the upgrade is
    /// bought already or locked, or the purse holds less than its price.
    /// Otherwise the price leaves the purse, the upgrade is marked as bought
    /// and added to the run's purchases, its effect is applied to the weapon,
    /// every other upgrade of its group is locked, and an upgrade of another
    /// group that follows it is opened unless one of its own group was
    /// bought.
    pub fn purchase(
        &mut self,
        node: usize,
        coins: &mut Coins,
        weapon: &mut Weapon,
        upgrades: &mut Upgrades,
    ) -> (bought: bool)
        ensures
            bought == can_buy(old(self).nodes@, node as int, *old(coins)),
            (Shop {
                nodes: final(self).nodes@,
                coins: *final(coins),
                weapon: *final(weapon),
                bought: final(upgrades)@,
            }) == purchased(
                Shop {
                    nodes: old(self).nodes@,
                    coins: *old(coins),
                    weapon: *old(weapon),
                    bought: old(upgrades)@,
                },
                node as int,
            ),
            final(coins).0 <= old(coins).0,
            !bought ==> *final(upgrades) == *old(upgrades),
            old(weapon).wf() ==> final(weapon).wf(),
    {
        if node >= self.nodes.len() {
            return false;
        }
        let chosen = self.nodes[node];
        if chosen.purchased || chosen.locked || coins.0 < chosen.cost {
            return false;
        }
        weapon.apply(chosen.effect);
        upgrades.0.insert(node as u64);
        coins.0 = coins.0 - chosen.cost;
        self.nodes[node].purchased = true;
        assert(self.nodes@ =~= old(self).nodes@.update(
            node as int,
            UpgradeNode { purchased: true, ..old(self).nodes@[node as int] },
        ));
        self.update_locks(node);
        true
    }
}

/// Whether a rival shows as bought depends on the groups and on what shows
/// as bought, and on nothing else.
proof fn lemma_rivals_by_group_and_purchase(
    nodes: Seq<UpgradeNode>,
    other: Seq<UpgradeNode>,
    i: int,
)
    requires
        nodes.len() == other.len(),
        0 <= i < nodes.len(),
        forall|k: int|
            0 <= k < nodes.len() ==> (#[trigger] nodes[k]).group == other[k].group
                && nodes[k].purchased == other[k].purchased,
    ensures
        rival_purchased(nodes, i) == rival_purchased(other, i),
{
    if rival_purchased(nodes, i) {
        let j = choose|j: int|
            0 <= j < nodes.len() && j != i && (#[trigger] nodes[j]).group == nodes[i].group
                && nodes[j].purchased;
        assert(other[j].group == other[i].group && other[j].purchased);
    }
    if rival_purchased(other, i) {
        let j = choose|j: int|
            0 <= j < other.len() && j != i && (#[trigger] other[j]).group == other[i].group
                && other[j].purchased;
        assert(nodes[j].group == nodes[i].group && nodes[j].purchased);
    }
}

/// Buying an upgrade locks every other upgrade of its group, whatever it
/// costs and whatever the purse holds. Of the other groups it touches only
/// the upgrades that follow it.
pub proof fn lemma_purchase_locks_group(shop: Shop, node: int, other: int)
    requires
        can_buy(shop.nodes, node, shop.coins),
        0 <= other < shop.nodes.len(),
        other != node,
    ensures
        shop.nodes[other].group == shop.nodes[node].group ==> purchased(shop, node).nodes[other].locked,
        shop.nodes[other].group == shop.nodes[node].group ==> !can_buy(
            purchased(shop, node).nodes,
            other,
            purchased(shop, node).coins,
        ),
        shop.nodes[other].group != shop.nodes[node].group && shop.nodes[other].after != Some(
            node as u64,
        ) ==> purchased(shop, node).nodes[other] == shop.nodes[other],
        purchased(shop, node).nodes[node].purchased,
{
}

/// An upgrade is paid for once: buying it again changes nothing, and takes
/// nothing from the purse.
pub proof fn lemma_purchase_idempotent(shop: Shop, node: int)
    ensures
        purchased(purchased(shop, node), node) == purchased(shop, node),
{
    if can_buy(shop.nodes, node, shop.coins) {
        assert(purchased(shop, node).nodes[node].purchased);
    }
}

/// The purse never goes below zero: an upgrade that costs more than the
/// purse holds is not bought and nothing changes, and a purchase leaves the
/// purse with exactly the price less.
pub proof fn lemma_purse_never_overdrawn(shop: Shop, node: int)
    requires
        0 <= node < shop.nodes.len(),
    ensures
        shop.nodes[node].cost > shop.coins.0 ==> purchased(shop, node) == shop,
        can_buy(shop.nodes, node, shop.coins) ==> purchased(shop, node).coins.0
            == shop.coins.0 - shop.nodes[node].cost,
        0 <= purchased(shop, node).coins.0 <= shop.coins.0,
{
}

/// A tree that was opened from the purchases shows a rival as bought
/// exactly where the purchases hold a rival.
proof fn lemma_opened_rivals(defs: Seq<NodeDef>, bought: Set<u64>, i: int)
    requires
        0 <= i < defs.len(),
    ensures
        rival_purchased(opened(defs, bought), i) == rival_bought(defs, bought, i),
{
    let tree = opened(defs, bought);
    if rival_purchased(tree, i) {
        let j = choose|j: int|
            0 <= j < tree.len() && j != i && (#[trigger] tree[j]).group == tree[i].group
                && tree[j].purchased;
        assert(defs[j].group == defs[i].group && bought.contains(j as u64));
    }
    if rival_bought(defs, bought, i) {
        let j = choose|j: int|
            0 <= j < defs.len() && j != i && (#[trigger] defs[j]).group == defs[i].group
                && bought.contains(j as u64);
        assert(tree[j].group == tree[i].group && tree[j].purchased);
    }
}

/// Opening the tree again shows what the purchases made of it: after a
/// purchase on a tree that was opened from the run's purchases, the tree is
/// the one that opens from the purchases as they now are.
pub proof fn lemma_reopen_reproduces(defs: Seq<NodeDef>, bought: Set<u64>, coins: Coins, node: int)
    requires
        defs.len() <= u64::MAX,
        can_buy(opened(defs, bought), node, coins),
    ensures
        bought_at(opened(defs, bought), node) == opened(defs, bought.insert(node as u64)),
{
    let before = opened(defs, bought);
    let marked = before.update(node, UpgradeNode { purchased: true, ..before[node] });
    let after = bought_at(before, node);
    let more = bought.insert(node as u64);
    let again = opened(defs, more);
    assert forall|i: int| 0 <= i < defs.len() implies after[i] == again[i] by {
        if rival_bought(defs, more, i) {
            let j = choose|j: int|
                0 <= j < defs.len() && j != i && (#[trigger] defs[j]).group == defs[i].group
                    && more.contains(j as u64);
            if j != node {
                assert(bought.contains(j as u64));
                assert(rival_bought(defs, bought, i));
            }
        }
        if rival_bought(defs, bought, i) {
            let j = choose|j: int|
                0 <= j < defs.len() && j != i && (#[trigger] defs[j]).group == defs[i].group
                    && bought.contains(j as u64);
            assert(more.contains(j as u64));
            assert(rival_bought(defs, more, i));
        }
        if i != node && defs[i].group == defs[node].group {
            assert(more.contains(node as u64));
            assert(rival_bought(defs, more, i));
        }
        if i != node && defs[i].group != defs[node].group && defs[i].after == Some(node as u64) {
            lemma_opened_rivals(defs, bought, i);
            if rival_purchased(marked, i) {
                let j = choose|j: int|
                    0 <= j < marked.len() && j != i && (#[trigger] marked[j]).group
                        == marked[i].group && marked[j].purchased;
                assert(j != node);
                assert(before[j].group == before[i].group && before[j].purchased);
            }
            if rival_purchased(before, i) {
                let j = choose|j: int|
                    0 <= j < before.len() && j != i && (#[trigger] before[j]).group
                        == before[i].group && before[j].purchased;
                assert(marked[j].group == marked[i].group && marked[j].purchased);
            }
        }
    }
    assert(after =~= again);
}

/// The second upgrades of the standard tree are never open to buying,
/// whatever was bought: each is locked until the first of its group is
/// bought, and locked by that purchase from then on.
pub proof fn lemma_standard_seconds_stay_locked(bought: Set<u64>)
    ensures
        opened(standard_defs(), bought).len() == 4,
        opened(standard_defs(), bought)[1].locked,
        opened(standard_defs(), bought)[3].locked,
        !bought.contains(1) ==> !opened(standard_defs(), bought)[0].locked,
        !bought.contains(3) ==> !opened(standard_defs(), bought)[2].locked,
{
    let defs = standard_defs();
    if bought.contains(0) {
        assert(defs[0].group == defs[1].group);
        assert(rival_bought(defs, bought, 1));
    }
    if bought.contains(2) {
        assert(defs[2].group == defs[3].group);
        assert(rival_bought(defs, bought, 3));
    }
    if !bought.contains(1) && rival_bought(defs, bought, 0) {
        let j = choose|j: int|
            0 <= j < defs.len() && j != 0 && (#[trigger] defs[j]).group == defs[0].group
                && bought.contains(j as u64);
        assert(j == 1);
    }
    if !bought.contains(3) && rival_bought(defs, bought, 2) {
        let j = choose|j: int|
            0 <= j < defs.len() && j != 2 && (#[trigger] defs[j]).group == defs[2].group
                && bought.contains(j as u64);
        assert(j == 3);
    }
}

/// The shop after a run of attempts to buy, one after the other.
pub open spec fn purchased_all(shop: Shop, attempts: Seq<int>) -> Shop
    decreases attempts.len(),
{
    if attempts.len() == 0 {
        shop
    } else {
        purchased(purchased_all(shop, attempts.drop_last()), attempts.last())
    }
}

/// Whether the upgrade at place `i` is locked and the tree shows another of
/// its group as bought.
pub open spec fn barred(nodes: Seq<UpgradeNode>, i: int) -> bool {
    nodes[i].locked && rival_purchased(nodes, i)
}

/// One attempt to buy keeps the size of the tree and the groups, keeps what
/// was bought as bought, and keeps locked what was locked with a rival
/// bought.
proof fn lemma_purchase_keeps(shop: Shop, node: int, i: int)
    requires
        0 <= i < shop.nodes.len(),
    ensures
        purchased(shop, node).nodes.len() == shop.nodes.len(),
        purchased(shop, node).nodes[i].group == shop.nodes[i].group,
        shop.nodes[i].purchased ==> purchased(shop, node).nodes[i].purchased,
        rival_purchased(shop.nodes, i) ==> rival_purchased(purchased(shop, node).nodes, i),
        barred(shop.nodes, i) ==> barred(purchased(shop, node).nodes, i),
{
    let next = purchased(shop, node).nodes;
    if can_buy(shop.nodes, node, shop.coins) {
        let marked = shop.nodes.update(node, UpgradeNode { purchased: true, ..shop.nodes[node] });
        if rival_purchased(shop.nodes, i) {
            let j = choose|j: int|
                0 <= j < shop.nodes.len() && j != i && (#[trigger] shop.nodes[j]).group
                    == shop.nodes[i].group && shop.nodes[j].purchased;
            assert(marked[j].group == marked[i].group && marked[j].purchased);
            assert(rival_purchased(marked, i));
            assert(next[j].group == next[i].group && next[j].purchased);
            assert(rival_purchased(next, i));
        }
    }
}

/// Over any run of attempts to buy, the purse only ever shrinks and never
/// goes below zero, what was bought stays bought, and what was locked with a
/// rival bought stays locked.
pub proof fn lemma_purchases_only_spend(shop: Shop, attempts: Seq<int>, k: int)
    requires
        0 <= k <= attempts.len(),
    ensures
        0 <= purchased_all(shop, attempts).coins.0 <= purchased_all(shop, attempts.take(k)).coins.0
            <= shop.coins.0,
        purchased_all(shop, attempts).nodes.len() == shop.nodes.len(),
        purchased_all(shop, attempts.take(k)).nodes.len() == shop.nodes.len(),
        purchased_all(shop, attempts.take(k)).bought.subset_of(purchased_all(shop, attempts).bought),
        forall|i: int|
            0 <= i < shop.nodes.len() && (#[trigger] purchased_all(
                shop,
                attempts.take(k),
            ).nodes[i]).purchased ==> purchased_all(shop, attempts).nodes[i].purchased,
        forall|i: int|
            0 <= i < shop.nodes.len() && #[trigger] barred(
                purchased_all(shop, attempts.take(k)).nodes,
                i,
            ) ==> barred(purchased_all(shop, attempts).nodes, i),
    decreases attempts.len(),
{
    if attempts.len() == 0 {
        assert(attempts.take(k) =~= attempts);
    } else if k == attempts.len() {
        assert(attempts.take(k) =~= attempts);
        lemma_purchases_only_spend(shop, attempts.drop_last(), 0);
    } else {
        assert(attempts.drop_last().take(k) =~= attempts.take(k));
        lemma_purchases_only_spend(shop, attempts.drop_last(), k);
        let before = purchased_all(shop, attempts.drop_last());
        assert forall|i: int| 0 <= i < shop.nodes.len() implies (before.nodes[i].purchased
            ==> purchased_all(shop, attempts).nodes[i].purchased) && (barred(before.nodes, i)
            ==> barred(purchased_all(shop, attempts).nodes, i)) by {
            lemma_purchase_keeps(before, attempts.last(), i);
        }
    }
}

} // verus!
