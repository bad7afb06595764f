use vstd::prelude::*;
use vstd::arithmetic::div_mod::lemma_fundamental_div_mod;
use crate::addrs::Address;
use crate::errs::Error;
use crate::wire::{le_val, read_address, read_u128_le, read_u32_le, read_u64_le};

verus! {

/// One resting order as stored in a leaf of the order-book slab. The price
/// in lots is the upper half of the 128-bit order id.
#[derive(Clone, Copy, Debug, PartialEq, Eq)]
pub struct OrderRecord {
    pub owner_slot: u8,
    pub fee_tier: u8,
    pub control: Address,
    pub order_id: u128,
    pub price_lots: u64,
    pub quantity: u64,
    pub client_order_id: u64,
}

/// One node of the slab: a tree branch with two children, a resting
/// order, or a dead entry (uninitialized or on the free list).
#[derive(Clone, Copy, Debug, PartialEq, Eq)]
pub enum SlabNode {
    Dead,
    Inner(u32, u32),
    Leaf(OrderRecord),
}

/// One decoded side of a market's order book: its flags, tree root, leaf
/// count and node array.
pub struct SlabView {
    pub is_bids: bool,
    pub root: u32,
    pub leaf_count: u32,
    pub nodes: Vec<SlabNode>,
}

/// How many whole nodes fit after the header.
pub open spec fn slab_node_count(len: int) -> int {
    (len - 45) / 72
}

/// Whether `n` is the node encoded at index `i` of a slab image. Tag one
/// is a branch, tag two a leaf; the remaining valid tags are dead entries.
pub open spec fn slab_node_matches(s: Seq<u8>, i: int, n: SlabNode) -> bool {
    let base = 45 + 72 * i;
    let tag = le_val(s, base, 4);
    let body = base + 4;
    if tag == 1 {
        n == SlabNode::Inner(le_val(s, body + 20, 4) as u32, le_val(s, body + 24, 4) as u32)
    } else if tag == 2 {
        n matches SlabNode::Leaf(rec) && {
            &&& rec.owner_slot == s[body]
            &&& rec.fee_tier == s[body + 1]
            &&& rec.control@ == s.subrange(body + 20, body + 52)
            &&& rec.order_id == le_val(s, body + 4, 16)
            &&& rec.price_lots == le_val(s, body + 12, 8)
            &&& rec.quantity == le_val(s, body + 52, 8)
            &&& rec.client_order_id == le_val(s, body + 60, 8)
        }
    } else {
        n == SlabNode::Dead
    }
}

/// Whether `s` is a structurally sound slab image: the five-byte head and
/// seven-byte tail markers, an initialized flag word marking exactly one
/// book side, and no node with a tag outside the five the layout defines.
pub open spec fn slab_valid(s: Seq<u8>) -> bool {
    &&& s.len() >= 52
    &&& s[0] == 115 && s[1] == 101 && s[2] == 114 && s[3] == 117 && s[4] == 109
    &&& s[s.len() - 7] == 112 && s[s.len() - 6] == 97 && s[s.len() - 5] == 100 && s[s.len()
        - 4] == 100 && s[s.len() - 3] == 105 && s[s.len() - 2] == 110 && s[s.len() - 1] == 103
    &&& (le_val(s, 5, 8) as u64) & 1u64 != 0
    &&& (((le_val(s, 5, 8) as u64) & 32u64 != 0) != ((le_val(s, 5, 8) as u64) & 64u64 != 0))
    &&& forall|i: int| 0 <= i < slab_node_count(s.len() as int) ==> #[trigger] le_val(s, 45 + 72 * i, 4) <= 4
}

/// Decodes one side of an order book: validates the head and tail markers
/// and the flag word, then reads every node — branch children, or the
/// leaf's order fields — rejecting any tag the layout does not define.
/// Fails with `Corrupt`, never panics, on any image that does not
/// validate.
pub fn decode_slab(b: &Vec<u8>) -> (r: Result<SlabView, Error>)
    ensures
        r is Ok <==> slab_valid(b@),
        r matches Err(e) ==> e is Corrupt,
        r matches Ok(v) ==> {
            &&& v.is_bids == ((le_val(b@, 5, 8) as u64) & 32u64 != 0)
            &&& v.root == le_val(b@, 33, 4)
            &&& v.leaf_count == le_val(b@, 37, 4)
            &&& v.nodes@.len() == slab_node_count(b@.len() as int)
            &&& forall|i: int| 0 <= i < v.nodes@.len() ==> slab_node_matches(b@, i, #[trigger] v.nodes@[i])
        },
{
    let len: usize = b.len();
    if len < 52 {
        return Err(Error::Corrupt);
    }
    if b[0] != 115 || b[1] != 101 || b[2] != 114 || b[3] != 117 || b[4] != 109 {
        return Err(Error::Corrupt);
    }
    if b[len - 7] != 112 || b[len - 6] != 97 || b[len - 5] != 100 || b[len - 4] != 100 || b[len
        - 3] != 105 || b[len - 2] != 110 || b[len - 1] != 103 {
        return Err(Error::Corrupt);
    }
    let flags: u64 = read_u64_le(b, 5);
    let is_bids: bool = flags & 32 != 0;
    let is_asks: bool = flags & 64 != 0;
    if flags & 1 == 0 || is_bids == is_asks {
        return Err(Error::Corrupt);
    }
    let root: u32 = read_u32_le(b, 33);
    let leaf_count: u32 = read_u32_le(b, 37);
    let count: usize = (len - 45) / 72;
    proof {
        lemma_fundamental_div_mod((len - 45) as int, 72);
        vstd::arithmetic::div_mod::lemma_mod_division_less_than_divisor((len - 45) as int, 72);
    }
    let mut nodes: Vec<SlabNode> = Vec::new();
    let mut i: usize = 0;
    while i < count
        invariant
            i <= count,
            count == slab_node_count(b@.len() as int),
            b@.len() >= 52,
            45 + 72 * count <= b@.len(),
            45 + 72 * count <= usize::MAX,
            nodes@.len() == i,
            forall|j: int| 0 <= j < i ==> #[trigger] le_val(b@, 45 + 72 * j, 4) <= 4,
            forall|j: int| 0 <= j < i ==> slab_node_matches(b@, j, #[trigger] nodes@[j]),
        decreases count - i,
    {
        let base: usize = 45 + 72 * i;
        let body: usize = base + 4;
        let tag: u32 = read_u32_le(b, base);
        let node: SlabNode = if tag == 1 {
            SlabNode::Inner(read_u32_le(b, body + 20), read_u32_le(b, body + 24))
        } else if tag == 2 {
            SlabNode::Leaf(
                OrderRecord {
                    owner_slot: b[body],
                    fee_tier: b[body + 1],
                    control: read_address(b, body + 20),
                    order_id: read_u128_le(b, body + 4),
                    price_lots: read_u64_le(b, body + 12),
                    quantity: read_u64_le(b, body + 52),
                    client_order_id: read_u64_le(b, body + 60),
                },
            )
        } else if tag == 0 || tag == 3 || tag == 4 {
            SlabNode::Dead
        } else {
            return Err(Error::Corrupt);
        };
        nodes.push(node);
        i = i + 1;
    }
    Ok(SlabView { is_bids, root, leaf_count, nodes })
}

/// What a fuel-bounded front-to-back walk of the slab tree yields from a
/// work stack: branches push their children so the lower child is visited
/// first, leaves are emitted in visit order, a dead node ends the walk,
/// and a missing index or exhausted fuel marks the structure unsound.
/// This is the ledger-internal order; nothing here reorders it.
pub open spec fn slab_walk(nodes: Seq<SlabNode>, stack: Seq<u32>, fuel: nat) -> Option<
    Seq<OrderRecord>,
>
    decreases fuel,
{
    if stack.len() == 0 {
        Option::Some(Seq::empty())
    } else if fuel == 0 {
        Option::None
    } else {
        let top = stack.last();
        if top >= nodes.len() {
            Option::None
        } else {
            match nodes[top as int] {
                SlabNode::Dead => Option::Some(Seq::empty()),
                SlabNode::Inner(lo, hi) => slab_walk(
                    nodes,
                    stack.drop_last().push(hi).push(lo),
                    (fuel - 1) as nat,
                ),
                SlabNode::Leaf(rec) => match slab_walk(
                    nodes,
                    stack.drop_last(),
                    (fuel - 1) as nat,
                ) {
                    Option::Some(rest) => Option::Some(seq![rec] + rest),
                    Option::None => Option::None,
                },
            }
        }
    }
}

/// Fuel that suffices for any sound slab: a proper tree visits each node
/// at most once.
pub open spec fn slab_fuel(v: SlabView) -> nat {
    (2 * v.nodes@.len() + 2) as nat
}

/// Walks one decoded book side front to back and returns its resting
/// orders exactly as the fuel-bounded walk names them — in ledger-internal
/// order, without reordering. Fails with `Corrupt` exactly when the walk
/// does: a child index outside the node array, or a structure so cyclic
/// that the fuel runs out.
pub fn slab_orders(v: &SlabView) -> (r: Result<Vec<OrderRecord>, Error>)
    requires
        2 * v.nodes@.len() + 2 <= usize::MAX,
    ensures
        ({
            let init: Seq<u32> = if v.leaf_count > 0 {
                seq![v.root]
            } else {
                Seq::empty()
            };
            &&& (r matches Ok(out) ==> slab_walk(v.nodes@, init, slab_fuel(*v)) == Option::Some(
                out@,
            ))
            &&& (r is Err <==> slab_walk(v.nodes@, init, slab_fuel(*v)) is None)
            &&& (r matches Err(e) ==> e is Corrupt)
        }),
{
    let mut out: Vec<OrderRecord> = Vec::new();
    let mut stack: Vec<u32> = Vec::new();
    if v.leaf_count > 0 {
        stack.push(v.root);
    }
    let ghost init: Seq<u32> = stack@;
    proof {
        if v.leaf_count > 0 {
            assert(init =~= seq![v.root]);
        } else {
            assert(init =~= Seq::<u32>::empty());
        }
    }
    let total: usize = 2 * v.nodes.len() + 2;
    let mut fuel: usize = total;
    while stack.len() > 0 && fuel > 0
        invariant
            fuel <= total,
            total == slab_fuel(*v),
            init == (if v.leaf_count > 0 {
                seq![v.root]
            } else {
                Seq::<u32>::empty()
            }),
            ({
                let walked = slab_walk(v.nodes@, stack@, fuel as nat);
                slab_walk(v.nodes@, init, slab_fuel(*v)) == (match walked {
                    Option::Some(rest) => Option::Some(out@ + rest),
                    Option::None => Option::<Seq<OrderRecord>>::None,
                })
            }),
        decreases fuel,
    {
        let ghost pre_stack: Seq<u32> = stack@;
        let ghost pre_fuel: nat = fuel as nat;
        let top: u32 = match stack.pop() {
            Some(t) => t,
            None => {
                proof {
                    assert(false);
                }
                return Err(Error::Corrupt);
            },
        };
        proof {
            assert(stack@ == pre_stack.drop_last());
            assert(top == pre_stack.last());
        }
        if top as usize >= v.nodes.len() {
            return Err(Error::Corrupt);
        }
        match v.nodes[top as usize] {
            SlabNode::Dead => {
                proof {
                    assert(out@ + Seq::<OrderRecord>::empty() =~= out@);
                }
                return Ok(out);
            },
            SlabNode::Inner(lo, hi) => {
                stack.push(hi);
                stack.push(lo);
            },
            SlabNode::Leaf(rec) => {
                let ghost before: Seq<OrderRecord> = out@;
                out.push(rec);
                proof {
                    match slab_walk(v.nodes@, stack@, (fuel - 1) as nat) {
                        Option::Some(rest) => {
                            assert(before + (seq![rec] + rest) =~= out@ + rest);
                        },
                        Option::None => {},
                    }
                }
            },
        }
        fuel = fuel - 1;
    }
    if stack.len() == 0 {
        proof {
            assert(out@ + Seq::<OrderRecord>::empty() =~= out@);
        }
        Ok(out)
    } else {
        Err(Error::Corrupt)
    }
}

} // verus!
