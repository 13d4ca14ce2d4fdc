//! The durable store model: four tables, each keyed by its natural key and
//! written only by whole-row upsert.
//!
//! Each table is a vector of rows with pairwise-distinct keys; its abstract
//! value is a finite map from key to row. `store` is proved to be exactly a
//! map insertion: the row under the key is replaced wholesale or created,
//! and no other row moves. The durable backend that mirrors these tables to
//! disk lives at the process edge; this model is the contract it must meet.

use vstd::prelude::*;

verus! {

/// One row of the block table, keyed by `slot`.
#[derive(Debug, Clone)]
pub struct BlockRow {
    pub slot: u64,
    pub parent_slot: u64,
    pub height: u64,
    pub timestamp: i64,
    pub blockhash: String,
    pub transactions_count: usize,
}

/// One row of the transaction table, keyed by `signature`.
#[derive(Debug, Clone)]
pub struct TransactionRow {
    pub signature: String,
    pub slot: u64,
    pub timestamp: i64,
    pub success: bool,
    pub transaction_data: Vec<u8>,
}

/// One row of the account table, keyed by `pubkey`.
#[derive(Debug, Clone)]
pub struct AccountRow {
    pub pubkey: String,
    pub owner: String,
    pub lamports: u64,
    pub slot: u64,
    pub executable: bool,
    pub rent_epoch: u64,
    pub data_hash: String,
}

/// One row of the slot-status table, keyed by `slot`.
#[derive(Debug, Clone)]
pub struct SlotRow {
    pub slot: u64,
    pub parent: Option<u64>,
    pub status: String,
    pub timestamp: i64,
}

/// A record handed to the store, one variant per table.
#[derive(Debug, Clone)]
pub enum IndexedData {
    Block {
        slot: u64,
        parent_slot: u64,
        height: u64,
        timestamp: i64,
        blockhash: String,
        transactions_count: usize,
    },
    Transaction {
        signature: String,
        slot: u64,
        timestamp: i64,
        success: bool,
        transaction_data: Vec<u8>,
    },
    Account {
        pubkey: String,
        owner: String,
        lamports: u64,
        slot: u64,
        executable: bool,
        rent_epoch: u64,
        data_hash: String,
    },
    Slot {
        slot: u64,
        parent: Option<u64>,
        status: String,
        timestamp: i64,
    },
}

pub open spec fn blocks_unique(s: Seq<BlockRow>) -> bool {
    forall|i: int, j: int| 0 <= i < j < s.len() ==> s[i].slot != s[j].slot
}

pub open spec fn txs_unique(s: Seq<TransactionRow>) -> bool {
    forall|i: int, j: int| 0 <= i < j < s.len() ==> s[i].signature@ != s[j].signature@
}

pub open spec fn accounts_unique(s: Seq<AccountRow>) -> bool {
    forall|i: int, j: int| 0 <= i < j < s.len() ==> s[i].pubkey@ != s[j].pubkey@
}

pub open spec fn slots_unique(s: Seq<SlotRow>) -> bool {
    forall|i: int, j: int| 0 <= i < j < s.len() ==> s[i].slot != s[j].slot
}

/// The abstract value of a block table: later rows win.
pub open spec fn blocks_map_of(s: Seq<BlockRow>) -> Map<u64, BlockRow>
    decreases s.len(),
{
    if s.len() == 0 {
        Map::empty()
    } else {
        blocks_map_of(s.drop_last()).insert(s.last().slot, s.last())
    }
}

/// The abstract value of a transaction table: later rows win.
pub open spec fn txs_map_of(s: Seq<TransactionRow>) -> Map<Seq<char>, TransactionRow>
    decreases s.len(),
{
    if s.len() == 0 {
        Map::empty()
    } else {
        txs_map_of(s.drop_last()).insert(s.last().signature@, s.last())
    }
}

/// The abstract value of an account table: later rows win.
pub open spec fn accounts_map_of(s: Seq<AccountRow>) -> Map<Seq<char>, AccountRow>
    decreases s.len(),
{
    if s.len() == 0 {
        Map::empty()
    } else {
        accounts_map_of(s.drop_last()).insert(s.last().pubkey@, s.last())
    }
}

/// The abstract value of a slot-status table: later rows win.
pub open spec fn slots_map_of(s: Seq<SlotRow>) -> Map<u64, SlotRow>
    decreases s.len(),
{
    if s.len() == 0 {
        Map::empty()
    } else {
        slots_map_of(s.drop_last()).insert(s.last().slot, s.last())
    }
}

pub proof fn lemma_blocks_map_props(s: Seq<BlockRow>)
    ensures
        blocks_map_of(s).dom().finite(),
        forall|k: u64|
            #[trigger] blocks_map_of(s).dom().contains(k) <==> exists|i: int|
                0 <= i < s.len() && #[trigger] s[i].slot == k,
        blocks_unique(s) ==> blocks_map_of(s).dom().len() == s.len(),
    decreases s.len(),
{
    if s.len() == 0 {
    } else {
        let d = s.drop_last();
        lemma_blocks_map_props(d);
        assert forall|k: u64| #[trigger] blocks_map_of(s).dom().contains(k) implies exists|i: int|
            0 <= i < s.len() && #[trigger] s[i].slot == k by {
            if k == s.last().slot {
                assert(s[s.len() - 1].slot == k);
            } else {
                let i = choose|i: int| 0 <= i < d.len() && #[trigger] d[i].slot == k;
                assert(s[i].slot == k);
            }
        }
        assert forall|k: u64| (exists|i: int| 0 <= i < s.len() && #[trigger] s[i].slot == k)
            implies #[trigger] blocks_map_of(s).dom().contains(k) by {
            let i = choose|i: int| 0 <= i < s.len() && #[trigger] s[i].slot == k;
            if i == s.len() - 1 {
                assert(k == s.last().slot);
            } else {
                assert(d[i].slot == k);
            }
        }
        if blocks_unique(s) {
            assert(blocks_unique(d));
            if blocks_map_of(d).dom().contains(s.last().slot) {
                let i = choose|i: int| 0 <= i < d.len() && #[trigger] d[i].slot == s.last().slot;
                assert(s[i].slot == s[s.len() - 1].slot);
                assert(false);
            }
        }
    }
}

pub proof fn lemma_txs_map_props(s: Seq<TransactionRow>)
    ensures
        txs_map_of(s).dom().finite(),
        forall|k: Seq<char>|
            #[trigger] txs_map_of(s).dom().contains(k) <==> exists|i: int|
                0 <= i < s.len() && #[trigger] s[i].signature@ == k,
        txs_unique(s) ==> txs_map_of(s).dom().len() == s.len(),
    decreases s.len(),
{
    if s.len() == 0 {
    } else {
        let d = s.drop_last();
        lemma_txs_map_props(d);
        assert forall|k: Seq<char>| #[trigger] txs_map_of(s).dom().contains(k) implies exists|i: int|
            0 <= i < s.len() && #[trigger] s[i].signature@ == k by {
            if k == s.last().signature@ {
                assert(s[s.len() - 1].signature@ == k);
            } else {
                let i = choose|i: int| 0 <= i < d.len() && #[trigger] d[i].signature@ == k;
                assert(s[i].signature@ == k);
            }
        }
        assert forall|k: Seq<char>| (exists|i: int| 0 <= i < s.len() && #[trigger] s[i].signature@ == k)
            implies #[trigger] txs_map_of(s).dom().contains(k) by {
            let i = choose|i: int| 0 <= i < s.len() && #[trigger] s[i].signature@ == k;
            if i == s.len() - 1 {
                assert(k == s.last().signature@);
            } else {
                assert(d[i].signature@ == k);
            }
        }
        if txs_unique(s) {
            assert(txs_unique(d));
            if txs_map_of(d).dom().contains(s.last().signature@) {
                let i = choose|i: int|
                    0 <= i < d.len() && #[trigger] d[i].signature@ == s.last().signature@;
                assert(s[i].signature@ == s[s.len() - 1].signature@);
                assert(false);
            }
        }
    }
}

pub proof fn lemma_accounts_map_props(s: Seq<AccountRow>)
    ensures
        accounts_map_of(s).dom().finite(),
        forall|k: Seq<char>|
            #[trigger] accounts_map_of(s).dom().contains(k) <==> exists|i: int|
                0 <= i < s.len() && #[trigger] s[i].pubkey@ == k,
        accounts_unique(s) ==> accounts_map_of(s).dom().len() == s.len(),
    decreases s.len(),
{
    if s.len() == 0 {
    } else {
        let d = s.drop_last();
        lemma_accounts_map_props(d);
        assert forall|k: Seq<char>| #[trigger] accounts_map_of(s).dom().contains(k) implies exists|i: int|
            0 <= i < s.len() && #[trigger] s[i].pubkey@ == k by {
            if k == s.last().pubkey@ {
                assert(s[s.len() - 1].pubkey@ == k);
            } else {
                let i = choose|i: int| 0 <= i < d.len() && #[trigger] d[i].pubkey@ == k;
                assert(s[i].pubkey@ == k);
            }
        }
        assert forall|k: Seq<char>| (exists|i: int| 0 <= i < s.len() && #[trigger] s[i].pubkey@ == k)
            implies #[trigger] accounts_map_of(s).dom().contains(k) by {
            let i = choose|i: int| 0 <= i < s.len() && #[trigger] s[i].pubkey@ == k;
            if i == s.len() - 1 {
                assert(k == s.last().pubkey@);
            } else {
                assert(d[i].pubkey@ == k);
            }
        }
        if accounts_unique(s) {
            assert(accounts_unique(d));
            if accounts_map_of(d).dom().contains(s.last().pubkey@) {
                let i = choose|i: int| 0 <= i < d.len() && #[trigger] d[i].pubkey@ == s.last().pubkey@;
                assert(s[i].pubkey@ == s[s.len() - 1].pubkey@);
                assert(false);
            }
        }
    }
}

pub proof fn lemma_slots_map_props(s: Seq<SlotRow>)
    ensures
        slots_map_of(s).dom().finite(),
        forall|k: u64|
            #[trigger] slots_map_of(s).dom().contains(k) <==> exists|i: int|
                0 <= i < s.len() && #[trigger] s[i].slot == k,
        slots_unique(s) ==> slots_map_of(s).dom().len() == s.len(),
    decreases s.len(),
{
    if s.len() == 0 {
    } else {
        let d = s.drop_last();
        lemma_slots_map_props(d);
        assert forall|k: u64| #[trigger] slots_map_of(s).dom().contains(k) implies exists|i: int|
            0 <= i < s.len() && #[trigger] s[i].slot == k by {
            if k == s.last().slot {
                assert(s[s.len() - 1].slot == k);
            } else {
                let i = choose|i: int| 0 <= i < d.len() && #[trigger] d[i].slot == k;
                assert(s[i].slot == k);
            }
        }
        assert forall|k: u64| (exists|i: int| 0 <= i < s.len() && #[trigger] s[i].slot == k)
            implies #[trigger] slots_map_of(s).dom().contains(k) by {
            let i = choose|i: int| 0 <= i < s.len() && #[trigger] s[i].slot == k;
            if i == s.len() - 1 {
                assert(k == s.last().slot);
            } else {
                assert(d[i].slot == k);
            }
        }
        if slots_unique(s) {
            assert(slots_unique(d));
            if slots_map_of(d).dom().contains(s.last().slot) {
                let i = choose|i: int| 0 <= i < d.len() && #[trigger] d[i].slot == s.last().slot;
                assert(s[i].slot == s[s.len() - 1].slot);
                assert(false);
            }
        }
    }
}

proof fn lemma_blocks_map_value(s: Seq<BlockRow>, i: int)
    requires
        blocks_unique(s),
        0 <= i < s.len(),
    ensures
        blocks_map_of(s).dom().contains(s[i].slot),
        blocks_map_of(s)[s[i].slot] == s[i],
    decreases s.len(),
{
    if i == s.len() - 1 {
    } else {
        let d = s.drop_last();
        assert(blocks_unique(d));
        lemma_blocks_map_value(d, i);
        assert(s.last().slot != s[i].slot);
        assert(d[i] == s[i]);
    }
}

proof fn lemma_blocks_map_remove(s: Seq<BlockRow>, i: int)
    requires
        blocks_unique(s),
        0 <= i < s.len(),
    ensures
        blocks_unique(s.remove(i)),
        forall|j: int| 0 <= j < s.remove(i).len() ==> #[trigger] s.remove(i)[j].slot != s[i].slot,
        blocks_map_of(s.remove(i)) == blocks_map_of(s).remove(s[i].slot),
    decreases s.len(),
{
    s.remove_ensures(i);
    let r = s.remove(i);
    assert forall|j: int| 0 <= j < r.len() implies #[trigger] r[j].slot != s[i].slot by {
        if j < i {
            assert(r[j] == s[j]);
        } else {
            assert(r[j] == s[j + 1]);
        }
    }
    assert(blocks_unique(r)) by {
        assert forall|p: int, q: int| 0 <= p < q < r.len() implies r[p].slot != r[q].slot by {
            if q < i {
            } else if p >= i {
                assert(r[p] == s[p + 1] && r[q] == s[q + 1]);
            } else {
                assert(r[p] == s[p] && r[q] == s[q + 1]);
            }
        }
    }
    if i == s.len() - 1 {
        assert(r =~= s.drop_last());
        lemma_blocks_map_props(s.drop_last());
        assert(!blocks_map_of(s.drop_last()).dom().contains(s[i].slot));
        assert(blocks_map_of(s).remove(s[i].slot) =~= blocks_map_of(s.drop_last()));
    } else {
        let d = s.drop_last();
        assert(blocks_unique(d));
        d.remove_ensures(i);
        assert(r.last() == s[s.len() - 1]);
        assert(r.drop_last() =~= d.remove(i));
        lemma_blocks_map_remove(d, i);
        assert(d[i] == s[i]);
        assert(s.last().slot != s[i].slot);
        assert(blocks_map_of(d).remove(s[i].slot).insert(s.last().slot, s.last()) =~= blocks_map_of(
            d,
        ).insert(s.last().slot, s.last()).remove(s[i].slot));
    }
}

proof fn lemma_txs_map_remove(s: Seq<TransactionRow>, i: int)
    requires
        txs_unique(s),
        0 <= i < s.len(),
    ensures
        txs_unique(s.remove(i)),
        forall|j: int|
            0 <= j < s.remove(i).len() ==> #[trigger] s.remove(i)[j].signature@ != s[i].signature@,
        txs_map_of(s.remove(i)) == txs_map_of(s).remove(s[i].signature@),
    decreases s.len(),
{
    s.remove_ensures(i);
    let r = s.remove(i);
    assert forall|j: int| 0 <= j < r.len() implies #[trigger] r[j].signature@ != s[i].signature@ by {
        if j < i {
            assert(r[j] == s[j]);
        } else {
            assert(r[j] == s[j + 1]);
        }
    }
    assert(txs_unique(r)) by {
        assert forall|p: int, q: int| 0 <= p < q < r.len() implies r[p].signature@
            != r[q].signature@ by {
            if q < i {
            } else if p >= i {
                assert(r[p] == s[p + 1] && r[q] == s[q + 1]);
            } else {
                assert(r[p] == s[p] && r[q] == s[q + 1]);
            }
        }
    }
    if i == s.len() - 1 {
        assert(r =~= s.drop_last());
        lemma_txs_map_props(s.drop_last());
        assert(!txs_map_of(s.drop_last()).dom().contains(s[i].signature@));
        assert(txs_map_of(s).remove(s[i].signature@) =~= txs_map_of(s.drop_last()));
    } else {
        let d = s.drop_last();
        assert(txs_unique(d));
        d.remove_ensures(i);
        assert(r.last() == s[s.len() - 1]);
        assert(r.drop_last() =~= d.remove(i));
        lemma_txs_map_remove(d, i);
        assert(d[i] == s[i]);
        assert(s.last().signature@ != s[i].signature@);
        assert(txs_map_of(d).remove(s[i].signature@).insert(s.last().signature@, s.last())
            =~= txs_map_of(d).insert(s.last().signature@, s.last()).remove(s[i].signature@));
    }
}

proof fn lemma_accounts_map_remove(s: Seq<AccountRow>, i: int)
    requires
        accounts_unique(s),
        0 <= i < s.len(),
    ensures
        accounts_unique(s.remove(i)),
        forall|j: int|
            0 <= j < s.remove(i).len() ==> #[trigger] s.remove(i)[j].pubkey@ != s[i].pubkey@,
        accounts_map_of(s.remove(i)) == accounts_map_of(s).remove(s[i].pubkey@),
    decreases s.len(),
{
    s.remove_ensures(i);
    let r = s.remove(i);
    assert forall|j: int| 0 <= j < r.len() implies #[trigger] r[j].pubkey@ != s[i].pubkey@ by {
        if j < i {
            assert(r[j] == s[j]);
        } else {
            assert(r[j] == s[j + 1]);
        }
    }
    assert(accounts_unique(r)) by {
        assert forall|p: int, q: int| 0 <= p < q < r.len() implies r[p].pubkey@ != r[q].pubkey@ by {
            if q < i {
            } else if p >= i {
                assert(r[p] == s[p + 1] && r[q] == s[q + 1]);
            } else {
                assert(r[p] == s[p] && r[q] == s[q + 1]);
            }
        }
    }
    if i == s.len() - 1 {
        assert(r =~= s.drop_last());
        lemma_accounts_map_props(s.drop_last());
        assert(!accounts_map_of(s.drop_last()).dom().contains(s[i].pubkey@));
        assert(accounts_map_of(s).remove(s[i].pubkey@) =~= accounts_map_of(s.drop_last()));
    } else {
        let d = s.drop_last();
        assert(accounts_unique(d));
        d.remove_ensures(i);
        assert(r.last() == s[s.len() - 1]);
        assert(r.drop_last() =~= d.remove(i));
        lemma_accounts_map_remove(d, i);
        assert(d[i] == s[i]);
        assert(s.last().pubkey@ != s[i].pubkey@);
        assert(accounts_map_of(d).remove(s[i].pubkey@).insert(s.last().pubkey@, s.last())
            =~= accounts_map_of(d).insert(s.last().pubkey@, s.last()).remove(s[i].pubkey@));
    }
}

proof fn lemma_slots_map_remove(s: Seq<SlotRow>, i: int)
    requires
        slots_unique(s),
        0 <= i < s.len(),
    ensures
        slots_unique(s.remove(i)),
        forall|j: int| 0 <= j < s.remove(i).len() ==> #[trigger] s.remove(i)[j].slot != s[i].slot,
        slots_map_of(s.remove(i)) == slots_map_of(s).remove(s[i].slot),
    decreases s.len(),
{
    s.remove_ensures(i);
    let r = s.remove(i);
    assert forall|j: int| 0 <= j < r.len() implies #[trigger] r[j].slot != s[i].slot by {
        if j < i {
            assert(r[j] == s[j]);
        } else {
            assert(r[j] == s[j + 1]);
        }
    }
    assert(slots_unique(r)) by {
        assert forall|p: int, q: int| 0 <= p < q < r.len() implies r[p].slot != r[q].slot by {
            if q < i {
            } else if p >= i {
                assert(r[p] == s[p + 1] && r[q] == s[q + 1]);
            } else {
                assert(r[p] == s[p] && r[q] == s[q + 1]);
            }
        }
    }
    if i == s.len() - 1 {
        assert(r =~= s.drop_last());
        lemma_slots_map_props(s.drop_last());
        assert(!slots_map_of(s.drop_last()).dom().contains(s[i].slot));
        assert(slots_map_of(s).remove(s[i].slot) =~= slots_map_of(s.drop_last()));
    } else {
        let d = s.drop_last();
        assert(slots_unique(d));
        d.remove_ensures(i);
        assert(r.last() == s[s.len() - 1]);
        assert(r.drop_last() =~= d.remove(i));
        lemma_slots_map_remove(d, i);
        assert(d[i] == s[i]);
        assert(s.last().slot != s[i].slot);
        assert(slots_map_of(d).remove(s[i].slot).insert(s.last().slot, s.last()) =~= slots_map_of(
            d,
        ).insert(s.last().slot, s.last()).remove(s[i].slot));
    }
}

/// The four tables of the store. Rows are handed over by value and replaced
/// wholesale on re-store; rows are never deleted.
#[derive(Debug)]
pub struct StorageManager {
    blocks: Vec<BlockRow>,
    transactions: Vec<TransactionRow>,
    accounts: Vec<AccountRow>,
    slots: Vec<SlotRow>,
}

/// What one `store` call does: the record's table gains or replaces the row
/// under the record's natural key, and the other tables are untouched.
pub open spec fn stored(pre: StorageManager, post: StorageManager, data: IndexedData) -> bool {
    match data {
        IndexedData::Block { slot, parent_slot, height, timestamp, blockhash, transactions_count } => {
            &&& post.blocks() == pre.blocks().insert(
                slot,
                (BlockRow { slot, parent_slot, height, timestamp, blockhash, transactions_count }),
            )
            &&& post.transactions() == pre.transactions()
            &&& post.accounts() == pre.accounts()
            &&& post.slot_statuses() == pre.slot_statuses()
        },
        IndexedData::Transaction { signature, slot, timestamp, success, transaction_data } => {
            &&& post.transactions() == pre.transactions().insert(
                signature@,
                (TransactionRow { signature, slot, timestamp, success, transaction_data }),
            )
            &&& post.blocks() == pre.blocks()
            &&& post.accounts() == pre.accounts()
            &&& post.slot_statuses() == pre.slot_statuses()
        },
        IndexedData::Account { pubkey, owner, lamports, slot, executable, rent_epoch, data_hash } => {
            &&& post.accounts() == pre.accounts().insert(
                pubkey@,
                (AccountRow { pubkey, owner, lamports, slot, executable, rent_epoch, data_hash }),
            )
            &&& post.blocks() == pre.blocks()
            &&& post.transactions() == pre.transactions()
            &&& post.slot_statuses() == pre.slot_statuses()
        },
        IndexedData::Slot { slot, parent, status, timestamp } => {
            &&& post.slot_statuses() == pre.slot_statuses().insert(
                slot,
                (SlotRow { slot, parent, status, timestamp }),
            )
            &&& post.blocks() == pre.blocks()
            &&& post.transactions() == pre.transactions()
            &&& post.accounts() == pre.accounts()
        },
    }
}

impl StorageManager {
    /// The block table as a map from slot to row.
    pub closed spec fn blocks(self) -> Map<u64, BlockRow> {
        blocks_map_of(self.blocks@)
    }

    /// The transaction table as a map from signature to row.
    pub closed spec fn transactions(self) -> Map<Seq<char>, TransactionRow> {
        txs_map_of(self.transactions@)
    }

    /// The account table as a map from pubkey to row.
    pub closed spec fn accounts(self) -> Map<Seq<char>, AccountRow> {
        accounts_map_of(self.accounts@)
    }

    /// The slot-status table as a map from slot to row.
    pub closed spec fn slot_statuses(self) -> Map<u64, SlotRow> {
        slots_map_of(self.slots@)
    }

    /// Each table holds at most one row per key.
    pub closed spec fn wf(self) -> bool {
        &&& blocks_unique(self.blocks@)
        &&& txs_unique(self.transactions@)
        &&& accounts_unique(self.accounts@)
        &&& slots_unique(self.slots@)
    }

    /// A fresh store: the schema exists and every table is empty. Standing in
    /// for schema initialization, this is idempotent by construction.
    pub fn new() -> (r: Self)
        ensures
            r.wf(),
            r.blocks() == Map::<u64, BlockRow>::empty(),
            r.transactions() == Map::<Seq<char>, TransactionRow>::empty(),
            r.accounts() == Map::<Seq<char>, AccountRow>::empty(),
            r.slot_statuses() == Map::<u64, SlotRow>::empty(),
    {
        StorageManager {
            blocks: Vec::new(),
            transactions: Vec::new(),
            accounts: Vec::new(),
            slots: Vec::new(),
        }
    }

    fn find_block_index(v: &Vec<BlockRow>, slot: u64) -> (r: Option<usize>)
        ensures
            match r {
                Some(i) => i < v@.len() && v@[i as int].slot == slot,
                None => forall|j: int| 0 <= j < v@.len() ==> #[trigger] v@[j].slot != slot,
            },
    {
        let mut i: usize = 0;
        while i < v.len()
            invariant
                i <= v@.len(),
                forall|j: int| 0 <= j < i ==> #[trigger] v@[j].slot != slot,
            decreases v@.len() - i,
        {
            if v[i].slot == slot {
                return Some(i);
            }
            i = i + 1;
        }
        None
    }

    fn find_tx_index(v: &Vec<TransactionRow>, signature: &String) -> (r: Option<usize>)
        ensures
            match r {
                Some(i) => i < v@.len() && v@[i as int].signature@ == signature@,
                None => forall|j: int| 0 <= j < v@.len() ==> #[trigger] v@[j].signature@ != signature@,
            },
    {
        let mut i: usize = 0;
        while i < v.len()
            invariant
                i <= v@.len(),
                forall|j: int| 0 <= j < i ==> #[trigger] v@[j].signature@ != signature@,
            decreases v@.len() - i,
        {
            if v[i].signature == *signature {
                return Some(i);
            }
            i = i + 1;
        }
        None
    }

    fn find_account_index(v: &Vec<AccountRow>, pubkey: &String) -> (r: Option<usize>)
        ensures
            match r {
                Some(i) => i < v@.len() && v@[i as int].pubkey@ == pubkey@,
                None => forall|j: int| 0 <= j < v@.len() ==> #[trigger] v@[j].pubkey@ != pubkey@,
            },
    {
        let mut i: usize = 0;
        while i < v.len()
            invariant
                i <= v@.len(),
                forall|j: int| 0 <= j < i ==> #[trigger] v@[j].pubkey@ != pubkey@,
            decreases v@.len() - i,
        {
            if v[i].pubkey == *pubkey {
                return Some(i);
            }
            i = i + 1;
        }
        None
    }

    fn find_slot_index(v: &Vec<SlotRow>, slot: u64) -> (r: Option<usize>)
        ensures
            match r {
                Some(i) => i < v@.len() && v@[i as int].slot == slot,
                None => forall|j: int| 0 <= j < v@.len() ==> #[trigger] v@[j].slot != slot,
            },
    {
        let mut i: usize = 0;
        while i < v.len()
            invariant
                i <= v@.len(),
                forall|j: int| 0 <= j < i ==> #[trigger] v@[j].slot != slot,
            decreases v@.len() - i,
        {
            if v[i].slot == slot {
                return Some(i);
            }
            i = i + 1;
        }
        None
    }

    fn upsert_block(&mut self, row: BlockRow)
        requires
            blocks_unique(old(self).blocks@),
        ensures
            blocks_unique(final(self).blocks@),
            blocks_map_of(final(self).blocks@) == blocks_map_of(old(self).blocks@).insert(
                row.slot,
                row,
            ),
            final(self).transactions@ == old(self).transactions@,
            final(self).accounts@ == old(self).accounts@,
            final(self).slots@ == old(self).slots@,
    {
        let ghost s0 = self.blocks@;
        match Self::find_block_index(&self.blocks, row.slot) {
            Some(i) => {
                self.blocks.remove(i);
                proof {
                    lemma_blocks_map_remove(s0, i as int);
                }
                let ghost s1 = self.blocks@;
                self.blocks.push(row);
                proof {
                    assert(self.blocks@.drop_last() =~= s1);
                    assert(blocks_map_of(s0).remove(row.slot).insert(row.slot, row)
                        =~= blocks_map_of(s0).insert(row.slot, row));
                    assert forall|p: int, q: int|
                        0 <= p < q < self.blocks@.len() implies self.blocks@[p].slot
                        != self.blocks@[q].slot by {
                        if q == self.blocks@.len() - 1 {
                            assert(s1[p].slot != s0[i as int].slot);
                        }
                    }
                }
            },
            None => {
                self.blocks.push(row);
                proof {
                    assert(self.blocks@.drop_last() =~= s0);
                    assert forall|p: int, q: int|
                        0 <= p < q < self.blocks@.len() implies self.blocks@[p].slot
                        != self.blocks@[q].slot by {
                        if q == self.blocks@.len() - 1 {
                            assert(s0[p].slot != row.slot);
                        }
                    }
                }
            },
        }
    }

    fn upsert_transaction(&mut self, row: TransactionRow)
        requires
            txs_unique(old(self).transactions@),
        ensures
            txs_unique(final(self).transactions@),
            txs_map_of(final(self).transactions@) == txs_map_of(old(self).transactions@).insert(
                row.signature@,
                row,
            ),
            final(self).blocks@ == old(self).blocks@,
            final(self).accounts@ == old(self).accounts@,
            final(self).slots@ == old(self).slots@,
    {
        let ghost s0 = self.transactions@;
        match Self::find_tx_index(&self.transactions, &row.signature) {
            Some(i) => {
                self.transactions.remove(i);
                proof {
                    lemma_txs_map_remove(s0, i as int);
                }
                let ghost s1 = self.transactions@;
                self.transactions.push(row);
                proof {
                    assert(self.transactions@.drop_last() =~= s1);
                    assert(txs_map_of(s0).remove(s0[i as int].signature@).insert(
                        s0[i as int].signature@,
                        self.transactions@.last(),
                    ) =~= txs_map_of(s0).insert(
                        s0[i as int].signature@,
                        self.transactions@.last(),
                    ));
                    assert forall|p: int, q: int|
                        0 <= p < q < self.transactions@.len() implies self.transactions@[p].signature@
                        != self.transactions@[q].signature@ by {
                        if q == self.transactions@.len() - 1 {
                            assert(s1[p].signature@ != s0[i as int].signature@);
                        }
                    }
                }
            },
            None => {
                self.transactions.push(row);
                proof {
                    assert(self.transactions@.drop_last() =~= s0);
                    assert forall|p: int, q: int|
                        0 <= p < q < self.transactions@.len() implies self.transactions@[p].signature@
                        != self.transactions@[q].signature@ by {
                        if q == self.transactions@.len() - 1 {
                            assert(s0[p].signature@ != self.transactions@.last().signature@);
                        }
                    }
                }
            },
        }
    }

    fn upsert_account(&mut self, row: AccountRow)
        requires
            accounts_unique(old(self).accounts@),
        ensures
            accounts_unique(final(self).accounts@),
            accounts_map_of(final(self).accounts@) == accounts_map_of(old(self).accounts@).insert(
                row.pubkey@,
                row,
            ),
            final(self).blocks@ == old(self).blocks@,
            final(self).transactions@ == old(self).transactions@,
            final(self).slots@ == old(self).slots@,
    {
        let ghost s0 = self.accounts@;
        match Self::find_account_index(&self.accounts, &row.pubkey) {
            Some(i) => {
                self.accounts.remove(i);
                proof {
                    lemma_accounts_map_remove(s0, i as int);
                }
                let ghost s1 = self.accounts@;
                self.accounts.push(row);
                proof {
                    assert(self.accounts@.drop_last() =~= s1);
                    assert(accounts_map_of(s0).remove(s0[i as int].pubkey@).insert(
                        s0[i as int].pubkey@,
                        self.accounts@.last(),
                    ) =~= accounts_map_of(s0).insert(s0[i as int].pubkey@, self.accounts@.last()));
                    assert forall|p: int, q: int|
                        0 <= p < q < self.accounts@.len() implies self.accounts@[p].pubkey@
                        != self.accounts@[q].pubkey@ by {
                        if q == self.accounts@.len() - 1 {
                            assert(s1[p].pubkey@ != s0[i as int].pubkey@);
                        }
                    }
                }
            },
            None => {
                self.accounts.push(row);
                proof {
                    assert(self.accounts@.drop_last() =~= s0);
                    assert forall|p: int, q: int|
                        0 <= p < q < self.accounts@.len() implies self.accounts@[p].pubkey@
                        != self.accounts@[q].pubkey@ by {
                        if q == self.accounts@.len() - 1 {
                            assert(s0[p].pubkey@ != self.accounts@.last().pubkey@);
                        }
                    }
                }
            },
        }
    }

    fn upsert_slot(&mut self, row: SlotRow)
        requires
            slots_unique(old(self).slots@),
        ensures
            slots_unique(final(self).slots@),
            slots_map_of(final(self).slots@) == slots_map_of(old(self).slots@).insert(
                row.slot,
                row,
            ),
            final(self).blocks@ == old(self).blocks@,
            final(self).transactions@ == old(self).transactions@,
            final(self).accounts@ == old(self).accounts@,
    {
        let ghost s0 = self.slots@;
        match Self::find_slot_index(&self.slots, row.slot) {
            Some(i) => {
                self.slots.remove(i);
                proof {
                    lemma_slots_map_remove(s0, i as int);
                }
                let ghost s1 = self.slots@;
                self.slots.push(row);
                proof {
                    assert(self.slots@.drop_last() =~= s1);
                    assert(slots_map_of(s0).remove(row.slot).insert(row.slot, row) =~= slots_map_of(
                        s0,
                    ).insert(row.slot, row));
                    assert forall|p: int, q: int|
                        0 <= p < q < self.slots@.len() implies self.slots@[p].slot
                        != self.slots@[q].slot by {
                        if q == self.slots@.len() - 1 {
                            assert(s1[p].slot != s0[i as int].slot);
                        }
                    }
                }
            },
            None => {
                self.slots.push(row);
                proof {
                    assert(self.slots@.drop_last() =~= s0);
                    assert forall|p: int, q: int|
                        0 <= p < q < self.slots@.len() implies self.slots@[p].slot
                        != self.slots@[q].slot by {
                        if q == self.slots@.len() - 1 {
                            assert(s0[p].slot != row.slot);
                        }
                    }
                }
            },
        }
    }

    /// Upsert one record, keyed by its natural key: the row under the key is
    /// replaced wholesale if present, created if absent; no other table and no
    /// other row changes.
    pub fn store(&mut self, data: IndexedData)
        requires
            old(self).wf(),
        ensures
            final(self).wf(),
            stored(*old(self), *final(self), data),
    {
        match data {
            IndexedData::Block { slot, parent_slot, height, timestamp, blockhash, transactions_count } => {
                self.upsert_block(
                    BlockRow { slot, parent_slot, height, timestamp, blockhash, transactions_count },
                );
            },
            IndexedData::Transaction { signature, slot, timestamp, success, transaction_data } => {
                self.upsert_transaction(
                    TransactionRow { signature, slot, timestamp, success, transaction_data },
                );
            },
            IndexedData::Account { pubkey, owner, lamports, slot, executable, rent_epoch, data_hash } => {
                self.upsert_account(
                    AccountRow { pubkey, owner, lamports, slot, executable, rent_epoch, data_hash },
                );
            },
            IndexedData::Slot { slot, parent, status, timestamp } => {
                self.upsert_slot(SlotRow { slot, parent, status, timestamp });
            },
        }
    }

    /// The greatest slot present in the block table, or `None` on an empty
    /// table.
    pub fn get_latest_slot(&self) -> (r: Option<u64>)
        requires
            self.wf(),
        ensures
            match r {
                None => self.blocks().dom() == Set::<u64>::empty(),
                Some(m) => self.blocks().dom().contains(m) && forall|k: u64|
                    #[trigger] self.blocks().dom().contains(k) ==> k <= m,
            },
    {
        proof {
            lemma_blocks_map_props(self.blocks@);
        }
        let mut best: Option<u64> = None;
        let mut i: usize = 0;
        while i < self.blocks.len()
            invariant
                i <= self.blocks@.len(),
                match best {
                    None => i == 0,
                    Some(m) => (exists|j: int|
                        0 <= j < i && #[trigger] self.blocks@[j].slot == m) && forall|j: int|
                        0 <= j < i ==> #[trigger] self.blocks@[j].slot <= m,
                },
            decreases self.blocks@.len() - i,
        {
            let slot = self.blocks[i].slot;
            match best {
                None => {
                    best = Some(slot);
                },
                Some(m) => {
                    if slot > m {
                        best = Some(slot);
                    }
                },
            }
            proof {
                let m = best->Some_0;
                assert(self.blocks@[i as int].slot <= m);
            }
            i = i + 1;
        }
        proof {
            match best {
                None => {
                    assert(self.blocks@.len() == 0);
                    assert(self.blocks().dom() =~= Set::<u64>::empty());
                },
                Some(m) => {},
            }
        }
        best
    }

    /// Look one block row up by slot.
    pub fn get_block(&self, slot: u64) -> (r: Option<&BlockRow>)
        requires
            self.wf(),
        ensures
            match r {
                Some(row) => self.blocks().dom().contains(slot) && *row == self.blocks()[slot],
                None => !self.blocks().dom().contains(slot),
            },
    {
        proof {
            lemma_blocks_map_props(self.blocks@);
        }
        match Self::find_block_index(&self.blocks, slot) {
            Some(i) => {
                proof {
                    lemma_blocks_map_value(self.blocks@, i as int);
                }
                Some(&self.blocks[i])
            },
            None => None,
        }
    }

    /// The exact number of rows in the block table.
    pub fn get_block_count(&self) -> (r: u64)
        requires
            self.wf(),
        ensures
            r as nat == self.blocks().dom().len(),
    {
        proof {
            lemma_blocks_map_props(self.blocks@);
        }
        self.blocks.len() as u64
    }

    /// The exact number of rows in the transaction table.
    pub fn get_transaction_count(&self) -> (r: u64)
        requires
            self.wf(),
        ensures
            r as nat == self.transactions().dom().len(),
    {
        proof {
            lemma_txs_map_props(self.transactions@);
        }
        self.transactions.len() as u64
    }
}

/// Law: upserting twice under one key is idempotent in the state — the second
/// store replaces the row wholesale, and the table's cardinality is unaffected
/// by the second call.
pub proof fn lemma_upsert_idempotent(m: Map<u64, BlockRow>, k: u64, v1: BlockRow, v2: BlockRow)
    requires
        m.dom().finite(),
    ensures
        m.insert(k, v1).insert(k, v2) == m.insert(k, v2),
        m.insert(k, v1).insert(k, v2).dom().len() == m.insert(k, v1).dom().len(),
{
    assert(m.insert(k, v1).insert(k, v2) =~= m.insert(k, v2));
    assert(m.insert(k, v1).insert(k, v2).dom() =~= m.insert(k, v1).dom());
}

/// Law: the final state of the block table does not depend on the order of
/// stores under distinct keys.
pub proof fn lemma_store_order_independent(
    m: Map<u64, BlockRow>,
    k1: u64,
    v1: BlockRow,
    k2: u64,
    v2: BlockRow,
)
    requires
        k1 != k2,
    ensures
        m.insert(k1, v1).insert(k2, v2) == m.insert(k2, v2).insert(k1, v1),
{
    assert(m.insert(k1, v1).insert(k2, v2) =~= m.insert(k2, v2).insert(k1, v1));
}

/// Law: one store changes the transaction count by one exactly when its
/// signature is new, and not at all when it replaces an existing row — so N
/// stores under pairwise-distinct signatures count exactly N.
pub proof fn lemma_transaction_count_after_store(
    m: Map<Seq<char>, TransactionRow>,
    k: Seq<char>,
    v: TransactionRow,
)
    requires
        m.dom().finite(),
    ensures
        m.insert(k, v).dom().finite(),
        m.insert(k, v).dom().len() == m.dom().len() + (if m.dom().contains(k) {
            0int
        } else {
            1int
        }),
{
    assert(m.insert(k, v).dom() =~= m.dom().insert(k));
}

/// Law: a table built from rows with pairwise-distinct signatures holds
/// exactly one row per input — no duplicates and no loss.
pub proof fn lemma_distinct_signatures_exact_count(s: Seq<TransactionRow>)
    requires
        txs_unique(s),
    ensures
        txs_map_of(s).dom().finite(),
        txs_map_of(s).dom().len() == s.len(),
{
    lemma_txs_map_props(s);
}

} // verus!
