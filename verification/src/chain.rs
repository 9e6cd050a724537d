//! Block-body storage: how non-transaction body fields (ommers,
//! withdrawals) are written to and read back from the per-block tables,
//! applying hardfork-conditional rules.

use vstd::prelude::*;
use crate::types::copy_values;

verus! {

/// A block header, as far as body storage reads it: its number and its
/// timestamp.
#[derive(Clone, Copy, Debug, PartialEq, Eq, Structural)]
pub struct Header {
    /// Block number.
    pub number: u64,
    /// Block timestamp.
    pub timestamp: u64,
}

/// A validator withdrawal carried by a post-Shanghai block body.
#[derive(Clone, Copy, Debug, PartialEq, Eq, Structural)]
pub struct Withdrawal {
    /// Monotonically increasing withdrawal index.
    pub index: u64,
    /// Index of the withdrawing validator.
    pub validator_index: u64,
    /// Receiving address.
    pub address: crate::types::Address,
    /// Amount withdrawn.
    pub amount: u64,
}

/// A block body: the transactions, the ommer headers, and the optional
/// withdrawal list.
#[derive(Debug)]
pub struct BlockBody<T> {
    /// The block's transactions.
    pub transactions: Vec<T>,
    /// Uncle headers; empty for post-merge blocks.
    pub ommers: Vec<Header>,
    /// Withdrawals; present (possibly empty) from Shanghai on.
    pub withdrawals: Option<Vec<Withdrawal>>,
}

/// The mathematical value of a [`BlockBody`].
pub struct BodySpec<T> {
    /// The block's transactions.
    pub transactions: Seq<T>,
    /// Uncle headers.
    pub ommers: Seq<Header>,
    /// Withdrawals, when the block carries a list.
    pub withdrawals: Option<Seq<Withdrawal>>,
}

impl<T> View for BlockBody<T> {
    type V = BodySpec<T>;

    open spec fn view(&self) -> BodySpec<T> {
        BodySpec {
            transactions: self.transactions@,
            ommers: self.ommers@,
            withdrawals: match self.withdrawals {
                Some(ref w) => Some(w@),
                None => None,
            },
        }
    }
}

/// Where a write or removal is directed; the per-block tables modelled
/// here are the same either way.
#[derive(Clone, Copy, Debug, PartialEq, Eq, Structural)]
pub enum StorageLocation {
    /// Only the static files.
    StaticFiles,
    /// Only the database tables.
    Database,
    /// Both.
    Both,
}

/// A storage-level failure.
#[derive(Clone, Copy, Debug, PartialEq, Eq, Structural)]
pub enum StorageError {
    /// An append was attempted with a block number at or below the
    /// table's last key.
    NonAscendingKey,
}

/// The stored ommers of one block.
#[derive(Debug)]
pub struct StoredBlockOmmers {
    /// The block's uncle headers.
    pub ommers: Vec<Header>,
}

/// The stored withdrawals of one block.
#[derive(Debug)]
pub struct StoredBlockWithdrawals {
    /// The block's withdrawal list.
    pub withdrawals: Vec<Withdrawal>,
}

/// The hardfork activations that body storage consults.
#[derive(Clone, Copy, Debug, PartialEq, Eq, Structural)]
pub struct ChainSpec {
    /// Timestamp from which Shanghai is active, if scheduled.
    pub shanghai_time: Option<u64>,
    /// Block number from which Paris (the merge) is active, if scheduled.
    pub paris_block: Option<u64>,
}

impl ChainSpec {
    /// Whether Shanghai is active at the given timestamp.
    pub open spec fn spec_shanghai_active(self, timestamp: u64) -> bool {
        match self.shanghai_time {
            Some(t) => timestamp >= t,
            None => false,
        }
    }

    /// Whether Paris is active at the given block number.
    pub open spec fn spec_paris_active(self, number: u64) -> bool {
        match self.paris_block {
            Some(b) => number >= b,
            None => false,
        }
    }

    /// Whether Shanghai is active at the given timestamp.
    pub fn is_shanghai_active_at_timestamp(&self, timestamp: u64) -> (r: bool)
        ensures
            r == self.spec_shanghai_active(timestamp),
    {
        match self.shanghai_time {
            Some(t) => timestamp >= t,
            None => false,
        }
    }

    /// Whether Paris is active at the given block number.
    pub fn is_paris_active_at_block(&self, number: u64) -> (r: bool)
        ensures
            r == self.spec_paris_active(number),
    {
        match self.paris_block {
            Some(b) => number >= b,
            None => false,
        }
    }
}

/// Whether the keys of a table are strictly ascending.
pub open spec fn keys_ascending<V>(s: Seq<(u64, V)>) -> bool {
    forall|i: int, j: int| 0 <= i < j < s.len() ==> (#[trigger] s[i]).0 < (#[trigger] s[j]).0
}

/// The first entry of a table with the given key, if any.
pub open spec fn find_entry<V>(s: Seq<(u64, V)>, n: u64) -> Option<V>
    decreases s.len(),
{
    if s.len() == 0 {
        None
    } else if s[0].0 == n {
        Some(s[0].1)
    } else {
        find_entry(s.skip(1), n)
    }
}

/// The entries of a table whose key is at most `n`.
pub open spec fn keep_le<V>(s: Seq<(u64, V)>, n: u64) -> Seq<(u64, V)>
    decreases s.len(),
{
    if s.len() == 0 {
        Seq::empty()
    } else {
        let p = keep_le(s.drop_last(), n);
        if s.last().0 <= n {
            p.push(s.last())
        } else {
            p
        }
    }
}

/// In a table split into a prefix with keys at most `n` and a suffix with
/// keys above `n`, keeping the keys at most `n` keeps exactly the prefix.
proof fn lemma_keep_le_prefix<V>(s: Seq<(u64, V)>, n: u64, k: int)
    requires
        0 <= k <= s.len(),
        forall|i: int| 0 <= i < k ==> (#[trigger] s[i]).0 <= n,
        forall|i: int| k <= i < s.len() ==> (#[trigger] s[i]).0 > n,
    ensures
        keep_le(s, n) == s.take(k),
    decreases s.len(),
{
    if s.len() == 0 {
        assert(keep_le(s, n) =~= s.take(k));
    } else if k == s.len() {
        lemma_keep_le_prefix(s.drop_last(), n, k - 1);
        assert(s.drop_last().take(k - 1) =~= s.drop_last());
        assert(keep_le(s, n) =~= s.take(k));
    } else {
        lemma_keep_le_prefix(s.drop_last(), n, k);
        assert(s.drop_last().take(k) =~= s.take(k));
    }
}

/// The per-block body tables: ommers and withdrawals, keyed by block
/// number, appended in ascending order.
#[derive(Debug)]
pub struct BodyTables {
    /// Ommers per block number.
    pub ommers: Vec<(u64, StoredBlockOmmers)>,
    /// Withdrawals per block number.
    pub withdrawals: Vec<(u64, StoredBlockWithdrawals)>,
}

impl BodyTables {
    /// The ommers table, as block numbers with header sequences.
    pub open spec fn ommers_view(&self) -> Seq<(u64, Seq<Header>)> {
        self.ommers@.map_values(|p: (u64, StoredBlockOmmers)| (p.0, p.1.ommers@))
    }

    /// The withdrawals table, as block numbers with withdrawal sequences.
    pub open spec fn withdrawals_view(&self) -> Seq<(u64, Seq<Withdrawal>)> {
        self.withdrawals@.map_values(|p: (u64, StoredBlockWithdrawals)| (p.0, p.1.withdrawals@))
    }

    /// Empty tables.
    pub fn new() -> (t: BodyTables)
        ensures
            t.ommers_view() == Seq::<(u64, Seq<Header>)>::empty(),
            t.withdrawals_view() == Seq::<(u64, Seq<Withdrawal>)>::empty(),
    {
        let t = BodyTables { ommers: Vec::new(), withdrawals: Vec::new() };
        proof {
            assert(t.ommers_view() =~= Seq::<(u64, Seq<Header>)>::empty());
            assert(t.withdrawals_view() =~= Seq::<(u64, Seq<Withdrawal>)>::empty());
        }
        t
    }

    /// Looks up the stored ommers of one block, as a cursor's exact seek
    /// would.
    pub fn seek_ommers(&self, n: u64) -> (r: Option<&StoredBlockOmmers>)
        ensures
            match r {
                Some(so) => find_entry(self.ommers_view(), n) == Some(so.ommers@),
                None => find_entry(self.ommers_view(), n) is None,
            },
    {
        let mut i: usize = 0;
        proof {
            assert(self.ommers_view().skip(0) =~= self.ommers_view());
        }
        while i < self.ommers.len()
            invariant
                i <= self.ommers.len(),
                find_entry(self.ommers_view(), n) == find_entry(
                    self.ommers_view().skip(i as int),
                    n,
                ),
            decreases self.ommers.len() - i,
        {
            if self.ommers[i].0 == n {
                return Some(&self.ommers[i].1);
            }
            i = i + 1;
            proof {
                assert(self.ommers_view().skip(i as int - 1).skip(1) =~= self.ommers_view().skip(
                    i as int,
                ));
            }
        }
        None
    }

    /// Looks up the stored withdrawals of one block, as a cursor's exact
    /// seek would.
    pub fn seek_withdrawals(&self, n: u64) -> (r: Option<&StoredBlockWithdrawals>)
        ensures
            match r {
                Some(sw) => find_entry(self.withdrawals_view(), n) == Some(sw.withdrawals@),
                None => find_entry(self.withdrawals_view(), n) is None,
            },
    {
        let mut i: usize = 0;
        proof {
            assert(self.withdrawals_view().skip(0) =~= self.withdrawals_view());
        }
        while i < self.withdrawals.len()
            invariant
                i <= self.withdrawals.len(),
                find_entry(self.withdrawals_view(), n) == find_entry(
                    self.withdrawals_view().skip(i as int),
                    n,
                ),
            decreases self.withdrawals.len() - i,
        {
            if self.withdrawals[i].0 == n {
                return Some(&self.withdrawals[i].1);
            }
            i = i + 1;
            proof {
                assert(self.withdrawals_view().skip(i as int - 1).skip(1)
                    =~= self.withdrawals_view().skip(i as int));
            }
        }
        None
    }
}

/// A storage provider: the chain's hardfork schedule and the body tables
/// of one database transaction.
#[derive(Debug)]
pub struct StorageProvider {
    /// The chain's hardfork schedule.
    pub chain_spec: ChainSpec,
    /// The per-block body tables.
    pub tables: BodyTables,
}

/// Whether a cursor append with key `n` is accepted: the table is empty,
/// or its last key is strictly below `n`.
pub open spec fn can_append<V>(t: Seq<(u64, V)>, n: u64) -> bool {
    t.len() == 0 || t.last().0 < n
}

/// One entry of a body-write batch applied to the two tables: a body's
/// non-empty ommers, and its non-empty withdrawal list, are appended
/// under the block's number; an absent body writes nothing; an append out
/// of ascending key order fails.
pub open spec fn apply_body_writes<T>(
    om: Seq<(u64, Seq<Header>)>,
    wd: Seq<(u64, Seq<Withdrawal>)>,
    entry: (u64, Option<BlockBody<T>>),
) -> Option<(Seq<(u64, Seq<Header>)>, Seq<(u64, Seq<Withdrawal>)>)> {
    let n = entry.0;
    match entry.1 {
        None => Some((om, wd)),
        Some(b) => if b.ommers@.len() > 0 && !can_append(om, n) {
            None
        } else {
            let om2 = if b.ommers@.len() > 0 {
                om.push((n, b.ommers@))
            } else {
                om
            };
            match b.withdrawals {
                Some(w) => if w@.len() > 0 {
                    if can_append(wd, n) {
                        Some((om2, wd.push((n, w@))))
                    } else {
                        None
                    }
                } else {
                    Some((om2, wd))
                },
                None => Some((om2, wd)),
            }
        },
    }
}

/// The tables after a whole body-write batch, in order; `None` when an
/// append fails.
pub open spec fn write_bodies_spec<T>(
    om: Seq<(u64, Seq<Header>)>,
    wd: Seq<(u64, Seq<Withdrawal>)>,
    bodies: Seq<(u64, Option<BlockBody<T>>)>,
) -> Option<(Seq<(u64, Seq<Header>)>, Seq<(u64, Seq<Withdrawal>)>)>
    decreases bodies.len(),
{
    if bodies.len() == 0 {
        Some((om, wd))
    } else {
        match write_bodies_spec(om, wd, bodies.drop_last()) {
            None => None,
            Some(p) => apply_body_writes(p.0, p.1, bodies.last()),
        }
    }
}

/// A batch whose failing prefix has already failed fails as a whole.
proof fn lemma_write_none_extends<T>(
    om: Seq<(u64, Seq<Header>)>,
    wd: Seq<(u64, Seq<Withdrawal>)>,
    bodies: Seq<(u64, Option<BlockBody<T>>)>,
    k: int,
)
    requires
        0 <= k <= bodies.len(),
        write_bodies_spec(om, wd, bodies.take(k)) is None,
    ensures
        write_bodies_spec(om, wd, bodies) is None,
    decreases bodies.len() - k,
{
    if k == bodies.len() {
        assert(bodies.take(k) =~= bodies);
    } else {
        assert(bodies.take(k + 1).drop_last() =~= bodies.take(k));
        lemma_write_none_extends(om, wd, bodies, k + 1);
    }
}

/// A prefix of a table stays a prefix when an entry is appended.
proof fn lemma_prefix_push<V>(a: Seq<V>, s: Seq<V>, e: V)
    requires
        a.is_prefix_of(s),
    ensures
        a.is_prefix_of(s.push(e)),
{
    assert(s.push(e).subrange(0, a.len() as int) =~= s.subrange(0, a.len() as int));
}

/// An accepted append keeps a table's keys strictly ascending.
proof fn lemma_ascending_push<V>(s: Seq<(u64, V)>, e: (u64, V))
    requires
        keys_ascending(s),
        can_append(s, e.0),
    ensures
        keys_ascending(s.push(e)),
{
    let t = s.push(e);
    assert forall|i: int, j: int| 0 <= i < j < t.len() implies (#[trigger] t[i]).0 < (
    #[trigger] t[j]).0 by {
        if j < s.len() {
            assert(s[i].0 < s[j].0);
        } else {
            if i < s.len() - 1 {
                assert(s[i].0 < s[s.len() - 1].0);
            }
            assert(s.last() == s[s.len() - 1]);
        }
    }
}

/// A successful body-write batch whose block numbers all lie above `b`
/// leaves the prior tables as prefixes, adds only entries keyed above
/// `b`, and keeps ascending keys ascending.
proof fn lemma_write_extends_tables<T>(
    om: Seq<(u64, Seq<Header>)>,
    wd: Seq<(u64, Seq<Withdrawal>)>,
    bodies: Seq<(u64, Option<BlockBody<T>>)>,
    b: u64,
)
    requires
        forall|i: int| 0 <= i < bodies.len() ==> (#[trigger] bodies[i]).0 > b,
        write_bodies_spec(om, wd, bodies) is Some,
    ensures
        ({
            let p = write_bodies_spec(om, wd, bodies)->Some_0;
            &&& om.is_prefix_of(p.0)
            &&& wd.is_prefix_of(p.1)
            &&& forall|j: int| om.len() <= j < p.0.len() ==> (#[trigger] p.0[j]).0 > b
            &&& forall|j: int| wd.len() <= j < p.1.len() ==> (#[trigger] p.1[j]).0 > b
            &&& (keys_ascending(om) ==> keys_ascending(p.0))
            &&& (keys_ascending(wd) ==> keys_ascending(p.1))
        }),
    decreases bodies.len(),
{
    if bodies.len() == 0 {
        assert(om =~= om.subrange(0, om.len() as int));
        assert(wd =~= wd.subrange(0, wd.len() as int));
    } else {
        assert(forall|i: int|
            0 <= i < bodies.drop_last().len() ==> (#[trigger] bodies.drop_last()[i]).0 > b);
        lemma_write_extends_tables(om, wd, bodies.drop_last(), b);
        let prev = write_bodies_spec(om, wd, bodies.drop_last())->Some_0;
        let p = write_bodies_spec(om, wd, bodies)->Some_0;
        let n = bodies.last().0;
        assert(bodies[bodies.len() - 1].0 > b);
        match bodies.last().1 {
            None => {},
            Some(bd) => {
                if bd.ommers@.len() > 0 {
                    lemma_prefix_push(om, prev.0, (n, bd.ommers@));
                    if keys_ascending(om) {
                        lemma_ascending_push(prev.0, (n, bd.ommers@));
                    }
                }
                match bd.withdrawals {
                    Some(w) => if w@.len() > 0 {
                        lemma_prefix_push(wd, prev.1, (n, w@));
                        if keys_ascending(wd) {
                            lemma_ascending_push(prev.1, (n, w@));
                        }
                    },
                    None => {},
                }
            },
        }
    }
}

/// The reorg unwind rolls a body-write batch back: writing bodies whose
/// block numbers all lie above an unwind height onto tables whose keys
/// all lie at or below it, and then removing everything above that
/// height, restores the tables exactly. The written tables keep their
/// ascending keys, so the removal contract applies to them.
pub proof fn lemma_write_then_remove_rolls_back<T>(
    om: Seq<(u64, Seq<Header>)>,
    wd: Seq<(u64, Seq<Withdrawal>)>,
    bodies: Seq<(u64, Option<BlockBody<T>>)>,
    b: u64,
)
    requires
        forall|i: int| 0 <= i < om.len() ==> (#[trigger] om[i]).0 <= b,
        forall|i: int| 0 <= i < wd.len() ==> (#[trigger] wd[i]).0 <= b,
        forall|i: int| 0 <= i < bodies.len() ==> (#[trigger] bodies[i]).0 > b,
        write_bodies_spec(om, wd, bodies) is Some,
    ensures
        ({
            let p = write_bodies_spec(om, wd, bodies)->Some_0;
            &&& keep_le(p.0, b) == om
            &&& keep_le(p.1, b) == wd
            &&& (keys_ascending(om) ==> keys_ascending(p.0))
            &&& (keys_ascending(wd) ==> keys_ascending(p.1))
        }),
{
    lemma_write_extends_tables(om, wd, bodies, b);
    let p = write_bodies_spec(om, wd, bodies)->Some_0;
    assert forall|i: int| 0 <= i < om.len() implies (#[trigger] p.0[i]).0 <= b by {
        assert(om[i] == p.0.subrange(0, om.len() as int)[i]);
    }
    lemma_keep_le_prefix(p.0, b, om.len() as int);
    assert(p.0.take(om.len() as int) =~= om);
    assert forall|i: int| 0 <= i < wd.len() implies (#[trigger] p.1[i]).0 <= b by {
        assert(wd[i] == p.1.subrange(0, wd.len() as int)[i]);
    }
    lemma_keep_le_prefix(p.1, b, wd.len() as int);
    assert(p.1.take(wd.len() as int) =~= wd);
}

/// The block body reconstructed for one pre-fetched header with its
/// transactions: past Shanghai the body always carries a withdrawal list
/// (empty when the table has none); past Paris it carries no ommers, and
/// before Paris the stored ommers (or none).
pub open spec fn read_body_spec<T>(
    cs: ChainSpec,
    om: Seq<(u64, Seq<Header>)>,
    wd: Seq<(u64, Seq<Withdrawal>)>,
    input: (Header, Vec<T>),
) -> BodySpec<T> {
    let h = input.0;
    BodySpec {
        transactions: input.1@,
        ommers: if cs.spec_paris_active(h.number) {
            Seq::empty()
        } else {
            match find_entry(om, h.number) {
                Some(o) => o,
                None => Seq::empty(),
            }
        },
        withdrawals: if cs.spec_shanghai_active(h.timestamp) {
            Some(
                match find_entry(wd, h.number) {
                    Some(w) => w,
                    None => Seq::empty(),
                },
            )
        } else {
            None
        },
    }
}

/// What a body-storage provider holds, as far as contracts speak of it:
/// the two per-block tables and the chain's hardfork schedule.
pub trait BodyStore {
    /// The ommers table, as block numbers with header sequences.
    spec fn ommers_table(&self) -> Seq<(u64, Seq<Header>)>;

    /// The withdrawals table, as block numbers with withdrawal sequences.
    spec fn withdrawals_table(&self) -> Seq<(u64, Seq<Withdrawal>)>;

    /// The chain's hardfork schedule.
    spec fn hardforks(&self) -> ChainSpec;
}

impl BodyStore for StorageProvider {
    open spec fn ommers_table(&self) -> Seq<(u64, Seq<Header>)> {
        self.tables.ommers_view()
    }

    open spec fn withdrawals_table(&self) -> Seq<(u64, Seq<Withdrawal>)> {
        self.tables.withdrawals_view()
    }

    open spec fn hardforks(&self) -> ChainSpec {
        self.chain_spec
    }
}

/// How block bodies are written to the storage. Only tables unrelated to
/// transactions are written; transaction persistence is handled
/// separately.
pub trait BlockBodyWriter<Provider: BodyStore, T> {
    /// Writes a set of block bodies to the storage.
    fn write_block_bodies(
        &self,
        provider: &mut Provider,
        bodies: Vec<(u64, Option<BlockBody<T>>)>,
        write_to: StorageLocation,
    ) -> Result<(), StorageError>;

    /// Removes all block bodies above the given block number from the
    /// storage: on tables with ascending keys, exactly the entries above
    /// `block` leave, as a reorg unwind demands.
    fn remove_block_bodies_above(
        &self,
        provider: &mut Provider,
        block: u64,
        remove_from: StorageLocation,
    ) -> (r: Result<(), StorageError>)
        ensures
            r is Ok,
            keys_ascending(old(provider).withdrawals_table())
                ==> final(provider).withdrawals_table() == keep_le(
                old(provider).withdrawals_table(),
                block,
            ),
            keys_ascending(old(provider).ommers_table())
                ==> final(provider).ommers_table() == keep_le(
                old(provider).ommers_table(),
                block,
            ),
            final(provider).hardforks() == old(provider).hardforks(),
    ;
}

/// How block bodies are read back: pre-fetched headers and transactions
/// in, reconstructed bodies out.
pub trait BlockBodyReader<Provider, T> {
    /// Receives block headers along with the blocks' transactions and
    /// returns the reconstructed block bodies.
    fn read_block_bodies(
        &self,
        provider: &Provider,
        inputs: Vec<(Header, Vec<T>)>,
    ) -> Result<Vec<BlockBody<T>>, StorageError>;
}

/// How chain-specific types are written to the storage.
pub trait ChainStorageWriter<Provider: BodyStore, T>: BlockBodyWriter<Provider, T> {

}

impl<X, Provider: BodyStore, T> ChainStorageWriter<Provider, T> for X where
    X: BlockBodyWriter<Provider, T>,
 {

}

/// How chain-specific types are read from the storage.
pub trait ChainStorageReader<Provider, T>: BlockBodyReader<Provider, T> {

}

impl<X, Provider, T> ChainStorageReader<Provider, T> for X where
    X: BlockBodyReader<Provider, T>,
 {

}

/// Ethereum storage implementation.
#[derive(Clone, Copy, Debug)]
pub struct EthStorage;

impl Default for EthStorage {
    fn default() -> (s: Self)
        ensures
            s == (EthStorage {}),
    {
        EthStorage {}
    }
}

impl<T> BlockBodyWriter<StorageProvider, T> for EthStorage {
    fn write_block_bodies(
        &self,
        provider: &mut StorageProvider,
        bodies: Vec<(u64, Option<BlockBody<T>>)>,
        write_to: StorageLocation,
    ) -> (r: Result<(), StorageError>)
        ensures
            r is Ok <==> write_bodies_spec(
                old(provider).tables.ommers_view(),
                old(provider).tables.withdrawals_view(),
                bodies@,
            ) is Some,
            r is Ok ==> Some(
                (final(provider).tables.ommers_view(), final(provider).tables.withdrawals_view()),
            ) == write_bodies_spec(
                old(provider).tables.ommers_view(),
                old(provider).tables.withdrawals_view(),
                bodies@,
            ),
            r is Err ==> r->Err_0 == StorageError::NonAscendingKey,
            r is Err ==> old(provider).tables.ommers_view().is_prefix_of(
                final(provider).tables.ommers_view(),
            ) && old(provider).tables.withdrawals_view().is_prefix_of(
                final(provider).tables.withdrawals_view(),
            ),
            final(provider).chain_spec == old(provider).chain_spec,
    {
        let ghost om0 = provider.tables.ommers_view();
        let ghost wd0 = provider.tables.withdrawals_view();
        let mut i: usize = 0;
        proof {
            assert(bodies@.take(0int) =~= Seq::<(u64, Option<BlockBody<T>>)>::empty());
            assert(om0 =~= om0.subrange(0, om0.len() as int));
            assert(wd0 =~= wd0.subrange(0, wd0.len() as int));
        }
        #[verifier::loop_isolation(false)]
        while i < bodies.len()
            invariant
                i <= bodies.len(),
                write_bodies_spec(om0, wd0, bodies@.take(i as int)) == Some(
                    (provider.tables.ommers_view(), provider.tables.withdrawals_view()),
                ),
                om0.is_prefix_of(provider.tables.ommers_view()),
                wd0.is_prefix_of(provider.tables.withdrawals_view()),
                provider.chain_spec == old(provider).chain_spec,
            decreases bodies.len() - i,
        {
            let ghost om_cur = provider.tables.ommers_view();
            let ghost wd_cur = provider.tables.withdrawals_view();
            let n = bodies[i].0;
            match &bodies[i].1 {
                None => {},
                Some(body) => {
                    if body.ommers.len() > 0 {
                        if provider.tables.ommers.len() > 0 {
                            let m = provider.tables.ommers.len();
                            proof {
                                assert(om_cur.last() == (
                                    provider.tables.ommers@[m as int - 1].0,
                                    provider.tables.ommers@[m as int - 1].1.ommers@,
                                ));
                            }
                            if provider.tables.ommers[m - 1].0 >= n {
                                proof {
                                    assert(bodies@.take(i as int + 1).drop_last() =~= bodies@.take(
                                        i as int,
                                    ));
                                    assert(bodies@.take(i as int + 1).last() == bodies@[i as int]);
                                    assert(write_bodies_spec(om0, wd0, bodies@.take(i as int + 1))
                                        is None);
                                    lemma_write_none_extends(om0, wd0, bodies@, i as int + 1);
                                }
                                return Err(StorageError::NonAscendingKey);
                            }
                        }
                        let copied = copy_values(&body.ommers);
                        provider.tables.ommers.push((n, StoredBlockOmmers { ommers: copied }));
                        proof {
                            assert(provider.tables.ommers_view() =~= om_cur.push(
                                (n, body.ommers@),
                            ));
                            assert(om0.is_prefix_of(provider.tables.ommers_view())) by {
                                assert(provider.tables.ommers_view().subrange(
                                    0,
                                    om0.len() as int,
                                ) =~= om_cur.subrange(0, om0.len() as int));
                            }
                        }
                    }
                    match &body.withdrawals {
                        Some(w) => if w.len() > 0 {
                            if provider.tables.withdrawals.len() > 0 {
                                let m = provider.tables.withdrawals.len();
                                proof {
                                    assert(wd_cur.last() == (
                                        provider.tables.withdrawals@[m as int - 1].0,
                                        provider.tables.withdrawals@[m as int - 1].1.withdrawals@,
                                    ));
                                }
                                if provider.tables.withdrawals[m - 1].0 >= n {
                                    proof {
                                        assert(bodies@.take(i as int + 1).drop_last()
                                            =~= bodies@.take(i as int));
                                        assert(bodies@.take(i as int + 1).last() == bodies@[i as int]);
                                        assert(write_bodies_spec(
                                            om0,
                                            wd0,
                                            bodies@.take(i as int + 1),
                                        ) is None);
                                        lemma_write_none_extends(om0, wd0, bodies@, i as int + 1);
                                    }
                                    return Err(StorageError::NonAscendingKey);
                                }
                            }
                            let copied = copy_values(w);
                            provider.tables.withdrawals.push(
                                (n, StoredBlockWithdrawals { withdrawals: copied }),
                            );
                            proof {
                                assert(provider.tables.withdrawals_view() =~= wd_cur.push(
                                    (n, w@),
                                ));
                                assert(wd0.is_prefix_of(provider.tables.withdrawals_view())) by {
                                    assert(provider.tables.withdrawals_view().subrange(
                                        0,
                                        wd0.len() as int,
                                    ) =~= wd_cur.subrange(0, wd0.len() as int));
                                }
                            }
                        },
                        None => {},
                    }
                },
            }
            i = i + 1;
            proof {
                assert(bodies@.take(i as int).drop_last() =~= bodies@.take(i as int - 1));
                assert(bodies@.take(i as int).last() == bodies@[i as int - 1]);
            }
        }
        proof {
            assert(bodies@.take(bodies@.len() as int) =~= bodies@);
        }
        Ok(())
    }

    fn remove_block_bodies_above(
        &self,
        provider: &mut StorageProvider,
        block: u64,
        remove_from: StorageLocation,
    ) -> (r: Result<(), StorageError>) {
        let ghost w0 = provider.tables.withdrawals_view();
        proof {
            assert(provider.tables.withdrawals_view() =~= w0.take(
                provider.tables.withdrawals@.len() as int,
            ));
        }
        #[verifier::loop_isolation(false)]
        while provider.tables.withdrawals.len() > 0 && provider.tables.withdrawals[
            provider.tables.withdrawals.len() - 1
        ].0 > block
            invariant
                provider.tables.withdrawals@.len() <= w0.len(),
                provider.tables.withdrawals_view() == w0.take(
                    provider.tables.withdrawals@.len() as int,
                ),
                forall|j: int|
                    provider.tables.withdrawals@.len() <= j < w0.len() ==> (#[trigger] w0[j]).0
                        > block,
                provider.tables.ommers@ == old(provider).tables.ommers@,
                provider.chain_spec == old(provider).chain_spec,
            decreases provider.tables.withdrawals@.len(),
        {
            let m = provider.tables.withdrawals.len();
            proof {
                assert(provider.tables.withdrawals_view()[m as int - 1] == (
                    provider.tables.withdrawals@[m as int - 1].0,
                    provider.tables.withdrawals@[m as int - 1].1.withdrawals@,
                ));
            }
            provider.tables.withdrawals.pop();
            proof {
                assert(provider.tables.withdrawals_view() =~= w0.take(
                    provider.tables.withdrawals@.len() as int,
                ));
            }
        }
        proof {
            if keys_ascending(w0) {
                let m = provider.tables.withdrawals@.len() as int;
                assert forall|j: int| 0 <= j < m implies (#[trigger] w0[j]).0 <= block by {
                    if j < m - 1 {
                        assert(w0[j].0 < w0[m - 1].0);
                    }
                    assert(w0[m - 1] == (
                        provider.tables.withdrawals@[m - 1].0,
                        provider.tables.withdrawals@[m - 1].1.withdrawals@,
                    ));
                }
                lemma_keep_le_prefix(w0, block, m);
            }
        }
        let ghost o0 = provider.tables.ommers_view();
        let ghost w_done = provider.tables.withdrawals@;
        proof {
            assert(provider.tables.ommers_view() =~= o0.take(
                provider.tables.ommers@.len() as int,
            ));
        }
        #[verifier::loop_isolation(false)]
        while provider.tables.ommers.len() > 0 && provider.tables.ommers[
            provider.tables.ommers.len() - 1
        ].0 > block
            invariant
                provider.tables.ommers@.len() <= o0.len(),
                provider.tables.ommers_view() == o0.take(provider.tables.ommers@.len() as int),
                forall|j: int|
                    provider.tables.ommers@.len() <= j < o0.len() ==> (#[trigger] o0[j]).0 > block,
                provider.tables.withdrawals@ == w_done,
                provider.chain_spec == old(provider).chain_spec,
            decreases provider.tables.ommers@.len(),
        {
            let m = provider.tables.ommers.len();
            proof {
                assert(provider.tables.ommers_view()[m as int - 1] == (
                    provider.tables.ommers@[m as int - 1].0,
                    provider.tables.ommers@[m as int - 1].1.ommers@,
                ));
            }
            provider.tables.ommers.pop();
            proof {
                assert(provider.tables.ommers_view() =~= o0.take(
                    provider.tables.ommers@.len() as int,
                ));
            }
        }
        proof {
            if keys_ascending(o0) {
                let m = provider.tables.ommers@.len() as int;
                assert forall|j: int| 0 <= j < m implies (#[trigger] o0[j]).0 <= block by {
                    if j < m - 1 {
                        assert(o0[j].0 < o0[m - 1].0);
                    }
                    assert(o0[m - 1] == (
                        provider.tables.ommers@[m - 1].0,
                        provider.tables.ommers@[m - 1].1.ommers@,
                    ));
                }
                lemma_keep_le_prefix(o0, block, m);
            }
        }
        Ok(())
    }
}


impl<T> BlockBodyReader<StorageProvider, T> for EthStorage {
    fn read_block_bodies(
        &self,
        provider: &StorageProvider,
        inputs: Vec<(Header, Vec<T>)>,
    ) -> (r: Result<Vec<BlockBody<T>>, StorageError>)
        ensures
            r is Ok,
            r matches Ok(bodies) ==> bodies@.len() == inputs@.len() && forall|j: int|
                0 <= j < inputs@.len() ==> (#[trigger] bodies@[j])@ == read_body_spec(
                    provider.chain_spec,
                    provider.tables.ommers_view(),
                    provider.tables.withdrawals_view(),
                    inputs@[j],
                ),
    {
        let mut inputs = inputs;
        let ghost inputs0 = inputs@;
        let ghost n0 = inputs.len();
        let mut bodies: Vec<BlockBody<T>> = Vec::new();
        let mut i: usize = 0;
        #[verifier::loop_isolation(false)]
        while inputs.len() > 0
            invariant
                inputs0.len() == n0,
                i <= n0,
                i + inputs@.len() == inputs0.len(),
                inputs@ == inputs0.skip(i as int),
                bodies@.len() == i,
                forall|j: int|
                    0 <= j < i ==> (#[trigger] bodies@[j])@ == read_body_spec(
                        provider.chain_spec,
                        provider.tables.ommers_view(),
                        provider.tables.withdrawals_view(),
                        inputs0[j],
                    ),
            decreases inputs@.len(),
        {
            let (header, transactions) = inputs.remove(0);
            proof {
                assert(inputs0.skip(i as int)[0] == inputs0[i as int]);
                assert(inputs0.skip(i as int).remove(0) =~= inputs0.skip(i as int + 1));
            }
            // Past Shanghai every block carries a withdrawal list, even if
            // empty.
            let withdrawals: Option<Vec<Withdrawal>> = if provider.chain_spec
                .is_shanghai_active_at_timestamp(header.timestamp) {
                match provider.tables.seek_withdrawals(header.number) {
                    Some(sw) => Some(copy_values(&sw.withdrawals)),
                    None => Some(Vec::new()),
                }
            } else {
                None
            };
            // Past the merge blocks carry no ommers.
            let ommers: Vec<Header> = if provider.chain_spec.is_paris_active_at_block(
                header.number,
            ) {
                Vec::new()
            } else {
                match provider.tables.seek_ommers(header.number) {
                    Some(so) => copy_values(&so.ommers),
                    None => Vec::new(),
                }
            };
            let body = BlockBody { transactions, ommers, withdrawals };
            proof {
                assert(body@ == read_body_spec(
                    provider.chain_spec,
                    provider.tables.ommers_view(),
                    provider.tables.withdrawals_view(),
                    inputs0[i as int],
                ));
            }
            bodies.push(body);
            i = i + 1;
        }
        proof {
            assert(inputs0.skip(inputs0.len() as int).len() == 0);
        }
        Ok(bodies)
    }
}

} // verus!
