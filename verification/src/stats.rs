//! Transfer statistics: counters that aggregate along a parent chain.
//!
//! A statistics node sits below at most one parent; increments apply to the
//! node and to every ancestor, so a server-wide summary, a per-connection
//! summary and a per-transfer counter stay consistent.  Byte and transfer
//! counters wrap on overflow, as hardware counters do; the pending-quota
//! ledger is bounded instead, so what was realized never exceeds the
//! announced total.
use vstd::prelude::*;
use vstd::wrapping::u64_specs;
use vstd::wrapping::usize_specs;

verus! {

/// Read/write byte counters along one stream's parent chain.
pub struct StreamStatistics {
    /// The summary this node reports into, if any.
    pub parent: Option<Box<StreamStatistics>>,
    /// Bytes read so far.
    pub bytes_read: u64,
    /// Bytes written so far.
    pub bytes_write: u64,
}

/// The length of a stream-statistics parent chain above a node.
pub open spec fn stream_chain_len(s: StreamStatistics) -> nat
    decreases s,
{
    match s.parent {
        Some(p) => 1 + stream_chain_len(*p),
        None => 0,
    }
}

/// The `(read, write)` counters of a node and all its ancestors, the node
/// first.
pub open spec fn stream_chain(s: StreamStatistics) -> Seq<(u64, u64)>
    decreases s,
{
    match s.parent {
        Some(p) => seq![(s.bytes_read, s.bytes_write)] + stream_chain(*p),
        None => seq![(s.bytes_read, s.bytes_write)],
    }
}

impl StreamStatistics {
    /// A fresh root node with zeroed counters.
    pub fn new() -> (r: StreamStatistics)
        ensures
            r.parent is None,
            r.bytes_read == 0,
            r.bytes_write == 0,
    {
        StreamStatistics { parent: None, bytes_read: 0, bytes_write: 0 }
    }

    /// A fresh node with zeroed counters reporting into `parent`.
    pub fn new_parent(parent: StreamStatistics) -> (r: StreamStatistics)
        ensures
            r.parent == Some(Box::new(parent)),
            r.bytes_read == 0,
            r.bytes_write == 0,
    {
        StreamStatistics { parent: Some(Box::new(parent)), bytes_read: 0, bytes_write: 0 }
    }

    /// Bytes read so far at this node.
    pub fn bytes_read(&self) -> (r: u64)
        ensures
            r == self.bytes_read,
    {
        self.bytes_read
    }

    /// Bytes written so far at this node.
    pub fn bytes_write(&self) -> (r: u64)
        ensures
            r == self.bytes_write,
    {
        self.bytes_write
    }

    /// Counts `bytes` read at this node and at every ancestor.
    pub fn increase_read(&mut self, bytes: u64)
        ensures
            stream_chain(*final(self)).len() == stream_chain(*old(self)).len(),
            forall|i: int|
                0 <= i < stream_chain(*old(self)).len() ==> #[trigger] stream_chain(
                    *final(self),
                )[i] == (
                u64_specs::wrapping_add(stream_chain(*old(self))[i].0, bytes),
                stream_chain(*old(self))[i].1,
                ),
        decreases stream_chain_len(*old(self)),
    {
        self.bytes_read = self.bytes_read.wrapping_add(bytes);
        match &mut self.parent {
            Some(p) => {
                p.increase_read(bytes);
            },
            None => {},
        }
    }

    /// Counts `bytes` written at this node and at every ancestor.
    pub fn increase_write(&mut self, bytes: u64)
        ensures
            stream_chain(*final(self)).len() == stream_chain(*old(self)).len(),
            forall|i: int|
                0 <= i < stream_chain(*old(self)).len() ==> #[trigger] stream_chain(
                    *final(self),
                )[i] == (
                stream_chain(*old(self))[i].0,
                u64_specs::wrapping_add(stream_chain(*old(self))[i].1, bytes),
                ),
        decreases stream_chain_len(*old(self)),
    {
        self.bytes_write = self.bytes_write.wrapping_add(bytes);
        match &mut self.parent {
            Some(p) => {
                p.increase_write(bytes);
            },
            None => {},
        }
    }
}

/// Byte quota of transfers not yet finished, along a parent chain.
pub struct PendingQuotaSummary {
    /// The summary this node reports into, if any.
    pub parent: Option<Box<PendingQuotaSummary>>,
    /// Bytes all pending transfers will move in total.
    pub total_bytes: u64,
    /// Bytes of that total already moved; never above the total.
    pub realized_bytes: u64,
}

/// The `(total, realized)` counters of a node and all its ancestors, the
/// node first.
pub open spec fn quota_chain(s: PendingQuotaSummary) -> Seq<(u64, u64)>
    decreases s,
{
    match s.parent {
        Some(p) => seq![(s.total_bytes, s.realized_bytes)] + quota_chain(*p),
        None => seq![(s.total_bytes, s.realized_bytes)],
    }
}

/// The length of a quota parent chain above a node.
pub open spec fn quota_chain_len(s: PendingQuotaSummary) -> nat
    decreases s,
{
    match s.parent {
        Some(p) => 1 + quota_chain_len(*p),
        None => 0,
    }
}

/// The quota invariant: at no node of the chain can more bytes have been
/// realized than the pending total announces.
pub open spec fn quota_chain_wf(s: PendingQuotaSummary) -> bool
    decreases s,
{
    &&& s.realized_bytes <= s.total_bytes
    &&& (match s.parent {
        Some(p) => quota_chain_wf(*p),
        None => true,
    })
}

impl PendingQuotaSummary {
    /// A fresh summary over `parent` starting from a base quota of
    /// `(total, realized)` bytes; what was realized can never exceed the
    /// total.
    pub fn new(parent: Option<Box<PendingQuotaSummary>>, base_quota: (u64, u64)) -> (r:
        PendingQuotaSummary)
        requires
            base_quota.0 >= base_quota.1,
            (match parent {
                Some(p) => quota_chain_wf(*p),
                None => true,
            }),
        ensures
            r.parent == parent,
            r.total_bytes == base_quota.0,
            r.realized_bytes == base_quota.1,
            quota_chain_wf(r),
    {
        PendingQuotaSummary { parent, total_bytes: base_quota.0, realized_bytes: base_quota.1 }
    }

    /// The current status as `(total_bytes, realized_bytes)`; what was
    /// realized never exceeds the pending total.
    pub fn info(&self) -> (r: (u64, u64))
        ensures
            r == (self.total_bytes, self.realized_bytes),
            quota_chain_wf(*self) ==> r.1 <= r.0,
    {
        (self.total_bytes, self.realized_bytes)
    }

    /// Bytes of the pending total already moved.
    pub fn realized_bytes(&self) -> (r: u64)
        ensures
            r == self.realized_bytes,
    {
        self.realized_bytes
    }

    /// Bytes all pending transfers will move in total.
    pub fn total_bytes(&self) -> (r: u64)
        ensures
            r == self.total_bytes,
    {
        self.total_bytes
    }

    /// Counts `bytes` as realized at this node and at every ancestor; no
    /// node's pending total may be exceeded (the bytes were registered
    /// there when the transfer's quota was added).
    pub fn increase_realized_bytes(&mut self, bytes: u64)
        requires
            forall|i: int|
                0 <= i < quota_chain(*old(self)).len() ==> (#[trigger] quota_chain(
                    *old(self),
                )[i]).1 + bytes <= quota_chain(*old(self))[i].0,
        ensures
            quota_chain(*final(self)).len() == quota_chain(*old(self)).len(),
            forall|i: int|
                0 <= i < quota_chain(*old(self)).len() ==> #[trigger] quota_chain(
                    *final(self),
                )[i] == (
                quota_chain(*old(self))[i].0,
                (quota_chain(*old(self))[i].1 + bytes) as u64,
                ),
            quota_chain_wf(*old(self)) ==> quota_chain_wf(*final(self)),
        decreases quota_chain_len(*old(self)),
    {
        proof {
            assert(quota_chain(*old(self))[0] == (self.total_bytes, self.realized_bytes));
        }
        self.realized_bytes = self.realized_bytes + bytes;
        match &mut self.parent {
            Some(p) => {
                proof {
                    assert forall|i: int|
                        0 <= i < quota_chain(**p).len() implies (#[trigger] quota_chain(
                        **p,
                    )[i]).1 + bytes <= quota_chain(**p)[i].0 by {
                        assert(quota_chain(*old(self))[i + 1] == quota_chain(**p)[i]);
                    }
                }
                p.increase_realized_bytes(bytes);
            },
            None => {},
        }
    }

    /// Adds a newly registered pending transfer's quota at this node and
    /// at every ancestor; the chain's totals must have room for it.
    pub fn add_quota(&mut self, quota: &PendingQuota)
        requires
            quota.realized_bytes <= quota.total_bytes,
            quota_chain_wf(*old(self)),
            forall|i: int|
                0 <= i < quota_chain(*old(self)).len() ==> (#[trigger] quota_chain(
                    *old(self),
                )[i]).0 + quota.total_bytes <= u64::MAX,
        ensures
            quota_chain(*final(self)).len() == quota_chain(*old(self)).len(),
            forall|i: int|
                0 <= i < quota_chain(*old(self)).len() ==> #[trigger] quota_chain(
                    *final(self),
                )[i] == (
                (quota_chain(*old(self))[i].0 + quota.total_bytes) as u64,
                (quota_chain(*old(self))[i].1 + quota.realized_bytes) as u64,
                ),
            quota_chain_wf(*final(self)),
        decreases quota_chain_len(*old(self)),
    {
        proof {
            assert(quota_chain(*old(self))[0] == (self.total_bytes, self.realized_bytes));
        }
        self.total_bytes = self.total_bytes + quota.total_bytes;
        self.realized_bytes = self.realized_bytes + quota.realized_bytes;
        match &mut self.parent {
            Some(p) => {
                proof {
                    assert forall|i: int|
                        0 <= i < quota_chain(**p).len() implies (#[trigger] quota_chain(
                        **p,
                    )[i]).0 + quota.total_bytes <= u64::MAX by {
                        assert(quota_chain(*old(self))[i + 1] == quota_chain(**p)[i]);
                    }
                }
                p.add_quota(quota);
            },
            None => {},
        }
    }

    /// Removes a finished (or dropped) transfer's still-unrealized bytes
    /// from the pending total at this node and at every ancestor; the
    /// quota must still be registered in the chain, so each node's own
    /// unrealized amount covers it.
    pub fn remove_quota(&mut self, quota: &PendingQuota)
        requires
            quota.total_bytes >= quota.realized_bytes,
            forall|i: int|
                0 <= i < quota_chain(*old(self)).len() ==> (#[trigger] quota_chain(
                    *old(self),
                )[i]).0 - quota_chain(*old(self))[i].1 >= quota.total_bytes
                    - quota.realized_bytes,
        ensures
            quota_chain(*final(self)).len() == quota_chain(*old(self)).len(),
            forall|i: int|
                0 <= i < quota_chain(*old(self)).len() ==> #[trigger] quota_chain(
                    *final(self),
                )[i] == (
                (quota_chain(*old(self))[i].0 - (quota.total_bytes
                    - quota.realized_bytes)) as u64,
                quota_chain(*old(self))[i].1,
                ),
            quota_chain_wf(*old(self)) ==> quota_chain_wf(*final(self)),
        decreases quota_chain_len(*old(self)),
    {
        proof {
            assert(quota_chain(*old(self))[0] == (self.total_bytes, self.realized_bytes));
        }
        let unrealized_bytes = quota.total_bytes - quota.realized_bytes;
        self.total_bytes = self.total_bytes - unrealized_bytes;
        match &mut self.parent {
            Some(p) => {
                proof {
                    assert forall|i: int|
                        0 <= i < quota_chain(**p).len() implies (#[trigger] quota_chain(
                        **p,
                    )[i]).0 - quota_chain(**p)[i].1 >= quota.total_bytes
                        - quota.realized_bytes by {
                        assert(quota_chain(*old(self))[i + 1] == quota_chain(**p)[i]);
                    }
                }
                p.remove_quota(quota);
            },
            None => {},
        }
    }
}

/// One pending transfer's byte quota.  The owner registers it with its
/// summary through [`PendingQuotaSummary::add_quota`] on creation and
/// removes it with [`PendingQuotaSummary::remove_quota`] when the transfer
/// ends.
pub struct PendingQuota {
    /// Bytes this transfer will move in total.
    pub total_bytes: u64,
    /// Bytes already moved; never above the total.
    pub realized_bytes: u64,
}

impl PendingQuota {
    /// A fresh quota with nothing realized yet.
    pub fn new(total_bytes: u64) -> (r: PendingQuota)
        ensures
            r.total_bytes == total_bytes,
            r.realized_bytes == 0,
    {
        PendingQuota { total_bytes, realized_bytes: 0 }
    }

    /// Counts `bytes` as realized; the owner must mirror the change into
    /// the summary the quota is registered with.
    pub fn increase_realized_bytes(&mut self, bytes: u64)
        requires
            old(self).realized_bytes + bytes <= old(self).total_bytes,
        ensures
            final(self).total_bytes == old(self).total_bytes,
            final(self).realized_bytes == old(self).realized_bytes + bytes,
            final(self).realized_bytes <= final(self).total_bytes,
    {
        self.realized_bytes = self.realized_bytes + bytes;
    }
}

/// A running-transfer counter along a parent chain.
pub struct RunningTransferSummary {
    /// The summary this node reports into, if any.
    pub parent: Option<Box<RunningTransferSummary>>,
    /// How many transfers run below this node right now.
    pub transfer_count: usize,
}

/// The counters of a node and all its ancestors, the node first.
pub open spec fn transfer_chain(s: RunningTransferSummary) -> Seq<usize>
    decreases s,
{
    match s.parent {
        Some(p) => seq![s.transfer_count] + transfer_chain(*p),
        None => seq![s.transfer_count],
    }
}

/// The length of a transfer-summary parent chain above a node.
pub open spec fn transfer_chain_len(s: RunningTransferSummary) -> nat
    decreases s,
{
    match s.parent {
        Some(p) => 1 + transfer_chain_len(*p),
        None => 0,
    }
}

impl RunningTransferSummary {
    /// A fresh counter over `parent` with no running transfers.
    pub fn new(parent: Option<Box<RunningTransferSummary>>) -> (r: RunningTransferSummary)
        ensures
            r.parent == parent,
            r.transfer_count == 0,
    {
        RunningTransferSummary { parent, transfer_count: 0 }
    }

    /// How many transfers run below this node right now.
    pub fn running_transfers(&self) -> (r: usize)
        ensures
            r == self.transfer_count,
    {
        self.transfer_count
    }

    /// Counts one more running transfer at this node and at every
    /// ancestor.
    pub fn register_transfer(&mut self)
        ensures
            transfer_chain(*final(self)).len() == transfer_chain(*old(self)).len(),
            forall|i: int|
                0 <= i < transfer_chain(*old(self)).len() ==> #[trigger] transfer_chain(
                    *final(self),
                )[i] == usize_specs::wrapping_add(transfer_chain(*old(self))[i], 1),
        decreases transfer_chain_len(*old(self)),
    {
        self.transfer_count = self.transfer_count.wrapping_add(1);
        match &mut self.parent {
            Some(p) => {
                p.register_transfer();
            },
            None => {},
        }
    }

    /// Counts one running transfer fewer at this node and at every
    /// ancestor.
    pub fn unregister_transfer(&mut self)
        ensures
            transfer_chain(*final(self)).len() == transfer_chain(*old(self)).len(),
            forall|i: int|
                0 <= i < transfer_chain(*old(self)).len() ==> #[trigger] transfer_chain(
                    *final(self),
                )[i] == usize_specs::wrapping_sub(transfer_chain(*old(self))[i], 1),
        decreases transfer_chain_len(*old(self)),
    {
        self.transfer_count = self.transfer_count.wrapping_sub(1);
        match &mut self.parent {
            Some(p) => {
                p.unregister_transfer();
            },
            None => {},
        }
    }
}

/// A token for one running transfer: registers itself on creation; the
/// owner unregisters through the summary when the transfer ends.
pub struct RunningTransfer {
    /// The id the host may use to tell tokens apart.
    pub transfer_id: u64,
}

impl RunningTransfer {
    /// A fresh token, counted into `summary` and its ancestors at once.
    pub fn new(transfer_id: u64, summary: &mut RunningTransferSummary) -> (r: RunningTransfer)
        ensures
            r.transfer_id == transfer_id,
            transfer_chain(*final(summary)).len() == transfer_chain(*old(summary)).len(),
            forall|i: int|
                0 <= i < transfer_chain(*old(summary)).len() ==> #[trigger] transfer_chain(
                    *final(summary),
                )[i] == usize_specs::wrapping_add(transfer_chain(*old(summary))[i], 1),
    {
        summary.register_transfer();
        RunningTransfer { transfer_id }
    }
}

} // verus!
