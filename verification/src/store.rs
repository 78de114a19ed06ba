//! The terminal relay store and the messenger endpoint that wraps it: an
//! ordered, append-only collection of records, accepting one record at a time
//! and answering full-snapshot reads.
//!
//! The owning process guards a value of this type with a lock so that appends
//! and snapshots never interleave; each operation here is the work done while
//! that lock is held, so a snapshot never observes a partially-appended
//! record.

use vstd::prelude::*;

use crate::ids::new_correlation_id;
use crate::proto::{
    accepted_record, MessageRequest, MessageResponse, MessagesResponse, StoredMessage,
    StoredMessageView,
};

verus! {

/// The messenger endpoint: the single source of truth for accepted records.
/// No eviction, no size limit, no indexing beyond insertion order.
pub struct MyMessenger {
    messages: Vec<StoredMessage>,
}

impl View for MyMessenger {
    type V = Seq<StoredMessageView>;

    closed spec fn view(&self) -> Seq<StoredMessageView> {
        self.messages@.map(|i: int, m: StoredMessage| m@)
    }
}

impl MyMessenger {
    /// An empty store.
    pub fn new() -> (r: Self)
        ensures
            r@ == Seq::<StoredMessageView>::empty(),
    {
        let r = MyMessenger { messages: Vec::new() };
        proof {
            assert(r@ =~= Seq::<StoredMessageView>::empty());
        }
        r
    }

    /// Accepts one record: assigns a fresh identifier at this point of
    /// durable acceptance, appends the record, and acknowledges with that
    /// identifier. Never fails.
    pub fn send_message(&mut self, req: MessageRequest) -> (r: MessageResponse)
        ensures
            r.success,
            r.id@.len() == 36,
            final(self)@ == old(self)@.push(accepted_record(req, r.id@)),
    {
        let id = new_correlation_id();
        let msg = StoredMessage {
            id: id.clone(),
            content: req.content.clone(),
            sender: req.sender.clone(),
            timestamp: req.timestamp,
        };
        self.messages.push(msg);
        proof {
            assert(self@ =~= old(self)@.push(accepted_record(req, id@)));
        }
        MessageResponse { success: true, id }
    }

    /// A snapshot of all current records, in arrival order, taken at the
    /// moment of the call: an independent copy, not a live view.
    pub fn get_messages(&self) -> (r: MessagesResponse)
        ensures
            r.messages@.map(|i: int, m: StoredMessage| m@) == self@,
    {
        let mut out: Vec<StoredMessage> = Vec::new();
        let mut k: usize = 0;
        while k < self.messages.len()
            invariant
                k <= self.messages.len(),
                out@.len() == k,
                forall|i: int| 0 <= i < k ==> out@[i]@ == self@[i],
            decreases self.messages.len() - k,
        {
            let m = &self.messages[k];
            out.push(StoredMessage {
                id: m.id.clone(),
                content: m.content.clone(),
                sender: m.sender.clone(),
                timestamp: m.timestamp,
            });
            k += 1;
        }
        proof {
            assert(out@.map(|i: int, m: StoredMessage| m@) =~= self@);
        }
        MessagesResponse { messages: out }
    }
}

/// The store contents after the given requests have been accepted under the
/// given identifiers, in arrival order, starting from `init`. The store's
/// lock serializes concurrent appends into exactly such a sequence.
pub open spec fn store_after(
    init: Seq<StoredMessageView>,
    reqs: Seq<MessageRequest>,
    ids: Seq<Seq<char>>,
) -> Seq<StoredMessageView>
    decreases reqs.len(),
{
    if reqs.len() == 0 {
        init
    } else {
        store_after(
            init.push(accepted_record(reqs[0], ids[0])),
            reqs.drop_first(),
            ids.drop_first(),
        )
    }
}

/// One accepted request is one step of a batch: a single append leaves the
/// store exactly where folding a one-element batch leaves it, so a run of
/// appends is the fold of its arrival sequence.
pub proof fn lemma_one_append_is_a_batch(
    s: Seq<StoredMessageView>,
    req: MessageRequest,
    id: Seq<char>,
)
    ensures
        store_after(s, seq![req], seq![id]) == s.push(accepted_record(req, id)),
{
    assert(seq![req][0] == req);
    assert(seq![id][0] == id);
    assert(seq![req].drop_first() =~= Seq::<MessageRequest>::empty());
    assert(seq![id].drop_first() =~= Seq::<Seq<char>>::empty());
    assert(store_after(
        s.push(accepted_record(req, id)),
        Seq::<MessageRequest>::empty(),
        Seq::<Seq<char>>::empty(),
    ) == s.push(accepted_record(req, id)));
}

/// Law: a batch of appends loses nothing and duplicates nothing. However many
/// appends the lock serialized, the store afterwards holds exactly its old
/// records, unchanged and in place, followed by one record per append, in
/// arrival order — so a snapshot taken after the batch shows exactly them.
pub proof fn lemma_store_after_append_batch(
    init: Seq<StoredMessageView>,
    reqs: Seq<MessageRequest>,
    ids: Seq<Seq<char>>,
)
    requires
        reqs.len() == ids.len(),
    ensures
        store_after(init, reqs, ids).len() == init.len() + reqs.len(),
        forall|i: int| 0 <= i < init.len() ==> store_after(init, reqs, ids)[i] == init[i],
        forall|i: int|
            0 <= i < reqs.len() ==> store_after(init, reqs, ids)[init.len() + i]
                == accepted_record(reqs[i], ids[i]),
    decreases reqs.len(),
{
    if reqs.len() == 0 {
    } else {
        let init2 = init.push(accepted_record(reqs[0], ids[0]));
        let dr = reqs.drop_first();
        let di = ids.drop_first();
        lemma_store_after_append_batch(init2, dr, di);
        assert forall|i: int|
            0 <= i < init.len() implies store_after(init, reqs, ids)[i] == init[i] by {
            assert(store_after(init2, dr, di)[i] == init2[i]);
            assert(init2[i] == init[i]);
        }
        assert forall|i: int|
            0 <= i < reqs.len() implies store_after(init, reqs, ids)[init.len() + i]
            == accepted_record(reqs[i], ids[i]) by {
            if i == 0 {
                assert(store_after(init2, dr, di)[init.len() as int] == init2[init.len() as int]);
            } else {
                assert(dr[i - 1] == reqs[i]);
                assert(di[i - 1] == ids[i]);
                assert(store_after(init2, dr, di)[init2.len() + (i - 1)] == accepted_record(
                    dr[i - 1],
                    di[i - 1],
                ));
            }
        }
    }
}

/// Law: appends never collide. When the identifiers assigned during a batch
/// of appends into an empty store are pairwise distinct, the resulting store
/// holds exactly one record per append and every record carries a distinct
/// identifier.
pub proof fn lemma_append_batch_ids_unique(reqs: Seq<MessageRequest>, ids: Seq<Seq<char>>)
    requires
        reqs.len() == ids.len(),
        forall|i: int, j: int| 0 <= i < j < ids.len() ==> ids[i] != ids[j],
    ensures
        store_after(Seq::empty(), reqs, ids).len() == reqs.len(),
        forall|i: int, j: int|
            0 <= i < j < store_after(Seq::empty(), reqs, ids).len() ==> store_after(
                Seq::empty(),
                reqs,
                ids,
            )[i].id != store_after(Seq::empty(), reqs, ids)[j].id,
{
    lemma_store_after_append_batch(Seq::empty(), reqs, ids);
    let s = store_after(Seq::<StoredMessageView>::empty(), reqs, ids);
    assert forall|i: int, j: int| 0 <= i < j < s.len() implies s[i].id != s[j].id by {
        assert(s[i] == accepted_record(reqs[i], ids[i]));
        assert(s[j] == accepted_record(reqs[j], ids[j]));
    }
}

} // verus!
