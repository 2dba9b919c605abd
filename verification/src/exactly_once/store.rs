//! Receipts of completed operations. The store is consulted before an
//! operation runs, so that a completed operation never runs twice.
use vstd::prelude::*;

use super::types::{key_eq, IdempotencyKey, Receipt};

verus! {

/// Errors of the receipt store.
#[derive(Debug, Clone)]
pub enum ReceiptStoreError {
    AlreadyExists(String),
    Internal(String),
}

/// The message of a receipt store error.
pub open spec fn receipt_store_message(e: ReceiptStoreError) -> Seq<char> {
    match e {
        ReceiptStoreError::AlreadyExists(m) => "Receipt already exists for key: "@ + m@,
        ReceiptStoreError::Internal(m) => "Receipt store error: "@ + m@,
    }
}

impl ReceiptStoreError {
    /// The message a user sees for this error.
    pub fn to_string(&self) -> (s: String)
        ensures
            s@ == receipt_store_message(*self),
    {
        match self {
            ReceiptStoreError::AlreadyExists(m) => {
                let mut s = String::from_str("Receipt already exists for key: ");
                s.append(m.as_str());
                s
            },
            ReceiptStoreError::Internal(m) => {
                let mut s = String::from_str("Receipt store error: ");
                s.append(m.as_str());
                s
            },
        }
    }
}

pub type ReceiptResult<T> = Result<T, ReceiptStoreError>;

/// Whether some receipt is for `key`.
pub open spec fn has_receipt(receipts: Seq<Receipt>, key: Seq<char>) -> bool {
    exists|i: int| 0 <= i < receipts.len() && (#[trigger] receipts[i]).key@ == key
}

/// The receipts that are not for `key`, in order.
pub open spec fn receipts_without(receipts: Seq<Receipt>, key: Seq<char>) -> Seq<Receipt>
    decreases receipts.len(),
{
    if receipts.len() == 0 {
        Seq::empty()
    } else {
        let rest = receipts_without(receipts.drop_last(), key);
        if receipts.last().key@ == key {
            rest
        } else {
            rest.push(receipts.last())
        }
    }
}

/// No two receipts are for the same key.
pub open spec fn unique_keys(receipts: Seq<Receipt>) -> bool {
    forall|i: int, j: int|
        0 <= i < receipts.len() && 0 <= j < receipts.len() && i != j ==> (#[trigger] receipts[i]).key@
            != (#[trigger] receipts[j]).key@
}

/// The receipt for `key`; meaningful when there is one.
pub open spec fn receipt_for(receipts: Seq<Receipt>, key: Seq<char>) -> Receipt {
    receipts[choose|i: int| 0 <= i < receipts.len() && (#[trigger] receipts[i]).key@ == key]
}

/// An in-memory receipt store.
pub struct InMemoryReceiptStore {
    receipts: Vec<Receipt>,
}

impl InMemoryReceiptStore {
    #[verifier::type_invariant]
    spec fn wf(self) -> bool {
        unique_keys(self.receipts@)
    }

    /// The stored receipts, oldest first; no two are for the same key.
    pub closed spec fn receipts(&self) -> Seq<Receipt> {
        self.receipts@
    }

    pub fn new() -> (s: Self)
        ensures
            s.receipts().len() == 0,
    {
        InMemoryReceiptStore { receipts: Vec::new() }
    }

    fn find(&self, key: &IdempotencyKey) -> (r: Option<usize>)
        ensures
            r matches Some(i) ==> i < self.receipts().len() && self.receipts()[i as int].key@ == key@
                && receipt_for(self.receipts(), key@) == self.receipts()[i as int],
            r is None ==> !has_receipt(self.receipts(), key@),
    {
        proof {
            use_type_invariant(self);
        }
        let mut i: usize = 0;
        while i < self.receipts.len()
            invariant
                i <= self.receipts@.len(),
                unique_keys(self.receipts@),
                forall|j: int| 0 <= j < i ==> self.receipts@[j].key@ != key@,
            decreases self.receipts@.len() - i,
        {
            if key_eq(&self.receipts[i].key, key) {
                assert(self.receipts@[i as int].key@ == key@);
                let ghost c = choose|j: int|
                    0 <= j < self.receipts@.len() && (#[trigger] self.receipts@[j]).key@ == key@;
                assert(c == i);
                return Some(i);
            }
            i = i + 1;
        }
        None
    }

    /// Store a receipt; refused when a receipt for its key exists.
    pub fn store(&mut self, receipt: Receipt) -> (r: ReceiptResult<()>)
        ensures
            has_receipt(old(self).receipts(), receipt.key@) ==> (r matches Err(
                ReceiptStoreError::AlreadyExists(m),
            ) && m@ == receipt.key@) && final(self).receipts() == old(self).receipts(),
            !has_receipt(old(self).receipts(), receipt.key@) ==> r is Ok && final(self).receipts()
                == old(self).receipts().push(receipt),
    {
        proof {
            use_type_invariant(&*self);
        }
        if self.find(&receipt.key).is_some() {
            return Err(ReceiptStoreError::AlreadyExists(receipt.key.to_string()));
        }
        let ghost old_receipts = self.receipts@;
        let mut receipts: Vec<Receipt> = Vec::new();
        std::mem::swap(&mut receipts, &mut self.receipts);
        receipts.push(receipt);
        proof {
            assert forall|i: int, j: int|
                0 <= i < receipts@.len() && 0 <= j < receipts@.len() && i != j implies (#[trigger] receipts@[i]).key@
                    != (#[trigger] receipts@[j]).key@ by {
                if i < old_receipts.len() && j < old_receipts.len() {
                } else if i < old_receipts.len() {
                    assert(receipts@[i] == old_receipts[i]);
                } else {
                    assert(receipts@[j] == old_receipts[j]);
                }
            }
        }
        self.receipts = receipts;
        Ok(())
    }

    /// A copy of the receipt for `key`.
    pub fn get(&self, key: &IdempotencyKey) -> (r: ReceiptResult<Option<Receipt>>)
        ensures
            has_receipt(self.receipts(), key@) ==> r == Ok::<Option<Receipt>, ReceiptStoreError>(
                Some(receipt_for(self.receipts(), key@)),
            ),
            !has_receipt(self.receipts(), key@) ==> r == Ok::<Option<Receipt>, ReceiptStoreError>(
                None,
            ),
    {
        match self.find(key) {
            Some(i) => Ok(Some(self.receipts[i].clone())),
            None => Ok(None),
        }
    }

    pub fn contains(&self, key: &IdempotencyKey) -> (r: ReceiptResult<bool>)
        ensures
            r == Ok::<bool, ReceiptStoreError>(has_receipt(self.receipts(), key@)),
    {
        Ok(self.find(key).is_some())
    }

    /// Drop the receipt for `key`; an error when there is none.
    pub fn remove(&mut self, key: &IdempotencyKey) -> (r: ReceiptResult<()>)
        ensures
            has_receipt(old(self).receipts(), key@) ==> r is Ok && final(self).receipts()
                == receipts_without(old(self).receipts(), key@),
            !has_receipt(old(self).receipts(), key@) ==> (r matches Err(
                ReceiptStoreError::Internal(m),
            ) && m@ == "Key not found: "@ + key@) && final(self).receipts() == old(self).receipts(),
    {
        proof {
            use_type_invariant(&*self);
        }
        if self.find(key).is_none() {
            let mut m = String::from_str("Key not found: ");
            m.append(key.as_str());
            return Err(ReceiptStoreError::Internal(m));
        }
        let mut kept: Vec<Receipt> = Vec::new();
        let mut i: usize = 0;
        while i < self.receipts.len()
            invariant
                i <= self.receipts@.len(),
                unique_keys(self.receipts@),
                kept@ == receipts_without(self.receipts@.subrange(0, i as int), key@),
                unique_keys(kept@),
                forall|t: int|
                    0 <= t < kept@.len() ==> exists|j: int|
                        0 <= j < i && (#[trigger] kept@[t]).key@ == self.receipts@[j].key@,
            decreases self.receipts@.len() - i,
        {
            assert(self.receipts@.subrange(0, i as int + 1).drop_last() =~= self.receipts@.subrange(
                0,
                i as int,
            ));
            if !key_eq(&self.receipts[i].key, key) {
                let ghost old_kept = kept@;
                let r = self.receipts[i].clone();
                kept.push(r);
                proof {
                    assert forall|t: int| 0 <= t < old_kept.len() implies (#[trigger] old_kept[t]).key@
                        != self.receipts@[i as int].key@ by {
                        let j = choose|j: int| 0 <= j < i && old_kept[t].key@ == self.receipts@[j].key@;
                        assert(self.receipts@[j].key@ != self.receipts@[i as int].key@);
                    }
                    assert forall|a: int, b: int|
                        0 <= a < kept@.len() && 0 <= b < kept@.len() && a != b implies (#[trigger] kept@[a]).key@
                            != (#[trigger] kept@[b]).key@ by {
                        if a < old_kept.len() && b < old_kept.len() {
                            assert(kept@[a] == old_kept[a] && kept@[b] == old_kept[b]);
                        } else if a < old_kept.len() {
                            assert(kept@[a] == old_kept[a]);
                        } else {
                            assert(kept@[b] == old_kept[b]);
                        }
                    }
                    assert forall|t: int| 0 <= t < kept@.len() implies exists|j: int|
                        0 <= j < i + 1 && (#[trigger] kept@[t]).key@ == self.receipts@[j].key@ by {
                        if t < old_kept.len() {
                            assert(kept@[t] == old_kept[t]);
                            let j = choose|j: int| 0 <= j < i && old_kept[t].key@ == self.receipts@[j].key@;
                        } else {
                            assert(kept@[t].key@ == self.receipts@[i as int].key@);
                        }
                    }
                }
            }
            i = i + 1;
        }
        assert(self.receipts@.subrange(0, i as int) =~= self.receipts@);
        self.receipts = kept;
        Ok(())
    }

    pub fn len(&self) -> (r: ReceiptResult<usize>)
        ensures
            r == Ok::<usize, ReceiptStoreError>(self.receipts().len() as usize),
    {
        Ok(self.receipts.len())
    }

    pub fn is_empty(&self) -> (r: ReceiptResult<bool>)
        ensures
            r == Ok::<bool, ReceiptStoreError>(self.receipts().len() == 0),
    {
        Ok(self.receipts.len() == 0)
    }
}

impl Default for InMemoryReceiptStore {
    fn default() -> (s: Self)
        ensures
            s.receipts().len() == 0,
    {
        Self::new()
    }
}

} // verus!
