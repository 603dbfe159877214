//! What a ledger endpoint reports about one transaction, and the balance
//! effect that a transaction has on one account.

use vstd::prelude::*;

verus! {

/// Transfer type of an account that is not among a transaction's participants.
pub const TRANSFER_UNKNOWN: i16 = 0;

/// Transfer type of a transaction that increased the account's balance.
pub const TRANSFER_CREDIT: i16 = 1;

/// Transfer type of a transaction that decreased the balance or left it unchanged.
pub const TRANSFER_DEBIT: i16 = 2;

/// The effect of one transaction on one account's balance.
#[derive(Debug, Clone, Copy, PartialEq, Eq, Structural)]
pub struct Balance {
    pub balance_before: u64,
    pub balance_after: u64,
    pub transaction_type: i16,
}

/// Why no balance effect or balance record could be derived from a transaction.
#[derive(Debug, Clone, Copy, PartialEq, Eq, Structural)]
pub enum ExtractError {
    /// The endpoint reported the transaction without its metadata.
    MissingMeta,
    /// The transaction's account table could not be decoded.
    UndecodableTransaction,
    /// The account is a participant, but a balance array has no entry at its position.
    MissingBalance,
    /// The endpoint reported no block time.
    MissingBlockTime,
    /// The block time lies outside the calendar.
    BlockTimeOutOfRange,
}

/// Why the ledger endpoint gave no answer.
#[derive(Debug, Clone, Copy, PartialEq, Eq, Structural)]
pub enum AdapterError {
    /// The endpoint could not be reached.
    Transport,
    /// The endpoint's answer could not be decoded.
    Decode,
    /// The endpoint does not know the transaction.
    NotFound,
}

/// Fee and balances that the ledger reports for a transaction. The balance
/// arrays are ordered like the transaction's account table.
#[derive(Debug, Clone, PartialEq, Eq)]
pub struct TransactionMeta {
    pub fee: u64,
    pub pre_balances: Vec<u64>,
    pub post_balances: Vec<u64>,
}

pub struct TransactionMetaView {
    pub fee: u64,
    pub pre_balances: Seq<u64>,
    pub post_balances: Seq<u64>,
}

impl View for TransactionMeta {
    type V = TransactionMetaView;

    open spec fn view(&self) -> TransactionMetaView {
        TransactionMetaView {
            fee: self.fee,
            pre_balances: self.pre_balances@,
            post_balances: self.post_balances@,
        }
    }
}

/// Full detail of one transaction as fetched from the ledger. Each part may be
/// absent upstream: `account_keys` is `None` when the transaction body could
/// not be decoded.
#[derive(Debug, Clone, PartialEq, Eq)]
pub struct TransactionDetail {
    pub block_time: Option<i64>,
    pub meta: Option<TransactionMeta>,
    pub account_keys: Option<Vec<String>>,
}

pub struct TransactionDetailView {
    pub block_time: Option<i64>,
    pub meta: Option<TransactionMetaView>,
    pub account_keys: Option<Seq<Seq<char>>>,
}

impl View for TransactionDetail {
    type V = TransactionDetailView;

    open spec fn view(&self) -> TransactionDetailView {
        TransactionDetailView {
            block_time: self.block_time,
            meta: match self.meta {
                Some(meta) => Some(meta@),
                None => None,
            },
            account_keys: match self.account_keys {
                Some(keys) => Some(keys.deep_view()),
                None => None,
            },
        }
    }
}

/// The balance effect recorded for an account that takes no part in a transaction.
pub open spec fn not_participant() -> Balance {
    Balance { balance_before: 0, balance_after: 0, transaction_type: TRANSFER_UNKNOWN }
}

/// Credit when the balance grew, debit otherwise.
pub open spec fn transfer_type_of(before: u64, after: u64) -> i16 {
    if before < after {
        TRANSFER_CREDIT
    } else {
        TRANSFER_DEBIT
    }
}

/// `position` is the first place at which `address` stands in `keys`.
pub open spec fn is_first_position(
    keys: Seq<Seq<char>>,
    address: Seq<char>,
    position: int,
) -> bool {
    &&& 0 <= position < keys.len()
    &&& keys[position] == address
    &&& forall|earlier: int| 0 <= earlier < position ==> keys[earlier] != address
}

/// The first place at which `address` stands in `keys`, if it stands there at all.
pub open spec fn participant_position(keys: Seq<Seq<char>>, address: Seq<char>) -> Option<int> {
    if exists|position: int| is_first_position(keys, address, position) {
        Some(choose|position: int| is_first_position(keys, address, position))
    } else {
        None
    }
}

/// The balance effect of a transaction on `address`: the entries of the
/// reported balance arrays at the address's first position in the account
/// table, or the zero sentinel when the address is no participant.
pub open spec fn balance_at(transaction: TransactionDetailView, address: Seq<char>) -> Result<
    Balance,
    ExtractError,
> {
    match (transaction.meta, transaction.account_keys) {
        (None, _) => Err(ExtractError::MissingMeta),
        (Some(_), None) => Err(ExtractError::UndecodableTransaction),
        (Some(meta), Some(keys)) => match participant_position(keys, address) {
            None => Ok(not_participant()),
            Some(position) => if position < meta.pre_balances.len() && position
                < meta.post_balances.len() {
                Ok(
                    Balance {
                        balance_before: meta.pre_balances[position],
                        balance_after: meta.post_balances[position],
                        transaction_type: transfer_type_of(
                            meta.pre_balances[position],
                            meta.post_balances[position],
                        ),
                    },
                )
            } else {
                Err(ExtractError::MissingBalance)
            },
        },
    }
}

/// A first position, once found, is the participant position.
pub proof fn lemma_participant_position(keys: Seq<Seq<char>>, address: Seq<char>, position: int)
    requires
        is_first_position(keys, address, position),
    ensures
        participant_position(keys, address) == Some(position),
{
    let chosen = choose|p: int| is_first_position(keys, address, p);
    assert(is_first_position(keys, address, chosen));
    if chosen < position {
        assert(keys[chosen] != address);
    } else if position < chosen {
        assert(keys[position] != address);
    }
}

/// An address that stands nowhere in the account table has no participant position.
pub proof fn lemma_absent_has_no_position(keys: Seq<Seq<char>>, address: Seq<char>)
    requires
        forall|i: int| 0 <= i < keys.len() ==> keys[i] != address,
    ensures
        participant_position(keys, address) is None,
{
}

/// An account that takes no part in a transaction gets the zero sentinel of
/// unknown transfer type, and no error, provided the transaction came with its
/// metadata and a decodable account table.
pub proof fn law_absent_address_gives_sentinel(
    transaction: TransactionDetailView,
    address: Seq<char>,
)
    requires
        transaction.meta is Some,
        transaction.account_keys is Some,
        !transaction.account_keys.unwrap().contains(address),
    ensures
        balance_at(transaction, address) == Ok::<Balance, ExtractError>(
            Balance { balance_before: 0, balance_after: 0, transaction_type: TRANSFER_UNKNOWN },
        ),
{
    let keys = transaction.account_keys.unwrap();
    assert forall|i: int| 0 <= i < keys.len() implies keys[i] != address by {
        if keys[i] == address {
            assert(keys.contains(address));
        }
    }
    lemma_absent_has_no_position(keys, address);
}

/// A participant's balances are read off the ledger's balance arrays at the
/// participant's first position in the account table, and the transfer is a
/// credit exactly when the balance grew.
pub proof fn law_participant_balances_are_read_at_position(
    transaction: TransactionDetailView,
    address: Seq<char>,
    position: int,
)
    requires
        transaction.meta is Some,
        transaction.account_keys is Some,
        is_first_position(transaction.account_keys.unwrap(), address, position),
        position < transaction.meta.unwrap().pre_balances.len(),
        position < transaction.meta.unwrap().post_balances.len(),
    ensures
        balance_at(transaction, address) matches Ok(balance) && {
            &&& balance.balance_before == transaction.meta.unwrap().pre_balances[position]
            &&& balance.balance_after == transaction.meta.unwrap().post_balances[position]
            &&& balance.transaction_type == TRANSFER_CREDIT <==> balance.balance_after
                > balance.balance_before
            &&& balance.transaction_type == TRANSFER_DEBIT <==> balance.balance_after
                <= balance.balance_before
        },
{
    lemma_participant_position(transaction.account_keys.unwrap(), address, position);
}

/// Derives the balance effect of `transaction` on the account `address`.
///
/// The address is looked up in the account table by exact match. Missing
/// metadata, an undecodable account table, and a balance array too short for
/// the address's position are errors; an address that is no participant gives
/// the zero sentinel of type `TRANSFER_UNKNOWN`.
pub fn get_balance_at_signature(transaction: &TransactionDetail, address: &String) -> (outcome:
    Result<Balance, ExtractError>)
    ensures
        outcome == balance_at(transaction@, address@),
{
    let meta = match &transaction.meta {
        Some(meta) => meta,
        None => {
            return Err(ExtractError::MissingMeta);
        },
    };
    let keys = match &transaction.account_keys {
        Some(keys) => keys,
        None => {
            return Err(ExtractError::UndecodableTransaction);
        },
    };
    let ghost key_texts = keys.deep_view();
    let mut index: usize = 0;
    while index < keys.len()
        invariant
            index <= keys.len(),
            key_texts == keys.deep_view(),
            transaction@.meta == Some(meta@),
            transaction@.account_keys == Some(key_texts),
            forall|earlier: int| 0 <= earlier < index ==> key_texts[earlier] != address@,
        decreases keys.len() - index,
    {
        if keys[index] == *address {
            proof {
                lemma_participant_position(key_texts, address@, index as int);
            }
            if index < meta.pre_balances.len() && index < meta.post_balances.len() {
                let balance_before = meta.pre_balances[index];
                let balance_after = meta.post_balances[index];
                let transaction_type = if balance_before < balance_after {
                    TRANSFER_CREDIT
                } else {
                    TRANSFER_DEBIT
                };
                return Ok(Balance { balance_before, balance_after, transaction_type });
            }
            return Err(ExtractError::MissingBalance);
        }
        index += 1;
    }
    proof {
        lemma_absent_has_no_position(key_texts, address@);
    }
    Ok(Balance { balance_before: 0, balance_after: 0, transaction_type: TRANSFER_UNKNOWN })
}

/// Page size that every request after the first asks for.
pub const PAGE_LIMIT: usize = 1000;

/// One request for a page of an account's transaction references, most recent
/// first. `before` is the reference after which the page starts; without it
/// the page starts at the most recent transaction. Without `limit` the
/// endpoint applies its own page size. `confirmed` asks for the confirmed
/// commitment level in place of the endpoint's default.
#[derive(Debug, Clone, PartialEq, Eq)]
pub struct SignatureRequest {
    pub before: Option<String>,
    pub limit: Option<usize>,
    pub confirmed: bool,
}

pub struct SignatureRequestView {
    pub before: Option<Seq<char>>,
    pub limit: Option<usize>,
    pub confirmed: bool,
}

impl View for SignatureRequest {
    type V = SignatureRequestView;

    open spec fn view(&self) -> SignatureRequestView {
        SignatureRequestView {
            before: match self.before {
                Some(reference) => Some(reference@),
                None => None,
            },
            limit: self.limit,
            confirmed: self.confirmed,
        }
    }
}

/// `collected` with `reference` appended, unless it is already there or the
/// bound `max` is reached.
pub open spec fn stitch_one(collected: Seq<Seq<char>>, reference: Seq<char>, max: nat) -> Seq<
    Seq<char>,
> {
    if collected.len() < max && !collected.contains(reference) {
        collected.push(reference)
    } else {
        collected
    }
}

/// `collected` followed by the references of `page` that are new, in page
/// order, as far as the bound `max` allows.
pub open spec fn stitch(collected: Seq<Seq<char>>, page: Seq<Seq<char>>, max: nat) -> Seq<
    Seq<char>,
>
    decreases page.len(),
{
    if page.len() == 0 {
        collected
    } else {
        stitch_one(stitch(collected, page.drop_last(), max), page.last(), max)
    }
}

/// What a pager knows: the references collected so far, the bound on their
/// number, and whether the last page brought nothing new.
pub struct PagerView {
    pub collected: Seq<Seq<char>>,
    pub max_length: nat,
    pub exhausted: bool,
}

/// The request that continues a pagination in the given state, if any.
///
/// Nothing is asked for once the bound is reached or a page brought nothing
/// new. The first request names no cursor and leaves the page size to the
/// endpoint; each later one starts behind the oldest reference collected, with
/// the page size capped at `PAGE_LIMIT` and confirmed commitment.
pub open spec fn request_after(pager: PagerView) -> Option<SignatureRequestView> {
    if pager.exhausted || pager.collected.len() >= pager.max_length {
        None
    } else if pager.collected.len() == 0 {
        Some(SignatureRequestView { before: None, limit: None, confirmed: false })
    } else {
        Some(
            SignatureRequestView {
                before: Some(pager.collected.last()),
                limit: Some(PAGE_LIMIT),
                confirmed: true,
            },
        )
    }
}

/// The state of a pagination after `page` has arrived.
pub open spec fn pager_after(pager: PagerView, page: Seq<Seq<char>>) -> PagerView {
    let collected = stitch(pager.collected, page, pager.max_length);
    PagerView {
        collected,
        max_length: pager.max_length,
        exhausted: collected.len() == pager.collected.len(),
    }
}

/// Stitching never loses a reference, and stays within a bound that held before.
pub proof fn lemma_stitch_length(collected: Seq<Seq<char>>, page: Seq<Seq<char>>, max: nat)
    ensures
        collected.len() <= stitch(collected, page, max).len(),
        collected.len() <= max ==> stitch(collected, page, max).len() <= max,
    decreases page.len(),
{
    if page.len() > 0 {
        lemma_stitch_length(collected, page.drop_last(), max);
    }
}

/// Stitching keeps what was collected as a prefix, adds no duplicate and
/// respects the bound.
pub proof fn lemma_stitch_invariants(collected: Seq<Seq<char>>, page: Seq<Seq<char>>, max: nat)
    requires
        collected.no_duplicates(),
        collected.len() <= max,
    ensures
        stitch(collected, page, max).no_duplicates(),
        stitch(collected, page, max).len() <= max,
        collected.len() <= stitch(collected, page, max).len(),
        stitch(collected, page, max).subrange(0, collected.len() as int) == collected,
        forall|i: int|
            collected.len() <= i < stitch(collected, page, max).len() ==> page.contains(
                #[trigger] stitch(collected, page, max)[i],
            ),
    decreases page.len(),
{
    if page.len() == 0 {
        assert(collected.subrange(0, collected.len() as int) =~= collected);
    } else {
        let shorter = page.drop_last();
        lemma_stitch_invariants(collected, shorter, max);
        let before = stitch(collected, shorter, max);
        let after = stitch(collected, page, max);
        assert(after.subrange(0, collected.len() as int) =~= before.subrange(
            0,
            collected.len() as int,
        ));
        assert forall|i: int| collected.len() <= i < after.len() implies page.contains(
            #[trigger] after[i],
        ) by {
            if i < before.len() {
                assert(shorter.contains(before[i]));
                let j = choose|j: int| 0 <= j < shorter.len() && shorter[j] == before[i];
                assert(page[j] == after[i]);
            } else {
                assert(page[page.len() - 1] == after[i]);
            }
        }
    }
}

/// Walks the references of an account page by page, keeping each reference
/// once and never more than a given number of them.
#[derive(Debug)]
pub struct SignaturePager {
    signatures: Vec<String>,
    max_length: usize,
    exhausted: bool,
}

impl View for SignaturePager {
    type V = PagerView;

    closed spec fn view(&self) -> PagerView {
        PagerView {
            collected: self.signatures.deep_view(),
            max_length: self.max_length as nat,
            exhausted: self.exhausted,
        }
    }
}

/// Whether `reference` is among `signatures`.
fn holds_reference(signatures: &Vec<String>, reference: &String) -> (found: bool)
    ensures
        found == signatures.deep_view().contains(reference@),
{
    let mut index: usize = 0;
    while index < signatures.len()
        invariant
            index <= signatures.len(),
            forall|earlier: int|
                0 <= earlier < index ==> signatures.deep_view()[earlier] != reference@,
        decreases signatures.len() - index,
    {
        if signatures[index] == *reference {
            assert(signatures.deep_view()[index as int] == reference@);
            return true;
        }
        index += 1;
    }
    false
}

impl SignaturePager {
    #[verifier::type_invariant]
    spec fn well_formed(self) -> bool {
        &&& self.signatures.deep_view().no_duplicates()
        &&& self.signatures.len() <= self.max_length
    }

    /// A pagination that has collected nothing yet and will stop at
    /// `max_length` references.
    pub fn new(max_length: usize) -> (pager: SignaturePager)
        ensures
            pager@ == (PagerView {
                collected: Seq::empty(),
                max_length: max_length as nat,
                exhausted: false,
            }),
    {
        let pager = SignaturePager { signatures: Vec::new(), max_length, exhausted: false };
        assert(pager.signatures.deep_view() =~= Seq::empty());
        pager
    }

    /// The request to send next, or `None` when the pagination is complete.
    pub fn next_request(&self) -> (request: Option<SignatureRequest>)
        ensures
            request.is_some() == request_after(self@).is_some(),
            request matches Some(r) ==> Some(r@) == request_after(self@),
    {
        let count = self.signatures.len();
        if self.exhausted || count >= self.max_length {
            None
        } else if count == 0 {
            Some(SignatureRequest { before: None, limit: None, confirmed: false })
        } else {
            let oldest = self.signatures[count - 1].clone();
            Some(
                SignatureRequest { before: Some(oldest), limit: Some(PAGE_LIMIT), confirmed: true },
            )
        }
    }

    /// The references collected so far, most recent first: no reference twice,
    /// and no more of them than the bound.
    pub fn signatures(&self) -> (collected: &Vec<String>)
        ensures
            collected.deep_view() == self@.collected,
            self@.collected.no_duplicates(),
            self@.collected.len() <= self@.max_length,
    {
        proof {
            use_type_invariant(self);
        }
        &self.signatures
    }

    /// Ends the pagination and hands out what it collected.
    pub fn into_signatures(self) -> (collected: Vec<String>)
        ensures
            collected.deep_view() == self@.collected,
            self@.collected.no_duplicates(),
            self@.collected.len() <= self@.max_length,
    {
        proof {
            use_type_invariant(&self);
        }
        self.signatures
    }
}

/// Takes in one page of references fetched for an account and says what to
/// fetch next.
///
/// The references of `page` that the pager does not hold yet are appended in
/// page order, up to the pager's bound. Beside the pager comes the request for
/// the next page; it is `None` when the bound is reached or the page brought
/// nothing new, which ends the pagination.
pub fn get_signatures_for_address(pager: SignaturePager, page: &Vec<String>) -> (next: (
    SignaturePager,
    Option<SignatureRequest>,
))
    ensures
        next.0@ == pager_after(pager@, page.deep_view()),
        next.0@.collected.no_duplicates(),
        next.0@.collected.len() <= next.0@.max_length,
        next.1.is_some() == request_after(next.0@).is_some(),
        next.1 matches Some(r) ==> Some(r@) == request_after(next.0@),
{
    proof {
        use_type_invariant(&pager);
    }
    let ghost start = pager@;
    let ghost texts = page.deep_view();
    let SignaturePager { signatures, max_length, exhausted: _ } = pager;
    let mut signatures = signatures;
    let count_before = signatures.len();
    let mut index: usize = 0;
    while index < page.len()
        invariant
            index <= page.len(),
            texts == page.deep_view(),
            max_length == start.max_length,
            signatures.deep_view() == stitch(
                start.collected,
                texts.take(index as int),
                start.max_length,
            ),
            signatures.deep_view().no_duplicates(),
            signatures.len() <= max_length,
            count_before <= signatures.len(),
            count_before == start.collected.len(),
        decreases page.len() - index,
    {
        let ghost held = signatures.deep_view();
        assert(texts.take(index as int + 1).drop_last() =~= texts.take(index as int));
        assert(texts.take(index as int + 1).last() == texts[index as int]);
        if signatures.len() < max_length && !holds_reference(&signatures, &page[index]) {
            signatures.push(page[index].clone());
            assert(signatures.deep_view() =~= held.push(texts[index as int]));
            assert forall|i: int, j: int|
                0 <= i < held.len() + 1 && 0 <= j < held.len() + 1 && i != j implies held.push(
                texts[index as int],
            )[i] != held.push(texts[index as int])[j] by {
                if i < held.len() && j < held.len() {
                } else if i < held.len() {
                    assert(held.contains(held[i]));
                } else {
                    assert(held.contains(held[j]));
                }
            }
        }
        index += 1;
    }
    assert(texts.take(page.len() as int) =~= texts);
    let exhausted = signatures.len() == count_before;
    let pager = SignaturePager { signatures, max_length, exhausted };
    let request = pager.next_request();
    (pager, request)
}

} // verus!
