//! Stateless block execution: transactions are planned one by one, each plan
//! is applied to the running state root, and the post-state and receipts
//! roots are compared against what the header commits to.

use vstd::prelude::*;
use vstd::string::StringSliceAdditionalSpecFns;

use crate::hashing::{
    copy_bytes, extend_bytes, extend_u64_be, lemma_framed_distinct, sha256, spec_len_be, spec_sha256,
};
use crate::primitives::{roots_equal, PrimitiveError, Root, StateMetadata};
use crate::seq_util::{lemma_distinct_after_prefix, lemma_distinct_at, lemma_distinct_before_suffix};
use crate::state::{StateError, StatePatch, StateTransitionApplier, StateTransitionOutcome};
use crate::transactions::{spec_envelope_root, TransactionEnvelope};

verus! {

/// The status and output of one executed transaction.
#[derive(Debug, Clone, PartialEq, Eq, Default)]
pub struct ExecutionReceipt {
    pub status_code: u8,
    pub output: Vec<u8>,
}

/// The domain tag of receipt roots.
pub open spec fn receipt_root_tag() -> Seq<u8> {
    "shell-execution/receipt-v1".spec_bytes()
}

/// The domain tag of receipts roots.
pub open spec fn receipts_root_tag() -> Seq<u8> {
    "shell-execution/receipts-root-v1".spec_bytes()
}

/// The root of one receipt: the digest of its tag, status code, output length
/// and output.
pub open spec fn spec_receipt_root(receipt: ExecutionReceipt) -> Seq<u8> {
    spec_sha256(
        receipt_root_tag() + seq![receipt.status_code] + spec_len_be(receipt.output@.len())
            + receipt.output@,
    )
}

/// The receipt roots of the first `n` receipts, concatenated.
pub open spec fn spec_concat_receipt_roots(receipts: Seq<ExecutionReceipt>, n: nat) -> Seq<u8>
    decreases n,
{
    if n == 0 || n > receipts.len() {
        Seq::empty()
    } else {
        spec_concat_receipt_roots(receipts, (n - 1) as nat) + spec_receipt_root(receipts[n - 1])
    }
}

/// The root of a receipt list: the digest of its tag, the receipt count and
/// every receipt root in order.
pub open spec fn spec_receipts_root(receipts: Seq<ExecutionReceipt>) -> Seq<u8> {
    spec_sha256(
        receipts_root_tag() + spec_len_be(receipts.len()) + spec_concat_receipt_roots(
            receipts,
            receipts.len(),
        ),
    )
}

impl ExecutionReceipt {
    /// The root of this receipt.
    pub fn canonical_root(&self) -> (root: Root)
        ensures
            root@ == spec_receipt_root(*self),
    {
        let mut bytes: Vec<u8> = Vec::new();
        extend_bytes(&mut bytes, "shell-execution/receipt-v1".as_bytes());
        bytes.push(self.status_code);
        extend_u64_be(&mut bytes, self.output.len() as u64);
        extend_bytes(&mut bytes, self.output.as_slice());
        assert(bytes@ =~= receipt_root_tag() + seq![self.status_code] + spec_len_be(
            self.output@.len(),
        ) + self.output@);
        sha256(bytes.as_slice())
    }
}

/// A receipt root commits to the status code: receipts with the same output
/// and different status codes have roots that are digests of different byte
/// strings, in which the status code is the byte right after the tag. So a
/// successful and a failed receipt never share a root unless SHA-256
/// collides.
pub proof fn lemma_receipt_root_commits_to_status(a: ExecutionReceipt, b: ExecutionReceipt)
    requires
        a.output@ == b.output@,
        a.status_code != b.status_code,
    ensures
        exists|pa: Seq<u8>, pb: Seq<u8>|
            #![trigger spec_sha256(pa), spec_sha256(pb)]
            spec_receipt_root(a) == spec_sha256(pa) && spec_receipt_root(b) == spec_sha256(pb)
                && pa != pb && pa[receipt_root_tag().len() as int] == a.status_code
                && pb[receipt_root_tag().len() as int] == b.status_code,
{
    let tail = spec_len_be(a.output@.len()) + a.output@;
    let pa = receipt_root_tag() + seq![a.status_code] + spec_len_be(a.output@.len()) + a.output@;
    let pb = receipt_root_tag() + seq![b.status_code] + spec_len_be(b.output@.len()) + b.output@;
    assert(pa =~= (receipt_root_tag() + seq![a.status_code]) + tail);
    assert(pb =~= (receipt_root_tag() + seq![b.status_code]) + tail);
    assert(seq![a.status_code] != seq![b.status_code]) by {
        lemma_distinct_at(seq![a.status_code], seq![b.status_code], 0);
    }
    lemma_distinct_after_prefix(receipt_root_tag(), seq![a.status_code], seq![b.status_code]);
    lemma_distinct_before_suffix(
        receipt_root_tag() + seq![a.status_code],
        receipt_root_tag() + seq![b.status_code],
        tail,
    );
    assert(pa[receipt_root_tag().len() as int] == a.status_code);
    assert(pb[receipt_root_tag().len() as int] == b.status_code);
    assert(spec_receipt_root(a) == spec_sha256(pa));
    assert(spec_receipt_root(b) == spec_sha256(pb));
}

/// A receipt root commits to the output: receipts with the same status
/// code and different outputs have roots that are digests of different byte
/// strings.
pub proof fn lemma_receipt_root_commits_to_output(a: ExecutionReceipt, b: ExecutionReceipt)
    requires
        a.status_code == b.status_code,
        a.output@ != b.output@,
        a.output@.len() <= u64::MAX,
        b.output@.len() <= u64::MAX,
    ensures
        exists|pa: Seq<u8>, pb: Seq<u8>|
            #![trigger spec_sha256(pa), spec_sha256(pb)]
            spec_receipt_root(a) == spec_sha256(pa) && spec_receipt_root(b) == spec_sha256(pb)
                && pa != pb,
{
    let prefix = receipt_root_tag() + seq![a.status_code];
    let pa = receipt_root_tag() + seq![a.status_code] + spec_len_be(a.output@.len()) + a.output@;
    let pb = receipt_root_tag() + seq![b.status_code] + spec_len_be(b.output@.len()) + b.output@;
    assert(pa =~= prefix + spec_len_be(a.output@.len()) + a.output@ + Seq::<u8>::empty());
    assert(pb =~= prefix + spec_len_be(b.output@.len()) + b.output@ + Seq::<u8>::empty());
    lemma_framed_distinct(prefix, a.output@, b.output@, Seq::empty(), Seq::empty());
    assert(spec_receipt_root(a) == spec_sha256(pa));
    assert(spec_receipt_root(b) == spec_sha256(pb));
}

/// Receipt lists that agree on their first `k` receipts concatenate the
/// same roots for them.
proof fn lemma_concat_receipt_roots_agree(first: Seq<ExecutionReceipt>, second: Seq<ExecutionReceipt>, k: nat)
    requires
        k <= first.len(),
        k <= second.len(),
        forall|i: int| 0 <= i < k ==> first[i] == second[i],
    ensures
        spec_concat_receipt_roots(first, k) == spec_concat_receipt_roots(second, k),
    decreases k,
{
    if k > 0 {
        lemma_concat_receipt_roots_agree(first, second, (k - 1) as nat);
        assert(first[k - 1] == second[k - 1]);
    }
}

/// Receipt lists that differ only in receipt `j`, whose roots differ,
/// concatenate different roots once `j` is among the first `n`.
proof fn lemma_concat_receipt_roots_differ(
    first: Seq<ExecutionReceipt>,
    second: Seq<ExecutionReceipt>,
    j: int,
    n: nat,
)
    requires
        0 <= j < n,
        n <= first.len(),
        n <= second.len(),
        forall|i: int| 0 <= i < n && i != j ==> first[i] == second[i],
        spec_receipt_root(first[j]) != spec_receipt_root(second[j]),
    ensures
        spec_concat_receipt_roots(first, n) != spec_concat_receipt_roots(second, n),
    decreases n,
{
    if n == j + 1 {
        lemma_concat_receipt_roots_agree(first, second, j as nat);
        lemma_distinct_after_prefix(
            spec_concat_receipt_roots(first, j as nat),
            spec_receipt_root(first[j]),
            spec_receipt_root(second[j]),
        );
    } else {
        lemma_concat_receipt_roots_differ(first, second, j, (n - 1) as nat);
        assert(first[n - 1] == second[n - 1]);
        lemma_distinct_before_suffix(
            spec_concat_receipt_roots(first, (n - 1) as nat),
            spec_concat_receipt_roots(second, (n - 1) as nat),
            spec_receipt_root(first[n - 1]),
        );
    }
}

/// The receipts root commits to every receipt: two receipt lists that
/// differ only in one receipt, whose receipt roots differ, have roots that
/// are digests of different byte strings. With
/// `lemma_receipt_root_commits_to_status`, a block whose receipts flip a
/// status code does not match the committed receipts root unless SHA-256
/// collides.
pub proof fn lemma_receipts_root_commits_to_receipts(
    first: Seq<ExecutionReceipt>,
    second: Seq<ExecutionReceipt>,
    j: int,
)
    requires
        first.len() == second.len(),
        0 <= j < first.len(),
        forall|i: int| 0 <= i < first.len() && i != j ==> first[i] == second[i],
        spec_receipt_root(first[j]) != spec_receipt_root(second[j]),
    ensures
        exists|p1: Seq<u8>, p2: Seq<u8>|
            #![trigger spec_sha256(p1), spec_sha256(p2)]
            spec_receipts_root(first) == spec_sha256(p1) && spec_receipts_root(second)
                == spec_sha256(p2) && p1 != p2,
{
    lemma_concat_receipt_roots_differ(first, second, j, first.len());
    let prefix = receipts_root_tag() + spec_len_be(first.len());
    let p1 = prefix + spec_concat_receipt_roots(first, first.len());
    let p2 = prefix + spec_concat_receipt_roots(second, second.len());
    lemma_distinct_after_prefix(
        prefix,
        spec_concat_receipt_roots(first, first.len()),
        spec_concat_receipt_roots(second, second.len()),
    );
    assert(spec_receipts_root(first) == spec_sha256(p1));
    assert(spec_receipts_root(second) == spec_sha256(p2));
}

/// Computes the root of a receipt list.
pub fn compute_receipts_root(receipts: &[ExecutionReceipt]) -> (root: Root)
    ensures
        root@ == spec_receipts_root(receipts@),
{
    let mut roots: Vec<u8> = Vec::new();
    let mut i: usize = 0;
    while i < receipts.len()
        invariant
            0 <= i <= receipts@.len(),
            roots@ == spec_concat_receipt_roots(receipts@, i as nat),
        decreases receipts@.len() - i,
    {
        let receipt_root = receipts[i].canonical_root();
        extend_bytes(&mut roots, receipt_root.as_slice());
        i += 1;
    }
    let mut bytes: Vec<u8> = Vec::new();
    extend_bytes(&mut bytes, "shell-execution/receipts-root-v1".as_bytes());
    extend_u64_be(&mut bytes, receipts.len() as u64);
    extend_bytes(&mut bytes, roots.as_slice());
    sha256(bytes.as_slice())
}

/// Failures of block execution.
#[derive(Debug, Clone, Copy, PartialEq, Eq)]
pub enum ExecutionError {
    TransactionRoot(PrimitiveError),
    StateTransition(StateError),
    Executor(&'static str),
    PostStateRootMismatch { expected: Root, actual: Root },
    ReceiptsRootMismatch { expected: Root, actual: Root },
}

/// The executed form of one transaction.
#[derive(Debug, Clone, PartialEq, Eq)]
pub struct TransactionExecutionOutcome {
    pub transaction_root: Root,
    pub post_state_root: Root,
    pub receipt: ExecutionReceipt,
}

/// The executed form of a block.
#[derive(Debug, Clone, PartialEq, Eq)]
pub struct BlockExecutionOutcome {
    pub post_state_root: Root,
    pub receipts_root: Root,
    pub transaction_outcomes: Vec<TransactionExecutionOutcome>,
}

/// The roots a header commits execution to.
#[derive(Debug, Clone, Copy, PartialEq, Eq)]
pub struct CommittedExecutionRoots {
    pub state_root: Root,
    pub receipts_root: Root,
}

impl BlockExecutionOutcome {
    /// Checks the outcome against committed roots: the post-state root first,
    /// then the receipts root. Each mismatch reports the committed root as
    /// `expected` and the executed one as `actual`.
    pub fn ensure_matches(&self, committed_roots: &CommittedExecutionRoots) -> (result: Result<
        (),
        ExecutionError,
    >)
        ensures
            self.post_state_root != committed_roots.state_root ==> result == Err::<
                (),
                ExecutionError,
            >(
                ExecutionError::PostStateRootMismatch {
                    expected: committed_roots.state_root,
                    actual: self.post_state_root,
                },
            ),
            self.post_state_root == committed_roots.state_root && self.receipts_root
                != committed_roots.receipts_root ==> result == Err::<(), ExecutionError>(
                ExecutionError::ReceiptsRootMismatch {
                    expected: committed_roots.receipts_root,
                    actual: self.receipts_root,
                },
            ),
            result is Ok <==> (self.post_state_root == committed_roots.state_root
                && self.receipts_root == committed_roots.receipts_root),
    {
        if !roots_equal(&self.post_state_root, &committed_roots.state_root) {
            return Err(
                ExecutionError::PostStateRootMismatch {
                    expected: committed_roots.state_root,
                    actual: self.post_state_root,
                },
            );
        }
        if !roots_equal(&self.receipts_root, &committed_roots.receipts_root) {
            return Err(
                ExecutionError::ReceiptsRootMismatch {
                    expected: committed_roots.receipts_root,
                    actual: self.receipts_root,
                },
            );
        }
        Ok(())
    }
}

/// What executing one transaction does: a state patch and a receipt.
#[derive(Debug, Clone, PartialEq, Eq)]
pub struct TransactionExecutionPlan {
    pub state_patch: StatePatch,
    pub receipt: ExecutionReceipt,
}

/// Plans the execution of one transaction on a pre-state root; implemented by
/// callers.
pub trait TransactionExecutor {
    /// Whether planning `transaction` on `pre_state_root`, from this
    /// executor state, can give `result` and leave the executor as `after`.
    /// Left unknown unless an implementation defines it.
    closed spec fn plans(
        &self,
        pre_state_root: Root,
        transaction: TransactionEnvelope,
        result: Result<TransactionExecutionPlan, ExecutionError>,
        after: &Self,
    ) -> bool where Self: Sized {
        arbitrary()
    }

    fn execute_transaction(
        &mut self,
        pre_state_root: &Root,
        transaction: &TransactionEnvelope,
    ) -> (result: Result<TransactionExecutionPlan, ExecutionError>) where Self: Sized
        ensures
            old(self).plans(*pre_state_root, *transaction, result, final(self)),
    ;
}

/// The receipts of executed transactions, in order.
pub open spec fn outcome_receipts(outcomes: Seq<TransactionExecutionOutcome>) -> Seq<
    ExecutionReceipt,
> {
    outcomes.map_values(|o: TransactionExecutionOutcome| o.receipt)
}

/// The state root before transaction `i` of a block: the pre-state root for
/// the first, the previous transaction's post-state root otherwise.
pub open spec fn state_root_before(
    pre_state_root: Root,
    outcomes: Seq<TransactionExecutionOutcome>,
    i: int,
) -> Root {
    if i == 0 {
        pre_state_root
    } else {
        outcomes[i - 1].post_state_root
    }
}

/// Whether `outcome` is a well-formed execution of `transactions` from
/// `pre_state_root`: one outcome per transaction carrying its root, the final
/// root that of the last transaction (or the pre-state root for an empty
/// block), and the receipts root over the receipts in block order.
pub open spec fn executes_block(
    pre_state_root: Root,
    transactions: Seq<TransactionEnvelope>,
    outcome: BlockExecutionOutcome,
) -> bool {
    let outcomes = outcome.transaction_outcomes@;
    &&& outcomes.len() == transactions.len()
    &&& forall|i: int|
        0 <= i < transactions.len() ==> (#[trigger] outcomes[i]).transaction_root@
            == spec_envelope_root(transactions[i])
    &&& outcome.post_state_root == state_root_before(
        pre_state_root,
        outcomes,
        outcomes.len() as int,
    )
    &&& outcome.receipts_root@ == spec_receipts_root(outcome_receipts(outcomes))
}

/// A state that execution reads: account metadata and its root; implemented
/// by callers.
pub trait ExecutionStateView: StateMetadata {
    fn state_root(&self) -> Root;
}

/// Whether the first `k` transactions of a block ran: executor state `i`
/// planned transaction `i` on the running root into `plans[i]`, applier
/// state `i` applied that plan's patch on the same root and reached
/// `outcomes[i].post_state_root`, and outcome `i` carries the transaction's
/// root and the plan's receipt.
pub open spec fn steps_ran<X: TransactionExecutor, A: StateTransitionApplier>(
    pre_state_root: Root,
    transactions: Seq<TransactionEnvelope>,
    executors: Seq<X>,
    appliers: Seq<A>,
    plans: Seq<TransactionExecutionPlan>,
    outcomes: Seq<TransactionExecutionOutcome>,
    k: int,
) -> bool {
    &&& 0 <= k <= transactions.len()
    &&& executors.len() == k + 1
    &&& appliers.len() == k + 1
    &&& plans.len() == k
    &&& outcomes.len() == k
    &&& forall|i: int|
        #![trigger plans[i]]
        0 <= i < k ==> {
            &&& executors[i].plans(
                state_root_before(pre_state_root, outcomes, i),
                transactions[i],
                Ok(plans[i]),
                &executors[i + 1],
            )
            &&& appliers[i].applies(
                state_root_before(pre_state_root, outcomes, i),
                plans[i].state_patch,
                Ok(StateTransitionOutcome { post_state_root: outcomes[i].post_state_root }),
                &appliers[i + 1],
            )
            &&& outcomes[i].transaction_root@ == spec_envelope_root(transactions[i])
            &&& outcomes[i].receipt == plans[i].receipt
        }
}

/// Whether `outcome` is what running every transaction gave, from the given
/// executor and applier states to the final ones.
pub open spec fn block_ran<X: TransactionExecutor, A: StateTransitionApplier>(
    pre_state_root: Root,
    transactions: Seq<TransactionEnvelope>,
    executor_before: X,
    executor_after: X,
    applier_before: A,
    applier_after: A,
    outcome: BlockExecutionOutcome,
    executors: Seq<X>,
    appliers: Seq<A>,
    plans: Seq<TransactionExecutionPlan>,
) -> bool {
    &&& steps_ran(
        pre_state_root,
        transactions,
        executors,
        appliers,
        plans,
        outcome.transaction_outcomes@,
        transactions.len() as int,
    )
    &&& executors[0] == executor_before
    &&& executors[transactions.len() as int] == executor_after
    &&& appliers[0] == applier_before
    &&& appliers[transactions.len() as int] == applier_after
    &&& executes_block(pre_state_root, transactions, outcome)
}

/// Whether `error` is the executor's failure on transaction `k`, after the
/// transactions before it ran.
pub open spec fn executor_failed<X: TransactionExecutor, A: StateTransitionApplier>(
    pre_state_root: Root,
    transactions: Seq<TransactionEnvelope>,
    executor_before: X,
    executor_after: X,
    applier_before: A,
    applier_after: A,
    error: ExecutionError,
    executors: Seq<X>,
    appliers: Seq<A>,
    plans: Seq<TransactionExecutionPlan>,
    outcomes: Seq<TransactionExecutionOutcome>,
    k: int,
) -> bool {
    &&& k < transactions.len()
    &&& steps_ran(pre_state_root, transactions, executors, appliers, plans, outcomes, k)
    &&& executors[0] == executor_before
    &&& appliers[0] == applier_before
    &&& executors[k].plans(
        state_root_before(pre_state_root, outcomes, k),
        transactions[k],
        Err(error),
        &executor_after,
    )
    &&& appliers[k] == applier_after
}

/// Whether `error` is the applier's `failure` on the plan the executor gave
/// for transaction `k`, after the transactions before it ran.
pub open spec fn applier_failed<X: TransactionExecutor, A: StateTransitionApplier>(
    pre_state_root: Root,
    transactions: Seq<TransactionEnvelope>,
    executor_before: X,
    executor_after: X,
    applier_before: A,
    applier_after: A,
    error: ExecutionError,
    executors: Seq<X>,
    appliers: Seq<A>,
    plans: Seq<TransactionExecutionPlan>,
    outcomes: Seq<TransactionExecutionOutcome>,
    k: int,
    plan: TransactionExecutionPlan,
    failure: StateError,
) -> bool {
    &&& k < transactions.len()
    &&& steps_ran(pre_state_root, transactions, executors, appliers, plans, outcomes, k)
    &&& executors[0] == executor_before
    &&& appliers[0] == applier_before
    &&& executors[k].plans(
        state_root_before(pre_state_root, outcomes, k),
        transactions[k],
        Ok(plan),
        &executor_after,
    )
    &&& appliers[k].applies(
        state_root_before(pre_state_root, outcomes, k),
        plan.state_patch,
        Err(failure),
        &applier_after,
    )
    &&& error == ExecutionError::StateTransition(failure)
}

/// What executing a block can give, from the given executor and applier
/// states to the final ones: an outcome of a run of every transaction, or
/// the first failure of the executor or of the applier.
pub open spec fn block_result<X: TransactionExecutor, A: StateTransitionApplier>(
    pre_state_root: Root,
    transactions: Seq<TransactionEnvelope>,
    executor_before: X,
    executor_after: X,
    applier_before: A,
    applier_after: A,
    result: Result<BlockExecutionOutcome, ExecutionError>,
) -> bool {
    &&& result matches Ok(outcome) ==> exists|
        executors: Seq<X>,
        appliers: Seq<A>,
        plans: Seq<TransactionExecutionPlan>,
    |
        #[trigger] block_ran(
            pre_state_root,
            transactions,
            executor_before,
            executor_after,
            applier_before,
            applier_after,
            outcome,
            executors,
            appliers,
            plans,
        )
    &&& result matches Err(error) ==> (exists|
        executors: Seq<X>,
        appliers: Seq<A>,
        plans: Seq<TransactionExecutionPlan>,
        outcomes: Seq<TransactionExecutionOutcome>,
        k: int,
    |
        #[trigger] executor_failed(
            pre_state_root,
            transactions,
            executor_before,
            executor_after,
            applier_before,
            applier_after,
            error,
            executors,
            appliers,
            plans,
            outcomes,
            k,
        )) || (exists|
        executors: Seq<X>,
        appliers: Seq<A>,
        plans: Seq<TransactionExecutionPlan>,
        outcomes: Seq<TransactionExecutionOutcome>,
        k: int,
        plan: TransactionExecutionPlan,
        failure: StateError,
    |
        #[trigger] applier_failed(
            pre_state_root,
            transactions,
            executor_before,
            executor_after,
            applier_before,
            applier_after,
            error,
            executors,
            appliers,
            plans,
            outcomes,
            k,
            plan,
            failure,
        ))
}

/// Executes blocks without holding state of its own.
#[derive(Debug, Default, Clone, Copy, PartialEq, Eq)]
pub struct StatelessBlockExecutor;

impl StatelessBlockExecutor {
    /// A new executor.
    pub fn new() -> (executor: Self)
        ensures
            executor == StatelessBlockExecutor,
    {
        StatelessBlockExecutor
    }

    /// Executes `transactions` in block order from `pre_state_root`: each
    /// transaction is planned on the running root, its patch is applied to
    /// that root, and the result becomes the next running root. The first
    /// failure of the executor or the applier is returned unchanged.
    pub fn execute_block<X: TransactionExecutor, A: StateTransitionApplier>(
        &self,
        pre_state_root: &Root,
        transactions: &[TransactionEnvelope],
        executor: &mut X,
        state_applier: &mut A,
    ) -> (result: Result<BlockExecutionOutcome, ExecutionError>)
        ensures
            result matches Ok(outcome) ==> executes_block(
                *pre_state_root,
                transactions@,
                outcome,
            ),
            transactions@.len() == 0 ==> result is Ok,
            block_result(
                *pre_state_root,
                transactions@,
                *old(executor),
                *final(executor),
                *old(state_applier),
                *final(state_applier),
                result,
            ),
    {
        let mut current_state_root: Root = *pre_state_root;
        let mut receipt_roots: Vec<u8> = Vec::new();
        let mut transaction_outcomes: Vec<TransactionExecutionOutcome> = Vec::new();
        let ghost executor_start = *executor;
        let ghost applier_start = *state_applier;
        let ghost mut executors: Seq<X> = seq![*executor];
        let ghost mut appliers: Seq<A> = seq![*state_applier];
        let ghost mut plans: Seq<TransactionExecutionPlan> = Seq::empty();
        let mut i: usize = 0;
        while i < transactions.len()
            invariant
                0 <= i <= transactions@.len(),
                transaction_outcomes@.len() == i,
                executor_start == *old(executor),
                applier_start == *old(state_applier),
                current_state_root == state_root_before(
                    *pre_state_root,
                    transaction_outcomes@,
                    i as int,
                ),
                forall|j: int|
                    0 <= j < i ==> (#[trigger] transaction_outcomes@[j]).transaction_root@
                        == spec_envelope_root(transactions@[j]),
                receipt_roots@ == spec_concat_receipt_roots(
                    outcome_receipts(transaction_outcomes@),
                    i as nat,
                ),
                steps_ran(
                    *pre_state_root,
                    transactions@,
                    executors,
                    appliers,
                    plans,
                    transaction_outcomes@,
                    i as int,
                ),
                executors[0] == executor_start,
                appliers[0] == applier_start,
                executors[i as int] == *executor,
                appliers[i as int] == *state_applier,
            decreases transactions@.len() - i,
        {
            let transaction = &transactions[i];
            let transaction_root = match transaction.canonical_root() {
                Ok(root) => root,
                Err(error) => {
                    return Err(ExecutionError::TransactionRoot(error));
                },
            };
            let plan = match executor.execute_transaction(&current_state_root, transaction) {
                Ok(plan) => plan,
                Err(error) => {
                    assert(executor_failed(
                        *pre_state_root,
                        transactions@,
                        executor_start,
                        *executor,
                        applier_start,
                        *state_applier,
                        error,
                        executors,
                        appliers,
                        plans,
                        transaction_outcomes@,
                        i as int,
                    ));
                    return Err(error);
                },
            };
            let ghost planned = plan;
            let transition_outcome = match state_applier.apply_transition(
                &current_state_root,
                &plan.state_patch,
            ) {
                Ok(outcome) => outcome,
                Err(error) => {
                    assert(applier_failed(
                        *pre_state_root,
                        transactions@,
                        executor_start,
                        *executor,
                        applier_start,
                        *state_applier,
                        ExecutionError::StateTransition(error),
                        executors,
                        appliers,
                        plans,
                        transaction_outcomes@,
                        i as int,
                        planned,
                        error,
                    ));
                    return Err(ExecutionError::StateTransition(error));
                },
            };
            let ghost before_root = current_state_root;
            current_state_root = transition_outcome.post_state_root;
            let receipt_root = plan.receipt.canonical_root();
            let ghost before = transaction_outcomes@;
            extend_bytes(&mut receipt_roots, receipt_root.as_slice());
            transaction_outcomes.push(
                TransactionExecutionOutcome {
                    transaction_root,
                    post_state_root: current_state_root,
                    receipt: plan.receipt,
                },
            );
            proof {
                let now = transaction_outcomes@;
                assert(now.take(i as int) =~= before);
                assert(outcome_receipts(now).take(i as int) =~= outcome_receipts(before));
                lemma_concat_prefix(outcome_receipts(now), outcome_receipts(before), i as nat);
                let old_executors = executors;
                let old_appliers = appliers;
                let old_plans = plans;
                executors = executors.push(*executor);
                appliers = appliers.push(*state_applier);
                plans = plans.push(planned);
                assert(transition_outcome == StateTransitionOutcome {
                    post_state_root: now[i as int].post_state_root,
                });
                assert forall|j: int| 0 <= j <= i implies state_root_before(*pre_state_root, now, j)
                    == state_root_before(*pre_state_root, before, j) by {
                    if j > 0 {
                        assert(now[j - 1] == before[j - 1]);
                    }
                }
                assert(before_root == state_root_before(*pre_state_root, now, i as int));
                assert forall|j: int|
                    #![trigger plans[j]]
                    0 <= j < i + 1 implies {
                        &&& executors[j].plans(
                            state_root_before(*pre_state_root, now, j),
                            transactions@[j],
                            Ok(plans[j]),
                            &executors[j + 1],
                        )
                        &&& appliers[j].applies(
                            state_root_before(*pre_state_root, now, j),
                            plans[j].state_patch,
                            Ok(StateTransitionOutcome { post_state_root: now[j].post_state_root }),
                            &appliers[j + 1],
                        )
                        &&& now[j].transaction_root@ == spec_envelope_root(transactions@[j])
                        &&& now[j].receipt == plans[j].receipt
                    } by {
                    if j < i {
                        assert(old_plans[j] == plans[j]);
                        assert(now[j] == before[j]);
                        assert(executors[j] == old_executors[j]);
                        assert(executors[j + 1] == old_executors[j + 1]);
                        assert(appliers[j] == old_appliers[j]);
                        assert(appliers[j + 1] == old_appliers[j + 1]);
                    }
                }
            }
            i += 1;
        }
        let mut bytes: Vec<u8> = Vec::new();
        extend_bytes(&mut bytes, "shell-execution/receipts-root-v1".as_bytes());
        extend_u64_be(&mut bytes, transactions.len() as u64);
        extend_bytes(&mut bytes, receipt_roots.as_slice());
        let receipts_root = sha256(bytes.as_slice());
        let outcome = BlockExecutionOutcome {
            post_state_root: current_state_root,
            receipts_root,
            transaction_outcomes,
        };
        let result = Ok(outcome);
        assert(result matches Ok(o) && block_ran(
            *pre_state_root,
            transactions@,
            *old(executor),
            *executor,
            *old(state_applier),
            *state_applier,
            o,
            executors,
            appliers,
            plans,
        ));
        result
    }
}

/// Whether planning with executors of type `X` has one outcome: an executor
/// state planning one transaction on one root gives one result and one
/// next state.
pub open spec fn executor_deterministic<X: TransactionExecutor>() -> bool {
    forall|
        executor: X,
        root: Root,
        transaction: TransactionEnvelope,
        first: Result<TransactionExecutionPlan, ExecutionError>,
        first_after: X,
        second: Result<TransactionExecutionPlan, ExecutionError>,
        second_after: X,
    |
        #![trigger executor.plans(root, transaction, first, &first_after), executor.plans(root, transaction, second, &second_after)]
        executor.plans(root, transaction, first, &first_after) && executor.plans(
            root,
            transaction,
            second,
            &second_after,
        ) ==> first == second && first_after == second_after
}

/// Whether applying with appliers of type `A` has one outcome: an applier
/// state applying one patch on one root gives one result and one next
/// state.
pub open spec fn applier_deterministic<A: StateTransitionApplier>() -> bool {
    forall|
        applier: A,
        root: Root,
        patch: StatePatch,
        first: Result<StateTransitionOutcome, StateError>,
        first_after: A,
        second: Result<StateTransitionOutcome, StateError>,
        second_after: A,
    |
        #![trigger applier.applies(root, patch, first, &first_after), applier.applies(root, patch, second, &second_after)]
        applier.applies(root, patch, first, &first_after) && applier.applies(
            root,
            patch,
            second,
            &second_after,
        ) ==> first == second && first_after == second_after
}

/// Two runs of a block from the same executor and applier states agree on
/// every step both ran, when planning and applying each have one outcome.
proof fn lemma_runs_agree<X: TransactionExecutor, A: StateTransitionApplier>(
    pre_state_root: Root,
    transactions: Seq<TransactionEnvelope>,
    first_executors: Seq<X>,
    first_appliers: Seq<A>,
    first_plans: Seq<TransactionExecutionPlan>,
    first_outcomes: Seq<TransactionExecutionOutcome>,
    first_k: int,
    second_executors: Seq<X>,
    second_appliers: Seq<A>,
    second_plans: Seq<TransactionExecutionPlan>,
    second_outcomes: Seq<TransactionExecutionOutcome>,
    second_k: int,
    i: int,
)
    requires
        executor_deterministic::<X>(),
        applier_deterministic::<A>(),
        steps_ran(
            pre_state_root,
            transactions,
            first_executors,
            first_appliers,
            first_plans,
            first_outcomes,
            first_k,
        ),
        steps_ran(
            pre_state_root,
            transactions,
            second_executors,
            second_appliers,
            second_plans,
            second_outcomes,
            second_k,
        ),
        first_executors[0] == second_executors[0],
        first_appliers[0] == second_appliers[0],
        0 <= i <= first_k,
        i <= second_k,
    ensures
        first_executors[i] == second_executors[i],
        first_appliers[i] == second_appliers[i],
        state_root_before(pre_state_root, first_outcomes, i) == state_root_before(
            pre_state_root,
            second_outcomes,
            i,
        ),
        forall|j: int|
            0 <= j < i ==> #[trigger] first_plans[j] == second_plans[j] && first_outcomes[j]
                == second_outcomes[j],
    decreases i,
{
    if i > 0 {
        let j = i - 1;
        lemma_runs_agree(
            pre_state_root,
            transactions,
            first_executors,
            first_appliers,
            first_plans,
            first_outcomes,
            first_k,
            second_executors,
            second_appliers,
            second_plans,
            second_outcomes,
            second_k,
            j,
        );
        let root = state_root_before(pre_state_root, first_outcomes, j);
        let first_plan = first_plans[j];
        let second_plan = second_plans[j];
        assert(first_executors[j].plans(root, transactions[j], Ok(first_plan), &first_executors[j + 1]));
        assert(second_executors[j].plans(
            root,
            transactions[j],
            Ok(second_plan),
            &second_executors[j + 1],
        ));
        assert(first_plan == second_plan);
        let first_step = StateTransitionOutcome { post_state_root: first_outcomes[j].post_state_root };
        let second_step = StateTransitionOutcome {
            post_state_root: second_outcomes[j].post_state_root,
        };
        assert(first_appliers[j].applies(root, first_plan.state_patch, Ok(first_step), &first_appliers[j + 1]));
        assert(second_appliers[j].applies(
            root,
            second_plan.state_patch,
            Ok(second_step),
            &second_appliers[j + 1],
        ));
        assert(first_step == second_step);
        assert(first_outcomes[j].transaction_root =~= second_outcomes[j].transaction_root);
        assert(first_outcomes[j] == second_outcomes[j]);
        assert forall|m: int|
            0 <= m < i implies #[trigger] first_plans[m] == second_plans[m] && first_outcomes[m]
                == second_outcomes[m] by {
            if m < j {
                assert(first_plans[m] == second_plans[m]);
            }
        }
    }
}

/// Whether a run stopped at step `k` with `error`, by the executor's
/// failure or by the applier's `failure` on `plan`.
pub open spec fn run_stopped<X: TransactionExecutor, A: StateTransitionApplier>(
    pre_state_root: Root,
    transactions: Seq<TransactionEnvelope>,
    executor_before: X,
    executor_after: X,
    applier_before: A,
    applier_after: A,
    error: ExecutionError,
    executors: Seq<X>,
    appliers: Seq<A>,
    plans: Seq<TransactionExecutionPlan>,
    outcomes: Seq<TransactionExecutionOutcome>,
    k: int,
    plan: TransactionExecutionPlan,
    failure: StateError,
) -> bool {
    ||| executor_failed(
        pre_state_root,
        transactions,
        executor_before,
        executor_after,
        applier_before,
        applier_after,
        error,
        executors,
        appliers,
        plans,
        outcomes,
        k,
    )
    ||| applier_failed(
        pre_state_root,
        transactions,
        executor_before,
        executor_after,
        applier_before,
        applier_after,
        error,
        executors,
        appliers,
        plans,
        outcomes,
        k,
        plan,
        failure,
    )
}

/// The run behind a failed block execution.
proof fn lemma_stopped_run<X: TransactionExecutor, A: StateTransitionApplier>(
    pre_state_root: Root,
    transactions: Seq<TransactionEnvelope>,
    executor_before: X,
    executor_after: X,
    applier_before: A,
    applier_after: A,
    error: ExecutionError,
) -> (run: (
    Seq<X>,
    Seq<A>,
    Seq<TransactionExecutionPlan>,
    Seq<TransactionExecutionOutcome>,
    int,
    TransactionExecutionPlan,
    StateError,
))
    requires
        block_result(
            pre_state_root,
            transactions,
            executor_before,
            executor_after,
            applier_before,
            applier_after,
            Err(error),
        ),
    ensures
        run_stopped(
            pre_state_root,
            transactions,
            executor_before,
            executor_after,
            applier_before,
            applier_after,
            error,
            run.0,
            run.1,
            run.2,
            run.3,
            run.4,
            run.5,
            run.6,
        ),
{
    if exists|
        executors: Seq<X>,
        appliers: Seq<A>,
        plans: Seq<TransactionExecutionPlan>,
        outcomes: Seq<TransactionExecutionOutcome>,
        k: int,
    |
        #[trigger] executor_failed(
            pre_state_root,
            transactions,
            executor_before,
            executor_after,
            applier_before,
            applier_after,
            error,
            executors,
            appliers,
            plans,
            outcomes,
            k,
        ) {
        let (executors, appliers, plans, outcomes, k) = choose|
            executors: Seq<X>,
            appliers: Seq<A>,
            plans: Seq<TransactionExecutionPlan>,
            outcomes: Seq<TransactionExecutionOutcome>,
            k: int,
        |
            #[trigger] executor_failed(
                pre_state_root,
                transactions,
                executor_before,
                executor_after,
                applier_before,
                applier_after,
                error,
                executors,
                appliers,
                plans,
                outcomes,
                k,
            );
        (executors, appliers, plans, outcomes, k, arbitrary(), arbitrary())
    } else {
        choose|
            executors: Seq<X>,
            appliers: Seq<A>,
            plans: Seq<TransactionExecutionPlan>,
            outcomes: Seq<TransactionExecutionOutcome>,
            k: int,
            plan: TransactionExecutionPlan,
            failure: StateError,
        |
            #[trigger] applier_failed(
                pre_state_root,
                transactions,
                executor_before,
                executor_after,
                applier_before,
                applier_after,
                error,
                executors,
                appliers,
                plans,
                outcomes,
                k,
                plan,
                failure,
            )
    }
}

/// A run that stopped at step `k`, by the executor or the applier, rules out
/// any other run from the same states that ran step `k`, when planning and
/// applying each have one outcome.
proof fn lemma_stopped_step_does_not_run<X: TransactionExecutor, A: StateTransitionApplier>(
    pre_state_root: Root,
    transactions: Seq<TransactionEnvelope>,
    executor_before: X,
    executor_after: X,
    applier_before: A,
    applier_after: A,
    error: ExecutionError,
    executors: Seq<X>,
    appliers: Seq<A>,
    plans: Seq<TransactionExecutionPlan>,
    outcomes: Seq<TransactionExecutionOutcome>,
    k: int,
    plan: TransactionExecutionPlan,
    failure: StateError,
    other_executors: Seq<X>,
    other_appliers: Seq<A>,
    other_plans: Seq<TransactionExecutionPlan>,
    other_outcomes: Seq<TransactionExecutionOutcome>,
    other_k: int,
)
    requires
        executor_deterministic::<X>(),
        applier_deterministic::<A>(),
        run_stopped(
            pre_state_root,
            transactions,
            executor_before,
            executor_after,
            applier_before,
            applier_after,
            error,
            executors,
            appliers,
            plans,
            outcomes,
            k,
            plan,
            failure,
        ),
        steps_ran(
            pre_state_root,
            transactions,
            other_executors,
            other_appliers,
            other_plans,
            other_outcomes,
            other_k,
        ),
        other_executors[0] == executor_before,
        other_appliers[0] == applier_before,
    ensures
        other_k <= k,
{
    if other_k > k {
        lemma_runs_agree(
            pre_state_root,
            transactions,
            executors,
            appliers,
            plans,
            outcomes,
            k,
            other_executors,
            other_appliers,
            other_plans,
            other_outcomes,
            other_k,
            k,
        );
        let root = state_root_before(pre_state_root, outcomes, k);
        let other_plan = other_plans[k];
        assert(other_executors[k].plans(root, transactions[k], Ok(other_plan), &other_executors[k + 1]));
        assert(other_appliers[k].applies(
            root,
            other_plan.state_patch,
            Ok(StateTransitionOutcome { post_state_root: other_outcomes[k].post_state_root }),
            &other_appliers[k + 1],
        ));
    }
}

/// Executing a block is deterministic: when planning and applying each have
/// one outcome, two executions of the same transactions from the same
/// pre-state root, executor state and applier state give the same error, or
/// outcomes with the same per-transaction outcomes, post-state root and
/// receipts root, and leave the executor and the applier in the same
/// states.
pub proof fn lemma_block_execution_deterministic<X: TransactionExecutor, A: StateTransitionApplier>(
    pre_state_root: Root,
    transactions: Seq<TransactionEnvelope>,
    executor: X,
    applier: A,
    left_executor: X,
    left_applier: A,
    left: Result<BlockExecutionOutcome, ExecutionError>,
    right_executor: X,
    right_applier: A,
    right: Result<BlockExecutionOutcome, ExecutionError>,
)
    requires
        executor_deterministic::<X>(),
        applier_deterministic::<A>(),
        block_result(
            pre_state_root,
            transactions,
            executor,
            left_executor,
            applier,
            left_applier,
            left,
        ),
        block_result(
            pre_state_root,
            transactions,
            executor,
            right_executor,
            applier,
            right_applier,
            right,
        ),
    ensures
        left is Ok <==> right is Ok,
        left is Err ==> left == right,
        left matches Ok(a) ==> right matches Ok(b) && a.transaction_outcomes@
            == b.transaction_outcomes@ && a.post_state_root == b.post_state_root && a.receipts_root
            == b.receipts_root,
        left_executor == right_executor,
        left_applier == right_applier,
{
    lemma_block_results_agree(
        pre_state_root,
        transactions,
        executor,
        applier,
        left_executor,
        left_applier,
        left,
        right_executor,
        right_applier,
        right,
    );
    lemma_block_results_agree(
        pre_state_root,
        transactions,
        executor,
        applier,
        right_executor,
        right_applier,
        right,
        left_executor,
        left_applier,
        left,
    );
}

/// The one-sided half of `lemma_block_execution_deterministic`: what the
/// left result is, the right result is too.
proof fn lemma_block_results_agree<X: TransactionExecutor, A: StateTransitionApplier>(
    pre_state_root: Root,
    transactions: Seq<TransactionEnvelope>,
    executor: X,
    applier: A,
    left_executor: X,
    left_applier: A,
    left: Result<BlockExecutionOutcome, ExecutionError>,
    right_executor: X,
    right_applier: A,
    right: Result<BlockExecutionOutcome, ExecutionError>,
)
    requires
        executor_deterministic::<X>(),
        applier_deterministic::<A>(),
        block_result(
            pre_state_root,
            transactions,
            executor,
            left_executor,
            applier,
            left_applier,
            left,
        ),
        block_result(
            pre_state_root,
            transactions,
            executor,
            right_executor,
            applier,
            right_applier,
            right,
        ),
    ensures
        left is Ok ==> right is Ok,
        left is Err ==> left == right,
        left matches Ok(a) ==> right matches Ok(b) && a.transaction_outcomes@
            == b.transaction_outcomes@ && a.post_state_root == b.post_state_root && a.receipts_root
            == b.receipts_root,
        left is Err ==> left_executor == right_executor && left_applier == right_applier,
        left is Ok && right is Ok ==> left_executor == right_executor && left_applier
            == right_applier,
{
    let n = transactions.len() as int;
    match left {
        Ok(a) => {
            let (executors, appliers, plans) = choose|
                executors: Seq<X>,
                appliers: Seq<A>,
                plans: Seq<TransactionExecutionPlan>,
            |
                #[trigger] block_ran(
                    pre_state_root,
                    transactions,
                    executor,
                    left_executor,
                    applier,
                    left_applier,
                    a,
                    executors,
                    appliers,
                    plans,
                );
            match right {
                Ok(b) => {
                    let (other_executors, other_appliers, other_plans) = choose|
                        executors: Seq<X>,
                        appliers: Seq<A>,
                        plans: Seq<TransactionExecutionPlan>,
                    |
                        #[trigger] block_ran(
                            pre_state_root,
                            transactions,
                            executor,
                            right_executor,
                            applier,
                            right_applier,
                            b,
                            executors,
                            appliers,
                            plans,
                        );
                    lemma_runs_agree(
                        pre_state_root,
                        transactions,
                        executors,
                        appliers,
                        plans,
                        a.transaction_outcomes@,
                        n,
                        other_executors,
                        other_appliers,
                        other_plans,
                        b.transaction_outcomes@,
                        n,
                        n,
                    );
                    assert forall|j: int| 0 <= j < n implies a.transaction_outcomes@[j]
                        == b.transaction_outcomes@[j] by {
                        assert(plans[j] == other_plans[j]);
                    }
                    assert(a.transaction_outcomes@ =~= b.transaction_outcomes@);
                    assert(a.receipts_root =~= b.receipts_root);
                },
                Err(error) => {
                    let run = lemma_stopped_run(
                        pre_state_root,
                        transactions,
                        executor,
                        right_executor,
                        applier,
                        right_applier,
                        error,
                    );
                    lemma_stopped_step_does_not_run(
                        pre_state_root,
                        transactions,
                        executor,
                        right_executor,
                        applier,
                        right_applier,
                        error,
                        run.0,
                        run.1,
                        run.2,
                        run.3,
                        run.4,
                        run.5,
                        run.6,
                        executors,
                        appliers,
                        plans,
                        a.transaction_outcomes@,
                        n,
                    );
                },
            }
        },
        Err(error) => {
            let run = lemma_stopped_run(
                pre_state_root,
                transactions,
                executor,
                left_executor,
                applier,
                left_applier,
                error,
            );
            match right {
                Ok(b) => {
                    let (other_executors, other_appliers, other_plans) = choose|
                        executors: Seq<X>,
                        appliers: Seq<A>,
                        plans: Seq<TransactionExecutionPlan>,
                    |
                        #[trigger] block_ran(
                            pre_state_root,
                            transactions,
                            executor,
                            right_executor,
                            applier,
                            right_applier,
                            b,
                            executors,
                            appliers,
                            plans,
                        );
                    lemma_stopped_step_does_not_run(
                        pre_state_root,
                        transactions,
                        executor,
                        left_executor,
                        applier,
                        left_applier,
                        error,
                        run.0,
                        run.1,
                        run.2,
                        run.3,
                        run.4,
                        run.5,
                        run.6,
                        other_executors,
                        other_appliers,
                        other_plans,
                        b.transaction_outcomes@,
                        n,
                    );
                },
                Err(other_error) => {
                    let other = lemma_stopped_run(
                        pre_state_root,
                        transactions,
                        executor,
                        right_executor,
                        applier,
                        right_applier,
                        other_error,
                    );
                    lemma_stopped_step_does_not_run(
                        pre_state_root,
                        transactions,
                        executor,
                        left_executor,
                        applier,
                        left_applier,
                        error,
                        run.0,
                        run.1,
                        run.2,
                        run.3,
                        run.4,
                        run.5,
                        run.6,
                        other.0,
                        other.1,
                        other.2,
                        other.3,
                        other.4,
                    );
                    lemma_stopped_step_does_not_run(
                        pre_state_root,
                        transactions,
                        executor,
                        right_executor,
                        applier,
                        right_applier,
                        other_error,
                        other.0,
                        other.1,
                        other.2,
                        other.3,
                        other.4,
                        other.5,
                        other.6,
                        run.0,
                        run.1,
                        run.2,
                        run.3,
                        run.4,
                    );
                    let k = run.4;
                    lemma_runs_agree(
                        pre_state_root,
                        transactions,
                        run.0,
                        run.1,
                        run.2,
                        run.3,
                        k,
                        other.0,
                        other.1,
                        other.2,
                        other.3,
                        k,
                        k,
                    );
                    let root = state_root_before(pre_state_root, run.3, k);
                    assert(root == state_root_before(pre_state_root, other.3, k));
                },
            }
        },
    }
}

/// Whether two plans hold the same patch and receipt.
pub open spec fn same_plan(a: TransactionExecutionPlan, b: TransactionExecutionPlan) -> bool {
    &&& a.state_patch.accesses@ == b.state_patch.accesses@
    &&& a.state_patch.new_values@.len() == b.state_patch.new_values@.len()
    &&& forall|i: int|
        0 <= i < a.state_patch.new_values@.len() ==> (#[trigger] a.state_patch.new_values@[i])@
            == b.state_patch.new_values@[i]@
    &&& a.receipt.status_code == b.receipt.status_code
    &&& a.receipt.output@ == b.receipt.output@
}

/// A fresh copy of a plan.
pub fn copy_plan(plan: &TransactionExecutionPlan) -> (copy: TransactionExecutionPlan)
    ensures
        same_plan(copy, *plan),
{
    let mut accesses = Vec::new();
    let mut i: usize = 0;
    while i < plan.state_patch.accesses.len()
        invariant
            0 <= i <= plan.state_patch.accesses@.len(),
            accesses@ =~= plan.state_patch.accesses@.take(i as int),
        decreases plan.state_patch.accesses@.len() - i,
    {
        accesses.push(plan.state_patch.accesses[i]);
        i += 1;
    }
    let mut new_values: Vec<Vec<u8>> = Vec::new();
    let mut j: usize = 0;
    while j < plan.state_patch.new_values.len()
        invariant
            0 <= j <= plan.state_patch.new_values@.len(),
            new_values@.len() == j,
            forall|k: int| 0 <= k < j ==> (#[trigger] new_values@[k])@ == plan.state_patch.new_values@[k]@,
        decreases plan.state_patch.new_values@.len() - j,
    {
        new_values.push(copy_bytes(plan.state_patch.new_values[j].as_slice()));
        j += 1;
    }
    assert(accesses@ =~= plan.state_patch.accesses@);
    TransactionExecutionPlan {
        state_patch: StatePatch { accesses, new_values },
        receipt: ExecutionReceipt {
            status_code: plan.receipt.status_code,
            output: copy_bytes(plan.receipt.output.as_slice()),
        },
    }
}

/// A transaction root paired with the plan its execution must produce.
#[derive(Debug, Clone, PartialEq, Eq)]
pub struct PlannedTransaction {
    pub transaction_root: Root,
    pub plan: TransactionExecutionPlan,
}

impl PlannedTransaction {
    /// Pairs `plan` with the canonical root of `transaction`.
    pub fn from_transaction(transaction: &TransactionEnvelope, plan: TransactionExecutionPlan) -> (result: Result<
        Self,
        ExecutionError,
    >)
        ensures
            result matches Ok(planned) && planned.transaction_root@ == spec_envelope_root(
                *transaction,
            ) && planned.plan == plan,
    {
        let transaction_root = match transaction.canonical_root() {
            Ok(root) => root,
            Err(error) => {
                return Err(ExecutionError::TransactionRoot(error));
            },
        };
        Ok(PlannedTransaction { transaction_root, plan })
    }
}

/// The context when no planned step is left.
pub const MISSING_STEP_CONTEXT: &'static str = "missing planned transaction step";

/// The context when a transaction is not the one planned next.
pub const ROOT_MISMATCH_CONTEXT: &'static str = "planned transaction root mismatch";

/// The context when planned steps were left unused.
pub const UNCONSUMED_STEPS_CONTEXT: &'static str = "unconsumed planned transaction steps";

/// Replays preplanned transaction outcomes in order, for fixtures and other
/// deterministic scenario drivers.
#[derive(Debug, Clone)]
pub struct PlannedTransactionExecutor {
    planned_transactions: Vec<PlannedTransaction>,
    next_index: usize,
}

impl PlannedTransactionExecutor {
    /// The planned steps.
    pub closed spec fn steps(&self) -> Seq<PlannedTransaction> {
        self.planned_transactions@
    }

    /// How many steps have been consumed.
    pub closed spec fn consumed(&self) -> nat {
        self.next_index as nat
    }

    /// Whether the consumed count is within the plan.
    pub closed spec fn wf(&self) -> bool {
        self.next_index <= self.planned_transactions@.len()
    }

    /// An executor that has consumed none of `planned_transactions`.
    pub fn new(planned_transactions: Vec<PlannedTransaction>) -> (executor: Self)
        ensures
            executor.wf(),
            executor.steps() == planned_transactions@,
            executor.consumed() == 0,
    {
        PlannedTransactionExecutor { planned_transactions, next_index: 0 }
    }

    /// Whether every planned step has been consumed.
    pub fn is_exhausted(&self) -> (exhausted: bool)
        ensures
            exhausted == (self.consumed() == self.steps().len()),
    {
        self.next_index == self.planned_transactions.len()
    }

    /// Fails unless every planned step has been consumed.
    pub fn ensure_exhausted(&self) -> (result: Result<(), ExecutionError>)
        ensures
            self.consumed() == self.steps().len() ==> result is Ok,
            self.consumed() != self.steps().len() ==> result == Err::<(), ExecutionError>(
                ExecutionError::Executor(UNCONSUMED_STEPS_CONTEXT),
            ),
    {
        if self.is_exhausted() {
            return Ok(());
        }
        Err(ExecutionError::Executor(UNCONSUMED_STEPS_CONTEXT))
    }
}

/// What one call of the planned executor does: the next planned step is
/// handed out, and consumed, exactly when the transaction has that step's
/// root; otherwise it fails and consumes nothing.
pub open spec fn planned_step(
    before: PlannedTransactionExecutor,
    transaction: TransactionEnvelope,
    result: Result<TransactionExecutionPlan, ExecutionError>,
    after: PlannedTransactionExecutor,
) -> bool {
    &&& after.steps() == before.steps()
    &&& before.wf() ==> after.wf()
    &&& before.consumed() >= before.steps().len() ==> result == Err::<
        TransactionExecutionPlan,
        ExecutionError,
    >(ExecutionError::Executor(MISSING_STEP_CONTEXT))
    &&& before.consumed() < before.steps().len() && spec_envelope_root(transaction)
        != before.steps()[before.consumed() as int].transaction_root@ ==> result == Err::<
        TransactionExecutionPlan,
        ExecutionError,
    >(ExecutionError::Executor(ROOT_MISMATCH_CONTEXT))
    &&& before.consumed() < before.steps().len() && spec_envelope_root(transaction)
        == before.steps()[before.consumed() as int].transaction_root@ ==> result is Ok
    &&& result is Err ==> after.consumed() == before.consumed()
    &&& result matches Ok(plan) ==> before.consumed() < before.steps().len() && spec_envelope_root(
        transaction,
    ) == before.steps()[before.consumed() as int].transaction_root@ && same_plan(
        plan,
        before.steps()[before.consumed() as int].plan,
    ) && after.consumed() == before.consumed() + 1
}

/// Whether the first plans match the executor's planned steps in order:
/// each went to a transaction with the step's root and is the step's plan.
pub open spec fn plan_follows_step(
    steps: Seq<PlannedTransaction>,
    transactions: Seq<TransactionEnvelope>,
    plans: Seq<TransactionExecutionPlan>,
    i: int,
) -> bool {
    (spec_envelope_root(transactions[i]) == steps[i].transaction_root@) && same_plan(plans[i], steps[i].plan)
}

/// Whether every plan follows its planned step.
pub open spec fn plans_follow_steps(
    steps: Seq<PlannedTransaction>,
    transactions: Seq<TransactionEnvelope>,
    plans: Seq<TransactionExecutionPlan>,
) -> bool {
    forall|i: int| 0 <= i < plans.len() ==> #[trigger] plan_follows_step(steps, transactions, plans, i)
}

/// One planned step per successful call: after a run of successful calls
/// from a fresh executor, call `i` handed out planned step `i` for a
/// transaction with that step's root, the executor has consumed exactly one
/// step per call, and once it handed out one plan per planned step it is
/// exhausted.
pub proof fn lemma_planned_steps_consumed(
    executors: Seq<PlannedTransactionExecutor>,
    transactions: Seq<TransactionEnvelope>,
    plans: Seq<TransactionExecutionPlan>,
)
    requires
        executors.len() == plans.len() + 1,
        transactions.len() == plans.len(),
        executors[0].consumed() == 0,
        forall|i: int|
            #![trigger plans[i]]
            0 <= i < plans.len() ==> planned_step(
                executors[i],
                transactions[i],
                Ok(plans[i]),
                executors[i + 1],
            ),
    ensures
        plans.len() <= executors[0].steps().len(),
        executors[plans.len() as int].consumed() == plans.len(),
        executors[plans.len() as int].steps() == executors[0].steps(),
        plans_follow_steps(executors[0].steps(), transactions, plans),
        plans.len() == executors[0].steps().len() ==> executors[plans.len() as int].consumed()
            == executors[plans.len() as int].steps().len(),
    decreases plans.len(),
{
    if plans.len() > 0 {
        let n = plans.len() - 1;
        let fewer_executors = executors.take(n + 1);
        let fewer_transactions = transactions.take(n);
        let fewer_plans = plans.take(n);
        assert forall|i: int|
            #![trigger fewer_plans[i]]
            0 <= i < fewer_plans.len() implies planned_step(
                fewer_executors[i],
                fewer_transactions[i],
                Ok(fewer_plans[i]),
                fewer_executors[i + 1],
            ) by {
            assert(plans[i] == fewer_plans[i]);
        }
        lemma_planned_steps_consumed(fewer_executors, fewer_transactions, fewer_plans);
        assert(fewer_executors[n] == executors[n]);
        assert(fewer_executors[0] == executors[0]);
        assert(planned_step(executors[n], transactions[n], Ok(plans[n]), executors[n + 1]));
        assert(executors[n].consumed() == n);
        assert(executors[n].steps() == executors[0].steps());
        let steps = executors[0].steps();
        assert(fewer_executors[0].steps() == steps);
        assert forall|i: int| 0 <= i < plans.len() implies #[trigger] plan_follows_step(
            steps,
            transactions,
            plans,
            i,
        ) by {
            if i < n {
                assert(plan_follows_step(steps, fewer_transactions, fewer_plans, i));
                assert(fewer_plans[i] == plans[i]);
                assert(fewer_transactions[i] == transactions[i]);
            } else {
                assert(i == n);
                assert(executors[n].steps()[executors[n].consumed() as int] == steps[i]);
            }
        }
        assert(plans_follow_steps(steps, transactions, plans));
    }
}

impl TransactionExecutor for PlannedTransactionExecutor {
    open spec fn plans(
        &self,
        pre_state_root: Root,
        transaction: TransactionEnvelope,
        result: Result<TransactionExecutionPlan, ExecutionError>,
        after: &Self,
    ) -> bool {
        planned_step(*self, transaction, result, *after)
    }

    /// Returns the next planned step when `transaction` has its planned root,
    /// and consumes the step; otherwise fails and consumes nothing.
    fn execute_transaction(&mut self, pre_state_root: &Root, transaction: &TransactionEnvelope) -> (result: Result<
        TransactionExecutionPlan,
        ExecutionError,
    >)
        ensures
            final(self).steps() == old(self).steps(),
            old(self).wf() ==> final(self).wf(),
            old(self).consumed() >= old(self).steps().len() ==> result == Err::<
                TransactionExecutionPlan,
                ExecutionError,
            >(ExecutionError::Executor(MISSING_STEP_CONTEXT)),
            old(self).consumed() < old(self).steps().len() && spec_envelope_root(*transaction)
                != old(self).steps()[old(self).consumed() as int].transaction_root@ ==> result
                == Err::<TransactionExecutionPlan, ExecutionError>(
                ExecutionError::Executor(ROOT_MISMATCH_CONTEXT),
            ),
            old(self).consumed() < old(self).steps().len() && spec_envelope_root(*transaction)
                == old(self).steps()[old(self).consumed() as int].transaction_root@ ==> result is Ok,
            result is Err ==> final(self).consumed() == old(self).consumed(),
            result matches Ok(plan) ==> old(self).consumed() < old(self).steps().len()
                && spec_envelope_root(*transaction) == old(self).steps()[old(
                self,
            ).consumed() as int].transaction_root@ && same_plan(
                plan,
                old(self).steps()[old(self).consumed() as int].plan,
            ) && final(self).consumed() == old(self).consumed() + 1,
    {
        let index = self.next_index;
        if index >= self.planned_transactions.len() {
            return Err(ExecutionError::Executor(MISSING_STEP_CONTEXT));
        }
        let transaction_root = match transaction.canonical_root() {
            Ok(root) => root,
            Err(error) => {
                return Err(ExecutionError::TransactionRoot(error));
            },
        };
        let planned = &self.planned_transactions[index];
        if !roots_equal(&transaction_root, &planned.transaction_root) {
            return Err(ExecutionError::Executor(ROOT_MISMATCH_CONTEXT));
        }
        let plan = copy_plan(&planned.plan);
        self.next_index = index + 1;
        Ok(plan)
    }
}

/// Receipt lists that agree receipt by receipt in status code and output
/// bytes have the same receipts root.
pub proof fn lemma_receipts_root_by_views(left: Seq<ExecutionReceipt>, right: Seq<ExecutionReceipt>)
    requires
        left.len() == right.len(),
        forall|i: int|
            0 <= i < left.len() ==> (#[trigger] left[i]).status_code == right[i].status_code
                && left[i].output@ == right[i].output@,
    ensures
        spec_receipts_root(left) == spec_receipts_root(right),
{
    lemma_concat_by_views(left, right, left.len());
}

proof fn lemma_concat_by_views(left: Seq<ExecutionReceipt>, right: Seq<ExecutionReceipt>, n: nat)
    requires
        left.len() == right.len(),
        n <= left.len(),
        forall|i: int|
            0 <= i < left.len() ==> (#[trigger] left[i]).status_code == right[i].status_code
                && left[i].output@ == right[i].output@,
    ensures
        spec_concat_receipt_roots(left, n) == spec_concat_receipt_roots(right, n),
    decreases n,
{
    if n > 0 {
        lemma_concat_by_views(left, right, (n - 1) as nat);
        assert(left[n - 1].status_code == right[n - 1].status_code);
        assert(spec_receipt_root(left[n - 1]) == spec_receipt_root(right[n - 1]));
    }
}

/// The concatenated roots of a prefix depend only on that prefix.
proof fn lemma_concat_prefix(longer: Seq<ExecutionReceipt>, prefix: Seq<ExecutionReceipt>, n: nat)
    requires
        n <= prefix.len(),
        prefix.len() <= longer.len(),
        forall|j: int| 0 <= j < prefix.len() ==> longer[j] == prefix[j],
    ensures
        spec_concat_receipt_roots(longer, n) == spec_concat_receipt_roots(prefix, n),
    decreases n,
{
    if n > 0 {
        lemma_concat_prefix(longer, prefix, (n - 1) as nat);
    }
}

} // verus!
