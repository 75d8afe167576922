use txpool_maintainer::chain::{ChainClient, Fetcher};
use txpool_maintainer::maintainer::{
    DefaultFullTransactionPoolMaintainer, DefaultLightTransactionPoolMaintainer,
    TransactionPoolMaintainer,
};
use txpool_maintainer::queue::Queue;
use txpool_maintainer::scheduler::TxPoolRevalidationStatus;
use txpool_maintainer::types::{Block, Status, Transaction};

#[test]
fn should_remove_transactions_from_the_full_pool() {
    let transaction = Transaction { hash: 1, is_signed: true };
    let genesis = Block { hash: 100, parent_hash: 0, number: 0, extrinsics: vec![] };
    let block = Block { hash: 101, parent_hash: 100, number: 1, extrinsics: vec![transaction] };
    let client = ChainClient::new(vec![genesis, block]);

    // store the transaction in the pool
    let mut pool = Queue::new();
    pool.submit_one(100, transaction);

    // fire notification - this should clean up the queue
    assert_eq!(pool.status().ready, 1);
    let mut maintainer = DefaultFullTransactionPoolMaintainer::new(client);
    maintainer.maintain(101, &[], &mut pool, 0);

    // then
    assert_eq!(pool.status().ready, 0);
    assert_eq!(pool.status().future, 0);
}

#[test]
fn should_remove_transactions_from_the_light_pool() {
    let transaction = Transaction { hash: 42, is_signed: true };
    let fetcher = Fetcher::new(Some(vec![transaction]));
    let genesis = Block { hash: 100, parent_hash: 0, number: 0, extrinsics: vec![] };
    let client = ChainClient::new(vec![genesis]);

    // store the transaction in the pool
    let mut pool = Queue::new();
    pool.submit_one(100, transaction);

    // fire notification - this should clean up the queue
    assert_eq!(pool.status().ready, 1);
    let mut maintainer = DefaultLightTransactionPoolMaintainer::with_defaults(client, fetcher);
    maintainer.maintain(100, &[], &mut pool, 0);

    // then
    assert_eq!(pool.status().ready, 0);
    assert_eq!(pool.status().future, 0);
}

#[test]
fn should_schedule_transactions_revalidation_at_light_pool() {
    // when revalidation is not scheduled, it became scheduled
    let mut status = TxPoolRevalidationStatus::NotScheduled;
    assert!(!status.is_required(10, None, None, 0));
    match status {
        TxPoolRevalidationStatus::Scheduled(_, _) => (),
        _ => panic!("Unexpected status: {:?}", status),
    }

    // revalidation required at time
    let mut status = TxPoolRevalidationStatus::Scheduled(Some(0), None);
    assert!(status.is_required(10, None, None, 0));
    match status {
        TxPoolRevalidationStatus::InProgress => (),
        _ => panic!("Unexpected status: {:?}", status),
    }

    // revalidation required at block
    let mut status = TxPoolRevalidationStatus::Scheduled(None, Some(10));
    assert!(status.is_required(10, None, None, 0));
    match status {
        TxPoolRevalidationStatus::InProgress => (),
        _ => panic!("Unexpected status: {:?}", status),
    }
}

fn with_status_maintain(prepare: impl Fn(&mut TxPoolRevalidationStatus)) -> Status {
    // the remote body fetch succeeds and delivers an empty body, so pruning
    // removes nothing; whether the ready transaction survives depends on
    // revalidation alone
    let fetcher = Fetcher::new(Some(vec![]));
    let genesis = Block { hash: 100, parent_hash: 0, number: 0, extrinsics: vec![] };
    let client = ChainClient::new(vec![genesis]);

    let mut maintainer = DefaultLightTransactionPoolMaintainer::new(client, fetcher, None, None);
    prepare(&mut maintainer.revalidation_status);

    // store a transaction that a validity re-check would now reject
    let mut pool = Queue::new();
    pool.submit_one(100, Transaction { hash: 42, is_signed: true });
    pool.mark_invalid(42);

    // and run maintain procedures
    maintainer.maintain(100, &[], &mut pool, 0);

    pool.status()
}

#[test]
fn should_revalidate_transactions_at_light_pool() {
    // when revalidation is never required - nothing happens
    let status = with_status_maintain(|_revalidation_status| {});
    assert_eq!(status.ready, 1);

    // when revalidation is scheduled by time - it is performed
    let status = with_status_maintain(|revalidation_status| {
        *revalidation_status = TxPoolRevalidationStatus::Scheduled(Some(0), None)
    });
    assert_eq!(status.ready, 0);

    // when revalidation is scheduled by block number - it is performed
    let status = with_status_maintain(|revalidation_status| {
        *revalidation_status = TxPoolRevalidationStatus::Scheduled(None, Some(0))
    });
    assert_eq!(status.ready, 0);
}

#[test]
fn should_add_reverted_transactions_to_the_pool() {
    let transaction = Transaction { hash: 1, is_signed: true };
    let genesis = Block { hash: 100, parent_hash: 0, number: 0, extrinsics: vec![] };
    let block1 = Block { hash: 101, parent_hash: 100, number: 1, extrinsics: vec![transaction] };
    // a competing block at the same height, not containing the transaction
    let block2 = Block { hash: 102, parent_hash: 100, number: 1, extrinsics: vec![] };
    let client = ChainClient::new(vec![genesis, block1, block2]);

    // store the transaction in the pool
    let mut pool = Queue::new();
    pool.submit_one(100, transaction);

    // fire notification - this should clean up the queue
    assert_eq!(pool.status().ready, 1);
    let mut maintainer = DefaultFullTransactionPoolMaintainer::new(client);
    maintainer.maintain(101, &[], &mut pool, 0);

    // then
    assert_eq!(pool.status().ready, 0);
    assert_eq!(pool.status().future, 0);

    // fire notification for the competing block, retracting the first -
    // this should add the transaction back to the pool
    maintainer.maintain(102, &[101], &mut pool, 0);

    // then
    assert_eq!(pool.status().ready, 1);
    assert_eq!(pool.status().future, 0);
}

#[test]
fn full_maintain_is_idempotent_for_same_block() {
    let kept = Transaction { hash: 2, is_signed: true };
    let included = Transaction { hash: 1, is_signed: true };
    let block = Block { hash: 101, parent_hash: 100, number: 1, extrinsics: vec![included] };
    let client = ChainClient::new(vec![block]);

    let mut pool = Queue::new();
    pool.submit_one(100, included);
    pool.submit_one(100, kept);
    assert_eq!(pool.status().ready, 2);

    let mut maintainer = DefaultFullTransactionPoolMaintainer::new(client);
    maintainer.maintain(101, &[], &mut pool, 0);
    assert_eq!(pool.status().ready, 1);
    assert!(!pool.has_hash(1));
    assert!(pool.has_hash(2));

    // the second pass for the same block changes nothing
    maintainer.maintain(101, &[], &mut pool, 0);
    assert_eq!(pool.status().ready, 1);
    assert!(!pool.has_hash(1));
    assert!(pool.has_hash(2));
}

#[test]
fn full_maintain_keeps_transactions_outside_the_block_body() {
    let included = Transaction { hash: 11, is_signed: true };
    let outside = Transaction { hash: 12, is_signed: false };
    let block = Block { hash: 101, parent_hash: 100, number: 1, extrinsics: vec![included] };
    let client = ChainClient::new(vec![block]);

    let mut pool = Queue::new();
    pool.submit_one(100, included);
    pool.submit_one(100, outside);

    let mut maintainer = DefaultFullTransactionPoolMaintainer::new(client);
    maintainer.maintain(101, &[], &mut pool, 0);

    assert!(!pool.has_hash(11));
    assert!(pool.has_hash(12));
    assert_eq!(pool.status().ready, 1);
}

#[test]
fn full_resubmission_runs_even_when_the_queue_is_empty() {
    // the empty-queue short-circuit skips pruning, never resubmission: the
    // revived transaction stays even though the new block also contains it
    let transaction = Transaction { hash: 3, is_signed: true };
    let retracted = Block { hash: 200, parent_hash: 100, number: 1, extrinsics: vec![transaction] };
    let imported = Block { hash: 201, parent_hash: 100, number: 1, extrinsics: vec![transaction] };
    let client = ChainClient::new(vec![retracted, imported]);

    let mut pool = Queue::new();
    assert_eq!(pool.status().ready, 0);

    let mut maintainer = DefaultFullTransactionPoolMaintainer::new(client);
    maintainer.maintain(201, &[200], &mut pool, 0);

    assert_eq!(pool.status().ready, 1);
    assert!(pool.has_hash(3));
}

#[test]
fn full_resubmission_skips_unsigned_transactions() {
    let signed = Transaction { hash: 4, is_signed: true };
    let inherent = Transaction { hash: 5, is_signed: false };
    let retracted = Block { hash: 200, parent_hash: 100, number: 1, extrinsics: vec![inherent, signed] };
    let imported = Block { hash: 201, parent_hash: 100, number: 1, extrinsics: vec![] };
    let client = ChainClient::new(vec![retracted, imported]);

    let mut pool = Queue::new();
    let mut maintainer = DefaultFullTransactionPoolMaintainer::new(client);
    maintainer.maintain(201, &[200], &mut pool, 0);

    assert!(pool.has_hash(4));
    assert!(!pool.has_hash(5));
    assert_eq!(pool.status().ready, 1);
}

#[test]
fn full_missing_blocks_are_skipped_not_fatal() {
    // neither the retracted block nor the new block is locally available:
    // resubmission contributes nothing, pruning is skipped, the queue stays
    let transaction = Transaction { hash: 6, is_signed: true };
    let client = ChainClient::new(vec![]);

    let mut pool = Queue::new();
    pool.submit_one(100, transaction);

    let mut maintainer = DefaultFullTransactionPoolMaintainer::new(client);
    maintainer.maintain(101, &[99], &mut pool, 0);

    assert_eq!(pool.status().ready, 1);
    assert!(pool.has_hash(6));
}

#[test]
fn full_resubmission_ignores_already_known_transactions() {
    // the retracted block's transaction never left the queue: it is not
    // inserted a second time
    let transaction = Transaction { hash: 7, is_signed: true };
    let retracted = Block { hash: 200, parent_hash: 100, number: 1, extrinsics: vec![transaction] };
    let imported = Block { hash: 201, parent_hash: 100, number: 1, extrinsics: vec![] };
    let client = ChainClient::new(vec![retracted, imported]);

    let mut pool = Queue::new();
    pool.submit_one(100, transaction);

    let mut maintainer = DefaultFullTransactionPoolMaintainer::new(client);
    maintainer.maintain(201, &[200], &mut pool, 0);

    assert_eq!(pool.status().ready, 1);
}

#[test]
fn light_failed_body_fetch_still_revalidates() {
    // the remote body fetch fails: pruning is skipped, revalidation still
    // runs, and the pass completes without surfacing an error
    let transaction = Transaction { hash: 7, is_signed: true };
    let fetcher = Fetcher::new(None);
    let genesis = Block { hash: 100, parent_hash: 0, number: 5, extrinsics: vec![] };
    let client = ChainClient::new(vec![genesis]);

    let mut maintainer = DefaultLightTransactionPoolMaintainer::new(client, fetcher, None, Some(1));
    maintainer.revalidation_status = TxPoolRevalidationStatus::Scheduled(None, Some(5));

    let mut pool = Queue::new();
    pool.submit_one(100, transaction);
    pool.mark_invalid(7);

    maintainer.maintain(100, &[], &mut pool, 0);

    assert_eq!(pool.status().ready, 0);
    assert!(matches!(
        maintainer.revalidation_status,
        TxPoolRevalidationStatus::NotScheduled
    ));
}

#[test]
fn light_empty_queue_clears_the_schedule() {
    let fetcher = Fetcher::new(Some(vec![]));
    let genesis = Block { hash: 100, parent_hash: 0, number: 0, extrinsics: vec![] };
    let client = ChainClient::new(vec![genesis]);

    let mut maintainer = DefaultLightTransactionPoolMaintainer::with_defaults(client, fetcher);
    maintainer.revalidation_status = TxPoolRevalidationStatus::InProgress;

    let mut pool = Queue::new();
    maintainer.maintain(100, &[], &mut pool, 0);

    assert!(matches!(
        maintainer.revalidation_status,
        TxPoolRevalidationStatus::NotScheduled
    ));
    assert_eq!(pool.status().ready, 0);
    assert_eq!(pool.status().future, 0);
}

#[test]
fn light_missing_header_leaves_everything_untouched() {
    let transaction = Transaction { hash: 8, is_signed: true };
    let fetcher = Fetcher::new(Some(vec![transaction]));
    let client = ChainClient::new(vec![]);

    let mut maintainer = DefaultLightTransactionPoolMaintainer::new(client, fetcher, None, Some(1));
    maintainer.revalidation_status = TxPoolRevalidationStatus::Scheduled(None, Some(0));

    let mut pool = Queue::new();
    pool.submit_one(100, transaction);
    pool.mark_invalid(8);

    maintainer.maintain(100, &[], &mut pool, 0);

    assert_eq!(pool.status().ready, 1);
    assert!(matches!(
        maintainer.revalidation_status,
        TxPoolRevalidationStatus::Scheduled(None, Some(0))
    ));
}

#[test]
fn light_defaults_are_sixty_seconds_and_twenty_blocks() {
    let fetcher = Fetcher::new(None);
    let client = ChainClient::new(vec![]);
    let maintainer = DefaultLightTransactionPoolMaintainer::with_defaults(client, fetcher);
    assert_eq!(maintainer.revalidate_time_period, Some(60_000));
    assert_eq!(maintainer.revalidate_block_period, Some(20));
    assert!(matches!(
        maintainer.revalidation_status,
        TxPoolRevalidationStatus::NotScheduled
    ));
}
