//! The block cache and its service.
use yarm_runtime::blkcache::{BlkCacheService, BlockCache};
use yarm_runtime::ipc::Message;

#[test]
fn cache_put_get_and_flush() {
    let mut cache = BlockCache::new();
    cache.put(7, 11);
    assert_eq!(cache.get(7), Some(11));
    assert_eq!(cache.flush_dirty_count(), 1);
}

#[test]
fn a_second_put_overwrites_and_does_not_duplicate() {
    let mut cache = BlockCache::default();
    cache.put(7, 11);
    cache.put(7, 12);
    assert_eq!(cache.get(7), Some(12));
    assert_eq!(cache.flush_dirty_count(), 1);
    assert_eq!(cache.stats(), (2, 1, 0));
}

#[test]
fn a_second_flush_finds_nothing() {
    let mut cache = BlockCache::new();
    cache.put(1, 10);
    cache.put(2, 20);
    assert_eq!(cache.flush_dirty_count(), 2);
    assert_eq!(cache.flush_dirty_count(), 0);
    assert_eq!(cache.get(1), Some(10));
    assert_eq!(cache.get(2), Some(20));
}

#[test]
fn a_full_cache_gives_up_its_first_line() {
    let mut cache = BlockCache::new();
    for block in 0..16u64 {
        cache.put(block, block + 100);
    }
    assert_eq!(cache.stats(), (16, 0, 0));
    cache.put(99, 1);
    assert_eq!(cache.stats(), (17, 0, 1));
    assert_eq!(cache.get(0), None);
    assert_eq!(cache.get(99), Some(1));
    for block in 1..16u64 {
        assert_eq!(cache.get(block), Some(block + 100));
    }
    cache.put(5, 7);
    assert_eq!(cache.stats(), (18, 17, 1));
}

#[test]
fn lines_fill_up_with_distinct_blocks() {
    let mut cache = BlockCache::new();
    let filled =
        |cache: &mut BlockCache| (0..40).filter(|block| cache.get(*block).is_some()).count();
    assert_eq!(filled(&mut cache), 0);
    for round in 0..2 {
        for block in 0..10 {
            cache.put(block, round);
        }
        cache.flush_dirty_count();
        cache.get(3);
    }
    assert_eq!(filled(&mut cache), 10);
    for block in 0..40 {
        cache.put(block, 7);
    }
    assert_eq!(filled(&mut cache), 16);
}

#[test]
fn a_flush_counts_the_one_write_behind_the_last() {
    let mut cache = BlockCache::new();
    for block in 0..16 {
        cache.put(block, block);
    }
    assert_eq!(cache.flush_dirty_count(), 16);
    cache.put(3, 5);
    cache.get(4);
    assert_eq!(cache.flush_dirty_count(), 1);
    cache.put(99, 5);
    assert_eq!(cache.flush_dirty_count(), 1);
}

#[test]
fn a_missing_block_reads_none() {
    let mut cache = BlockCache::new();
    assert_eq!(cache.get(3), None);
    assert_eq!(cache.stats(), (0, 1, 0));
}

fn request(opcode: u16) -> Message {
    Message::with_header(0, opcode, 0, None, &[0]).expect("request")
}

#[test]
fn the_service_answers_every_operation() {
    let mut service = BlkCacheService::new();
    assert_eq!(service.service_name(), "blkcache");
    for opcode in [1u16, 2, 3, 9] {
        let reply = service.dispatch(request(opcode)).expect("reply");
        assert_eq!(reply.opcode, opcode);
        assert_eq!(reply.as_slice(), &[0u8]);
        assert_eq!(reply.payload, [0u8; 128]);
        assert_eq!(reply.transferred_cap(), None);
    }
    assert_eq!(service.stats(), (1, 1, 0));
    assert_eq!(service.cache_mut().get(1), Some(1));
    assert_eq!(service.cache_mut().flush_dirty_count(), 0);
}

#[test]
fn the_demo_counts_one_request_of_each_kind() {
    assert_eq!(yarm_runtime::blkcache::demo(), (1, 1, 0));
}
