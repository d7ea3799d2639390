use nydus_builder::{ArtifactStorage, BootstrapContext, BootstrapManager, EROFS_BLOCK_SIZE};

#[test]
fn bootstrap_context_starts_after_superblock() {
    let ctx = BootstrapContext::new(None, false, false);
    assert_eq!(ctx.offset, EROFS_BLOCK_SIZE);
    assert_eq!(ctx.v6_available_blocks.len(), 128);
    assert!(ctx.v6_available_blocks.iter().all(|q| q.is_empty()));
    assert!(ctx.target.is_none());
}

#[test]
fn align_offset_rounds_up() {
    let mut ctx = BootstrapContext::new(None, false, false);
    ctx.offset = 4100;
    ctx.align_offset(32);
    assert_eq!(ctx.offset, 4128);
    ctx.align_offset(32);
    assert_eq!(ctx.offset, 4128);
    ctx.align_offset(4096);
    assert_eq!(ctx.offset, 8192);
}

#[test]
fn append_available_block_enqueues_by_free_tail() {
    let mut ctx = BootstrapContext::new(None, false, false);
    ctx.append_available_block(8192 + 4000);
    assert_eq!(ctx.v6_available_blocks[3].iter().copied().collect::<Vec<_>>(), vec![8192]);
    ctx.append_available_block(8192);
    assert_eq!(ctx.v6_available_blocks.iter().map(|q| q.len()).sum::<usize>(), 1);
    ctx.append_available_block(12288 + 10);
    assert_eq!(ctx.v6_available_blocks[127].iter().copied().collect::<Vec<_>>(), vec![12288]);
}

#[test]
fn allocate_available_block_first_fit() {
    let mut ctx = BootstrapContext::new(None, false, false);
    assert_eq!(ctx.allocate_available_block(100), 0);
    assert_eq!(ctx.allocate_available_block(4096), 0);
    // a block with 1024 free bytes (32 slots) at its tail
    ctx.append_available_block(8192 + 3072);
    assert_eq!(ctx.v6_available_blocks[32].len(), 1);
    // too large for it
    assert_eq!(ctx.allocate_available_block(2000), 0);
    // 100 bytes take 4 slots at the start of the free tail
    let r = ctx.allocate_available_block(100);
    assert_eq!(r, 8192 + 3072);
    assert_eq!(r % 4096 + 100 <= 4096, true);
    assert!(ctx.v6_available_blocks[32].is_empty());
    assert_eq!(ctx.v6_available_blocks[28].iter().copied().collect::<Vec<_>>(), vec![8192]);
    // exactly the rest of the block: nothing is enqueued again
    let r2 = ctx.allocate_available_block(28 * 32);
    assert_eq!(r2, 8192 + 4096 - 28 * 32);
    assert!(ctx.v6_available_blocks.iter().all(|q| q.is_empty()));
}

#[test]
fn allocate_prefers_smallest_fitting_tail() {
    let mut ctx = BootstrapContext::new(None, false, false);
    ctx.append_available_block(4096 + 1024); // 96 slots free
    ctx.append_available_block(16384 + 3840); // 8 slots free
    let r = ctx.allocate_available_block(200);
    assert_eq!(r, 16384 + 3840);
    assert!(ctx.v6_available_blocks[8].is_empty());
    assert_eq!(ctx.v6_available_blocks[1].iter().copied().collect::<Vec<_>>(), vec![16384]);
    assert_eq!(ctx.v6_available_blocks[96].len(), 1);
}

#[test]
fn bootstrap_manager_creates_contexts() {
    let m = BootstrapManager::new(Some(ArtifactStorage::SingleFile("/b".to_string())), Some("/p".to_string()));
    let ctx = m.create_ctx(true);
    assert!(ctx.layered);
    assert!(ctx.fifo);
    assert_eq!(ctx.target.unwrap().display(), "/b");
    let m2 = BootstrapManager::new(None, None);
    let ctx2 = m2.create_ctx(false);
    assert!(!ctx2.layered);
    assert!(ctx2.target.is_none());
}

#[test]
fn align_offset_near_the_top_when_aligned() {
    let mut ctx = BootstrapContext::new(None, false, false);
    ctx.offset = u64::MAX - 4095;
    ctx.align_offset(4096);
    assert_eq!(ctx.offset, u64::MAX - 4095);
    assert!(ctx.inode_map.is_empty());
}
