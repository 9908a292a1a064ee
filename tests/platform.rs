use etheryal_kernel::build_info::release_is_unstable;
use etheryal_kernel::exit::ExitDiagnostics;
use etheryal_kernel::memory::{copy_memory, memcmp, overlapping_copy_memory, set_bytes};
use etheryal_kernel::power::EtheryalAcpiHandler;
use etheryal_kernel::random::{create_entropy_pool, EntropyPool, ENTROPY_POOL_SIZE};
use etheryal_kernel::storage::{BitStorage, StorageIter};
use rand_chacha::ChaCha20Rng;
use rand_core::{RngCore, SeedableRng};

#[test]
fn bit_storage_on_bytes() {
    let mut a = u8::empty();
    assert!(a.is_empty());
    assert!(a.set_bit(0));
    assert!(a.get_bit(0));
    assert!(a.set_bit(7));
    assert!(!a.set_bit(0));
    assert_eq!(a, 0b1000_0001);
    assert_eq!(a.count_ones(), 2);
    assert!(a.clear_bit(7));
    assert!(!a.clear_bit(7));
    assert_eq!(a.count_ones(), 1);
    a.clear_all();
    assert!(a.is_empty());
}

#[test]
fn bit_storage_searches() {
    let mut v = u16::empty();
    assert_eq!(v.first_bit_set(), None);
    assert_eq!(v.last_bit_set(), None);
    v.set_bit(3);
    assert_eq!(v.first_bit_set(), Some(3));
    assert_eq!(v.last_bit_set(), Some(3));
    v.set_bit(7);
    v.set_bit(1);
    assert_eq!(v.first_bit_set(), Some(1));
    assert_eq!(v.last_bit_set(), Some(7));
    let x: u8 = 0b1100_0100;
    assert_eq!(x.first_empty_bit(), Some(0));
    assert_eq!(x.first_bit_set(), Some(2));
    let y: u8 = 0b0010_0011;
    assert_eq!(y.last_bit_set(), Some(5));
    assert_eq!(y.last_empty_bit(), Some(7));
    assert_eq!(u64::MAX.first_empty_bit(), None);
    let mut w = u128::empty();
    assert!(w.set_bit(120));
    assert!(w.get_bit(120));
    assert_eq!(w.count_ones(), 1);
    let mut z = u32::empty();
    z.set_bit(31);
    assert_eq!(z, 1 << 31);
    assert_eq!(u64::bits_in_storage(), 64);
}

#[test]
fn storage_iter_walks_both_ends() {
    let x: u8 = 0b1000_0010;
    let mut it = StorageIter::new(&x);
    assert_eq!(it.len(), 8);
    assert_eq!(it.next(), Some(false));
    assert_eq!(it.next(), Some(true));
    assert_eq!(it.next_back(), Some(true));
    assert_eq!(it.next_back(), Some(false));
    assert_eq!(it.len(), 4);
    for _ in 0..4 {
        assert_eq!(it.next(), Some(false));
    }
    assert_eq!(it.next(), None);
    assert_eq!(it.next_back(), None);
}

#[test]
fn set_and_copy_bytes() {
    let mut buf = [9u8; 6];
    set_bytes(&mut buf, 0x1ff, 4);
    assert_eq!(buf, [0xff, 0xff, 0xff, 0xff, 9, 9]);
    copy_memory(&mut buf, &[1, 2, 3], 2);
    assert_eq!(buf, [1, 2, 0xff, 0xff, 9, 9]);
    assert_eq!(memcmp(&[1, 2, 3], &[1, 2, 3], 3), 0);
    assert_eq!(memcmp(&[1, 5, 3], &[1, 2, 9], 3), 3);
    assert_eq!(memcmp(&[1, 2], &[1, 4], 2), -2);
    assert_eq!(memcmp(&[1, 2], &[7, 4], 0), 0);
}

#[test]
fn acpi_handler_adds_offset() {
    let h = EtheryalAcpiHandler::new(0x1000);
    assert_eq!(h.offset(), 0x1000);
    assert_eq!(h.virtual_address(0x20), Some(0x1020));
    assert_eq!(h.virtual_address(usize::MAX), None);
    assert_eq!(EtheryalAcpiHandler::new(0).virtual_address(0), None);
}

#[test]
fn exit_diagnostics_differ() {
    assert_ne!(ExitDiagnostics::Success, ExitDiagnostics::Failure);
    assert_ne!(ExitDiagnostics::Failure, ExitDiagnostics::Panic);
}

#[test]
fn unstable_release_detection() {
    assert!(!release_is_unstable("", None));
    assert!(release_is_unstable("beta.1", None));
    assert!(release_is_unstable("", Some("abc123")));
}

#[test]
fn pool_fills_up_and_drops_the_rest() {
    let mut pool = EntropyPool::new();
    let bytes: Vec<u8> = (0..=255).collect();
    for _ in 0..5 {
        pool.add_bytes_to_entropy_pool(&bytes);
    }
    assert_eq!(pool.len(), ENTROPY_POOL_SIZE);
    let seed = pool.prng_seed().unwrap();
    let expected: Vec<u8> = (0..32).collect();
    assert_eq!(seed.to_vec(), expected);
    assert_eq!(pool.len(), ENTROPY_POOL_SIZE - 32);
}

#[test]
fn pool_seed_needs_32_bytes() {
    let mut pool = EntropyPool::new();
    pool.add_bytes_to_entropy_pool(&[1u8; 31]);
    assert_eq!(pool.prng_seed(), None);
    assert_eq!(pool.len(), 31);
    assert_eq!(pool.get_secure_seed(None), None);
}

#[test]
fn boot_pool_holds_the_seeded_stream() {
    let mut pool = create_entropy_pool(1_600_000_000);
    assert_eq!(pool.len(), 512);
    let mut expected = [0u8; 32];
    ChaCha20Rng::seed_from_u64(1_600_000_000).fill_bytes(&mut expected);
    assert_ne!(expected, [0u8; 32]);
    assert_eq!(pool.prng_seed(), Some(expected));
}

#[test]
fn hardware_words_fill_the_seed() {
    let mut pool = EntropyPool::new();
    let words = [Some(0x0403_0201u32), Some(5), Some(6), Some(7), Some(8), Some(9), Some(10), Some(0xffff_ffff)];
    let seed = pool.get_secure_seed(Some(words)).unwrap();
    assert_eq!(&seed[0..4], &[1, 2, 3, 4]);
    assert_eq!(&seed[4..8], &[5, 0, 0, 0]);
    assert_eq!(&seed[28..32], &[0xff, 0xff, 0xff, 0xff]);
    assert_eq!(pool.len(), 0);
}

#[test]
fn missing_hardware_word_falls_back_to_the_pool() {
    let mut pool = EntropyPool::new();
    let key: Vec<u8> = (100..132).collect();
    pool.add_bytes_to_entropy_pool(&key);
    let mut words = [Some(1u32); 8];
    words[2] = None;
    words[5] = None;
    let seed = pool.get_secure_seed(Some(words)).unwrap();
    let mut k = [0u8; 32];
    k.copy_from_slice(&key);
    let first = ChaCha20Rng::from_seed(k).next_u32().to_le_bytes();
    assert_eq!(&seed[8..12], &first);
    let second = ChaCha20Rng::from_seed([1u8; 32]).next_u32().to_le_bytes();
    assert_eq!(&seed[20..24], &second);
    assert_eq!(&seed[0..4], &[1, 0, 0, 0]);
    assert_eq!(pool.len(), 0);
}

#[test]
fn overlapping_copies_keep_the_source_bytes() {
    let mut up = [1u8, 2, 3, 4, 5, 6];
    overlapping_copy_memory(&mut up, 2, 0, 4);
    assert_eq!(up, [1, 2, 1, 2, 3, 4]);
    let mut down = [1u8, 2, 3, 4, 5, 6];
    overlapping_copy_memory(&mut down, 0, 2, 4);
    assert_eq!(down, [3, 4, 5, 6, 5, 6]);
    let mut same = [7u8, 8];
    overlapping_copy_memory(&mut same, 0, 0, 2);
    assert_eq!(same, [7, 8]);
}
