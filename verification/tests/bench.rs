use memequeue::model::Batch;
use memequeue::model::MarketInfo;
use memequeue::model::Message;
use memequeue::model::Side;
use memequeue::random_bytes::carried_checksum;
use memequeue::random_bytes::put_checksum;
use memequeue::random_bytes::put_time;
use memequeue::random_bytes::seal_message;
use memequeue::random_bytes::sent_at;
use memequeue::random_bytes::MessageGenerator;
use memequeue::random_bytes::MessageValidator;
use memequeue::validator::rng_seed;
use memequeue::validator::ValidatorStats;

#[test]
fn seed_is_the_fraction_of_pi() {
    assert_eq!(
        rng_seed(),
        [
            0x24, 0x3f, 0x6a, 0x88, 0x85, 0xa3, 0x08, 0xd3, 0x13, 0x19, 0x13, 0x19, 0x8a, 0x2e,
            0x03, 0x70
        ]
    );
}

#[test]
fn validator_stats_keep_latencies() {
    let mut stats = ValidatorStats::new(4);
    stats.record_message(100, 130, 64);
    stats.record_message(200, 210, 36);
    stats.record_message(300, 325, 1);
    assert_eq!(stats.latencies(), &vec![30, 10, 25]);
    assert_eq!(stats.got_messages(), 3);
    assert_eq!(stats.got_bytes(), 101);
    assert_eq!(stats.avg_latency(), 21);
    assert_eq!(stats.total_time(), 195);
    stats.record_message(10, 5, 0);
    assert_eq!(stats.latencies()[3], u64::MAX - 4);
}

#[test]
fn clock_readings_can_be_taken() {
    let stats = ValidatorStats::new(0);
    let first = stats.time();
    let second = stats.time();
    let _ = stats.clock().delta_as_nanos(first, second);
}

#[test]
fn checksum_is_crc_64_xz() {
    let mut message = b"123456789".to_vec();
    message.extend_from_slice(&0x995d_c9bb_df19_39fa_u64.to_le_bytes());
    let mut validator = MessageValidator::new(2);
    assert!(validator.check_at(&message, 0x3938_3736_3534_3332 + 7));
    assert_eq!(validator.stats().got_messages(), 1);
    assert_eq!(validator.stats().got_bytes(), 17);
    assert_eq!(validator.stats().latencies(), &vec![7]);
    message[0] = b'2';
    assert!(!validator.check_message(&message));
    assert_eq!(validator.stats().got_messages(), 2);
}

#[test]
fn sealed_message_carries_time_and_checksum() {
    let mut buf = vec![0u8; 40];
    buf[32] = 77;
    let random: Vec<u8> = (1..=8).collect();
    seal_message(&mut buf, 24, &random, 0);
    assert_eq!(&buf[..8], &random[..]);
    assert_eq!(&buf[8..16], &[0; 8]);
    assert_eq!(buf[32], 77);
    assert_eq!(&buf[24..32], &[0; 8]);
    let mut validator = MessageValidator::new(1);
    assert!(validator.check_at(&buf[..24], 5));

    let mut stale = vec![0u8; 40];
    seal_message(&mut stale, 24, &random, 0x0102);
    assert_eq!(&stale[8..16], &0x0102_u64.to_le_bytes());
    assert_eq!(&stale[16..24], &buf[16..24]);
    assert!(!validator.check_at(&stale[..24], 5));
}

#[test]
fn generated_message_has_a_size_within_bounds() {
    let mut generator = MessageGenerator::new(16);
    let mut other = MessageGenerator::new(16);
    let mut buf = vec![0u8; 256];
    let mut same = vec![0u8; 256];
    let mut filled = false;
    let mut sizes = std::collections::BTreeSet::new();
    for _ in 0..50 {
        let size = generator.gen_message(&mut buf);
        assert!((16..256).contains(&size));
        sizes.insert(size);
        assert_eq!(other.gen_message(&mut same), size);
        assert_eq!(buf[..size - 16], same[..size - 16]);
        filled |= buf[..size - 16].iter().any(|byte| *byte != 0);
    }
    assert!(filled);
    assert!(sizes.len() > 10);
}

#[test]
fn side_follows_the_coin() {
    assert_eq!(Side::random(true), Side::Buy);
    assert_eq!(Side::random(false), Side::Sell);
    assert_eq!(Side::Buy.ordinal(), 0);
    assert_eq!(Side::Sell.ordinal(), 1);
}

#[test]
fn quote_checks_its_checksum() {
    let amount = 1.5_f64.to_bits();
    let price = 0.25_f64.to_bits();
    let quote = MarketInfo::random(Side::Sell, amount, price, 730, 99);
    assert_eq!(quote.checksum, 1 ^ amount ^ price ^ 730);
    assert_eq!(quote.calculate_checksum(), quote.checksum);
    assert_eq!(quote.time(), 99);
    assert!(quote.check());
    let mut broken = quote;
    broken.level = 731;
    assert!(!broken.check());
    broken.set_checksum();
    assert!(broken.check());
    let mut late = quote;
    late.time = 100;
    assert!(late.check());
}

#[test]
fn batch_checks_every_quote_and_the_count() {
    let quotes: Vec<MarketInfo> = (0..20)
        .map(|index| MarketInfo::random(Side::random(index % 2 == 0), index, 2 * index, 7, index))
        .collect();
    let batch = Batch::new(&quotes, 1234);
    assert_eq!(batch.len(), 20);
    assert_eq!(batch.get(0), quotes[0]);
    assert_eq!(batch.get(19), quotes[19]);
    assert_eq!(batch.time(), 1234);
    assert!(batch.check());
    assert!(Batch::new(&[], 0).check());

    let mut tampered = quotes.clone();
    tampered[17].price ^= 1;
    assert!(!Batch::new(&tampered, 1234).check());
    assert!(!Batch::received(&quotes, 1234, 19).check());
    assert!(Batch::received(&quotes, 1234, 20).check());
}

#[test]
fn time_and_checksum_lie_at_the_end() {
    let mut buf: Vec<u8> = (0..40).collect();
    put_checksum(&mut buf, 32, 0x0102_0304_0506_0708);
    assert_eq!(&buf[24..32], &[8, 7, 6, 5, 4, 3, 2, 1]);
    assert_eq!(&buf[..24], &(0..24).collect::<Vec<u8>>()[..]);
    assert_eq!(&buf[32..], &(32..40).collect::<Vec<u8>>()[..]);
    put_time(&mut buf, 32, 0x1112_1314_1516_1718);
    assert_eq!(&buf[16..24], &[0x18, 0x17, 0x16, 0x15, 0x14, 0x13, 0x12, 0x11]);
    assert_eq!(&buf[24..32], &[8, 7, 6, 5, 4, 3, 2, 1]);
    assert_eq!(&buf[..16], &(0..16).collect::<Vec<u8>>()[..]);
    assert_eq!(sent_at(&buf[..32]), 0x1112_1314_1516_1718);
    assert_eq!(carried_checksum(&buf[..32]), 0x0102_0304_0506_0708);
    assert_eq!(carried_checksum(&buf[..24]), 0x1112_1314_1516_1718);
}
