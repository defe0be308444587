use frugalos::bucket::{segment_index, Bucket, BucketConfig, ErasureCoding, Storage};
use frugalos::{
    default_max_concurrent_logs, default_stop_waiting_time, default_tcp_connect_timeout,
    default_tcp_write_timeout,
};
use std::hash::{Hash, Hasher};

fn sip13(id: &str) -> u64 {
    let mut hasher = siphasher::sip::SipHasher13::new();
    id.to_string().hash(&mut hasher);
    hasher.finish()
}

#[test]
fn storage_follows_the_bucket_kind() {
    let metadata = BucketConfig::Metadata { segment_count: 4, tolerable_faults: 1 };
    assert_eq!(metadata.storage(), Storage::Metadata);
    assert_eq!(metadata.erasure_coding(), None);
    let replicated = BucketConfig::Replicated { segment_count: 4, tolerable_faults: 2 };
    assert_eq!(replicated.storage(), Storage::Replicated { tolerable_faults: 2 });
    assert_eq!(replicated.erasure_coding(), None);
    let dispersed =
        BucketConfig::Dispersed { segment_count: 4, tolerable_faults: 2, data_fragment_count: 4 };
    assert_eq!(dispersed.storage(), Storage::Dispersed { tolerable_faults: 2, fragments: 6 });
    assert_eq!(
        dispersed.erasure_coding(),
        Some(ErasureCoding { data_fragments: 4, parity_fragments: 2 })
    );
}

#[test]
fn storage_numbers_are_cut_to_their_low_bits() {
    let replicated = BucketConfig::Replicated { segment_count: 65537, tolerable_faults: 258 };
    assert_eq!(replicated.storage(), Storage::Replicated { tolerable_faults: 2 });
    assert_eq!(replicated.segment_count(), 1);
    let dispersed = BucketConfig::Dispersed {
        segment_count: 3,
        tolerable_faults: u32::MAX,
        data_fragment_count: 2,
    };
    assert_eq!(dispersed.storage(), Storage::Dispersed { tolerable_faults: 255, fragments: 1 });
}

#[test]
fn bucket_has_one_client_per_segment() {
    let config = BucketConfig::Replicated { segment_count: 3, tolerable_faults: 1 };
    let mut bucket = Bucket::new(&config, String::from("a"));
    assert_eq!(bucket.segments().len(), 3);
    assert!(bucket.segments().iter().all(|s| s == "a"));
    assert_eq!(bucket.storage(), Storage::Replicated { tolerable_faults: 1 });
    assert_eq!(bucket.erasure_coding(), None);
    bucket.update_segment(1, String::from("b"));
    assert_eq!(bucket.segments().to_vec(), vec!["a".to_string(), "b".to_string(), "a".to_string()]);
}

#[test]
fn segment_index_is_the_remainder() {
    assert_eq!(segment_index(10, 3), 1);
    assert_eq!(segment_index(0, 7), 0);
    assert_eq!(segment_index(41, 1), 0);
    assert_eq!(segment_index(u64::MAX, 2), (u64::MAX as usize) % 2);
}

#[test]
fn object_is_served_by_the_segment_its_digest_picks() {
    let config = BucketConfig::Metadata { segment_count: 5, tolerable_faults: 0 };
    let mut bucket = Bucket::new(&config, 0u16);
    for no in 0..5u16 {
        bucket.update_segment(no, no);
    }
    let mut seen = [false; 5];
    for n in 0..64 {
        let id = format!("object-{}", n);
        let expected = (sip13(&id) as usize) % 5;
        assert_eq!(bucket.get_segment_index(&id), expected);
        assert_eq!(*bucket.get_segment(&id) as usize, expected);
        seen[expected] = true;
    }
    // the digest is not the identity: the objects spread over the segments
    assert!(seen.iter().filter(|s| **s).count() > 1);
}

#[test]
fn defaults_have_their_documented_values() {
    assert_eq!(default_stop_waiting_time(), 10);
    assert_eq!(default_tcp_connect_timeout(), 5000);
    assert_eq!(default_tcp_write_timeout(), 5000);
    assert_eq!(default_max_concurrent_logs(), 4096);
}
