//! A bucket: how its content is stored, and which of its segments serves an
//! object.
use vstd::prelude::*;

verus! {

/// Configuration of a bucket as the cluster describes it.
#[derive(Clone, Copy, PartialEq, Eq, Structural, Debug)]
pub enum BucketConfig {
    /// A bucket that stores metadata only.
    Metadata { segment_count: u32, tolerable_faults: u32 },
    /// A bucket whose objects are replicated.
    Replicated { segment_count: u32, tolerable_faults: u32 },
    /// A bucket whose objects are erasure-coded.
    Dispersed { segment_count: u32, tolerable_faults: u32, data_fragment_count: u32 },
}

/// How the segments of a bucket store an object's content.
#[derive(Clone, Copy, PartialEq, Eq, Structural, Debug)]
pub enum Storage {
    /// No content is stored.
    Metadata,
    /// Whole copies, tolerating this many lost ones.
    Replicated { tolerable_faults: u8 },
    /// `fragments` coded fragments, tolerating `tolerable_faults` lost ones.
    Dispersed { tolerable_faults: u8, fragments: u8 },
}

/// Parameters of the erasure coder of a dispersed bucket.
#[derive(Clone, Copy, PartialEq, Eq, Structural, Debug)]
pub struct ErasureCoding {
    /// Number of fragments that carry data.
    pub data_fragments: usize,
    /// Number of fragments that carry parity.
    pub parity_fragments: usize,
}

/// The low 8 bits of `n`.
fn low_byte(n: u64) -> (low: u8)
    ensures
        low == n % 256,
{
    assert((n as u8) == n % 256) by (bit_vector);
    #[verifier::truncate]
    (n as u8)
}

/// The low 16 bits of `n`.
fn low_word(n: u32) -> (low: u16)
    ensures
        low == n % 65536,
{
    assert((n as u16) == n % 65536) by (bit_vector);
    #[verifier::truncate]
    (n as u16)
}

impl BucketConfig {
    /// Number of segments of the bucket: the low 16 bits of the configured count.
    pub open spec fn spec_segment_count(&self) -> u16 {
        match *self {
            BucketConfig::Metadata { segment_count, .. } => (segment_count % 65536) as u16,
            BucketConfig::Replicated { segment_count, .. } => (segment_count % 65536) as u16,
            BucketConfig::Dispersed { segment_count, .. } => (segment_count % 65536) as u16,
        }
    }

    /// Number of segments of the bucket: the low 16 bits of the configured count.
    #[verifier::when_used_as_spec(spec_segment_count)]
    pub fn segment_count(&self) -> (count: u16)
        ensures
            count == self.spec_segment_count(),
    {
        match *self {
            BucketConfig::Metadata { segment_count, .. } => low_word(segment_count),
            BucketConfig::Replicated { segment_count, .. } => low_word(segment_count),
            BucketConfig::Dispersed { segment_count, .. } => low_word(segment_count),
        }
    }

    /// The storage that the configuration asks for. Each number is cut to
    /// its low 8 bits; a dispersed bucket has as many fragments as data
    /// fragments and tolerable faults together, the sum cut likewise.
    pub open spec fn spec_storage(&self) -> Storage {
        match *self {
            BucketConfig::Metadata { .. } => Storage::Metadata,
            BucketConfig::Replicated { tolerable_faults, .. } => Storage::Replicated {
                tolerable_faults: (tolerable_faults % 256) as u8,
            },
            BucketConfig::Dispersed {
                tolerable_faults,
                data_fragment_count,
                ..
            } => Storage::Dispersed {
                tolerable_faults: (tolerable_faults % 256) as u8,
                fragments: ((tolerable_faults + data_fragment_count) % 256) as u8,
            },
        }
    }

    /// The storage that the configuration asks for.
    #[verifier::when_used_as_spec(spec_storage)]
    pub fn storage(&self) -> (storage: Storage)
        ensures
            storage == self.spec_storage(),
    {
        match *self {
            BucketConfig::Metadata { .. } => Storage::Metadata,
            BucketConfig::Replicated { tolerable_faults, .. } => Storage::Replicated {
                tolerable_faults: low_byte(tolerable_faults as u64),
            },
            BucketConfig::Dispersed { tolerable_faults, data_fragment_count, .. } => {
                let total: u64 = tolerable_faults as u64 + data_fragment_count as u64;
                Storage::Dispersed {
                    tolerable_faults: low_byte(tolerable_faults as u64),
                    fragments: low_byte(total),
                }
            },
        }
    }

    /// The erasure coding that the configuration asks for: none unless the
    /// bucket is dispersed.
    pub open spec fn spec_erasure_coding(&self) -> Option<ErasureCoding> {
        match *self {
            BucketConfig::Dispersed { tolerable_faults, data_fragment_count, .. } => Some(
                ErasureCoding {
                    data_fragments: data_fragment_count as usize,
                    parity_fragments: tolerable_faults as usize,
                },
            ),
            _ => None,
        }
    }

    /// The erasure coding that the configuration asks for.
    #[verifier::when_used_as_spec(spec_erasure_coding)]
    pub fn erasure_coding(&self) -> (coding: Option<ErasureCoding>)
        ensures
            coding == self.spec_erasure_coding(),
    {
        match *self {
            BucketConfig::Dispersed { tolerable_faults, data_fragment_count, .. } => Some(
                ErasureCoding {
                    data_fragments: data_fragment_count as usize,
                    parity_fragments: tolerable_faults as usize,
                },
            ),
            _ => None,
        }
    }
}

/// The SipHash-1-3 digest, under the all-zero key, of what the standard
/// `Hash` impl of a string feeds a hasher for the text `id`.
pub uninterp spec fn sip13_of(id: Seq<char>) -> u64;

/// Hashes `id` with `siphasher::sip::SipHasher13::new()`: the hasher is fed by
/// the string's `Hash` impl and finished. The contract only names the digest,
/// which depends on nothing but the text.
#[verifier::external_body]
fn hash_object_id(id: &String) -> (digest: u64)
    ensures
        digest == sip13_of(id@),
{
    let mut hasher = siphasher::sip::SipHasher13::new();
    std::hash::Hash::hash(id, &mut hasher);
    std::hash::Hasher::finish(&hasher)
}

/// The slot, among `segment_count` segments, of an object whose identifier
/// has the digest `digest`.
pub open spec fn spec_segment_index(digest: u64, segment_count: usize) -> usize {
    ((digest as usize) % segment_count) as usize
}

/// The slot, among `segment_count` segments, of an object whose identifier
/// has the digest `digest`.
#[verifier::when_used_as_spec(spec_segment_index)]
pub fn segment_index(digest: u64, segment_count: usize) -> (index: usize)
    requires
        segment_count > 0,
    ensures
        index == spec_segment_index(digest, segment_count),
        index < segment_count,
{
    let folded: usize = #[verifier::truncate]
    (digest as usize);
    folded % segment_count
}

/// A bucket with one client per segment. `T` is the client of a segment,
/// which the embedding program builds.
#[derive(Clone, Debug)]
pub struct Bucket<T> {
    ec: Option<ErasureCoding>,
    storage_config: Storage,
    segments: Vec<T>,
}

impl<T> Bucket<T> {
    /// The erasure coding of the bucket.
    pub closed spec fn spec_erasure_coding(&self) -> Option<ErasureCoding> {
        self.ec
    }

    /// The storage of the bucket.
    pub closed spec fn spec_storage(&self) -> Storage {
        self.storage_config
    }

    /// The segment clients, by segment number.
    pub closed spec fn spec_segments(&self) -> Seq<T> {
        self.segments@
    }

    /// A bucket for `config` in which every segment is served by a clone of
    /// `segment`.
    pub fn new(config: &BucketConfig, segment: T) -> (bucket: Self) where T: Clone
        ensures
            bucket.spec_erasure_coding() == config.spec_erasure_coding(),
            bucket.spec_storage() == config.spec_storage(),
            bucket.spec_segments().len() == config.spec_segment_count(),
            forall|i: int|
                0 <= i < bucket.spec_segments().len() ==> cloned(
                    segment,
                    #[trigger] bucket.spec_segments()[i],
                ),
    {
        let count = config.segment_count();
        let mut segments: Vec<T> = Vec::new();
        let mut i: u16 = 0;
        while i < count
            invariant
                i <= count,
                segments@.len() == i,
                forall|k: int| 0 <= k < segments@.len() ==> cloned(segment, #[trigger] segments@[k]),
            decreases count - i,
        {
            segments.push(segment.clone());
            i += 1;
        }
        Bucket { ec: config.erasure_coding(), storage_config: config.storage(), segments }
    }

    /// Puts `segment` in charge of the segment numbered `segment_no`.
    pub fn update_segment(&mut self, segment_no: u16, segment: T)
        requires
            segment_no < old(self).spec_segments().len(),
        ensures
            final(self).spec_segments() == old(self).spec_segments().update(segment_no as int, segment),
            final(self).spec_erasure_coding() == old(self).spec_erasure_coding(),
            final(self).spec_storage() == old(self).spec_storage(),
    {
        self.segments[segment_no as usize] = segment;
    }

    /// The client of the segment that serves the object `id`: the one in
    /// the slot that the identifier's digest falls into.
    pub fn get_segment(&self, id: &String) -> (segment: &T)
        requires
            self.spec_segments().len() > 0,
        ensures
            *segment == self.spec_segments()[spec_segment_index(
                sip13_of(id@),
                self.spec_segments().len() as usize,
            ) as int],
    {
        let index = segment_index(hash_object_id(id), self.segments.len());
        &self.segments[index]
    }

    /// The slot of the segment that serves the object `id`.
    pub fn get_segment_index(&self, id: &String) -> (index: usize)
        requires
            self.spec_segments().len() > 0,
        ensures
            index == spec_segment_index(sip13_of(id@), self.spec_segments().len() as usize),
            index < self.spec_segments().len(),
    {
        segment_index(hash_object_id(id), self.segments.len())
    }

    /// The segment clients, by segment number.
    pub fn segments(&self) -> (segments: &[T])
        ensures
            segments@ == self.spec_segments(),
    {
        self.segments.as_slice()
    }

    /// The storage of the bucket.
    pub fn storage(&self) -> (storage: Storage)
        ensures
            storage == self.spec_storage(),
    {
        self.storage_config
    }

    /// The erasure coding of the bucket.
    pub fn erasure_coding(&self) -> (coding: Option<ErasureCoding>)
        ensures
            coding == self.spec_erasure_coding(),
    {
        self.ec
    }
}

} // verus!
