use std::collections::HashMap;
use vstd::prelude::*;
use crate::sample::Sample;

verus! {

broadcast use vstd::std_specs::hash::group_hash_axioms;

/// The four independent signals that the generator reads.
#[derive(Clone, Copy, Debug, PartialEq, Eq, Structural)]
pub enum NoiseType {
    Height,
    Moisture,
    Temperature,
    BlockChance,
}

/// What is added to both coordinates of a cell before the moisture channel
/// is sampled: 10000.
pub const MOISTURE_OFFSET: u64 = 0x40C3_8800_0000_0000;

/// What is added to both coordinates of a cell before the temperature
/// channel is sampled: 20000.
pub const TEMPERATURE_OFFSET: u64 = 0x40D3_8800_0000_0000;

/// What is added to both coordinates of a cell before the object-chance
/// channel is sampled: 30000.
pub const BLOCK_CHANCE_OFFSET: u64 = 0x40DD_4C00_0000_0000;

/// The offset of a channel. The channels read one noise field, each so far
/// from the others that their values do not follow one another.
pub open spec fn offset_of(noise_type: NoiseType) -> Sample {
    match noise_type {
        NoiseType::Height => Sample { bits: 0 },
        NoiseType::Moisture => Sample { bits: MOISTURE_OFFSET },
        NoiseType::Temperature => Sample { bits: TEMPERATURE_OFFSET },
        NoiseType::BlockChance => Sample { bits: BLOCK_CHANCE_OFFSET },
    }
}

/// No two channels share an offset.
pub proof fn lemma_offsets_differ(a: NoiseType, b: NoiseType)
    ensures
        offset_of(a) == offset_of(b) <==> a == b,
{
}

impl NoiseType {
    /// The offset of the channel.
    pub fn offset(self) -> (s: Sample)
        ensures
            s == offset_of(self),
    {
        match self {
            NoiseType::Height => Sample { bits: 0 },
            NoiseType::Moisture => Sample { bits: MOISTURE_OFFSET },
            NoiseType::Temperature => Sample { bits: TEMPERATURE_OFFSET },
            NoiseType::BlockChance => Sample { bits: BLOCK_CHANCE_OFFSET },
        }
    }
}

/// The key under which a cell is filed: the two coordinates side by side in
/// one 128-bit word, so that distinct cells get distinct keys.
pub open spec fn coord_key(pos: (usize, usize)) -> u128 {
    (pos.0 * 0x1_0000_0000_0000_0000 + pos.1) as u128
}

/// Distinct cells have distinct keys.
pub proof fn lemma_coord_key_injective(a: (usize, usize), b: (usize, usize))
    ensures
        coord_key(a) == coord_key(b) <==> a == b,
{
}

/// Computes [`coord_key`].
pub fn key_of(pos: (usize, usize)) -> (k: u128)
    ensures
        k == coord_key(pos),
{
    let hi: u128 = pos.0 as u128;
    let lo: u128 = pos.1 as u128;
    hi * 0x1_0000_0000_0000_0000u128 + lo
}

/// What one lookup does to a memo: a stored value wins and the memo stays as
/// it is; otherwise the fresh value is returned and stored.
pub open spec fn memo_step<K, V>(memo: Map<K, V>, key: K, fresh: V) -> (V, Map<K, V>) {
    if memo.contains_key(key) {
        (memo[key], memo)
    } else {
        (fresh, memo.insert(key, fresh))
    }
}

/// Once a value has been stored for a key, every later lookup of that key
/// returns it, whatever a new computation would have given, and leaves the
/// memo unchanged. On a miss the lookup returns the computed value itself.
pub proof fn lemma_memo_hit_returns_first<K, V>(memo: Map<K, V>, key: K, first: V, second: V)
    ensures
        ({
            let (r1, m1) = memo_step(memo, key, first);
            let (r2, m2) = memo_step(m1, key, second);
            &&& m1.contains_key(key)
            &&& r2 == r1
            &&& m2 == m1
            &&& !memo.contains_key(key) ==> r1 == first
        }),
{
}

/// Per-channel memo of noise values by cell. Entries are never evicted.
pub struct NoiseCache {
    height: HashMap<u128, Sample>,
    moisture: HashMap<u128, Sample>,
    temperature: HashMap<u128, Sample>,
    block_chance: HashMap<u128, Sample>,
}

impl NoiseCache {
    spec fn channel(&self, noise_type: NoiseType) -> Map<u128, Sample> {
        match noise_type {
            NoiseType::Height => self.height@,
            NoiseType::Moisture => self.moisture@,
            NoiseType::Temperature => self.temperature@,
            NoiseType::BlockChance => self.block_chance@,
        }
    }

    /// The stored values, by channel and cell.
    pub closed spec fn view(&self) -> Map<(NoiseType, (usize, usize)), Sample> {
        Map::new(
            |k: (NoiseType, (usize, usize))| self.channel(k.0).contains_key(coord_key(k.1)),
            |k: (NoiseType, (usize, usize))| self.channel(k.0)[coord_key(k.1)],
        )
    }

    /// An empty memo.
    pub fn new() -> (cache: NoiseCache)
        ensures
            cache@ == Map::<(NoiseType, (usize, usize)), Sample>::empty(),
    {
        let cache = NoiseCache {
            height: HashMap::new(),
            moisture: HashMap::new(),
            temperature: HashMap::new(),
            block_chance: HashMap::new(),
        };
        assert(cache@ =~= Map::<(NoiseType, (usize, usize)), Sample>::empty());
        cache
    }

    /// The value stored for a cell on a channel, if any.
    pub fn get(&self, pos: (usize, usize), noise_type: NoiseType) -> (r: Option<Sample>)
        ensures
            r == (if self@.contains_key((noise_type, pos)) {
                Some(self@[(noise_type, pos)])
            } else {
                None
            }),
    {
        let k: u128 = key_of(pos);
        let found = match noise_type {
            NoiseType::Height => self.height.get(&k),
            NoiseType::Moisture => self.moisture.get(&k),
            NoiseType::Temperature => self.temperature.get(&k),
            NoiseType::BlockChance => self.block_chance.get(&k),
        };
        match found {
            Some(v) => Some(*v),
            None => None,
        }
    }

    /// Returns the value stored for `pos` on `noise_type`; on a miss, calls
    /// `compute`, stores what it returns and returns that.
    pub fn get_or_generate<F: FnOnce() -> Sample>(
        &mut self,
        pos: (usize, usize),
        noise_type: NoiseType,
        compute: F,
    ) -> (r: Sample)
        requires
            compute.requires(()),
        ensures
            (r, final(self)@) == memo_step(old(self)@, (noise_type, pos), r),
            !old(self)@.contains_key((noise_type, pos)) ==> compute.ensures((), r),
    {
        match self.get(pos, noise_type) {
            Some(v) => v,
            None => {
                let v = compute();
                let k: u128 = key_of(pos);
                match noise_type {
                    NoiseType::Height => { self.height.insert(k, v); },
                    NoiseType::Moisture => { self.moisture.insert(k, v); },
                    NoiseType::Temperature => { self.temperature.insert(k, v); },
                    NoiseType::BlockChance => { self.block_chance.insert(k, v); },
                }
                proof {
                    assert forall|a: (usize, usize), b: (usize, usize)|
                        coord_key(a) == coord_key(b) implies a == b by {
                        lemma_coord_key_injective(a, b);
                    }
                    assert(self@ =~= old(self)@.insert((noise_type, pos), v));
                }
                v
            },
        }
    }
}

} // verus!
