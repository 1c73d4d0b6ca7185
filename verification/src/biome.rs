use std::collections::HashMap;
use vstd::prelude::*;
use crate::mod_content::{BiomeConditions, BiomeMod};
use crate::noise::{coord_key, key_of, lemma_coord_key_injective, memo_step};
use crate::sample::Sample;
use crate::text::text_eq;
use crate::tile::{TileState, TileStateView};

verus! {

broadcast use vstd::std_specs::hash::group_hash_axioms;

/// Elevation below which a cell is river: 0.3.
pub const RIVER_ELEVATION: u64 = 0x3FD3_3333_3333_3333;

/// Elevation below which a cell that is not cold is beach: 0.4.
pub const BEACH_ELEVATION: u64 = 0x3FD9_9999_9999_999A;

/// Temperature below which a cell is snowy, and above which a low cell is
/// beach: 0.3.
pub const COLD_TEMPERATURE: u64 = 0x3FD3_3333_3333_3333;

/// Temperature above which a dry cell is desert: 0.8.
pub const HOT_TEMPERATURE: u64 = 0x3FE9_9999_9999_999A;

/// Moisture above which a cell is wooded: 0.6.
pub const WET_MOISTURE: u64 = 0x3FE3_3333_3333_3333;

/// Moisture below which a hot cell is desert: 0.3.
pub const DRY_MOISTURE: u64 = 0x3FD3_3333_3333_3333;

/// The kind of terrain at a cell.
#[derive(Clone, Debug, PartialEq, Eq, Hash)]
pub enum Biome {
    River,
    Beach,
    Plains,
    Forest,
    SnowPlains,
    SnowForest,
    Desert,
    Custom(String),
}

/// A biome with its identifier as a sequence of characters.
pub enum BiomeView {
    River,
    Beach,
    Plains,
    Forest,
    SnowPlains,
    SnowForest,
    Desert,
    Custom(Seq<char>),
}

impl View for Biome {
    type V = BiomeView;

    open spec fn view(&self) -> BiomeView {
        match self {
            Biome::River => BiomeView::River,
            Biome::Beach => BiomeView::Beach,
            Biome::Plains => BiomeView::Plains,
            Biome::Forest => BiomeView::Forest,
            Biome::SnowPlains => BiomeView::SnowPlains,
            Biome::SnowForest => BiomeView::SnowForest,
            Biome::Desert => BiomeView::Desert,
            Biome::Custom(id) => BiomeView::Custom(id@),
        }
    }
}

impl Biome {
    /// A copy of the biome.
    pub fn duplicate(&self) -> (r: Biome)
        ensures
            r == *self,
    {
        match self {
            Biome::River => Biome::River,
            Biome::Beach => Biome::Beach,
            Biome::Plains => Biome::Plains,
            Biome::Forest => Biome::Forest,
            Biome::SnowPlains => Biome::SnowPlains,
            Biome::SnowForest => Biome::SnowForest,
            Biome::Desert => Biome::Desert,
            Biome::Custom(id) => Biome::Custom(id.clone()),
        }
    }

    /// Whether two biomes are the same, custom identifiers compared by their
    /// characters.
    pub fn same(&self, other: &Biome) -> (r: bool)
        ensures
            r == (self@ == other@),
    {
        match (self, other) {
            (Biome::River, Biome::River) => true,
            (Biome::Beach, Biome::Beach) => true,
            (Biome::Plains, Biome::Plains) => true,
            (Biome::Forest, Biome::Forest) => true,
            (Biome::SnowPlains, Biome::SnowPlains) => true,
            (Biome::SnowForest, Biome::SnowForest) => true,
            (Biome::Desert, Biome::Desert) => true,
            (Biome::Custom(a), Biome::Custom(b)) => *a == *b,
            _ => false,
        }
    }
}

/// The sample with the given bit pattern.
pub open spec fn level(bits: u64) -> Sample {
    Sample { bits }
}

/// Whether a value lies in a range, ends included. An absent range admits
/// every value.
pub open spec fn in_range(v: Sample, range: Option<(Sample, Sample)>) -> bool {
    match range {
        None => true,
        Some((min, max)) => v.spec_ge(min) && v.spec_le(max),
    }
}

/// Whether a cell's three values lie in the three ranges of `conditions`.
pub open spec fn conditions_hold(
    conditions: BiomeConditions,
    height: Sample,
    moisture: Sample,
    temperature: Sample,
) -> bool {
    &&& in_range(height, conditions.height_range)
    &&& in_range(moisture, conditions.moisture_range)
    &&& in_range(temperature, conditions.temperature_range)
}

/// The index, at or after `from`, of the first custom biome whose conditions
/// hold; the length of the list where none does.
pub open spec fn first_match(
    customs: Seq<BiomeMod>,
    from: int,
    height: Sample,
    moisture: Sample,
    temperature: Sample,
) -> int
    decreases customs.len() - from,
{
    if from < 0 || from >= customs.len() {
        customs.len() as int
    } else if conditions_hold(customs[from].conditions, height, moisture, temperature) {
        from
    } else {
        first_match(customs, from + 1, height, moisture, temperature)
    }
}

/// The biome that the fixed thresholds give, the first rule that applies
/// deciding.
pub open spec fn builtin_biome(height: Sample, moisture: Sample, temperature: Sample) -> BiomeView {
    if height.spec_lt(level(RIVER_ELEVATION)) {
        BiomeView::River
    } else if height.spec_lt(level(BEACH_ELEVATION)) && temperature.spec_gt(
        level(COLD_TEMPERATURE),
    ) {
        BiomeView::Beach
    } else if temperature.spec_lt(level(COLD_TEMPERATURE)) {
        if moisture.spec_gt(level(WET_MOISTURE)) {
            BiomeView::SnowForest
        } else {
            BiomeView::SnowPlains
        }
    } else if temperature.spec_gt(level(HOT_TEMPERATURE)) && moisture.spec_lt(level(DRY_MOISTURE)) {
        BiomeView::Desert
    } else if moisture.spec_gt(level(WET_MOISTURE)) {
        BiomeView::Forest
    } else {
        BiomeView::Plains
    }
}

/// The biome of a cell: the first custom biome whose conditions hold, else
/// what the fixed thresholds give.
pub open spec fn classify(
    customs: Seq<BiomeMod>,
    height: Sample,
    moisture: Sample,
    temperature: Sample,
) -> BiomeView {
    let i = first_match(customs, 0, height, moisture, temperature);
    if i < customs.len() {
        BiomeView::Custom(customs[i].id@)
    } else {
        builtin_biome(height, moisture, temperature)
    }
}

/// The index, at or after `from`, of the first custom biome with the given
/// identifier; the length of the list where there is none.
pub open spec fn first_with_id(customs: Seq<BiomeMod>, from: int, id: Seq<char>) -> int
    decreases customs.len() - from,
{
    if from < 0 || from >= customs.len() {
        customs.len() as int
    } else if customs[from].id@ == id {
        from
    } else {
        first_with_id(customs, from + 1, id)
    }
}

/// The surface state that a custom biome's declaration names. The five
/// built-in names give their states; any other declaration, whether it has
/// the form `Custom(..)` or is a bare name that is not known, is kept whole
/// as a custom state.
pub open spec fn declared_state(declaration: Seq<char>) -> TileStateView {
    if declaration == "Water"@ {
        TileStateView::Water
    } else if declaration == "Sand"@ {
        TileStateView::Sand
    } else if declaration == "Grass"@ {
        TileStateView::Grass
    } else if declaration == "SnowGrass"@ {
        TileStateView::SnowGrass
    } else if declaration == "Tilled"@ {
        TileStateView::Tilled
    } else {
        TileStateView::Custom(declaration)
    }
}

/// The surface state of a biome. A custom biome takes the state declared by
/// the first definition with its identifier, and grass where there is none.
pub open spec fn surface_of(customs: Seq<BiomeMod>, biome: BiomeView) -> TileStateView {
    match biome {
        BiomeView::River => TileStateView::Water,
        BiomeView::Beach => TileStateView::Sand,
        BiomeView::Plains => TileStateView::Grass,
        BiomeView::Forest => TileStateView::Grass,
        BiomeView::SnowPlains => TileStateView::SnowGrass,
        BiomeView::SnowForest => TileStateView::SnowGrass,
        BiomeView::Desert => TileStateView::Sand,
        BiomeView::Custom(id) => {
            let i = first_with_id(customs, 0, id);
            if i < customs.len() {
                declared_state(customs[i].tile_state@)
            } else {
                TileStateView::Grass
            }
        },
    }
}

/// What [`first_match`] finds: an index from `from` on up to the length of
/// the list, before which no custom biome's conditions hold, and at which,
/// where it is in the list, they do.
pub proof fn lemma_first_match(
    customs: Seq<BiomeMod>,
    from: int,
    height: Sample,
    moisture: Sample,
    temperature: Sample,
)
    requires
        0 <= from <= customs.len(),
    ensures
        ({
            let i = first_match(customs, from, height, moisture, temperature);
            &&& from <= i <= customs.len()
            &&& i < customs.len() ==> conditions_hold(
                customs[i].conditions,
                height,
                moisture,
                temperature,
            )
            &&& forall|j: int|
                from <= j < i ==> !conditions_hold(
                    (#[trigger] customs[j]).conditions,
                    height,
                    moisture,
                    temperature,
                )
        }),
    decreases customs.len() - from,
{
    if from < customs.len() && !conditions_hold(
        customs[from].conditions,
        height,
        moisture,
        temperature,
    ) {
        lemma_first_match(customs, from + 1, height, moisture, temperature);
    }
}

/// Every cell has exactly one biome, whatever its three values are. It is
/// the first custom biome whose conditions hold, where there is one, and
/// otherwise one of the seven built-in biomes.
pub proof fn lemma_classify_total(
    customs: Seq<BiomeMod>,
    height: Sample,
    moisture: Sample,
    temperature: Sample,
)
    ensures
        match classify(customs, height, moisture, temperature) {
            BiomeView::Custom(id) => exists|i: int|
                {
                    &&& 0 <= i < customs.len()
                    &&& (#[trigger] customs[i]).id@ == id
                    &&& conditions_hold(customs[i].conditions, height, moisture, temperature)
                    &&& forall|j: int|
                        0 <= j < i ==> !conditions_hold(
                            (#[trigger] customs[j]).conditions,
                            height,
                            moisture,
                            temperature,
                        )
                },
            built_in => built_in == builtin_biome(height, moisture, temperature) && forall|j: int|
                0 <= j < customs.len() ==> !conditions_hold(
                    (#[trigger] customs[j]).conditions,
                    height,
                    moisture,
                    temperature,
                ),
        },
        customs.len() == 0 ==> !(classify(customs, height, moisture, temperature) is Custom),
{
    lemma_first_match(customs, 0, height, moisture, temperature);
    let i = first_match(customs, 0, height, moisture, temperature);
    if i < customs.len() {
        assert(customs[i].id@ == customs[i].id@);
    }
}

/// Where the fixed thresholds decide, each threshold belongs to the side
/// that its rule names. River is exactly an elevation below
/// [`RIVER_ELEVATION`], so a cell at that elevation is no river. Beach is
/// exactly an elevation from there up to, but not at, [`BEACH_ELEVATION`]
/// with a temperature above [`COLD_TEMPERATURE`], so a cell at
/// [`BEACH_ELEVATION`], or at [`COLD_TEMPERATURE`], is no beach.
pub proof fn lemma_threshold_sides(height: Sample, moisture: Sample, temperature: Sample)
    ensures
        builtin_biome(height, moisture, temperature) is River <==> height.spec_lt(
            level(RIVER_ELEVATION),
        ),
        builtin_biome(height, moisture, temperature) is Beach <==> !height.spec_lt(
            level(RIVER_ELEVATION),
        ) && height.spec_lt(level(BEACH_ELEVATION)) && temperature.spec_gt(level(COLD_TEMPERATURE)),
        !(builtin_biome(level(RIVER_ELEVATION), moisture, temperature) is River),
        !(builtin_biome(level(BEACH_ELEVATION), moisture, temperature) is River),
        !(builtin_biome(level(BEACH_ELEVATION), moisture, temperature) is Beach),
        !(builtin_biome(height, moisture, level(COLD_TEMPERATURE)) is Beach),
        !(builtin_biome(height, moisture, temperature) is Custom),
{
}

/// Whether `v` lies in `range`.
pub fn within(v: Sample, range: &Option<(Sample, Sample)>) -> (r: bool)
    ensures
        r == in_range(v, *range),
{
    match range {
        None => true,
        Some((min, max)) => v.ge(*min) && v.le(*max),
    }
}

/// Whether a cell's three values meet `conditions`.
pub fn matches_conditions(
    values: &(Sample, Sample, Sample),
    conditions: &BiomeConditions,
) -> (r: bool)
    ensures
        r == conditions_hold(*conditions, values.0, values.1, values.2),
{
    within(values.0, &conditions.height_range) && within(values.1, &conditions.moisture_range)
        && within(values.2, &conditions.temperature_range)
}

/// Classifies a cell from its elevation, moisture and temperature.
pub fn compute_biome(
    custom_biomes: &Vec<BiomeMod>,
    height: Sample,
    moisture: Sample,
    temperature: Sample,
) -> (r: Biome)
    ensures
        r@ == classify(custom_biomes@, height, moisture, temperature),
{
    let values = (height, moisture, temperature);
    let mut i: usize = 0;
    while i < custom_biomes.len()
        invariant
            i <= custom_biomes.len(),
            values == (height, moisture, temperature),
            first_match(custom_biomes@, 0, height, moisture, temperature) == first_match(
                custom_biomes@,
                i as int,
                height,
                moisture,
                temperature,
            ),
        decreases custom_biomes.len() - i,
    {
        if matches_conditions(&values, &custom_biomes[i].conditions) {
            return Biome::Custom(custom_biomes[i].id.clone());
        }
        i += 1;
    }
    if height.lt(Sample { bits: RIVER_ELEVATION }) {
        return Biome::River;
    } else if height.lt(Sample { bits: BEACH_ELEVATION }) && temperature.gt(
        Sample { bits: COLD_TEMPERATURE },
    ) {
        return Biome::Beach;
    }
    if temperature.lt(Sample { bits: COLD_TEMPERATURE }) {
        if moisture.gt(Sample { bits: WET_MOISTURE }) {
            return Biome::SnowForest;
        } else {
            return Biome::SnowPlains;
        }
    }
    if temperature.gt(Sample { bits: HOT_TEMPERATURE }) {
        if moisture.lt(Sample { bits: DRY_MOISTURE }) {
            return Biome::Desert;
        }
    }
    if moisture.gt(Sample { bits: WET_MOISTURE }) {
        Biome::Forest
    } else {
        Biome::Plains
    }
}

/// Reads the surface state out of a custom biome's declaration.
pub fn parse_declared_state(declaration: &String) -> (r: TileState)
    ensures
        r@ == declared_state(declaration@),
{
    let text: &str = declaration.as_str();
    if text_eq(text, "Water") {
        TileState::Water
    } else if text_eq(text, "Sand") {
        TileState::Sand
    } else if text_eq(text, "Grass") {
        TileState::Grass
    } else if text_eq(text, "SnowGrass") {
        TileState::SnowGrass
    } else if text_eq(text, "Tilled") {
        TileState::Tilled
    } else {
        TileState::Custom(declaration.clone())
    }
}

/// Derives the surface state of a biome.
pub fn compute_surface(custom_biomes: &Vec<BiomeMod>, biome: &Biome) -> (r: TileState)
    ensures
        r@ == surface_of(custom_biomes@, biome@),
{
    match biome {
        Biome::River => TileState::Water,
        Biome::Beach => TileState::Sand,
        Biome::Plains => TileState::Grass,
        Biome::Forest => TileState::Grass,
        Biome::SnowPlains => TileState::SnowGrass,
        Biome::SnowForest => TileState::SnowGrass,
        Biome::Desert => TileState::Sand,
        Biome::Custom(id) => {
            let mut i: usize = 0;
            while i < custom_biomes.len()
                invariant
                    i <= custom_biomes.len(),
                    biome@ == BiomeView::Custom(id@),
                    first_with_id(custom_biomes@, 0, id@) == first_with_id(
                        custom_biomes@,
                        i as int,
                        id@,
                    ),
                decreases custom_biomes.len() - i,
            {
                if custom_biomes[i].id == *id {
                    return parse_declared_state(&custom_biomes[i].tile_state);
                }
                i += 1;
            }
            TileState::Grass
        },
    }
}

} // verus!

verus! {

/// The state filed under `biome` in a list of pairs in which the earliest
/// pair with a biome decides.
pub open spec fn assoc_get(list: Seq<(Biome, TileState)>, biome: BiomeView) -> Option<
    TileStateView,
>
    decreases list.len(),
{
    if list.len() == 0 {
        None
    } else {
        match assoc_get(list.drop_last(), biome) {
            Some(state) => Some(state),
            None => if list.last().0@ == biome {
                Some(list.last().1@)
            } else {
                None
            },
        }
    }
}

proof fn lemma_assoc_absent(list: Seq<(Biome, TileState)>, biome: BiomeView)
    requires
        forall|j: int| 0 <= j < list.len() ==> list[j].0@ != biome,
    ensures
        assoc_get(list, biome) is None,
    decreases list.len(),
{
    if list.len() > 0 {
        lemma_assoc_absent(list.drop_last(), biome);
    }
}

proof fn lemma_assoc_found(list: Seq<(Biome, TileState)>, i: int, biome: BiomeView)
    requires
        0 <= i < list.len(),
        forall|j: int| 0 <= j < i ==> list[j].0@ != biome,
        list[i].0@ == biome,
    ensures
        assoc_get(list, biome) == Some(list[i].1@),
    decreases list.len(),
{
    if i == list.len() - 1 {
        lemma_assoc_absent(list.drop_last(), biome);
    } else {
        lemma_assoc_found(list.drop_last(), i, biome);
    }
}

/// Memo of the classifier: the biome found for each cell, and the surface
/// state derived for each biome. Entries are never evicted.
pub struct BiomeCache {
    biomes: HashMap<u128, Biome>,
    tile_states: Vec<(Biome, TileState)>,
}

impl BiomeCache {
    /// The biomes stored, by cell.
    pub closed spec fn biomes_view(&self) -> Map<(usize, usize), BiomeView> {
        Map::new(
            |pos: (usize, usize)| self.biomes@.contains_key(coord_key(pos)),
            |pos: (usize, usize)| self.biomes@[coord_key(pos)]@,
        )
    }

    /// The surface states stored, by biome.
    pub closed spec fn states_view(&self) -> Map<BiomeView, TileStateView> {
        Map::new(
            |biome: BiomeView| assoc_get(self.tile_states@, biome) is Some,
            |biome: BiomeView| assoc_get(self.tile_states@, biome)->0,
        )
    }

    /// An empty memo.
    pub fn new() -> (cache: BiomeCache)
        ensures
            cache.biomes_view() == Map::<(usize, usize), BiomeView>::empty(),
            cache.states_view() == Map::<BiomeView, TileStateView>::empty(),
    {
        let cache = BiomeCache { biomes: HashMap::new(), tile_states: Vec::new() };
        assert(cache.biomes_view() =~= Map::<(usize, usize), BiomeView>::empty());
        assert(cache.states_view() =~= Map::<BiomeView, TileStateView>::empty());
        cache
    }

    /// Returns the biome stored for the cell `pos`; on a miss, classifies the
    /// cell from its three values, stores the biome and returns it.
    pub fn get_or_calculate_biome(
        &mut self,
        pos: (usize, usize),
        height: Sample,
        moisture: Sample,
        temperature: Sample,
        custom_biomes: &Vec<BiomeMod>,
    ) -> (r: Biome)
        ensures
            (r@, final(self).biomes_view()) == memo_step(
                old(self).biomes_view(),
                pos,
                classify(custom_biomes@, height, moisture, temperature),
            ),
            final(self).states_view() == old(self).states_view(),
    {
        let k: u128 = key_of(pos);
        let found: Option<Biome> = match self.biomes.get(&k) {
            Some(biome) => Some(biome.duplicate()),
            None => None,
        };
        match found {
            Some(biome) => biome,
            None => {
                let biome = compute_biome(custom_biomes, height, moisture, temperature);
                self.biomes.insert(k, biome.duplicate());
                proof {
                    assert forall|a: (usize, usize), b: (usize, usize)|
                        coord_key(a) == coord_key(b) implies a == b by {
                        lemma_coord_key_injective(a, b);
                    }
                    assert(self.biomes_view() =~= old(self).biomes_view().insert(pos, biome@));
                }
                biome
            },
        }
    }

    /// Returns the surface state stored for `biome`; on a miss, derives it,
    /// stores it and returns it.
    pub fn get_or_calculate_tile_state(
        &mut self,
        biome: Biome,
        custom_biomes: &Vec<BiomeMod>,
    ) -> (r: TileState)
        ensures
            (r@, final(self).states_view()) == memo_step(
                old(self).states_view(),
                biome@,
                surface_of(custom_biomes@, biome@),
            ),
            final(self).biomes_view() == old(self).biomes_view(),
    {
        let mut i: usize = 0;
        while i < self.tile_states.len()
            invariant
                i <= self.tile_states.len(),
                *self == *old(self),
                forall|j: int| 0 <= j < i ==> self.tile_states@[j].0@ != biome@,
            decreases self.tile_states.len() - i,
        {
            if self.tile_states[i].0.same(&biome) {
                proof {
                    lemma_assoc_found(self.tile_states@, i as int, biome@);
                }
                return self.tile_states[i].1.duplicate();
            }
            i += 1;
        }
        proof {
            lemma_assoc_absent(self.tile_states@, biome@);
        }
        let state = compute_surface(custom_biomes, &biome);
        let ghost before = self.tile_states@;
        let ghost key = biome@;
        self.tile_states.push((biome, state.duplicate()));
        proof {
            assert(self.tile_states@.drop_last() =~= before);
            assert(self.states_view() =~= old(self).states_view().insert(key, state@));
        }
        state
    }
}

} // verus!
