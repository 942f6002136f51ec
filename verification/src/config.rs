//! The settings of a run: thresholds of the distribution and the lists by
//! which buildings are classified.

use vstd::prelude::*;

verus! {

/// The mathematical form of the settings.
pub struct Settings {
    /// Occupancy above which a chosen flat may be drawn again.
    pub reroll_threshold: u64,
    /// End of the interval `[0, reroll_probability)` from which the second
    /// value is drawn.
    pub reroll_probability: i32,
    /// Flats added for each level above the fourth.
    pub level_factor: usize,
    /// Flats counted for each house number of an apartment building.
    pub housenumber_factor: usize,
    /// Number of levels above which a building gets the level adjustment.
    pub level_threshold: usize,
    /// Flats of an apartment or unspecified building without house numbers.
    pub fallback_flats: usize,
    /// Values of `landuse` that mark an exclusion area.
    pub exclude_landuse: Seq<Seq<char>>,
    /// Keys whose presence marks a building, or an area, as not residential.
    pub exclude_tags: Seq<Seq<char>>,
    /// Building types that hold one flat.
    pub single_home_list: Seq<Seq<char>>,
    /// Building types that hold several flats for each house number.
    pub apartment_list: Seq<Seq<char>>,
    /// Building types that hold one flat for each house number.
    pub unspecified_list: Seq<Seq<char>>,
}

/// The settings that a builder starts with.
///
/// A building of an apartment or unspecified type in which no house number
/// was found counts `fallback_flats` flats; four is a default that a run may
/// change. The level adjustment starts above four levels.
pub open spec fn default_settings() -> Settings {
    Settings {
        reroll_threshold: 90,
        reroll_probability: 2,
        level_factor: 2,
        housenumber_factor: 3,
        level_threshold: 4,
        fallback_flats: 4,
        exclude_landuse: seq![
            "allotments"@,
            "commercial"@,
            "industrial"@,
            "military"@,
            "retail"@,
        ],
        exclude_tags: seq!["amenity"@, "leisure"@],
        single_home_list: seq!["house"@, "detached"@],
        apartment_list: seq!["apartments"@, "residential"@],
        unspecified_list: seq!["terrace"@, "semidetached_house"@],
    }
}

/// The settings of a run.
#[derive(Clone, Debug)]
pub struct Config {
    pub(crate) reroll_threshold: u64,
    pub(crate) reroll_probability: i32,
    pub(crate) level_factor: usize,
    pub(crate) housenumber_factor: usize,
    pub(crate) level_threshold: usize,
    pub(crate) fallback_flats: usize,
    pub(crate) exclude_landuse: Vec<String>,
    pub(crate) exclude_tags: Vec<String>,
    pub(crate) single_home_list: Vec<String>,
    pub(crate) apartment_list: Vec<String>,
    pub(crate) unspecified_list: Vec<String>,
}

impl View for Config {
    type V = Settings;

    closed spec fn view(&self) -> Settings {
        Settings {
            reroll_threshold: self.reroll_threshold,
            reroll_probability: self.reroll_probability,
            level_factor: self.level_factor,
            housenumber_factor: self.housenumber_factor,
            level_threshold: self.level_threshold,
            fallback_flats: self.fallback_flats,
            exclude_landuse: self.exclude_landuse.deep_view(),
            exclude_tags: self.exclude_tags.deep_view(),
            single_home_list: self.single_home_list.deep_view(),
            apartment_list: self.apartment_list.deep_view(),
            unspecified_list: self.unspecified_list.deep_view(),
        }
    }
}

impl Config {
    /// A builder that holds the default settings.
    pub fn builder() -> (r: ConfigBuilder)
        ensures
            r@ == default_settings(),
    {
        ConfigBuilder::new()
    }

    /// Occupancy above which a chosen flat may be drawn again.
    pub fn reroll_threshold(&self) -> (r: u64)
        ensures
            r == self@.reroll_threshold,
    {
        self.reroll_threshold
    }

    /// End of the interval from which the second value is drawn.
    pub fn reroll_probability(&self) -> (r: i32)
        ensures
            r == self@.reroll_probability,
    {
        self.reroll_probability
    }

    /// Flats added for each level above the fourth.
    pub fn level_factor(&self) -> (r: usize)
        ensures
            r == self@.level_factor,
    {
        self.level_factor
    }

    /// Flats counted for each house number of an apartment building.
    pub fn housenumber_factor(&self) -> (r: usize)
        ensures
            r == self@.housenumber_factor,
    {
        self.housenumber_factor
    }

    /// Number of levels above which a building gets the level adjustment.
    pub fn level_threshold(&self) -> (r: usize)
        ensures
            r == self@.level_threshold,
    {
        self.level_threshold
    }

    /// Flats of an apartment or unspecified building without house numbers.
    pub fn fallback_flats(&self) -> (r: usize)
        ensures
            r == self@.fallback_flats,
    {
        self.fallback_flats
    }

    /// Values of `landuse` that mark an exclusion area.
    pub fn exclude_landuse(&self) -> (r: &Vec<String>)
        ensures
            r.deep_view() == self@.exclude_landuse,
    {
        &self.exclude_landuse
    }

    /// Keys whose presence marks a building, or an area, as not residential.
    pub fn exclude_tags(&self) -> (r: &Vec<String>)
        ensures
            r.deep_view() == self@.exclude_tags,
    {
        &self.exclude_tags
    }

    /// Building types that hold one flat.
    pub fn single_home_list(&self) -> (r: &Vec<String>)
        ensures
            r.deep_view() == self@.single_home_list,
    {
        &self.single_home_list
    }

    /// Building types that hold several flats for each house number.
    pub fn apartment_list(&self) -> (r: &Vec<String>)
        ensures
            r.deep_view() == self@.apartment_list,
    {
        &self.apartment_list
    }

    /// Building types that hold one flat for each house number.
    pub fn unspecified_list(&self) -> (r: &Vec<String>)
        ensures
            r.deep_view() == self@.unspecified_list,
    {
        &self.unspecified_list
    }
}

/// Collects the settings of a run, starting from the defaults.
pub struct ConfigBuilder {
    reroll_threshold: u64,
    reroll_probability: i32,
    level_factor: usize,
    housenumber_factor: usize,
    level_threshold: usize,
    fallback_flats: usize,
    exclude_landuse: Vec<String>,
    exclude_tags: Vec<String>,
    single_home_list: Vec<String>,
    apartment_list: Vec<String>,
    unspecified_list: Vec<String>,
}

impl View for ConfigBuilder {
    type V = Settings;

    closed spec fn view(&self) -> Settings {
        Settings {
            reroll_threshold: self.reroll_threshold,
            reroll_probability: self.reroll_probability,
            level_factor: self.level_factor,
            housenumber_factor: self.housenumber_factor,
            level_threshold: self.level_threshold,
            fallback_flats: self.fallback_flats,
            exclude_landuse: self.exclude_landuse.deep_view(),
            exclude_tags: self.exclude_tags.deep_view(),
            single_home_list: self.single_home_list.deep_view(),
            apartment_list: self.apartment_list.deep_view(),
            unspecified_list: self.unspecified_list.deep_view(),
        }
    }
}

/// The texts of `names`, each as a string of its own.
fn owned_list(names: &[&str]) -> (r: Vec<String>)
    ensures
        r.deep_view() == Seq::new(names@.len(), |i: int| names@[i]@),
{
    let mut out: Vec<String> = Vec::new();
    let mut i: usize = 0;
    while i < names.len()
        invariant
            i <= names.len(),
            out.len() == i,
            forall|j: int| 0 <= j < i ==> (#[trigger] out@[j])@ == names@[j]@,
        decreases names.len() - i,
    {
        out.push(names[i].to_owned());
        i += 1;
    }
    assert(out.deep_view() =~= Seq::new(names@.len(), |i: int| names@[i]@));
    out
}

impl ConfigBuilder {
    /// A builder that holds the default settings.
    pub fn new() -> (r: ConfigBuilder)
        ensures
            r@ == default_settings(),
    {
        let exclude_landuse = owned_list(
            &["allotments", "commercial", "industrial", "military", "retail"],
        );
        let exclude_tags = owned_list(&["amenity", "leisure"]);
        let single_home_list = owned_list(&["house", "detached"]);
        let apartment_list = owned_list(&["apartments", "residential"]);
        let unspecified_list = owned_list(&["terrace", "semidetached_house"]);
        proof {
            assert(exclude_landuse.deep_view() =~= default_settings().exclude_landuse);
            assert(exclude_tags.deep_view() =~= default_settings().exclude_tags);
            assert(single_home_list.deep_view() =~= default_settings().single_home_list);
            assert(apartment_list.deep_view() =~= default_settings().apartment_list);
            assert(unspecified_list.deep_view() =~= default_settings().unspecified_list);
        }
        ConfigBuilder {
            reroll_threshold: 90,
            reroll_probability: 2,
            level_factor: 2,
            housenumber_factor: 3,
            level_threshold: 4,
            fallback_flats: 4,
            exclude_landuse,
            exclude_tags,
            single_home_list,
            apartment_list,
            unspecified_list,
        }
    }

    /// Sets the occupancy above which a chosen flat may be drawn again.
    pub fn reroll_threshold(self, reroll_threshold: u64) -> (r: ConfigBuilder)
        ensures
            r@ == (Settings { reroll_threshold, ..self@ }),
    {
        let mut next = self;
        next.reroll_threshold = reroll_threshold;
        next
    }

    /// Sets the end of the interval from which the second value is drawn.
    pub fn reroll_probability(self, reroll_probability: i32) -> (r: ConfigBuilder)
        ensures
            r@ == (Settings { reroll_probability, ..self@ }),
    {
        let mut next = self;
        next.reroll_probability = reroll_probability;
        next
    }

    /// Sets the flats added for each level above the fourth.
    pub fn level_factor(self, level_factor: usize) -> (r: ConfigBuilder)
        ensures
            r@ == (Settings { level_factor, ..self@ }),
    {
        let mut next = self;
        next.level_factor = level_factor;
        next
    }

    /// Sets the flats counted for each house number of an apartment building.
    pub fn housenumber_factor(self, housenumber_factor: usize) -> (r: ConfigBuilder)
        ensures
            r@ == (Settings { housenumber_factor, ..self@ }),
    {
        let mut next = self;
        next.housenumber_factor = housenumber_factor;
        next
    }

    /// Sets the number of levels above which the level adjustment applies.
    pub fn level_threshold(self, level_threshold: usize) -> (r: ConfigBuilder)
        ensures
            r@ == (Settings { level_threshold, ..self@ }),
    {
        let mut next = self;
        next.level_threshold = level_threshold;
        next
    }

    /// Sets the flats of an apartment or unspecified building without house
    /// numbers.
    pub fn fallback_flats(self, fallback_flats: usize) -> (r: ConfigBuilder)
        ensures
            r@ == (Settings { fallback_flats, ..self@ }),
    {
        let mut next = self;
        next.fallback_flats = fallback_flats;
        next
    }

    /// Sets the values of `landuse` that mark an exclusion area.
    pub fn exclude_landuse(self, exclude_landuse: Vec<String>) -> (r: ConfigBuilder)
        ensures
            r@ == (Settings { exclude_landuse: exclude_landuse.deep_view(), ..self@ }),
    {
        let mut next = self;
        next.exclude_landuse = exclude_landuse;
        next
    }

    /// Sets the keys whose presence marks a building as not residential.
    pub fn exclude_tags(self, exclude_tags: Vec<String>) -> (r: ConfigBuilder)
        ensures
            r@ == (Settings { exclude_tags: exclude_tags.deep_view(), ..self@ }),
    {
        let mut next = self;
        next.exclude_tags = exclude_tags;
        next
    }

    /// Sets the building types that hold one flat.
    pub fn single_home_list(self, single_home_list: Vec<String>) -> (r: ConfigBuilder)
        ensures
            r@ == (Settings { single_home_list: single_home_list.deep_view(), ..self@ }),
    {
        let mut next = self;
        next.single_home_list = single_home_list;
        next
    }

    /// Sets the building types that hold several flats for each house number.
    pub fn apartment_list(self, apartment_list: Vec<String>) -> (r: ConfigBuilder)
        ensures
            r@ == (Settings { apartment_list: apartment_list.deep_view(), ..self@ }),
    {
        let mut next = self;
        next.apartment_list = apartment_list;
        next
    }

    /// Sets the building types that hold one flat for each house number.
    pub fn unspecified_list(self, unspecified_list: Vec<String>) -> (r: ConfigBuilder)
        ensures
            r@ == (Settings { unspecified_list: unspecified_list.deep_view(), ..self@ }),
    {
        let mut next = self;
        next.unspecified_list = unspecified_list;
        next
    }

    /// The settings that were collected.
    pub fn build(self) -> (r: Config)
        ensures
            r@ == self@,
    {
        Config {
            reroll_threshold: self.reroll_threshold,
            reroll_probability: self.reroll_probability,
            level_factor: self.level_factor,
            housenumber_factor: self.housenumber_factor,
            level_threshold: self.level_threshold,
            fallback_flats: self.fallback_flats,
            exclude_landuse: self.exclude_landuse,
            exclude_tags: self.exclude_tags,
            single_home_list: self.single_home_list,
            apartment_list: self.apartment_list,
            unspecified_list: self.unspecified_list,
        }
    }
}

} // verus!
