//! Eras: named, possibly open-ended ranges of years that renumber the years
//! they hold.

use vstd::prelude::*;

verus! {

/// An era is a contiguous block of years from which time can be referenced.
/// Eras may overlap.
///
/// An era without a start is considered to have always existed, one without
/// an end has not ended.
#[derive(Debug, Eq, PartialEq)]
pub struct Era {
    /// The name of the era.
    pub name: String,
    /// When the era started. `None` implies it has always existed.
    pub start_year: Option<i64>,
    /// When the era ended. `None` implies it hasn't ended.
    pub end_year: Option<i64>,
}

impl Era {
    /// Whether `year` lies in this era: on or after its start where it has
    /// one, and on or before its end where it has one.
    pub open spec fn contains(&self, year: int) -> bool {
        &&& (self.start_year matches Some(start) ==> start <= year)
        &&& (self.end_year matches Some(end) ==> year <= end)
    }

    /// The year as this era numbers it: counted from the era's start, the
    /// first year being year one; unchanged where the era has no start.
    pub open spec fn spec_year_in_era(&self, year: int) -> int {
        match self.start_year {
            Some(start) => year - start + 1,
            None => year,
        }
    }

    /// Creates a new `Era`.
    pub fn new(name: String, start_year: Option<i64>, end_year: Option<i64>) -> (r: Self)
        ensures
            r.name == name,
            r.start_year == start_year,
            r.end_year == end_year,
    {
        Self { name, start_year, end_year }
    }

    /// Gets the name of the `Era`.
    pub fn name(&self) -> (r: &str)
        ensures
            r@ == self.name@,
    {
        self.name.as_str()
    }

    /// Gets the start year of the era.
    pub fn start_year(&self) -> (r: Option<i64>)
        ensures
            r == self.start_year,
    {
        self.start_year
    }

    /// Gets the end year of the era.
    pub fn end_year(&self) -> (r: Option<i64>)
        ensures
            r == self.end_year,
    {
        self.end_year
    }

    /// Tells whether `year` lies in this era.
    pub fn includes(&self, year: i64) -> (r: bool)
        ensures
            r == self.contains(year as int),
    {
        let after_start = match self.start_year {
            Some(start) => start <= year,
            None => true,
        };
        let before_end = match self.end_year {
            Some(end) => year <= end,
            None => true,
        };
        after_start && before_end
    }

    /// Numbers `year` as this era does. The answer is `None` only where it
    /// does not fit in 64 bits.
    pub fn year_in_era(&self, year: i64) -> (r: Option<i64>)
        ensures
            r matches Some(y) ==> y == self.spec_year_in_era(year as int),
            r is None <==> !(i64::MIN <= self.spec_year_in_era(year as int) <= i64::MAX),
    {
        match self.start_year {
            Some(start) => {
                let shifted: i128 = year as i128 - start as i128 + 1;
                if shifted < i64::MIN as i128 || shifted > i64::MAX as i128 {
                    None
                } else {
                    Some(shifted as i64)
                }
            },
            None => Some(year),
        }
    }
}

impl Clone for Era {
    fn clone(&self) -> (r: Self)
        ensures
            r == *self,
    {
        Era { name: self.name.clone(), start_year: self.start_year, end_year: self.end_year }
    }
}

/// An ordered list of eras. Where several hold a year, the first does.
#[derive(Debug, Eq, PartialEq)]
pub struct Eras(Vec<Era>);

impl Clone for Eras {
    fn clone(&self) -> (r: Self)
        ensures
            r@ == self@,
    {
        let mut eras: Vec<Era> = Vec::new();
        let mut i: usize = 0;
        while i < self.0.len()
            invariant
                0 <= i <= self.0.len(),
                eras@ == self.0@.take(i as int),
            decreases self.0.len() - i,
        {
            eras.push(self.0[i].clone());
            i = i + 1;
            assert(eras@ =~= self.0@.take(i as int));
        }
        assert(eras@ =~= self.0@);
        Eras(eras)
    }
}

impl View for Eras {
    type V = Seq<Era>;

    closed spec fn view(&self) -> Seq<Era> {
        self.0@
    }
}

/// The place of the first era of `eras`, from place `from` on, that contains
/// `year`.
pub open spec fn era_index_from(eras: Seq<Era>, year: int, from: int) -> Option<int>
    decreases eras.len() - from,
{
    if from < 0 || from >= eras.len() {
        None
    } else if eras[from].contains(year) {
        Some(from)
    } else {
        era_index_from(eras, year, from + 1)
    }
}

/// The place of the era of `year`: the first era, in list order, that
/// contains it. Where eras overlap the earlier in the list wins.
pub open spec fn era_index(eras: Seq<Era>, year: int) -> Option<int> {
    era_index_from(eras, year, 0)
}

/// The era of `year`.
pub open spec fn era_of_year(eras: Seq<Era>, year: int) -> Option<Era> {
    match era_index(eras, year) {
        Some(index) => Some(eras[index]),
        None => None,
    }
}

/// `year` as its era numbers it.
pub open spec fn year_in_its_era(eras: Seq<Era>, year: int) -> Option<int> {
    match era_index(eras, year) {
        Some(index) => Some(eras[index].spec_year_in_era(year)),
        None => None,
    }
}

/// The era found holds the year and no era before it does; where none is
/// found, no era holds the year.
pub proof fn lemma_era_index(eras: Seq<Era>, year: int, from: int)
    requires
        0 <= from,
    ensures
        match era_index_from(eras, year, from) {
            Some(index) => {
                &&& from <= index < eras.len()
                &&& eras[index].contains(year)
                &&& forall|j: int| from <= j < index ==> !(#[trigger] eras[j]).contains(year)
            },
            None => forall|j: int| from <= j < eras.len() ==> !(#[trigger] eras[j]).contains(year),
        },
    decreases eras.len() - from,
{
    if from < eras.len() && !eras[from].contains(year) {
        lemma_era_index(eras, year, from + 1);
    }
}

impl Eras {
    /// Creates a list of eras, in order of precedence.
    pub fn new(eras: Vec<Era>) -> (r: Self)
        ensures
            r@ == eras@,
    {
        Eras(eras)
    }

    /// Iterate over the eras. The iterator gives them out in order.
    pub fn iter(&self) -> (r: std::slice::Iter<'_, Era>)
        ensures
            vstd::std_specs::slice::into_iter_elts(r) == self@,
    {
        broadcast use vstd::std_specs::slice::axiom_spec_slice_iter;

        let r = self.0.as_slice().iter();
        assert(self@.as_ref().unref() =~= self@);
        r
    }

    /// Gets a slice of the eras.
    pub fn as_slice(&self) -> (r: &[Era])
        ensures
            r@ == self@,
    {
        self.0.as_slice()
    }

    /// Finds the place of the era of `year`: the first era, in list order,
    /// that contains it, or `None` where no era does.
    pub fn resolve(&self, year: i64) -> (r: Option<usize>)
        ensures
            match r {
                Some(index) => era_index(self@, year as int) == Some(index as int),
                None => era_index(self@, year as int) is None,
            },
    {
        let mut i: usize = 0;
        while i < self.0.len()
            invariant
                0 <= i <= self.0.len(),
                era_index(self@, year as int) == era_index_from(self@, year as int, i as int),
            decreases self.0.len() - i,
        {
            if self.0[i].includes(year) {
                return Some(i);
            }
            i = i + 1;
        }
        None
    }

    /// Gets the era of `year`: the first era, in list order, that contains
    /// it, or `None` where no era does.
    pub fn era_of(&self, year: i64) -> (r: Option<&Era>)
        ensures
            match r {
                Some(era) => era_of_year(self@, year as int) == Some(*era),
                None => era_of_year(self@, year as int) is None,
            },
    {
        proof {
            lemma_era_index(self@, year as int, 0);
        }
        match self.resolve(year) {
            Some(index) => Some(&self.0[index]),
            None => None,
        }
    }

    /// Gets `year` as its era numbers it. The answer is `None` where no era
    /// contains the year, and where the number does not fit in 64 bits.
    pub fn year_in_era(&self, year: i64) -> (r: Option<i64>)
        ensures
            match r {
                Some(shown) => year_in_its_era(self@, year as int) == Some(shown as int),
                None => match year_in_its_era(self@, year as int) {
                    Some(shown) => !(i64::MIN <= shown <= i64::MAX),
                    None => true,
                },
            },
    {
        proof {
            lemma_era_index(self@, year as int, 0);
        }
        match self.resolve(year) {
            Some(index) => self.0[index].year_in_era(year),
            None => None,
        }
    }
}

/// `eras` are the two default eras: "Before Common Era", which has always
/// been and ends with year -1, and "Common Era", which starts with year 0
/// and has not ended.
pub open spec fn are_default_eras(eras: Seq<Era>) -> bool {
    &&& eras.len() == 2
    &&& eras[0].name@ == "Before Common Era"@
    &&& eras[0].start_year == None::<i64>
    &&& eras[0].end_year == Some(-1i64)
    &&& eras[1].name@ == "Common Era"@
    &&& eras[1].start_year == Some(0i64)
    &&& eras[1].end_year == None::<i64>
}

impl Default for Eras {
    /// Two eras that between them hold every year: "Before Common Era" up to
    /// year -1, and "Common Era" from year 0 on.
    fn default() -> (r: Self)
        ensures
            are_default_eras(r@),
    {
        let mut eras: Vec<Era> = Vec::new();
        eras.push(Era::new(String::from_str("Before Common Era"), None, Some(-1)));
        eras.push(Era::new(String::from_str("Common Era"), Some(0), None));
        Eras(eras)
    }
}

} // verus!
