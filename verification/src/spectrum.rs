//! Spectral power distributions: power sampled at discrete wavelengths.

use vstd::prelude::*;
use crate::algebra::is_line_value;
use crate::algebra::linear_interpolation;
use crate::arithmetic::Arithmetic;
use crate::scalar::Scalar;

verus! {

/// Whether the numbers can serve as the wavelengths of a spectrum: none is a
/// NaN and each is less than every later one.
pub open spec fn is_grid(s: Seq<Scalar>) -> bool {
    &&& forall|i: int| 0 <= i < s.len() ==> !(#[trigger] s[i]).nan()
    &&& forall|i: int, j: int| 0 <= i < j < s.len() ==> (#[trigger] s[i]).num_lt(#[trigger] s[j])
}

/// Whether `w` lies within the wavelengths `grid`: between the first and the
/// last, both included.
pub open spec fn in_domain(grid: Seq<Scalar>, w: Scalar) -> bool {
    grid.len() > 0 && grid[0].num_le(w) && w.num_le(grid[grid.len() - 1])
}

/// Whether the samples `i` and `i + 1` bracket `w`: `w` is at least the one and
/// less than the other, or it is the last wavelength and `i + 1` is its index.
pub open spec fn brackets(grid: Seq<Scalar>, w: Scalar, i: int) -> bool {
    &&& 0 <= i
    &&& i + 1 < grid.len()
    &&& grid[i].num_le(w)
    &&& w.num_lt(grid[i + 1]) || (i + 2 == grid.len() && w.num_eq(grid[i + 1]))
}

/// On a grid a wavelength is bracketed by at most one pair of samples.
pub proof fn lemma_bracket_is_unique(grid: Seq<Scalar>, w: Scalar, i: int, j: int)
    requires
        is_grid(grid),
        brackets(grid, w, i),
        brackets(grid, w, j),
    ensures
        i == j,
{
    if i < j {
        assert(i + 1 <= j);
        if i + 1 < j {
            assert(grid[i + 1].num_lt(grid[j]));
        }
    } else if j < i {
        assert(j + 1 <= i);
        if j + 1 < i {
            assert(grid[j + 1].num_lt(grid[i]));
        }
    }
}

/// On a grid a wavelength equals at most one sample's.
pub proof fn lemma_match_is_unique(grid: Seq<Scalar>, w: Scalar, i: int, j: int)
    requires
        is_grid(grid),
        0 <= i < grid.len(),
        0 <= j < grid.len(),
        w.num_eq(grid[i]),
        w.num_eq(grid[j]),
    ensures
        i == j,
{
    if i < j {
        assert(grid[i].num_lt(grid[j]));
    } else if j < i {
        assert(grid[j].num_lt(grid[i]));
    }
}

/// Whether `power` is what the arithmetic gives at `w` on the line between
/// the samples `i` and `i + 1`, which bracket `w`.
pub open spec fn is_between<A: Arithmetic>(
    ar: &A,
    grid: Seq<Scalar>,
    samples: Seq<Scalar>,
    w: Scalar,
    i: int,
    power: Scalar,
) -> bool {
    brackets(grid, w, i) && is_line_value(
        ar,
        grid[i],
        grid[i + 1],
        samples[i],
        samples[i + 1],
        w,
        power,
    )
}

/// Whether sample `i` lies at the wavelength `w`.
pub open spec fn matches(grid: Seq<Scalar>, w: Scalar, i: int) -> bool {
    0 <= i < grid.len() && w.num_eq(grid[i])
}

/// Whether `power` is what the arithmetic gives as the power at `w`: none
/// outside the samples, the power of the sample at `w` if there is one, and
/// else the power on the line between the two samples that bracket `w`.
pub open spec fn is_interpolation<A: Arithmetic>(
    ar: &A,
    grid: Seq<Scalar>,
    samples: Seq<Scalar>,
    w: Scalar,
    power: Option<Scalar>,
) -> bool {
    if !in_domain(grid, w) {
        power.is_none()
    } else if exists|i: int| #[trigger] matches(grid, w, i) {
        exists|i: int| #[trigger] matches(grid, w, i) && power == Some(samples[i])
    } else {
        exists|i: int, between: Scalar|
            #[trigger] is_between(ar, grid, samples, w, i, between) && power == Some(between)
    }
}

/// Tells whether the numbers can serve as the wavelengths of a spectrum.
pub fn check_grid(wavelengths: &Vec<Scalar>) -> (ok: bool)
    ensures
        ok == is_grid(wavelengths@),
{
    let n = wavelengths.len();
    if n == 0 {
        return true;
    }
    if wavelengths[0].is_nan() {
        return false;
    }
    let mut k: usize = 1;
    while k < n
        invariant
            1 <= k <= n,
            n == wavelengths.len(),
            is_grid(wavelengths@.take(k as int)),
        decreases n - k,
    {
        let ghost before = wavelengths@.take(k as int);
        let ghost after = wavelengths@.take(k + 1);
        if !wavelengths[k - 1].lt(wavelengths[k]) {
            proof {
                if is_grid(wavelengths@) {
                    assert(wavelengths@[k - 1].num_lt(wavelengths@[k as int]));
                }
            }
            return false;
        }
        proof {
            assert forall|i: int, j: int| 0 <= i < j < after.len() implies (#[trigger] after[i]).num_lt(
                #[trigger] after[j],
            ) by {
                if j < k {
                    assert(before[i].num_lt(before[j]));
                } else if i < k - 1 {
                    assert(before[i].num_lt(before[k - 1]));
                }
            }
            assert forall|i: int| 0 <= i < after.len() implies !(#[trigger] after[i]).nan() by {
                if i < k {
                    assert(!before[i].nan());
                }
            }
        }
        k += 1;
    }
    assert(wavelengths@.take(n as int) =~= wavelengths@);
    true
}

/// Power sampled at increasing wavelengths, linear in between.
#[derive(Debug)]
pub struct Spectrum {
    wavelengths: Vec<Scalar>,
    powers: Vec<Scalar>,
}

impl Spectrum {
    /// The wavelengths of the samples.
    pub closed spec fn grid(&self) -> Seq<Scalar> {
        self.wavelengths@
    }

    /// The powers of the samples.
    pub closed spec fn samples(&self) -> Seq<Scalar> {
        self.powers@
    }

    /// What every spectrum that this library makes satisfies: it has a power
    /// for each wavelength, and the wavelengths increase.
    pub closed spec fn well_formed(&self) -> bool {
        self.wavelengths@.len() == self.powers@.len() && is_grid(self.wavelengths@)
    }

    /// A well-formed spectrum has as many powers as wavelengths, and its
    /// wavelengths form a grid.
    pub proof fn lemma_well_formed(&self)
        requires
            self.well_formed(),
        ensures
            self.grid().len() == self.samples().len(),
            is_grid(self.grid()),
    {
    }

    /// Tells whether the spectrum is well formed. Every spectrum that this
    /// library makes is.
    pub fn is_well_formed(&self) -> (ok: bool)
        ensures
            ok == self.well_formed(),
    {
        self.wavelengths.len() == self.powers.len() && check_grid(&self.wavelengths)
    }

    /// The spectrum with the given wavelengths and no power at any of them.
    pub fn new(wavelengths: Vec<Scalar>) -> (spectrum: Spectrum)
        requires
            is_grid(wavelengths@),
        ensures
            spectrum.well_formed(),
            spectrum.grid() == wavelengths@,
            spectrum.samples().len() == wavelengths.len(),
            forall|i: int|
                0 <= i < wavelengths.len() ==> #[trigger] spectrum.samples()[i] == Scalar::of(0),
    {
        let size: usize = wavelengths.len();
        let mut powers: Vec<Scalar> = Vec::new();
        let mut k: usize = 0;
        while k < size
            invariant
                0 <= k <= size,
                powers.len() == k,
                forall|i: int| 0 <= i < k ==> #[trigger] powers[i] == Scalar::of(0),
            decreases size - k,
        {
            powers.push(Scalar::zero());
            k += 1;
        }
        Spectrum { wavelengths, powers }
    }

    /// The spectrum with the given power at each of the given wavelengths.
    pub fn from_samples(wavelengths: Vec<Scalar>, powers: Vec<Scalar>) -> (spectrum: Spectrum)
        requires
            is_grid(wavelengths@),
            wavelengths.len() == powers.len(),
        ensures
            spectrum.well_formed(),
            spectrum.grid() == wavelengths@,
            spectrum.samples() == powers@,
    {
        Spectrum { wavelengths, powers }
    }

    /// The number of samples.
    pub fn size(&self) -> (size: usize)
        requires
            self.well_formed(),
        ensures
            size == self.grid().len(),
            size == self.samples().len(),
    {
        self.wavelengths.len()
    }

    /// The wavelength of sample `index`.
    pub fn wavelength(&self, index: usize) -> (wavelength: Scalar)
        requires
            self.well_formed(),
            index < self.grid().len(),
        ensures
            wavelength == self.grid()[index as int],
    {
        self.wavelengths[index]
    }

    /// The power of sample `index`.
    pub fn index(&self, index: usize) -> (power: Scalar)
        requires
            self.well_formed(),
            index < self.samples().len(),
        ensures
            power == self.samples()[index as int],
    {
        self.powers[index]
    }

    /// Sets the power of sample `index`.
    pub fn set(&mut self, index: usize, power: Scalar)
        requires
            old(self).well_formed(),
            index < old(self).samples().len(),
        ensures
            final(self).well_formed(),
            final(self).grid() == old(self).grid(),
            final(self).samples() == old(self).samples().update(index as int, power),
    {
        self.powers.set(index, power);
    }

    /// The index of the lower of the two samples that bracket the wavelength;
    /// none if the spectrum has fewer than two samples or the wavelength lies
    /// outside them.
    pub fn find_wavelength_index(&self, wavelength: Scalar) -> (index: Option<usize>)
        requires
            self.well_formed(),
        ensures
            index.is_some() <==> self.grid().len() >= 2 && in_domain(self.grid(), wavelength),
            index.is_some() ==> brackets(self.grid(), wavelength, index.unwrap() as int),
    {
        let n = self.wavelengths.len();
        if n < 2 {
            return None;
        }
        let first = self.wavelengths[0];
        let last = self.wavelengths[n - 1];
        if !first.le(wavelength) || !wavelength.le(last) {
            return None;
        }
        let mut k: usize = 0;
        while k + 2 < n
            invariant
                0 <= k,
                k + 2 <= n,
                n == self.wavelengths.len(),
                n >= 2,
                is_grid(self.wavelengths@),
                self.wavelengths@[k as int].num_le(wavelength),
                wavelength.num_le(self.wavelengths@[n - 1]),
            decreases n - k,
        {
            if wavelength.lt(self.wavelengths[k + 1]) {
                return Some(k);
            }
            k += 1;
        }
        assert(k + 2 == n);
        Some(k)
    }

    /// The power at a wavelength: that of the sample at this wavelength if there
    /// is one, else the power on the line between the two samples that bracket
    /// it; none if the wavelength lies outside the samples.
    pub fn interpolate_at<A: Arithmetic>(&self, ar: &A, wavelength: Scalar) -> (power: Option<
        Scalar,
    >)
        requires
            self.well_formed(),
        ensures
            power.is_some() <==> in_domain(self.grid(), wavelength),
            forall|i: int|
                0 <= i < self.grid().len() && wavelength.num_eq(#[trigger] self.grid()[i])
                    ==> power == Some(self.samples()[i]),
            is_interpolation(ar, self.grid(), self.samples(), wavelength, power),
    {
        let n = self.wavelengths.len();
        let ghost grid = self.grid();
        let ghost samples = self.samples();
        if n == 1 {
            if wavelength.equals(self.wavelengths[0]) {
                assert(matches(grid, wavelength, 0));
                Some(self.powers[0])
            } else {
                assert(!in_domain(grid, wavelength));
                None
            }
        } else {
            match self.find_wavelength_index(wavelength) {
                None => {
                    assert forall|i: int|
                        0 <= i < grid.len() && wavelength.num_eq(#[trigger] grid[i]) implies false by {
                        if 0 < i {
                            assert(grid[0].num_lt(grid[i]));
                        }
                        if i < n - 1 {
                            assert(grid[i].num_lt(grid[n - 1]));
                        }
                    }
                    assert(!in_domain(grid, wavelength)) by {
                        if n == 0 {
                        } else if in_domain(grid, wavelength) {
                            assert(n >= 2);
                        }
                    }
                    None
                },
                Some(index) => {
                    let lower = self.wavelengths[index];
                    let upper = self.wavelengths[index + 1];
                    assert(in_domain(grid, wavelength));
                    if wavelength.equals(lower) {
                        proof {
                            assert forall|i: int|
                                0 <= i < grid.len() && wavelength.num_eq(
                                    #[trigger] grid[i],
                                ) implies i == index by {
                                lemma_match_is_unique(grid, wavelength, i, index as int);
                            }
                            assert(matches(grid, wavelength, index as int));
                        }
                        Some(self.powers[index])
                    } else if wavelength.equals(upper) {
                        proof {
                            assert forall|i: int|
                                0 <= i < grid.len() && wavelength.num_eq(
                                    #[trigger] grid[i],
                                ) implies i == index + 1 by {
                                lemma_match_is_unique(grid, wavelength, i, index + 1);
                            }
                            assert(matches(grid, wavelength, index + 1));
                        }
                        Some(self.powers[index + 1])
                    } else {
                        proof {
                            assert forall|i: int|
                                0 <= i < grid.len() && wavelength.num_eq(
                                    #[trigger] grid[i],
                                ) implies false by {
                                if i < index {
                                    assert(grid[i].num_lt(grid[index as int]));
                                } else if i > index + 1 {
                                    assert(grid[index + 1].num_lt(grid[i]));
                                }
                            }
                            assert forall|i: int| !#[trigger] matches(grid, wavelength, i) by {
                                if matches(grid, wavelength, i) {
                                    assert(wavelength.num_eq(grid[i]));
                                }
                            }
                        }
                        let between = linear_interpolation(
                            ar,
                            lower,
                            upper,
                            self.powers[index],
                            self.powers[index + 1],
                            wavelength,
                        );
                        assert(is_between(ar, grid, samples, wavelength, index as int, between));
                        assert(is_interpolation(ar, grid, samples, wavelength, Some(between)));
                        Some(between)
                    }
                },
            }
        }
    }
}

} // verus!
