//! Estimated A1c in three reporting scales — DCCT (%), IFCC (mmol/mol)
//! and fructosamine (µmol/L) — derived from a glucose reading or from
//! each other through three published linear relationships:
//!
//! - `dcct = (mgdl + 46.7) / 28.7`, the glucose reading converted to its
//!   mg/dL magnitude first;
//! - `ifcc = (dcct - 2.15) * 10.929`, inverted as
//!   `dcct = ifcc / 10.929 + 2.15`;
//! - `fructosamine = (dcct - 1.61) * 58.82`.
//!
//! DCCT is the pivot: every other scale is computed through it. An
//! [`A1cEstimation`] is a scratch record for one estimation request; each
//! accessor returns a cached value when its field is already filled, and
//! otherwise derives it, caches it — the pivot too, when one had to be
//! computed on the way — and returns it. All values are held in
//! millionths, each derivation rounded to the nearest millionth, ties
//! away from zero.

use vstd::prelude::*;

use crate::decimal::Decimal;
use crate::glucose::{mgdl_value, Glucose};
use crate::rounding::{lemma_rdiv_monotone, lemma_rdiv_neg, rdiv, rdiv_i128};

verus! {

/// Why an estimation request could not be served.
#[derive(Debug)]
pub enum EstimationError {
    /// The requested scale cannot be derived; carries the scale asked
    /// for, then the scales that could have supplied it.
    MissingInputValue(String, String),
}

impl PartialEq for EstimationError {
    fn eq(&self, other: &Self) -> (r: bool) {
        match (self, other) {
            (
                EstimationError::MissingInputValue(a1, a2),
                EstimationError::MissingInputValue(b1, b2),
            ) => *a1 == *b1 && *a2 == *b2,
        }
    }
}

impl vstd::std_specs::cmp::PartialEqSpecImpl for EstimationError {
    open spec fn obeys_eq_spec() -> bool {
        true
    }

    open spec fn eq_spec(&self, other: &Self) -> bool {
        match (self, other) {
            (
                EstimationError::MissingInputValue(a1, a2),
                EstimationError::MissingInputValue(b1, b2),
            ) => a1@ == b1@ && a2@ == b2@,
        }
    }
}

/// DCCT millionths derived from an mg/dL count: `(mgdl + 46.7) / 28.7`.
pub open spec fn dcct_of_mgdl(m: int) -> int {
    rdiv((10 * m + 467) * 1000000, 287)
}

/// DCCT millionths derived from IFCC millionths:
/// `ifcc / 10.929 + 2.15`.
pub open spec fn dcct_of_ifcc(i: int) -> int {
    rdiv(i * 1000, 10929) + 2150000
}

/// IFCC millionths derived from DCCT millionths:
/// `(dcct - 2.15) * 10.929`.
pub open spec fn ifcc_of_dcct(d: int) -> int {
    rdiv((d - 2150000) * 10929, 1000)
}

/// Fructosamine millionths derived from DCCT millionths:
/// `(dcct - 1.61) * 58.82`.
pub open spec fn fructosamine_of_dcct(d: int) -> int {
    rdiv((d - 1610000) * 5882, 100)
}

/// A scratch record holding up to four optional measurements for one
/// estimation request. Create it with the known measurements filled and
/// ask for the scales needed; derived values are cached back into the
/// record so a shared intermediate is never computed twice.
#[derive(Clone, Copy, Debug)]
pub struct A1cEstimation {
    pub glucose: Option<Glucose>,
    pub ifcc: Option<Decimal>,
    pub dcct: Option<Decimal>,
    pub fructosamine: Option<Decimal>,
}

/// The DCCT value an accessor returns, in millionths: the cached field,
/// or the first derivation that applies — glucose before IFCC — or
/// nothing.
pub open spec fn spec_derived_dcct(est: A1cEstimation) -> Option<int> {
    if est.dcct is Some {
        Some(est.dcct->0.micros as int)
    } else if est.glucose is Some {
        Some(dcct_of_mgdl(mgdl_value(est.glucose->0)))
    } else if est.ifcc is Some {
        Some(dcct_of_ifcc(est.ifcc->0.micros as int))
    } else {
        None
    }
}

/// The IFCC value an accessor returns, in millionths: the cached field,
/// or a derivation through the pivot — a cached DCCT before one computed
/// from glucose — or nothing.
pub open spec fn spec_derived_ifcc(est: A1cEstimation) -> Option<int> {
    if est.ifcc is Some {
        Some(est.ifcc->0.micros as int)
    } else if est.dcct is Some {
        Some(ifcc_of_dcct(est.dcct->0.micros as int))
    } else if est.glucose is Some {
        Some(ifcc_of_dcct(dcct_of_mgdl(mgdl_value(est.glucose->0))))
    } else {
        None
    }
}

/// The fructosamine value an accessor returns, in millionths: the cached
/// field, or a derivation through the pivot — a cached DCCT before one
/// computed from glucose — or nothing. A lone IFCC is not consulted.
pub open spec fn spec_derived_fructosamine(est: A1cEstimation) -> Option<int> {
    if est.fructosamine is Some {
        Some(est.fructosamine->0.micros as int)
    } else if est.dcct is Some {
        Some(fructosamine_of_dcct(est.dcct->0.micros as int))
    } else if est.glucose is Some {
        Some(fructosamine_of_dcct(dcct_of_mgdl(mgdl_value(est.glucose->0))))
    } else {
        None
    }
}

impl A1cEstimation {
    /// Machine bounds, not medical ones: caps under which every
    /// derivation, rounded in `i128`, lands back inside `i64` and inside
    /// the caps again. A caller-supplied IFCC must sit under the tighter
    /// cap while no DCCT is cached, since only then can a DCCT be derived
    /// from it; a derived IFCC can be larger, but by then the pivot is
    /// cached. Every value a parsed reading can produce is far inside
    /// all of them.
    pub open spec fn wf(self) -> bool {
        &&& (self.glucose matches Some(g) ==> g.wf())
        &&& (self.dcct matches Some(d) ==> -1000000000000000 <= d.micros <= 1000000000000000)
        &&& (self.ifcc matches Some(i) ==> -20000000000000000 <= i.micros <= 20000000000000000)
        &&& (self.ifcc is Some && self.dcct is None ==> -10000000000000000 <= self.ifcc->0.micros
            <= 10000000000000000)
        &&& (self.fructosamine matches Some(f) ==> -100000000000000000 <= f.micros
            <= 100000000000000000)
    }
}

/// A DCCT derived from any `i32` mg/dL count stays far inside the DCCT
/// cap.
proof fn lemma_dcct_of_mgdl_bound(m: int)
    requires
        -2147483648 <= m <= 2147483647,
    ensures
        -75000000000000 <= dcct_of_mgdl(m) <= 75000000000000,
{
    lemma_rdiv_monotone((10 * m + 467) * 1000000, (10 * 2147483647int + 467) * 1000000, 287int);
    lemma_rdiv_monotone((10 * (-2147483648int) + 467) * 1000000, (10 * m + 467) * 1000000, 287int);
    lemma_rdiv_neg((10 * (-2147483648int) + 467) * 1000000, 287int);
}

/// A DCCT derived from an IFCC under the tighter cap stays inside the
/// DCCT cap.
proof fn lemma_dcct_of_ifcc_bound(i: int)
    requires
        -10000000000000000 <= i <= 10000000000000000,
    ensures
        -1000000000000000 <= dcct_of_ifcc(i) <= 1000000000000000,
{
    lemma_rdiv_monotone(i * 1000, 10000000000000000int * 1000, 10929int);
    lemma_rdiv_monotone((-10000000000000000int) * 1000, i * 1000, 10929int);
    lemma_rdiv_neg(10000000000000000int * 1000, 10929int);
}

/// An IFCC derived from a DCCT under the DCCT cap stays inside the wide
/// IFCC cap.
proof fn lemma_ifcc_of_dcct_bound(d: int)
    requires
        -1000000000000000 <= d <= 1000000000000000,
    ensures
        -20000000000000000 <= ifcc_of_dcct(d) <= 20000000000000000,
{
    lemma_rdiv_monotone((d - 2150000) * 10929, (1000000000000000int - 2150000) * 10929, 1000int);
    lemma_rdiv_monotone(((-1000000000000000int) - 2150000) * 10929, (d - 2150000) * 10929, 1000int);
    lemma_rdiv_neg(((-1000000000000000int) - 2150000) * 10929, 1000int);
}

/// A fructosamine derived from a DCCT under the DCCT cap stays inside
/// the fructosamine cap.
proof fn lemma_fructosamine_of_dcct_bound(d: int)
    requires
        -1000000000000000 <= d <= 1000000000000000,
    ensures
        -100000000000000000 <= fructosamine_of_dcct(d) <= 100000000000000000,
{
    lemma_rdiv_monotone((d - 1610000) * 5882, (1000000000000000int - 1610000) * 5882, 100int);
    lemma_rdiv_monotone(((-1000000000000000int) - 1610000) * 5882, (d - 1610000) * 5882, 100int);
    lemma_rdiv_neg(((-1000000000000000int) - 1610000) * 5882, 100int);
}

impl A1cEstimation {
    /// Fills the DCCT field from the best available upstream value, or
    /// reports which scales could have supplied it.
    fn calculate_dcct(&mut self) -> (r: Result<Self, EstimationError>)
        requires
            old(self).wf(),
        ensures
            final(self).wf(),
            final(self).glucose == old(self).glucose,
            final(self).ifcc == old(self).ifcc,
            final(self).fructosamine == old(self).fructosamine,
            match spec_derived_dcct(*old(self)) {
                Some(v) => r == Ok::<A1cEstimation, EstimationError>(*final(self))
                    && final(self).dcct == Some(Decimal { micros: v as i64 }),
                None => *final(self) == *old(self) && (r matches Err(
                    EstimationError::MissingInputValue(a, b),
                ) && a@ == "dcct"@ && b@ == "glucose, ifcc"@),
            },
    {
        if self.dcct.is_some() {
            return Ok(*self);
        }
        if self.glucose.is_some() {
            let g = self.glucose.unwrap();
            let mg = g.as_mgdl_value();
            proof {
                lemma_dcct_of_mgdl_bound(mg as int);
            }
            let val = rdiv_i128(((10 * (mg as i64) + 467) as i128) * 1000000, 287);
            self.dcct = Some(Decimal { micros: val as i64 });
        } else if self.ifcc.is_some() {
            let i = self.ifcc.unwrap();
            proof {
                lemma_dcct_of_ifcc_bound(i.micros as int);
            }
            let val = rdiv_i128((i.micros as i128) * 1000, 10929) + 2150000;
            self.dcct = Some(Decimal { micros: val as i64 });
        } else {
            return Err(
                EstimationError::MissingInputValue(
                    String::from_str("dcct"),
                    String::from_str("glucose, ifcc"),
                ),
            );
        }
        Ok(*self)
    }

    /// The estimated A1c on the DCCT scale, in millionths of a percent:
    /// the cached value, or one derived from glucose or IFCC and cached.
    pub fn as_dcct_value(&mut self) -> (r: Result<Decimal, EstimationError>)
        requires
            old(self).wf(),
        ensures
            final(self).wf(),
            final(self).glucose == old(self).glucose,
            final(self).ifcc == old(self).ifcc,
            final(self).fructosamine == old(self).fructosamine,
            match spec_derived_dcct(*old(self)) {
                Some(v) => r == Ok::<Decimal, EstimationError>(Decimal { micros: v as i64 })
                    && final(self).dcct == Some(Decimal { micros: v as i64 }),
                None => *final(self) == *old(self) && (r matches Err(
                    EstimationError::MissingInputValue(a, b),
                ) && a@ == "dcct"@ && b@ == "glucose, ifcc"@),
            },
    {
        if self.dcct.is_some() {
            return Ok(self.dcct.unwrap());
        }
        match self.calculate_dcct() {
            Ok(_) => Ok(self.dcct.unwrap()),
            Err(e) => Err(e),
        }
    }

    /// Fills the IFCC field through the pivot, or reports which scales
    /// could have supplied it.
    fn calculate_ifcc(&mut self) -> (r: Result<Self, EstimationError>)
        requires
            old(self).wf(),
        ensures
            final(self).wf(),
            final(self).glucose == old(self).glucose,
            final(self).fructosamine == old(self).fructosamine,
            match spec_derived_ifcc(*old(self)) {
                Some(v) => {
                    &&& r == Ok::<A1cEstimation, EstimationError>(*final(self))
                    &&& final(self).ifcc == Some(Decimal { micros: v as i64 })
                    &&& final(self).dcct == (if old(self).ifcc is Some || old(self).dcct is Some {
                        old(self).dcct
                    } else {
                        Some(
                            Decimal {
                                micros: dcct_of_mgdl(mgdl_value(old(self).glucose->0)) as i64,
                            },
                        )
                    })
                },
                None => *final(self) == *old(self) && (r matches Err(
                    EstimationError::MissingInputValue(a, b),
                ) && a@ == "ifcc"@ && b@ == "glucose, dcct"@),
            },
    {
        if self.ifcc.is_some() {
            return Ok(*self);
        }
        if self.dcct.is_some() {
            let d = self.dcct.unwrap();
            proof {
                lemma_ifcc_of_dcct_bound(d.micros as int);
            }
            let val = rdiv_i128(((d.micros - 2150000) as i128) * 10929, 1000);
            self.ifcc = Some(Decimal { micros: val as i64 });
        } else if self.glucose.is_some() {
            match self.calculate_dcct() {
                Ok(_) => {},
                Err(e) => {
                    proof {
                        assert(false);
                    }
                    return Err(e);
                },
            }
            let d = self.dcct.unwrap();
            proof {
                lemma_ifcc_of_dcct_bound(d.micros as int);
            }
            let val = rdiv_i128(((d.micros - 2150000) as i128) * 10929, 1000);
            self.ifcc = Some(Decimal { micros: val as i64 });
        } else {
            return Err(
                EstimationError::MissingInputValue(
                    String::from_str("ifcc"),
                    String::from_str("glucose, dcct"),
                ),
            );
        }
        Ok(*self)
    }

    /// The estimated A1c on the IFCC scale, in millionths of a mmol/mol:
    /// the cached value, or one derived through the pivot and cached,
    /// the pivot cached too when it had to be computed.
    pub fn as_ifcc_value(&mut self) -> (r: Result<Decimal, EstimationError>)
        requires
            old(self).wf(),
        ensures
            final(self).wf(),
            final(self).glucose == old(self).glucose,
            final(self).fructosamine == old(self).fructosamine,
            match spec_derived_ifcc(*old(self)) {
                Some(v) => {
                    &&& r == Ok::<Decimal, EstimationError>(Decimal { micros: v as i64 })
                    &&& final(self).ifcc == Some(Decimal { micros: v as i64 })
                    &&& final(self).dcct == (if old(self).ifcc is Some || old(self).dcct is Some {
                        old(self).dcct
                    } else {
                        Some(
                            Decimal {
                                micros: dcct_of_mgdl(mgdl_value(old(self).glucose->0)) as i64,
                            },
                        )
                    })
                },
                None => *final(self) == *old(self) && (r matches Err(
                    EstimationError::MissingInputValue(a, b),
                ) && a@ == "ifcc"@ && b@ == "glucose, dcct"@),
            },
    {
        if self.ifcc.is_some() {
            return Ok(self.ifcc.unwrap());
        }
        match self.calculate_ifcc() {
            Ok(_) => Ok(self.ifcc.unwrap()),
            Err(e) => Err(e),
        }
    }

    /// Fills the fructosamine field through the pivot, or reports which
    /// scales could have supplied it.
    fn calculate_fructosamine(&mut self) -> (r: Result<Self, EstimationError>)
        requires
            old(self).wf(),
        ensures
            final(self).wf(),
            final(self).glucose == old(self).glucose,
            final(self).ifcc == old(self).ifcc,
            match spec_derived_fructosamine(*old(self)) {
                Some(v) => {
                    &&& r == Ok::<A1cEstimation, EstimationError>(*final(self))
                    &&& final(self).fructosamine == Some(Decimal { micros: v as i64 })
                    &&& final(self).dcct == (if old(self).fructosamine is Some
                        || old(self).dcct is Some {
                        old(self).dcct
                    } else {
                        Some(
                            Decimal {
                                micros: dcct_of_mgdl(mgdl_value(old(self).glucose->0)) as i64,
                            },
                        )
                    })
                },
                None => *final(self) == *old(self) && (r matches Err(
                    EstimationError::MissingInputValue(a, b),
                ) && a@ == "fructosamine"@ && b@ == "dcct, glucose"@),
            },
    {
        if self.fructosamine.is_some() {
            return Ok(*self);
        }
        if self.dcct.is_some() {
            let d = self.dcct.unwrap();
            proof {
                lemma_fructosamine_of_dcct_bound(d.micros as int);
            }
            let val = rdiv_i128(((d.micros - 1610000) as i128) * 5882, 100);
            self.fructosamine = Some(Decimal { micros: val as i64 });
        } else if self.glucose.is_some() {
            match self.calculate_dcct() {
                Ok(_) => {},
                Err(e) => {
                    proof {
                        assert(false);
                    }
                    return Err(e);
                },
            }
            let d = self.dcct.unwrap();
            proof {
                lemma_fructosamine_of_dcct_bound(d.micros as int);
            }
            let val = rdiv_i128(((d.micros - 1610000) as i128) * 5882, 100);
            self.fructosamine = Some(Decimal { micros: val as i64 });
        } else {
            return Err(
                EstimationError::MissingInputValue(
                    String::from_str("fructosamine"),
                    String::from_str("dcct, glucose"),
                ),
            );
        }
        Ok(*self)
    }

    /// The estimated fructosamine, in millionths of a µmol/L: the cached
    /// value, or one derived through the pivot and cached, the pivot
    /// cached too when it had to be computed. A lone IFCC does not supply
    /// it.
    pub fn as_fructosamine_value(&mut self) -> (r: Result<Decimal, EstimationError>)
        requires
            old(self).wf(),
        ensures
            final(self).wf(),
            final(self).glucose == old(self).glucose,
            final(self).ifcc == old(self).ifcc,
            match spec_derived_fructosamine(*old(self)) {
                Some(v) => {
                    &&& r == Ok::<Decimal, EstimationError>(Decimal { micros: v as i64 })
                    &&& final(self).fructosamine == Some(Decimal { micros: v as i64 })
                    &&& final(self).dcct == (if old(self).fructosamine is Some
                        || old(self).dcct is Some {
                        old(self).dcct
                    } else {
                        Some(
                            Decimal {
                                micros: dcct_of_mgdl(mgdl_value(old(self).glucose->0)) as i64,
                            },
                        )
                    })
                },
                None => *final(self) == *old(self) && (r matches Err(
                    EstimationError::MissingInputValue(a, b),
                ) && a@ == "fructosamine"@ && b@ == "dcct, glucose"@),
            },
    {
        if self.fructosamine.is_some() {
            return Ok(self.fructosamine.unwrap());
        }
        match self.calculate_fructosamine() {
            Ok(_) => Ok(self.fructosamine.unwrap()),
            Err(e) => Err(e),
        }
    }
}

/// Caching the pivot first changes no later answer: a record whose DCCT
/// field is filled with the value `as_dcct_value` would return yields the
/// same IFCC as the original record, and — whenever the original record
/// could derive fructosamine at all — the same fructosamine. (A record
/// holding only an IFCC cannot derive fructosamine directly, yet can
/// after the pivot is cached, so that case is left out.)
pub proof fn lemma_pivot_memoisation(est: A1cEstimation)
    requires
        est.wf(),
    ensures
        ({
            let est2 = match spec_derived_dcct(est) {
                Some(v) => A1cEstimation { dcct: Some(Decimal { micros: v as i64 }), ..est },
                None => est,
            };
            &&& spec_derived_ifcc(est2) == spec_derived_ifcc(est)
            &&& (est.dcct is Some || est.glucose is Some) ==> spec_derived_fructosamine(est2)
                == spec_derived_fructosamine(est)
        }),
{
    if est.dcct is None && est.glucose is Some {
        lemma_dcct_of_mgdl_bound(mgdl_value(est.glucose->0));
    }
    if est.dcct is None && est.glucose is None && est.ifcc is Some {
        lemma_dcct_of_ifcc_bound(est.ifcc->0.micros as int);
    }
}

} // verus!
