//! Tagged unions of two to five alternatives, one per position of a selection.

use vstd::prelude::*;
use vstd::std_specs::cmp::{PartialEqSpec, PartialEqSpecImpl};

verus! {

/// The value of whichever of two positions completed, tagged by its position.
#[derive(Debug)]
pub enum OptionAb<A, B> {
    A(A),
    B(B),
}

impl<T> OptionAb<T, T> {
    /// The payload, whatever the position that carries it.
    pub open spec fn payload(self) -> T {
        match self {
            OptionAb::A(value) => value,
            OptionAb::B(value) => value,
        }
    }

    /// Unwraps the payload when every position has the same type.
    pub fn take(self) -> (value: T)
        ensures
            value == self.payload(),
    {
        match self {
            OptionAb::A(value) => value,
            OptionAb::B(value) => value,
        }
    }
}

impl<A, B> OptionAb<A, B> {
    /// The same position, borrowing the payload.
    pub fn as_ref(&self) -> (borrowed: OptionAb<&A, &B>)
        ensures
            match *self {
                OptionAb::A(value) => borrowed == OptionAb::<&A, &B>::A(&value),
                OptionAb::B(value) => borrowed == OptionAb::<&A, &B>::B(&value),
            },
    {
        match self {
            OptionAb::A(value) => OptionAb::A(value),
            OptionAb::B(value) => OptionAb::B(value),
        }
    }

    /// The payload of position A, if that is the position held.
    pub fn a(&self) -> (value: Option<&A>)
        ensures
            match *self {
                OptionAb::A(inner) => value == Some(&inner),
                _ => value is None,
            },
    {
        match self {
            OptionAb::A(value) => Some(value),
            _ => None,
        }
    }

    /// The payload of position B, if that is the position held.
    pub fn b(&self) -> (value: Option<&B>)
        ensures
            match *self {
                OptionAb::B(inner) => value == Some(&inner),
                _ => value is None,
            },
    {
        match self {
            OptionAb::B(value) => Some(value),
            _ => None,
        }
    }

    /// The payload of position A; the caller must hold that position.
    pub fn unwrap_a(self) -> (value: A)
        requires
            self is A,
        ensures
            self == OptionAb::<A, B>::A(value),
    {
        match self {
            OptionAb::A(value) => value,
            _ => vstd::pervasive::unreached(),
        }
    }

    /// The payload of position B; the caller must hold that position.
    pub fn unwrap_b(self) -> (value: B)
        requires
            self is B,
        ensures
            self == OptionAb::<A, B>::B(value),
    {
        match self {
            OptionAb::B(value) => value,
            _ => vstd::pervasive::unreached(),
        }
    }
}

impl<A: PartialEq, B: PartialEq> PartialEq for OptionAb<A, B> {
    /// Equal when both hold the same position and the payloads are equal.
    fn eq(&self, other: &Self) -> (equal: bool) {
        match (self, other) {
            (OptionAb::A(value), OptionAb::A(other)) => *value == *other,
            (OptionAb::B(value), OptionAb::B(other)) => *value == *other,
            _ => false,
        }
    }
}

impl<A: PartialEq, B: PartialEq> PartialEqSpecImpl for OptionAb<A, B> {
    open spec fn obeys_eq_spec() -> bool {
        A::obeys_eq_spec() && B::obeys_eq_spec()
    }

    open spec fn eq_spec(&self, other: &Self) -> bool {
        match (*self, *other) {
            (OptionAb::A(value), OptionAb::A(other)) => value.eq_spec(&other),
            (OptionAb::B(value), OptionAb::B(other)) => value.eq_spec(&other),
            _ => false,
        }
    }
}

impl<A: Eq, B: Eq> Eq for OptionAb<A, B> {
}

/// The value of whichever of three positions completed, tagged by its position.
#[derive(Debug)]
pub enum OptionAbc<A, B, C> {
    A(A),
    B(B),
    C(C),
}

impl<T> OptionAbc<T, T, T> {
    /// The payload, whatever the position that carries it.
    pub open spec fn payload(self) -> T {
        match self {
            OptionAbc::A(value) => value,
            OptionAbc::B(value) => value,
            OptionAbc::C(value) => value,
        }
    }

    /// Unwraps the payload when every position has the same type.
    pub fn take(self) -> (value: T)
        ensures
            value == self.payload(),
    {
        match self {
            OptionAbc::A(value) => value,
            OptionAbc::B(value) => value,
            OptionAbc::C(value) => value,
        }
    }
}

impl<A, B, C> OptionAbc<A, B, C> {
    /// The same position, borrowing the payload.
    pub fn as_ref(&self) -> (borrowed: OptionAbc<&A, &B, &C>)
        ensures
            match *self {
                OptionAbc::A(value) => borrowed == OptionAbc::<&A, &B, &C>::A(&value),
                OptionAbc::B(value) => borrowed == OptionAbc::<&A, &B, &C>::B(&value),
                OptionAbc::C(value) => borrowed == OptionAbc::<&A, &B, &C>::C(&value),
            },
    {
        match self {
            OptionAbc::A(value) => OptionAbc::A(value),
            OptionAbc::B(value) => OptionAbc::B(value),
            OptionAbc::C(value) => OptionAbc::C(value),
        }
    }

    /// The payload of position A, if that is the position held.
    pub fn a(&self) -> (value: Option<&A>)
        ensures
            match *self {
                OptionAbc::A(inner) => value == Some(&inner),
                _ => value is None,
            },
    {
        match self {
            OptionAbc::A(value) => Some(value),
            _ => None,
        }
    }

    /// The payload of position B, if that is the position held.
    pub fn b(&self) -> (value: Option<&B>)
        ensures
            match *self {
                OptionAbc::B(inner) => value == Some(&inner),
                _ => value is None,
            },
    {
        match self {
            OptionAbc::B(value) => Some(value),
            _ => None,
        }
    }

    /// The payload of position C, if that is the position held.
    pub fn c(&self) -> (value: Option<&C>)
        ensures
            match *self {
                OptionAbc::C(inner) => value == Some(&inner),
                _ => value is None,
            },
    {
        match self {
            OptionAbc::C(value) => Some(value),
            _ => None,
        }
    }

    /// The payload of position A; the caller must hold that position.
    pub fn unwrap_a(self) -> (value: A)
        requires
            self is A,
        ensures
            self == OptionAbc::<A, B, C>::A(value),
    {
        match self {
            OptionAbc::A(value) => value,
            _ => vstd::pervasive::unreached(),
        }
    }

    /// The payload of position B; the caller must hold that position.
    pub fn unwrap_b(self) -> (value: B)
        requires
            self is B,
        ensures
            self == OptionAbc::<A, B, C>::B(value),
    {
        match self {
            OptionAbc::B(value) => value,
            _ => vstd::pervasive::unreached(),
        }
    }

    /// The payload of position C; the caller must hold that position.
    pub fn unwrap_c(self) -> (value: C)
        requires
            self is C,
        ensures
            self == OptionAbc::<A, B, C>::C(value),
    {
        match self {
            OptionAbc::C(value) => value,
            _ => vstd::pervasive::unreached(),
        }
    }
}

impl<A: PartialEq, B: PartialEq, C: PartialEq> PartialEq for OptionAbc<A, B, C> {
    /// Equal when both hold the same position and the payloads are equal.
    fn eq(&self, other: &Self) -> (equal: bool) {
        match (self, other) {
            (OptionAbc::A(value), OptionAbc::A(other)) => *value == *other,
            (OptionAbc::B(value), OptionAbc::B(other)) => *value == *other,
            (OptionAbc::C(value), OptionAbc::C(other)) => *value == *other,
            _ => false,
        }
    }
}

impl<A: PartialEq, B: PartialEq, C: PartialEq> PartialEqSpecImpl for OptionAbc<A, B, C> {
    open spec fn obeys_eq_spec() -> bool {
        A::obeys_eq_spec() && B::obeys_eq_spec() && C::obeys_eq_spec()
    }

    open spec fn eq_spec(&self, other: &Self) -> bool {
        match (*self, *other) {
            (OptionAbc::A(value), OptionAbc::A(other)) => value.eq_spec(&other),
            (OptionAbc::B(value), OptionAbc::B(other)) => value.eq_spec(&other),
            (OptionAbc::C(value), OptionAbc::C(other)) => value.eq_spec(&other),
            _ => false,
        }
    }
}

impl<A: Eq, B: Eq, C: Eq> Eq for OptionAbc<A, B, C> {
}

/// The value of whichever of four positions completed, tagged by its position.
#[derive(Debug)]
pub enum OptionAbcd<A, B, C, D> {
    A(A),
    B(B),
    C(C),
    D(D),
}

impl<T> OptionAbcd<T, T, T, T> {
    /// The payload, whatever the position that carries it.
    pub open spec fn payload(self) -> T {
        match self {
            OptionAbcd::A(value) => value,
            OptionAbcd::B(value) => value,
            OptionAbcd::C(value) => value,
            OptionAbcd::D(value) => value,
        }
    }

    /// Unwraps the payload when every position has the same type.
    pub fn take(self) -> (value: T)
        ensures
            value == self.payload(),
    {
        match self {
            OptionAbcd::A(value) => value,
            OptionAbcd::B(value) => value,
            OptionAbcd::C(value) => value,
            OptionAbcd::D(value) => value,
        }
    }
}

impl<A, B, C, D> OptionAbcd<A, B, C, D> {
    /// The same position, borrowing the payload.
    pub fn as_ref(&self) -> (borrowed: OptionAbcd<&A, &B, &C, &D>)
        ensures
            match *self {
                OptionAbcd::A(value) => borrowed == OptionAbcd::<&A, &B, &C, &D>::A(&value),
                OptionAbcd::B(value) => borrowed == OptionAbcd::<&A, &B, &C, &D>::B(&value),
                OptionAbcd::C(value) => borrowed == OptionAbcd::<&A, &B, &C, &D>::C(&value),
                OptionAbcd::D(value) => borrowed == OptionAbcd::<&A, &B, &C, &D>::D(&value),
            },
    {
        match self {
            OptionAbcd::A(value) => OptionAbcd::A(value),
            OptionAbcd::B(value) => OptionAbcd::B(value),
            OptionAbcd::C(value) => OptionAbcd::C(value),
            OptionAbcd::D(value) => OptionAbcd::D(value),
        }
    }

    /// The payload of position A, if that is the position held.
    pub fn a(&self) -> (value: Option<&A>)
        ensures
            match *self {
                OptionAbcd::A(inner) => value == Some(&inner),
                _ => value is None,
            },
    {
        match self {
            OptionAbcd::A(value) => Some(value),
            _ => None,
        }
    }

    /// The payload of position B, if that is the position held.
    pub fn b(&self) -> (value: Option<&B>)
        ensures
            match *self {
                OptionAbcd::B(inner) => value == Some(&inner),
                _ => value is None,
            },
    {
        match self {
            OptionAbcd::B(value) => Some(value),
            _ => None,
        }
    }

    /// The payload of position C, if that is the position held.
    pub fn c(&self) -> (value: Option<&C>)
        ensures
            match *self {
                OptionAbcd::C(inner) => value == Some(&inner),
                _ => value is None,
            },
    {
        match self {
            OptionAbcd::C(value) => Some(value),
            _ => None,
        }
    }

    /// The payload of position D, if that is the position held.
    pub fn d(&self) -> (value: Option<&D>)
        ensures
            match *self {
                OptionAbcd::D(inner) => value == Some(&inner),
                _ => value is None,
            },
    {
        match self {
            OptionAbcd::D(value) => Some(value),
            _ => None,
        }
    }

    /// The payload of position A; the caller must hold that position.
    pub fn unwrap_a(self) -> (value: A)
        requires
            self is A,
        ensures
            self == OptionAbcd::<A, B, C, D>::A(value),
    {
        match self {
            OptionAbcd::A(value) => value,
            _ => vstd::pervasive::unreached(),
        }
    }

    /// The payload of position B; the caller must hold that position.
    pub fn unwrap_b(self) -> (value: B)
        requires
            self is B,
        ensures
            self == OptionAbcd::<A, B, C, D>::B(value),
    {
        match self {
            OptionAbcd::B(value) => value,
            _ => vstd::pervasive::unreached(),
        }
    }

    /// The payload of position C; the caller must hold that position.
    pub fn unwrap_c(self) -> (value: C)
        requires
            self is C,
        ensures
            self == OptionAbcd::<A, B, C, D>::C(value),
    {
        match self {
            OptionAbcd::C(value) => value,
            _ => vstd::pervasive::unreached(),
        }
    }

    /// The payload of position D; the caller must hold that position.
    pub fn unwrap_d(self) -> (value: D)
        requires
            self is D,
        ensures
            self == OptionAbcd::<A, B, C, D>::D(value),
    {
        match self {
            OptionAbcd::D(value) => value,
            _ => vstd::pervasive::unreached(),
        }
    }
}

impl<A: PartialEq, B: PartialEq, C: PartialEq, D: PartialEq> PartialEq for OptionAbcd<A, B, C, D> {
    /// Equal when both hold the same position and the payloads are equal.
    fn eq(&self, other: &Self) -> (equal: bool) {
        match (self, other) {
            (OptionAbcd::A(value), OptionAbcd::A(other)) => *value == *other,
            (OptionAbcd::B(value), OptionAbcd::B(other)) => *value == *other,
            (OptionAbcd::C(value), OptionAbcd::C(other)) => *value == *other,
            (OptionAbcd::D(value), OptionAbcd::D(other)) => *value == *other,
            _ => false,
        }
    }
}

impl<A: PartialEq, B: PartialEq, C: PartialEq, D: PartialEq> PartialEqSpecImpl for OptionAbcd<A, B, C, D> {
    open spec fn obeys_eq_spec() -> bool {
        A::obeys_eq_spec() && B::obeys_eq_spec() && C::obeys_eq_spec() && D::obeys_eq_spec()
    }

    open spec fn eq_spec(&self, other: &Self) -> bool {
        match (*self, *other) {
            (OptionAbcd::A(value), OptionAbcd::A(other)) => value.eq_spec(&other),
            (OptionAbcd::B(value), OptionAbcd::B(other)) => value.eq_spec(&other),
            (OptionAbcd::C(value), OptionAbcd::C(other)) => value.eq_spec(&other),
            (OptionAbcd::D(value), OptionAbcd::D(other)) => value.eq_spec(&other),
            _ => false,
        }
    }
}

impl<A: Eq, B: Eq, C: Eq, D: Eq> Eq for OptionAbcd<A, B, C, D> {
}

/// The value of whichever of five positions completed, tagged by its position.
#[derive(Debug)]
pub enum OptionAbcde<A, B, C, D, E> {
    A(A),
    B(B),
    C(C),
    D(D),
    E(E),
}

impl<T> OptionAbcde<T, T, T, T, T> {
    /// The payload, whatever the position that carries it.
    pub open spec fn payload(self) -> T {
        match self {
            OptionAbcde::A(value) => value,
            OptionAbcde::B(value) => value,
            OptionAbcde::C(value) => value,
            OptionAbcde::D(value) => value,
            OptionAbcde::E(value) => value,
        }
    }

    /// Unwraps the payload when every position has the same type.
    pub fn take(self) -> (value: T)
        ensures
            value == self.payload(),
    {
        match self {
            OptionAbcde::A(value) => value,
            OptionAbcde::B(value) => value,
            OptionAbcde::C(value) => value,
            OptionAbcde::D(value) => value,
            OptionAbcde::E(value) => value,
        }
    }
}

impl<A, B, C, D, E> OptionAbcde<A, B, C, D, E> {
    /// The same position, borrowing the payload.
    pub fn as_ref(&self) -> (borrowed: OptionAbcde<&A, &B, &C, &D, &E>)
        ensures
            match *self {
                OptionAbcde::A(value) => borrowed == OptionAbcde::<&A, &B, &C, &D, &E>::A(&value),
                OptionAbcde::B(value) => borrowed == OptionAbcde::<&A, &B, &C, &D, &E>::B(&value),
                OptionAbcde::C(value) => borrowed == OptionAbcde::<&A, &B, &C, &D, &E>::C(&value),
                OptionAbcde::D(value) => borrowed == OptionAbcde::<&A, &B, &C, &D, &E>::D(&value),
                OptionAbcde::E(value) => borrowed == OptionAbcde::<&A, &B, &C, &D, &E>::E(&value),
            },
    {
        match self {
            OptionAbcde::A(value) => OptionAbcde::A(value),
            OptionAbcde::B(value) => OptionAbcde::B(value),
            OptionAbcde::C(value) => OptionAbcde::C(value),
            OptionAbcde::D(value) => OptionAbcde::D(value),
            OptionAbcde::E(value) => OptionAbcde::E(value),
        }
    }

    /// The payload of position A, if that is the position held.
    pub fn a(&self) -> (value: Option<&A>)
        ensures
            match *self {
                OptionAbcde::A(inner) => value == Some(&inner),
                _ => value is None,
            },
    {
        match self {
            OptionAbcde::A(value) => Some(value),
            _ => None,
        }
    }

    /// The payload of position B, if that is the position held.
    pub fn b(&self) -> (value: Option<&B>)
        ensures
            match *self {
                OptionAbcde::B(inner) => value == Some(&inner),
                _ => value is None,
            },
    {
        match self {
            OptionAbcde::B(value) => Some(value),
            _ => None,
        }
    }

    /// The payload of position C, if that is the position held.
    pub fn c(&self) -> (value: Option<&C>)
        ensures
            match *self {
                OptionAbcde::C(inner) => value == Some(&inner),
                _ => value is None,
            },
    {
        match self {
            OptionAbcde::C(value) => Some(value),
            _ => None,
        }
    }

    /// The payload of position D, if that is the position held.
    pub fn d(&self) -> (value: Option<&D>)
        ensures
            match *self {
                OptionAbcde::D(inner) => value == Some(&inner),
                _ => value is None,
            },
    {
        match self {
            OptionAbcde::D(value) => Some(value),
            _ => None,
        }
    }

    /// The payload of position E, if that is the position held.
    pub fn e(&self) -> (value: Option<&E>)
        ensures
            match *self {
                OptionAbcde::E(inner) => value == Some(&inner),
                _ => value is None,
            },
    {
        match self {
            OptionAbcde::E(value) => Some(value),
            _ => None,
        }
    }

    /// The payload of position A; the caller must hold that position.
    pub fn unwrap_a(self) -> (value: A)
        requires
            self is A,
        ensures
            self == OptionAbcde::<A, B, C, D, E>::A(value),
    {
        match self {
            OptionAbcde::A(value) => value,
            _ => vstd::pervasive::unreached(),
        }
    }

    /// The payload of position B; the caller must hold that position.
    pub fn unwrap_b(self) -> (value: B)
        requires
            self is B,
        ensures
            self == OptionAbcde::<A, B, C, D, E>::B(value),
    {
        match self {
            OptionAbcde::B(value) => value,
            _ => vstd::pervasive::unreached(),
        }
    }

    /// The payload of position C; the caller must hold that position.
    pub fn unwrap_c(self) -> (value: C)
        requires
            self is C,
        ensures
            self == OptionAbcde::<A, B, C, D, E>::C(value),
    {
        match self {
            OptionAbcde::C(value) => value,
            _ => vstd::pervasive::unreached(),
        }
    }

    /// The payload of position D; the caller must hold that position.
    pub fn unwrap_d(self) -> (value: D)
        requires
            self is D,
        ensures
            self == OptionAbcde::<A, B, C, D, E>::D(value),
    {
        match self {
            OptionAbcde::D(value) => value,
            _ => vstd::pervasive::unreached(),
        }
    }

    /// The payload of position E; the caller must hold that position.
    pub fn unwrap_e(self) -> (value: E)
        requires
            self is E,
        ensures
            self == OptionAbcde::<A, B, C, D, E>::E(value),
    {
        match self {
            OptionAbcde::E(value) => value,
            _ => vstd::pervasive::unreached(),
        }
    }
}

impl<A: PartialEq, B: PartialEq, C: PartialEq, D: PartialEq, E: PartialEq> PartialEq for OptionAbcde<A, B, C, D, E> {
    /// Equal when both hold the same position and the payloads are equal.
    fn eq(&self, other: &Self) -> (equal: bool) {
        match (self, other) {
            (OptionAbcde::A(value), OptionAbcde::A(other)) => *value == *other,
            (OptionAbcde::B(value), OptionAbcde::B(other)) => *value == *other,
            (OptionAbcde::C(value), OptionAbcde::C(other)) => *value == *other,
            (OptionAbcde::D(value), OptionAbcde::D(other)) => *value == *other,
            (OptionAbcde::E(value), OptionAbcde::E(other)) => *value == *other,
            _ => false,
        }
    }
}

impl<A: PartialEq, B: PartialEq, C: PartialEq, D: PartialEq, E: PartialEq> PartialEqSpecImpl for OptionAbcde<A, B, C, D, E> {
    open spec fn obeys_eq_spec() -> bool {
        A::obeys_eq_spec() && B::obeys_eq_spec() && C::obeys_eq_spec() && D::obeys_eq_spec() && E::obeys_eq_spec()
    }

    open spec fn eq_spec(&self, other: &Self) -> bool {
        match (*self, *other) {
            (OptionAbcde::A(value), OptionAbcde::A(other)) => value.eq_spec(&other),
            (OptionAbcde::B(value), OptionAbcde::B(other)) => value.eq_spec(&other),
            (OptionAbcde::C(value), OptionAbcde::C(other)) => value.eq_spec(&other),
            (OptionAbcde::D(value), OptionAbcde::D(other)) => value.eq_spec(&other),
            (OptionAbcde::E(value), OptionAbcde::E(other)) => value.eq_spec(&other),
            _ => false,
        }
    }
}

impl<A: Eq, B: Eq, C: Eq, D: Eq, E: Eq> Eq for OptionAbcde<A, B, C, D, E> {
}

} // verus!
