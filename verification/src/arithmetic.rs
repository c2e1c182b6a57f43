//! Arithmetic on `BigNumber`: every operation returns a fresh number and
//! leaves its operands as they were.

use vstd::arithmetic::power::pow;
use vstd::prelude::*;
use vstd::string::*;

use crate::arith::{gcd, inverse_mod, is_inverse, magnitude, power_mod, quotient, residue};
use crate::engine::{
    bn_checked_add, bn_checked_div, bn_checked_mul, bn_checked_sub, bn_exp, bn_gcd, bn_mod_exp,
    bn_mod_inverse, bn_mod_mul, bn_mod_sub, bn_nnmod, bn_sqr,
};
use crate::error::{checked, Error};
use crate::lemmas::lemma_inverse_mod_is;
use crate::number::{nonzero, scratch, BigNumber};

verus! {

/// The failure for a number that is not coprime to the modulus.
fn no_inverse() -> (e: Error)
    ensures
        e is InvalidStructure && e.text() == "the number has no inverse for this modulus"@,
{
    Error::InvalidStructure(String::from_str("the number has no inverse for this modulus"))
}

/// The failure for a negative exponent where there is no modulus.
fn negative_exponent() -> (e: Error)
    ensures
        e is InvalidInput && e.text() == "the exponent is negative"@,
{
    Error::InvalidInput(String::from_str("the exponent is negative"))
}

/// Whether a number has an inverse, told from the greatest common divisor
/// `common` of the number and the modulus: it has one where `common` is 1,
/// and where it is not the failure is `InvalidStructure`.
pub fn unit_or_no_inverse(common: &BigNumber) -> (r: Result<(), Error>)
    ensures
        r is Ok <==> magnitude(common@) == 1,
        r matches Err(e) ==> e is InvalidStructure,
{
    if common.is_unit_magnitude() {
        Ok(())
    } else {
        Err(no_inverse())
    }
}

impl BigNumber {
    /// `self + a`.
    pub fn add(&self, a: &BigNumber) -> (r: Result<BigNumber, Error>)
        ensures
            r matches Ok(v) ==> v@ == self@ + a@,
            r matches Err(e) ==> e is InvalidState,
    {
        let mut bn = BigNumber::new()?;
        checked(bn_checked_add(&mut bn.openssl_bn, &self.openssl_bn, &a.openssl_bn))?;
        Ok(bn)
    }

    /// `self - a`.
    pub fn sub(&self, a: &BigNumber) -> (r: Result<BigNumber, Error>)
        ensures
            r matches Ok(v) ==> v@ == self@ - a@,
            r matches Err(e) ==> e is InvalidState,
    {
        let mut bn = BigNumber::new()?;
        checked(bn_checked_sub(&mut bn.openssl_bn, &self.openssl_bn, &a.openssl_bn))?;
        Ok(bn)
    }

    /// `self * self`.
    pub fn sqr(&self) -> (r: Result<BigNumber, Error>)
        ensures
            r matches Ok(v) ==> v@ == self@ * self@,
            r matches Err(e) ==> e is InvalidState,
    {
        let mut bn = BigNumber::new()?;
        let mut ctx = scratch()?;
        checked(bn_sqr(&mut bn.openssl_bn, &self.openssl_bn, &mut ctx))?;
        Ok(bn)
    }

    /// `self * a`.
    pub fn mul(&self, a: &BigNumber) -> (r: Result<BigNumber, Error>)
        ensures
            r matches Ok(v) ==> v@ == self@ * a@,
            r matches Err(e) ==> e is InvalidState,
    {
        let mut bn = BigNumber::new()?;
        let mut ctx = scratch()?;
        checked(bn_checked_mul(&mut bn.openssl_bn, &self.openssl_bn, &a.openssl_bn, &mut ctx))?;
        Ok(bn)
    }

    /// `self * a` reduced into `[0, |n|)`. A zero `n` is refused.
    pub fn mod_mul(&self, a: &BigNumber, n: &BigNumber) -> (r: Result<BigNumber, Error>)
        ensures
            r matches Ok(v) ==> n@ != 0 && v@ == residue(self@ * a@, n@),
            r matches Err(e) ==> (e is InvalidInput <==> n@ == 0) && (e is InvalidInput
                || e is InvalidState),
    {
        nonzero(n)?;
        let mut bn = BigNumber::new()?;
        let mut ctx = scratch()?;
        checked(bn_mod_mul(
            &mut bn.openssl_bn,
            &self.openssl_bn,
            &a.openssl_bn,
            &n.openssl_bn,
            &mut ctx,
        ))?;
        Ok(bn)
    }

    /// `self - a` reduced into `[0, |n|)`. A zero `n` is refused.
    pub fn mod_sub(&self, a: &BigNumber, n: &BigNumber) -> (r: Result<BigNumber, Error>)
        ensures
            r matches Ok(v) ==> n@ != 0 && v@ == residue(self@ - a@, n@),
            r matches Err(e) ==> (e is InvalidInput <==> n@ == 0) && (e is InvalidInput
                || e is InvalidState),
    {
        nonzero(n)?;
        let mut bn = BigNumber::new()?;
        let mut ctx = scratch()?;
        checked(bn_mod_sub(
            &mut bn.openssl_bn,
            &self.openssl_bn,
            &a.openssl_bn,
            &n.openssl_bn,
            &mut ctx,
        ))?;
        Ok(bn)
    }

    /// `self / a` rounded toward zero. A zero `a` is refused.
    pub fn div(&self, a: &BigNumber) -> (r: Result<BigNumber, Error>)
        ensures
            r matches Ok(v) ==> a@ != 0 && v@ == quotient(self@, a@),
            r matches Err(e) ==> (e is InvalidInput <==> a@ == 0) && (e is InvalidInput
                || e is InvalidState),
    {
        nonzero(a)?;
        let mut bn = BigNumber::new()?;
        let mut ctx = scratch()?;
        checked(bn_checked_div(&mut bn.openssl_bn, &self.openssl_bn, &a.openssl_bn, &mut ctx))?;
        Ok(bn)
    }

    /// The non-negative greatest common divisor of `a` and `b`.
    pub fn gcd(a: &BigNumber, b: &BigNumber) -> (r: Result<BigNumber, Error>)
        ensures
            r matches Ok(v) ==> v@ == gcd(a@, b@),
            r matches Err(e) ==> e is InvalidState,
    {
        let mut bn = BigNumber::new()?;
        let mut ctx = scratch()?;
        checked(bn_gcd(&mut bn.openssl_bn, &a.openssl_bn, &b.openssl_bn, &mut ctx))?;
        Ok(bn)
    }

    /// The non-negative modulus: `self` reduced into `[0, |a|)`, also for a
    /// negative `self`. A zero `a` is refused.
    pub fn modulus(&self, a: &BigNumber) -> (r: Result<BigNumber, Error>)
        ensures
            r matches Ok(v) ==> a@ != 0 && v@ == residue(self@, a@) && 0 <= v@ < magnitude(a@),
            r matches Err(e) ==> (e is InvalidInput <==> a@ == 0) && (e is InvalidInput
                || e is InvalidState),
    {
        nonzero(a)?;
        let mut bn = BigNumber::new()?;
        let mut ctx = scratch()?;
        checked(bn_nnmod(&mut bn.openssl_bn, &self.openssl_bn, &a.openssl_bn, &mut ctx))?;
        Ok(bn)
    }

    /// `self` to the power `a`, for an exponent that is not negative. A
    /// negative exponent is refused: it has a meaning only under a modulus.
    pub fn exp(&self, a: &BigNumber) -> (r: Result<BigNumber, Error>)
        ensures
            r matches Ok(v) ==> a@ >= 0 && v@ == pow(self@, a@ as nat),
            r matches Err(e) ==> (e is InvalidInput <==> a@ < 0) && (e is InvalidInput
                || e is InvalidState),
    {
        if a.is_negative() {
            return Err(negative_exponent());
        }
        let mut bn = BigNumber::new()?;
        let mut ctx = scratch()?;
        checked(bn_exp(&mut bn.openssl_bn, &self.openssl_bn, &a.openssl_bn, &mut ctx))?;
        Ok(bn)
    }

    /// The inverse of `self` modulo `n`: the number in `[0, |n|)` whose
    /// product with `self` is congruent to 1. The greatest common divisor of
    /// the two is computed first and handed to `unit_or_no_inverse`: where
    /// `self` and `n` are not coprime there is no inverse, and the failure
    /// is `InvalidStructure`. A zero `n` to which `self` is coprime is
    /// refused as a zero modulus.
    pub fn inverse(&self, n: &BigNumber) -> (r: Result<BigNumber, Error>)
        ensures
            gcd(self@, n@) != 1 || n@ == 0 ==> r is Err,
            r matches Ok(v) ==> is_inverse(self@, n@, v@) && v@ == inverse_mod(self@, n@),
            r matches Err(e) ==> (e is InvalidStructure ==> gcd(self@, n@) != 1) && (e
                is InvalidInput ==> gcd(self@, n@) == 1 && n@ == 0) && (e is InvalidStructure
                || e is InvalidInput || e is InvalidState),
    {
        let common = BigNumber::gcd(self, n)?;
        unit_or_no_inverse(&common)?;
        nonzero(n)?;
        let mut bn = BigNumber::new()?;
        let mut ctx = scratch()?;
        checked(bn_mod_inverse(&mut bn.openssl_bn, &self.openssl_bn, &n.openssl_bn, &mut ctx))?;
        proof {
            lemma_inverse_mod_is(self@, n@, bn@);
        }
        Ok(bn)
    }

    /// `self` to the power `a`, reduced into `[0, |b|)`. For a negative `a`
    /// the inverse of `self` modulo `b` is raised to the power `-a`; where
    /// there is no inverse the failure is `InvalidStructure`. A zero `b` is
    /// refused.
    pub fn mod_exp(&self, a: &BigNumber, b: &BigNumber) -> (r: Result<BigNumber, Error>)
        ensures
            b@ != 0 && a@ < 0 && gcd(self@, b@) != 1 ==> r is Err,
            r matches Ok(v) ==> b@ != 0 && v@ == power_mod(self@, a@, b@),
            r matches Err(e) ==> (e is InvalidInput <==> b@ == 0) && (e is InvalidStructure ==> a@
                < 0 && gcd(self@, b@) != 1) && (e is InvalidInput || e is InvalidStructure
                || e is InvalidState),
    {
        nonzero(b)?;
        let mut bn = BigNumber::new()?;
        if a.is_negative() {
            let base = self.inverse(b)?;
            let a1 = a.set_negative(false)?;
            let mut ctx = scratch()?;
            checked(bn_mod_exp(
                &mut bn.openssl_bn,
                &base.openssl_bn,
                &a1.openssl_bn,
                &b.openssl_bn,
                &mut ctx,
            ))?;
            Ok(bn)
        } else {
            let mut ctx = scratch()?;
            checked(bn_mod_exp(
                &mut bn.openssl_bn,
                &self.openssl_bn,
                &a.openssl_bn,
                &b.openssl_bn,
                &mut ctx,
            ))?;
            Ok(bn)
        }
    }

    /// `self` times the inverse of `b` modulo `p`, reduced into `[0, |p|)`.
    /// Where `b` has no inverse the failure is `InvalidStructure`. A zero
    /// `p` to which `b` is coprime is refused as a zero modulus.
    pub fn mod_div(&self, b: &BigNumber, p: &BigNumber) -> (r: Result<BigNumber, Error>)
        ensures
            gcd(b@, p@) != 1 || p@ == 0 ==> r is Err,
            r matches Ok(v) ==> p@ != 0 && v@ == residue(self@ * inverse_mod(b@, p@), p@),
            r matches Err(e) ==> (e is InvalidStructure ==> gcd(b@, p@) != 1) && (e
                is InvalidInput ==> gcd(b@, p@) == 1 && p@ == 0) && (e is InvalidStructure
                || e is InvalidInput || e is InvalidState),
    {
        let mut bn = BigNumber::new()?;
        let b1 = b.inverse(p)?;
        let mut ctx = scratch()?;
        checked(bn_mod_mul(
            &mut bn.openssl_bn,
            &self.openssl_bn,
            &b1.openssl_bn,
            &p.openssl_bn,
            &mut ctx,
        ))?;
        Ok(bn)
    }
}

} // verus!
