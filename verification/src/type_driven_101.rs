//! First steps in letting types carry what is known of a value.

use core::num::NonZeroU64;
use core::str::FromStr;
use vstd::prelude::*;
use vstd::string::StrSliceExecFns;

verus! {

/// `NonZeroU64::new`: the number as it is, or `None` for zero.
#[verifier::external_body]
fn non_zero_u64(n: u64) -> (r: Option<u64>)
    ensures
        n != 0 ==> r == Some(n),
        n == 0 ==> r.is_none(),
{
    match NonZeroU64::new(n) {
        Some(v) => Some(v.get()),
        None => None,
    }
}

/// The number `n` for a place where zero is ruled out: zero is rejected.
pub fn non_zero(n: u64) -> (r: Result<u64, &'static str>)
    ensures
        n != 0 ==> r == Ok::<u64, &'static str>(n),
        n == 0 ==> r is Err && r->Err_0@ == "Zero provided!"@,
{
    match non_zero_u64(n) {
        Some(n) => Ok(n),
        None => Err("Zero provided!"),
    }
}

/// Walks through the primitive types that rule values out: a signed
/// integer admits negative numbers, an unsigned one does not, and a
/// non-zero one does not admit zero either. All steps succeed.
#[allow(unused_variables)]
pub fn primitive_types() -> (r: Result<(), &'static str>)
    ensures
        r == Ok::<(), &'static str>(()),
{
    let always_positive: i64 = 50;
    let instead_use: u64 = 50;
    let non_zero: u64 = match non_zero(50) {
        Ok(n) => n,
        Err(e) => {
            return Err(e);
        },
    };
    Ok(())
}

/// The name of a spacecraft. It starts with `_`.
pub struct SpacecraftName(String);

impl View for SpacecraftName {
    type V = Seq<char>;

    closed spec fn view(&self) -> Seq<char> {
        self.0@
    }
}

/// A spacecraft name is not empty and starts with `_`.
pub open spec fn is_spacecraft_name(s: Seq<char>) -> bool {
    s.len() > 0 && s[0] == '_'
}

impl SpacecraftName {
    /// The name starts with `_`.
    #[verifier::type_invariant]
    pub open spec fn wf(&self) -> bool {
        is_spacecraft_name(self@)
    }

    /// The name that `s` spells, if `s` starts with `_`.
    pub fn parse(s: &str) -> (r: Result<SpacecraftName, &'static str>)
        ensures
            is_spacecraft_name(s@) ==> r is Ok && r->Ok_0@ == s@,
            !is_spacecraft_name(s@) ==> r is Err && r->Err_0@
                == "Spacecraft name should start with `_`"@,
    {
        if s.is_empty() || s.get_char(0) != '_' {
            return Err("Spacecraft name should start with `_`");
        }
        Ok(SpacecraftName(s.to_owned()))
    }

    /// The name as text.
    pub fn to_string(&self) -> (s: String)
        ensures
            s@ == self@,
            is_spacecraft_name(s@),
    {
        proof {
            use_type_invariant(self);
        }
        self.0.clone()
    }
}

impl FromStr for SpacecraftName {
    type Err = &'static str;

    fn from_str(s: &str) -> (r: Result<Self, Self::Err>)
        ensures
            is_spacecraft_name(s@) ==> r is Ok && r->Ok_0@ == s@,
            !is_spacecraft_name(s@) ==> r is Err && r->Err_0@
                == "Spacecraft name should start with `_`"@,
    {
        SpacecraftName::parse(s)
    }
}

} // verus!
