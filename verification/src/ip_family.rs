//! The two address families the pipeline distinguishes, and a pair of
//! values indexed by family (used for the per-family kernel set names).

use vstd::prelude::*;

verus! {

#[derive(Debug, Copy, Clone, PartialEq, Eq, Structural)]
pub enum IpFamily {
    V4,
    V6,
}

impl IpFamily {
    pub fn from_ipv4(ipv4: bool) -> (r: IpFamily)
        ensures
            r == (if ipv4 { IpFamily::V4 } else { IpFamily::V6 }),
    {
        if ipv4 {
            IpFamily::V4
        } else {
            IpFamily::V6
        }
    }
}

/// One value per address family.
#[derive(Debug, Clone)]
pub struct ByIpFamily<T> {
    pub ipv4: T,
    pub ipv6: T,
}

impl<T> ByIpFamily<T> {
    /// Builds both slots from an initializer; the first failure is returned.
    pub fn try_new_with<F, E>(init: F) -> (r: Result<ByIpFamily<T>, E>) where
        F: Fn(IpFamily) -> Result<T, E>,

        requires
            forall|family: IpFamily| #[trigger] call_requires(init, (family,)),
        ensures
            match r {
                Ok(b) => call_ensures(init, (IpFamily::V4,), Result::Ok(b.ipv4))
                    && call_ensures(init, (IpFamily::V6,), Result::Ok(b.ipv6)),
                Err(e) => call_ensures(init, (IpFamily::V4,), Result::Err(e))
                    || call_ensures(init, (IpFamily::V6,), Result::Err(e)),
            },
    {
        let ipv4 = match init(IpFamily::V4) {
            Ok(v) => v,
            Err(e) => {
                return Err(e);
            },
        };
        let ipv6 = match init(IpFamily::V6) {
            Ok(v) => v,
            Err(e) => {
                return Err(e);
            },
        };
        Ok(ByIpFamily { ipv4, ipv6 })
    }

    pub fn by_family_mut(&mut self, family: IpFamily) -> (r: &mut T)
        ensures
            family == IpFamily::V4 ==> *r == old(self).ipv4
                && *final(self) == (ByIpFamily { ipv4: *final(r), ipv6: old(self).ipv6 }),
            family == IpFamily::V6 ==> *r == old(self).ipv6
                && *final(self) == (ByIpFamily { ipv4: old(self).ipv4, ipv6: *final(r) }),
    {
        match family {
            IpFamily::V4 => &mut self.ipv4,
            IpFamily::V6 => &mut self.ipv6,
        }
    }
}

} // verus!
