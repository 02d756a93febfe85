//! Package identifiers and service groups, the two names the supervisor
//! keys its state by.
use vstd::prelude::*;
use vstd::string::*;

verus! {

/// A four-part package identifier `origin/name[/version[/release]]`.
/// A partial identifier (version or release left out) is used as a query
/// pattern that more specific identifiers can satisfy.
#[derive(Debug)]
pub struct PackageIdent {
    pub origin: String,
    pub name: String,
    pub version: Option<String>,
    pub release: Option<String>,
}

/// The mathematical value of a `PackageIdent`: its parts as character
/// sequences.
#[verifier::ext_equal]
pub struct IdentView {
    pub origin: Seq<char>,
    pub name: Seq<char>,
    pub version: Option<Seq<char>>,
    pub release: Option<Seq<char>>,
}

impl View for PackageIdent {
    type V = IdentView;

    open spec fn view(&self) -> IdentView {
        IdentView {
            origin: self.origin@,
            name: self.name@,
            version: match self.version {
                Some(v) => Some(v@),
                None => None,
            },
            release: match self.release {
                Some(r) => Some(r@),
                None => None,
            },
        }
    }
}

/// A release only makes sense beneath a version.
pub open spec fn ident_well_formed(v: IdentView) -> bool {
    v.release is Some ==> v.version is Some
}

/// `a` satisfies the query `q` when every part `q` pins down is present
/// in `a` with the same value.
pub open spec fn ident_satisfies(a: IdentView, q: IdentView) -> bool {
    &&& a.origin == q.origin
    &&& a.name == q.name
    &&& (q.version is Some ==> a.version is Some && a.version.unwrap() == q.version.unwrap())
    &&& (q.release is Some ==> a.release is Some && a.release.unwrap() == q.release.unwrap())
}

/// The textual form `origin/name[/version[/release]]`.
pub open spec fn ident_text(v: IdentView) -> Seq<char> {
    let base = v.origin + "/"@ + v.name;
    match v.version {
        Some(ver) => match v.release {
            Some(rel) => base + "/"@ + ver + "/"@ + rel,
            None => base + "/"@ + ver,
        },
        None => base,
    }
}

impl PackageIdent {
    /// A release only makes sense beneath a version.
    pub open spec fn well_formed(self) -> bool {
        ident_well_formed(self@)
    }

    /// Whether this identifier satisfies the (possibly partial) query `q`.
    pub fn satisfies(&self, q: &PackageIdent) -> (r: bool)
        ensures
            r == ident_satisfies(self@, q@),
    {
        if !self.origin.eq(&q.origin) {
            return false;
        }
        if !self.name.eq(&q.name) {
            return false;
        }
        match &q.version {
            Some(qv) => {
                match &self.version {
                    Some(sv) => {
                        if !sv.eq(qv) {
                            return false;
                        }
                    },
                    None => {
                        return false;
                    },
                }
            },
            None => {},
        }
        match &q.release {
            Some(qr) => {
                match &self.release {
                    Some(sr) => {
                        if !sr.eq(qr) {
                            return false;
                        }
                    },
                    None => {
                        return false;
                    },
                }
            },
            None => {},
        }
        true
    }

    /// Copies the identifier, preserving its value.
    pub fn clone_ident(&self) -> (r: PackageIdent)
        ensures
            r@ == self@,
    {
        let r = PackageIdent {
            origin: self.origin.clone(),
            name: self.name.clone(),
            version: match &self.version {
                Some(v) => Some(v.clone()),
                None => None,
            },
            release: match &self.release {
                Some(rel) => Some(rel.clone()),
                None => None,
            },
        };
        assert(r@ =~= self@);
        r
    }

    /// Renders the identifier as text.
    pub fn to_text(&self) -> (r: String)
        requires
            self.well_formed(),
        ensures
            r@ == ident_text(self@),
    {
        let mut r = self.origin.clone();
        r.append("/");
        r.append(self.name.as_str());
        match &self.version {
            Some(v) => {
                r.append("/");
                r.append(v.as_str());
                match &self.release {
                    Some(rel) => {
                        r.append("/");
                        r.append(rel.as_str());
                    },
                    None => {},
                }
            },
            None => {},
        }
        r
    }
}

/// The unit of election and census: `service.group[@organization]`.
pub struct ServiceGroup {
    pub service: String,
    pub group: String,
    pub organization: Option<String>,
}

/// The textual form `service.group[@organization]`.
pub open spec fn group_text(v: ServiceGroupView) -> Seq<char> {
    let base = v.service + "."@ + v.group;
    match v.organization {
        Some(o) => base + "@"@ + o,
        None => base,
    }
}

/// The mathematical value of a `ServiceGroup`.
#[verifier::ext_equal]
pub struct ServiceGroupView {
    pub service: Seq<char>,
    pub group: Seq<char>,
    pub organization: Option<Seq<char>>,
}

impl View for ServiceGroup {
    type V = ServiceGroupView;

    open spec fn view(&self) -> ServiceGroupView {
        ServiceGroupView {
            service: self.service@,
            group: self.group@,
            organization: match self.organization {
                Some(o) => Some(o@),
                None => None,
            },
        }
    }
}

impl ServiceGroup {
    /// Renders the group as text.
    pub fn to_text(&self) -> (r: String)
        ensures
            r@ == group_text(self@),
    {
        let mut r = self.service.clone();
        r.append(".");
        r.append(self.group.as_str());
        match &self.organization {
            Some(o) => {
                r.append("@");
                r.append(o.as_str());
            },
            None => {},
        }
        r
    }

    /// Copies the group, preserving its value.
    pub fn clone_group(&self) -> (r: ServiceGroup)
        ensures
            r@ == self@,
    {
        let r = ServiceGroup {
            service: self.service.clone(),
            group: self.group.clone(),
            organization: match &self.organization {
                Some(o) => Some(o.clone()),
                None => None,
            },
        };
        assert(r@ =~= self@);
        r
    }

    /// Whether `self` and `other` name the same service group.
    pub fn same_group(&self, other: &ServiceGroup) -> (r: bool)
        ensures
            r == (self@ == other@),
    {
        let r = if !self.service.eq(&other.service) {
            false
        } else if !self.group.eq(&other.group) {
            false
        } else {
            match (&self.organization, &other.organization) {
                (Some(a), Some(b)) => a.eq(b),
                (None, None) => true,
                _ => false,
            }
        };
        proof {
            if r {
                assert(self@ =~= other@);
            }
        }
        r
    }
}

} // verus!
