//! The type of a service: a name space and a service name, written `name_space.service_name`.

use crate::error::{ConfigError, ConfigErrorModel};
use vstd::prelude::*;

verus! {

/// The type of service.
#[derive(Debug)]
pub struct ServiceType {
    full_name: String,
    name_space: String,
    service_name: String,
}

/// Index of the last `.` in `s`, or `-1`.
pub open spec fn last_dot(s: Seq<char>) -> int
    decreases s.len(),
{
    if s.len() == 0 {
        -1
    } else if s.last() == '.' {
        s.len() - 1
    } else {
        last_dot(s.drop_last())
    }
}

pub proof fn lemma_last_dot(s: Seq<char>)
    ensures
        -1 <= last_dot(s) < s.len(),
        last_dot(s) >= 0 ==> s[last_dot(s)] == '.',
        forall|j: int| last_dot(s) < j < s.len() ==> s[j] != '.',
    decreases s.len(),
{
    if s.len() > 0 {
        lemma_last_dot(s.drop_last());
        assert forall|j: int| 0 <= j < s.len() - 1 implies s.drop_last()[j] == s[j] by {}
    }
}

impl ServiceType {
    pub closed spec fn full_name_view(&self) -> Seq<char> {
        self.full_name@
    }

    pub closed spec fn name_space_view(&self) -> Seq<char> {
        self.name_space@
    }

    pub closed spec fn service_name_view(&self) -> Seq<char> {
        self.service_name@
    }

    /// The full name is the name space, a `.` and the service name.
    pub closed spec fn well_formed(&self) -> bool {
        self.full_name@ == self.name_space@ + "."@ + self.service_name@
    }

    /// A service type from its name space and service name, neither of which may be empty.
    pub fn new(name_space: &str, service_name: &str) -> (r: Result<ServiceType, ConfigError>)
        ensures
            match r {
                Ok(t) => {
                    &&& name_space@.len() > 0 && service_name@.len() > 0
                    &&& t.name_space_view() == name_space@
                    &&& t.service_name_view() == service_name@
                    &&& t.full_name_view() == name_space@ + "."@ + service_name@
                },
                Err(e) => if name_space@.len() == 0 {
                    e@ == ConfigErrorModel::InvalidServiceType(
                        name_space@,
                        service_name@,
                        "name_space should not be empty."@,
                    )
                } else {
                    service_name@.len() == 0 && e@ == ConfigErrorModel::InvalidServiceType(
                        name_space@,
                        service_name@,
                        "service_name should not be empty."@,
                    )
                },
            },
    {
        if name_space.unicode_len() == 0 {
            return Err(
                ConfigError::invalid_service_type(
                    name_space,
                    service_name,
                    "name_space should not be empty.",
                ),
            );
        }
        if service_name.unicode_len() == 0 {
            return Err(
                ConfigError::invalid_service_type(
                    name_space,
                    service_name,
                    "service_name should not be empty.",
                ),
            );
        }
        let mut full = String::new();
        full.append(name_space);
        full.append(".");
        full.append(service_name);
        proof {
            assert(full@ =~= name_space@ + "."@ + service_name@);
        }
        Ok(
            ServiceType {
                full_name: full,
                name_space: name_space.to_owned(),
                service_name: service_name.to_owned(),
            },
        )
    }

    /// A service type from its full name: the name space is what comes before the last `.`,
    /// the service name what comes after it.
    pub fn from_full_name(full_name: &str) -> (r: Result<ServiceType, ConfigError>)
        ensures
            match r {
                Ok(t) => {
                    &&& last_dot(full_name@) >= 0
                    &&& t.full_name_view() == full_name@
                    &&& t.name_space_view() == full_name@.subrange(0, last_dot(full_name@))
                    &&& t.service_name_view() == full_name@.subrange(
                        last_dot(full_name@) + 1,
                        full_name@.len() as int,
                    )
                },
                Err(e) => if full_name@.len() == 0 {
                    e@ == ConfigErrorModel::InvalidServiceType(
                        ""@,
                        ""@,
                        "serivce full name should not be empty."@,
                    )
                } else {
                    last_dot(full_name@) == -1 && e@ == ConfigErrorModel::InvalidServiceType(
                        ""@,
                        ""@,
                        "service full name should contains \".\" (=name_space should not be empty)."@,
                    )
                },
            },
    {
        let n = full_name.unicode_len();
        if n == 0 {
            return Err(
                ConfigError::invalid_service_type("", "", "serivce full name should not be empty."),
            );
        }
        let mut i: usize = n;
        let mut dot: Option<usize> = None;
        proof {
            assert(full_name@.take(n as int) =~= full_name@);
            lemma_last_dot(full_name@);
        }
        while i > 0 && dot.is_none()
            invariant
                n == full_name@.len(),
                i <= n,
                dot is None ==> forall|j: int| i <= j < n ==> full_name@[j] != '.',
                dot is None ==> last_dot(full_name@.take(i as int)) == last_dot(full_name@),
                -1 <= last_dot(full_name@) < n,
                dot matches Some(d) ==> d as int == last_dot(full_name@),
            decreases i,
        {
            let c = full_name.get_char(i - 1);
            proof {
                assert(full_name@.take(i as int).drop_last() =~= full_name@.take(i - 1));
                assert(full_name@.take(i as int).last() == c);
            }
            if c == '.' {
                dot = Some(i - 1);
                proof {
                    lemma_last_dot(full_name@);
                }
            }
            i = i - 1;
        }
        proof {
            if dot is None {
                assert(full_name@.take(0) =~= Seq::<char>::empty());
            }
        }
        match dot {
            None => Err(
                ConfigError::invalid_service_type(
                    "",
                    "",
                    "service full name should contains \".\" (=name_space should not be empty).",
                ),
            ),
            Some(d) => {
                proof {
                    lemma_last_dot(full_name@);
                }
                let ns = full_name.substring_char(0, d).to_owned();
                let sn = full_name.substring_char(d + 1, n).to_owned();
                Ok(ServiceType { full_name: full_name.to_owned(), name_space: ns, service_name: sn })
            },
        }
    }

    /// The type of the service that does nothing: `builtin.noop`.
    pub fn noop() -> (r: ServiceType)
        ensures
            r.name_space_view() == "builtin"@,
            r.service_name_view() == "noop"@,
            r.full_name_view() == "builtin.noop"@,
    {
        proof {
            reveal_strlit("builtin");
            reveal_strlit("noop");
            reveal_strlit(".");
            reveal_strlit("builtin.noop");
        }
        let r = ServiceType::new("builtin", "noop");
        proof {
            assert("builtin"@ + "."@ + "noop"@ =~= "builtin.noop"@);
        }
        r.unwrap()
    }

    pub fn service_name(&self) -> (r: &str)
        ensures
            r@ == self.service_name_view(),
    {
        self.service_name.as_str()
    }

    pub fn name_space(&self) -> (r: &str)
        ensures
            r@ == self.name_space_view(),
    {
        self.name_space.as_str()
    }

    pub fn full_name(&self) -> (r: &str)
        ensures
            r@ == self.full_name_view(),
    {
        self.full_name.as_str()
    }
}

impl View for ServiceType {
    type V = (Seq<char>, Seq<char>, Seq<char>);

    /// The full name, the name space and the service name.
    open spec fn view(&self) -> (Seq<char>, Seq<char>, Seq<char>) {
        (self.full_name_view(), self.name_space_view(), self.service_name_view())
    }
}

impl Clone for ServiceType {
    fn clone(&self) -> (r: ServiceType)
        ensures
            r == *self,
    {
        ServiceType {
            full_name: self.full_name.clone(),
            name_space: self.name_space.clone(),
            service_name: self.service_name.clone(),
        }
    }
}

impl Default for ServiceType {
    fn default() -> (r: ServiceType)
        ensures
            r.full_name_view() == "builtin.noop"@,
            r.name_space_view() == "builtin"@,
            r.service_name_view() == "noop"@,
    {
        ServiceType::noop()
    }
}

impl PartialEq for ServiceType {
    fn eq(&self, other: &ServiceType) -> (r: bool) {
        self.full_name == other.full_name && self.name_space == other.name_space
            && self.service_name == other.service_name
    }
}

impl vstd::std_specs::cmp::PartialEqSpecImpl for ServiceType {
    open spec fn obeys_eq_spec() -> bool {
        true
    }

    open spec fn eq_spec(&self, other: &ServiceType) -> bool {
        &&& self.full_name_view() == other.full_name_view()
        &&& self.name_space_view() == other.name_space_view()
        &&& self.service_name_view() == other.service_name_view()
    }
}

impl Eq for ServiceType {

}

} // verus!

verus! {

/// The last `.` of a text is the one before a suffix without `.`.
proof fn lemma_last_dot_suffix(p: Seq<char>, sn: Seq<char>)
    requires
        forall|i: int| 0 <= i < sn.len() ==> sn[i] != '.',
    ensures
        last_dot(p + "."@ + sn) == p.len(),
    decreases sn.len(),
{
    reveal_strlit(".");
    if sn.len() == 0 {
        assert(p + "."@ + sn =~= p.push('.'));
    } else {
        lemma_last_dot_suffix(p, sn.drop_last());
        assert((p + "."@ + sn).drop_last() =~= p + "."@ + sn.drop_last());
        assert((p + "."@ + sn).last() == sn.last());
    }
}

/// A service type made of a name space and a service name without `.` is read back from its
/// full name: the full name splits at its last `.` into the same name space and service name.
pub proof fn law_full_name_round_trip(name_space: Seq<char>, service_name: Seq<char>)
    requires
        name_space.len() > 0,
        service_name.len() > 0,
        forall|i: int| 0 <= i < service_name.len() ==> service_name[i] != '.',
    ensures
        ({
            let full = name_space + "."@ + service_name;
            &&& last_dot(full) >= 0
            &&& full.subrange(0, last_dot(full)) == name_space
            &&& full.subrange(last_dot(full) + 1, full.len() as int) == service_name
        }),
{
    reveal_strlit(".");
    let full = name_space + "."@ + service_name;
    lemma_last_dot_suffix(name_space, service_name);
    assert(full.subrange(0, name_space.len() as int) =~= name_space);
    assert(full.subrange(name_space.len() as int + 1, full.len() as int) =~= service_name);
}

} // verus!
