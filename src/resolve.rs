use vstd::prelude::*;
use vstd::utf8::encode_utf8;

use crate::model::ServiceConfig;

verus! {

/// The byte that encodes `.` in UTF-8.
pub open spec fn dot() -> u8 {
    46
}

/// `service_name` is `unit_name` followed by a type suffix: the unit name, a dot,
/// and a suffix without a dot (the unit name is what stands before the last dot).
pub open spec fn names_unit(service_name: Seq<char>, unit_name: Seq<char>) -> bool {
    let s = encode_utf8(service_name);
    let u = encode_utf8(unit_name);
    &&& u.len() < s.len()
    &&& s.subrange(0, u.len() as int) == u
    &&& s[u.len() as int] == dot()
    &&& forall|j: int| u.len() < j < s.len() ==> #[trigger] s[j] != dot()
}

/// The position of the first configuration whose service name names the unit.
pub open spec fn first_match(configs: Seq<ServiceConfig>, unit_name: Seq<char>) -> Option<int>
    decreases configs.len(),
{
    if configs.len() == 0 {
        None
    } else {
        match first_match(configs.drop_last(), unit_name) {
            Some(i) => Some(i),
            None => if names_unit(configs.last().service_name@, unit_name) {
                Some(configs.len() - 1)
            } else {
                None
            },
        }
    }
}

/// The service name holds a type suffix: it has a dot.
pub open spec fn has_suffix_spec(service_name: Seq<char>) -> bool {
    exists|j: int| 0 <= j < encode_utf8(service_name).len() && #[trigger] encode_utf8(service_name)[j] == dot()
}

/// No configuration entry names the unit.
#[derive(Clone, Copy, Debug, PartialEq, Eq, Structural)]
pub enum ResolveError {
    NotFound,
}

/// Whether `service_name` has a type suffix, which every configured name needs.
pub fn has_type_suffix(service_name: &String) -> (r: bool)
    ensures
        r == has_suffix_spec(service_name@),
{
    let s = service_name.as_str().as_bytes();
    let mut i: usize = 0;
    while i < s.len()
        invariant
            i <= s@.len(),
            s@ == encode_utf8(service_name@),
            forall|j: int| 0 <= j < i ==> #[trigger] s@[j] != dot(),
        decreases s@.len() - i,
    {
        if s[i] == 46 {
            return true;
        }
        i = i + 1;
    }
    false
}

/// Whether `service_name` is `unit_name` with a type suffix.
pub fn service_names_unit(service_name: &String, unit_name: &String) -> (r: bool)
    ensures
        r == names_unit(service_name@, unit_name@),
{
    let s = service_name.as_str().as_bytes();
    let u = unit_name.as_str().as_bytes();
    let ghost sv = s@;
    let ghost uv = u@;
    assert(sv == encode_utf8(service_name@));
    assert(uv == encode_utf8(unit_name@));
    if u.len() >= s.len() {
        return false;
    }
    let mut i: usize = 0;
    while i < u.len()
        invariant
            i <= u@.len(),
            u@.len() < s@.len(),
            sv == s@,
            uv == u@,
            sv == encode_utf8(service_name@),
            uv == encode_utf8(unit_name@),
            forall|j: int| 0 <= j < i ==> #[trigger] s@[j] == u@[j],
        decreases u@.len() - i,
    {
        if s[i] != u[i] {
            assert(sv.subrange(0, uv.len() as int)[i as int] != uv[i as int]);
            return false;
        }
        i = i + 1;
    }
    assert(sv.subrange(0, uv.len() as int) =~= uv);
    if s[u.len()] != 46 {
        return false;
    }
    let mut k: usize = u.len() + 1;
    while k < s.len()
        invariant
            u@.len() < k <= s@.len(),
            sv == s@,
            uv == u@,
            sv == encode_utf8(service_name@),
            uv == encode_utf8(unit_name@),
            sv.subrange(0, uv.len() as int) == uv,
            sv[uv.len() as int] == dot(),
            forall|j: int| u@.len() < j < k ==> #[trigger] s@[j] != dot(),
        decreases s@.len() - k,
    {
        if s[k] == 46 {
            assert(sv[k as int] == dot());
            return false;
        }
        k = k + 1;
    }
    true
}

/// The position of the first configuration whose service name is the unit's name
/// with a type suffix.
pub fn find_config_for_unit(unit_name: &String, configs: &Vec<ServiceConfig>) -> (r: Option<usize>)
    ensures
        r matches Some(i) ==> first_match(configs@, unit_name@) == Some(i as int) && i
            < configs@.len(),
        r is None ==> first_match(configs@, unit_name@) is None,
{
    let mut i: usize = 0;
    while i < configs.len()
        invariant
            i <= configs@.len(),
            first_match(configs@.subrange(0, i as int), unit_name@) is None,
        decreases configs@.len() - i,
    {
        let found = service_names_unit(&configs[i].service_name, unit_name);
        proof {
            let p = configs@.subrange(0, i + 1);
            assert(p.drop_last() =~= configs@.subrange(0, i as int));
        }
        if found {
            proof {
                lemma_first_match_prefix(configs@, unit_name@, i + 1);
            }
            return Some(i);
        }
        i = i + 1;
    }
    assert(configs@.subrange(0, i as int) =~= configs@);
    None
}

/// A match within a prefix is the match of the whole list.
proof fn lemma_first_match_prefix(configs: Seq<ServiceConfig>, unit_name: Seq<char>, n: int)
    requires
        0 <= n <= configs.len(),
        first_match(configs.subrange(0, n), unit_name) is Some,
    ensures
        first_match(configs, unit_name) == first_match(configs.subrange(0, n), unit_name),
    decreases configs.len(),
{
    if n < configs.len() {
        let p = configs.drop_last();
        assert(p =~= configs.subrange(0, configs.len() - 1));
        assert(p.subrange(0, n) =~= configs.subrange(0, n));
        lemma_first_match_prefix(p, unit_name, n);
    } else {
        assert(configs.subrange(0, n) =~= configs);
    }
}

/// The configuration entry of a unit reported by the manager: the first entry
/// whose service name is the unit's name with a type suffix.
pub fn resolve(unit_name: &String, configs: &Vec<ServiceConfig>) -> (r: Result<
    ServiceConfig,
    ResolveError,
>)
    ensures
        r matches Ok(c) ==> first_match(configs@, unit_name@) matches Some(i) && 0 <= i
            < configs@.len() && c == configs@[i],
        r is Err <==> first_match(configs@, unit_name@) is None,
{
    match find_config_for_unit(unit_name, configs) {
        Some(i) => Ok(configs[i].duplicate()),
        None => Err(ResolveError::NotFound),
    }
}

} // verus!
