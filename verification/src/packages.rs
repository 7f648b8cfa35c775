//! The UIDs of the installed packages, and what an app entry stands for.
use crate::text::{
    alphanumeric, chars_of, is_alphanumeric, parse_signed, parse_unsigned, signed_value,
    strip_prefix, stripped_prefix, unsigned_value,
};
use vstd::hash_map::StringHashMap;
use vstd::prelude::*;

verus! {

/// The UID of each installed package.
pub struct PackageUids {
    uids: StringHashMap<u32>,
}

impl View for PackageUids {
    type V = Map<Seq<char>, u32>;

    closed spec fn view(&self) -> Map<Seq<char>, u32> {
        self.uids@
    }
}

impl PackageUids {
    /// No package.
    pub fn new() -> (r: PackageUids)
        ensures
            r@ == Map::<Seq<char>, u32>::empty(),
    {
        PackageUids { uids: StringHashMap::new() }
    }

    /// Records the UID of a package.
    pub fn insert(&mut self, name: String, uid: u32)
        ensures
            final(self)@ == old(self)@.insert(name@, uid),
    {
        self.uids.insert(name, uid);
    }

    /// The UID of a package.
    pub fn get(&self, name: &str) -> (r: Option<u32>)
        ensures
            r == uid_of_package(self@, name@),
    {
        match self.uids.get(name) {
            Some(uid) => Some(*uid),
            None => None,
        }
    }
}

/// The UID of a package.
pub open spec fn uid_of_package(packages: Map<Seq<char>, u32>, name: Seq<char>) -> Option<u32> {
    if packages.contains_key(name) {
        Some(packages[name])
    } else {
        None
    }
}

/// The packages that a listing found; none where there was no listing.
pub fn package_uids(listed: Option<PackageUids>) -> (r: PackageUids)
    ensures
        r@ == match listed {
            Some(packages) => packages@,
            None => Map::<Seq<char>, u32>::empty(),
        },
{
    match listed {
        Some(packages) => packages,
        None => PackageUids::new(),
    }
}

/// The UID that an app entry stands for: the number of a `uid:` entry, else that of
/// the package of this name.
pub open spec fn uid_of_entry(entry: Seq<char>, packages: Map<Seq<char>, u32>) -> Option<u32> {
    match stripped_prefix(entry, "uid:"@) {
        Some(number) => match unsigned_value(number, u32::MAX as nat) {
            Some(uid) => Some(uid as u32),
            None => uid_of_package(packages, entry),
        },
        None => uid_of_package(packages, entry),
    }
}

/// The UID that an app entry stands for.
pub fn effective_uid(entry: &str, packages: &PackageUids) -> (r: Option<u32>)
    ensures
        r == uid_of_entry(entry@, packages@),
{
    match strip_prefix(entry, "uid:") {
        Some(number) => match parse_unsigned(number, u32::MAX) {
            Some(uid) => Some(uid),
            None => packages.get(entry),
        },
        None => packages.get(entry),
    }
}

/// A `uid:` entry with a number from 0 to the largest `i32`, or a package name.
pub open spec fn is_app_entry(value: Seq<char>) -> bool {
    ||| match stripped_prefix(value, "uid:"@) {
        Some(number) => match signed_value(number) {
            Some(uid) => uid >= 0,
            None => false,
        },
        None => false,
    }
    ||| is_package_name(value)
}

/// At least one letter or digit, `.` or `_`, and nothing else.
pub open spec fn is_package_name(value: Seq<char>) -> bool {
    value.len() > 0 && forall|i: int|
        0 <= i < value.len() ==> is_package_char(#[trigger] value[i])
}

/// A letter or digit, `.` or `_`.
pub open spec fn is_package_char(c: char) -> bool {
    is_alphanumeric(c) || c == '.' || c == '_'
}

fn valid_package_name(value: &str) -> (r: bool)
    ensures
        r == is_package_name(value@),
{
    let chars: Vec<char> = chars_of(value);
    let mut i: usize = 0;
    while i < chars.len()
        invariant
            i <= chars.len(),
            chars@ == value@,
            forall|k: int| 0 <= k < i ==> is_package_char(#[trigger] value@[k]),
        decreases chars.len() - i,
    {
        let c: char = chars[i];
        if !(alphanumeric(c) || c == '.' || c == '_') {
            assert(!is_package_char(value@[i as int]));
            return false;
        }
        i += 1;
    }
    chars.len() > 0
}

/// Whether `value` may stand in the app list of a profile.
pub fn valid_app_entry(value: &str) -> (r: bool)
    ensures
        r == is_app_entry(value@),
{
    match strip_prefix(value, "uid:") {
        Some(number) => match parse_signed(number) {
            Some(uid) => if uid >= 0 {
                return true;
            },
            None => {},
        },
        None => {},
    }
    valid_package_name(value)
}

} // verus!
