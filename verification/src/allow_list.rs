//! The allow-list: the subscription names that the caller wants decoded in
//! full.
//!
//! The names are kept in a hash set of shared strings. A list that was
//! never set allows every name. Membership is by exact match of the name's
//! bytes.

use vstd::prelude::*;
use vstd::string::StringSliceAdditionalSpecFns;
use vstd::utf8::valid_utf8;
use ecow::EcoString;
use rustc_hash::{FxBuildHasher, FxHashSet};

verus! {

/// `ecow::EcoString`, a string that is cheap to clone. Nothing inside it is
/// visible here.
#[verifier::external_type_specification]
#[verifier::external_body]
pub struct ExEcoString(EcoString);

/// `rustc_hash::FxBuildHasher`, the hasher of the set of names.
#[verifier::external_type_specification]
#[verifier::external_body]
pub struct ExFxBuildHasher(FxBuildHasher);

/// The names that a set holds, each as the bytes of its UTF-8 text.
pub uninterp spec fn listed_names(names: FxHashSet<EcoString>) -> Set<Seq<u8>>;

/// `FxHashSet::default`: a new set, which holds no name.
#[verifier::external_body]
fn empty_names() -> (names: FxHashSet<EcoString>)
    ensures
        listed_names(names) == Set::<Seq<u8>>::empty(),
{
    FxHashSet::default()
}

/// `HashSet::insert` of `EcoString::from(name)`: afterwards the set holds
/// what it held before and `name`.
#[verifier::external_body]
fn insert_name(names: &mut FxHashSet<EcoString>, name: &str)
    ensures
        listed_names(*final(names)) == listed_names(*old(names)).insert(name.spec_bytes()),
{
    names.insert(EcoString::from(name));
}

/// `HashSet::contains`: whether the set holds a string with exactly the
/// bytes of `text`.
#[verifier::external_body]
fn holds_text(names: &FxHashSet<EcoString>, text: &str) -> (r: bool)
    ensures
        r == listed_names(*names).contains(text.spec_bytes()),
{
    names.contains(text)
}

/// `core::str::from_utf8`: the text that `bytes` spell, which has those
/// very bytes, or nothing where they are not valid UTF-8.
#[verifier::external_body]
fn utf8_text(bytes: &[u8]) -> (r: Option<&str>)
    ensures
        match r {
            Some(text) => valid_utf8(bytes@) && text.spec_bytes() == bytes@,
            None => !valid_utf8(bytes@),
        },
{
    core::str::from_utf8(bytes).ok()
}

/// The set of the names in `subs`, as bytes.
pub open spec fn names_among(subs: Seq<&str>) -> Set<Seq<u8>> {
    Set::new(|name: Seq<u8>| exists|i: int| 0 <= i < subs.len() && (#[trigger] subs[i]).spec_bytes() == name)
}

/// Collects the given names into a set. A name given twice is held once.
pub fn collect_names(subs: &[&str]) -> (names: FxHashSet<EcoString>)
    ensures
        listed_names(names) == names_among(subs@),
{
    let mut names = empty_names();
    let mut i: usize = 0;
    while i < subs.len()
        invariant
            i <= subs@.len(),
            listed_names(names) == names_among(subs@.take(i as int)),
        decreases subs@.len() - i,
    {
        let sub: &str = subs[i];
        insert_name(&mut names, sub);
        proof {
            let shorter = subs@.take(i as int);
            let longer = subs@.take(i + 1);
            assert forall|name: Seq<u8>|
                names_among(longer).contains(name) <==> names_among(shorter).insert(
                    sub.spec_bytes(),
                ).contains(name) by {
                if names_among(longer).contains(name) {
                    let j = choose|j: int|
                        0 <= j < longer.len() && (#[trigger] longer[j]).spec_bytes() == name;
                    if j < i {
                        assert(shorter[j] == longer[j]);
                    }
                }
                if names_among(shorter).contains(name) {
                    let j = choose|j: int|
                        0 <= j < shorter.len() && (#[trigger] shorter[j]).spec_bytes() == name;
                    assert(longer[j] == shorter[j]);
                }
                if name == sub.spec_bytes() {
                    assert(longer[i as int] == sub);
                }
            }
        }
        i += 1;
    }
    proof {
        assert(subs@.take(i as int) =~= subs@);
    }
    names
}

/// Does a list allow `name`? A list that was never set allows every name.
/// A list that was set allows the names it holds; these are text, so a name
/// that is not valid UTF-8 is none of them.
pub open spec fn allows(list: Option<Set<Seq<u8>>>, name: Seq<u8>) -> bool {
    match list {
        Some(names) => valid_utf8(name) && names.contains(name),
        None => true,
    }
}

/// The names of an optional list.
pub open spec fn listed(list: Option<FxHashSet<EcoString>>) -> Option<Set<Seq<u8>>> {
    match list {
        Some(names) => Some(listed_names(names)),
        None => None,
    }
}

/// Is a message of this name to be decoded in full?
pub fn is_allowed(list: &Option<FxHashSet<EcoString>>, name: &[u8]) -> (r: bool)
    ensures
        r == allows(listed(*list), name@),
{
    match list {
        Some(names) => match utf8_text(name) {
            Some(text) => holds_text(names, text),
            None => false,
        },
        None => true,
    }
}

} // verus!
