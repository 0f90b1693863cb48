//! Name inflection for request-name matching.
//!
//! Model names are matched against request fields through camel-casing and
//! pluralization. The general word transformations come from the
//! `inflector` crate; on top of them the core keeps its own explicit
//! irregular-singular overrides, checked before the general rule.

use vstd::prelude::*;
use inflector::Inflector as RustInflector;

verus! {

/// What `inflector`'s camel-casing returns for a string: a pure function
/// of the characters alone.
pub uninterp spec fn camel_of(s: Seq<char>) -> Seq<char>;

/// What `inflector`'s pascal-casing returns for a string.
pub uninterp spec fn pascal_of(s: Seq<char>) -> Seq<char>;

/// What `inflector`'s singularization returns for a string.
pub uninterp spec fn singular_of(s: Seq<char>) -> Seq<char>;

/// Relies on `inflector::cases::camelcase::to_camel_case` (via the
/// `Inflector` trait): the result depends on the characters alone.
#[verifier::external_body]
pub fn camel_case(s: &String) -> (r: String)
    ensures
        r@ == camel_of(s@),
{
    s.as_str().to_camel_case()
}

/// Relies on `inflector::cases::pascalcase::to_pascal_case` (via the
/// `Inflector` trait): the result depends on the characters alone.
#[verifier::external_body]
pub fn pascal_case(s: &String) -> (r: String)
    ensures
        r@ == pascal_of(s@),
{
    s.as_str().to_pascal_case()
}

/// Relies on `inflector::string::singularize::to_singular` (via the
/// `Inflector` trait): the result depends on the characters alone.
#[verifier::external_body]
fn to_singular_raw(s: &String) -> (r: String)
    ensures
        r@ == singular_of(s@),
{
    s.as_str().to_singular()
}

/// The pluralization-aware singular of a name: the explicit irregular
/// overrides first, the general rule for everything else.
pub open spec fn spec_singularize(s: Seq<char>) -> Seq<char> {
    if s == "todoes"@ {
        "todo"@
    } else if s == "people"@ {
        "person"@
    } else {
        singular_of(s)
    }
}

/// The core's own inflection rules.
pub struct Inflector {}

impl Inflector {
    /// Singularizes a name, honouring the irregular overrides.
    pub fn singularize(s: &String) -> (r: String)
        ensures
            r@ == spec_singularize(s@),
    {
        if *s == String::from_str("todoes") {
            String::from_str("todo")
        } else if *s == String::from_str("people") {
            String::from_str("person")
        } else {
            to_singular_raw(s)
        }
    }
}

} // verus!
