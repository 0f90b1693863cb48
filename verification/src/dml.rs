//! Data-model definition pieces: comments and the scalar-list directive.

use vstd::prelude::*;

verus! {

/// A comment attached to a definition, possibly marking an error.
#[derive(Debug)]
pub struct Comment {
    pub text: String,
    pub is_error: bool,
}

/// How a scalar list is stored.
#[derive(Debug, PartialEq, Eq, Structural, Clone, Copy)]
pub enum ScalarListStrategy {
    Embedded,
    Relation,
}

/// A field of the definition language, as far as the scalar-list
/// directive reads it.
#[derive(Debug)]
pub struct DmlField {
    pub name: String,
    pub scalar_list_strategy: Option<ScalarListStrategy>,
}

/// The arguments handed to a directive: the optional constant literal of
/// its `strategy` argument.
#[derive(Debug)]
pub struct DirectiveArgs {
    pub strategy: Option<String>,
}

/// The strategy a literal denotes.
pub open spec fn spec_parse_strategy(s: Seq<char>) -> Option<ScalarListStrategy> {
    if s == "EMBEDDED"@ {
        Some(ScalarListStrategy::Embedded)
    } else if s == "RELATION"@ {
        Some(ScalarListStrategy::Relation)
    } else {
        None
    }
}

/// Validates the `scalarList` directive and applies it to a field.
pub struct ScalarListDirectiveValidator {}

impl ScalarListDirectiveValidator {
    /// The directive's name.
    pub fn directive_name(&self) -> (r: &'static str)
        ensures
            r@ == "scalarList"@,
    {
        "scalarList"
    }

    /// Applies the directive: a recognized strategy literal sets the
    /// field's strategy, an unrecognized one reports its text, an absent
    /// argument changes nothing.
    pub fn validate_and_apply(&self, args: &DirectiveArgs, obj: &mut DmlField) -> (r: Option<
        String,
    >)
        ensures
            match args.strategy {
                Some(s) => match spec_parse_strategy(s@) {
                    Some(strategy) => r is None && final(obj).scalar_list_strategy == Some(
                        strategy,
                    ) && final(obj).name == old(obj).name,
                    None => (r matches Some(m) && m@ == s@) && *final(obj) == *old(obj),
                },
                None => r is None && *final(obj) == *old(obj),
            },
    {
        match &args.strategy {
            Some(s) => {
                if *s == String::from_str("EMBEDDED") {
                    obj.scalar_list_strategy = Some(ScalarListStrategy::Embedded);
                    None
                } else if *s == String::from_str("RELATION") {
                    obj.scalar_list_strategy = Some(ScalarListStrategy::Relation);
                    None
                } else {
                    Some(s.clone())
                }
            },
            None => None,
        }
    }
}

} // verus!
