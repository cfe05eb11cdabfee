//! Binding patterns, and where in one a name is bound.

use super::options::NoUnusedVarsView;
use super::pattern::ignores;
use super::{NoUnusedVars, UnusedBindingResult};
use crate::diagnostic::Span;
use vstd::prelude::*;

verus! {

/// A binding pattern, as far as the rule reads it.
#[derive(Debug)]
pub enum BindingPattern {
    /// `const a = 1`
    BindingIdentifier { name: String, span: Span },
    /// `const {a} = 1`: the values of the properties, and the argument of
    /// the rest element.
    ObjectPattern { properties: Vec<BindingPattern>, rest: Option<Box<BindingPattern>> },
    /// `const [a] = 1`: the elements, with `None` for a hole.
    ArrayPattern { elements: Vec<Option<BindingPattern>> },
    /// A defaulted binding pattern, i.e. `a = 1` in `const {a = 1} = 1`: its
    /// left side.
    AssignmentPattern { left: Box<BindingPattern> },
}

/// Where `pattern` binds `name`, and whether the binding is ignored.
pub open spec fn unused_binding(
    options: NoUnusedVarsView,
    name: Seq<char>,
    pattern: BindingPattern,
) -> Option<UnusedBindingResult>
    decreases pattern, 0nat,
{
    match pattern {
        BindingPattern::BindingIdentifier { name: bound, span } => {
            if bound@ == name {
                Some(UnusedBindingResult(span, false))
            } else {
                None
            }
        },
        BindingPattern::AssignmentPattern { left } => unused_binding(options, name, *left),
        BindingPattern::ArrayPattern { elements } => unused_in_elements(
            options,
            name,
            elements@,
            0,
        ),
        BindingPattern::ObjectPattern { properties, rest } => {
            match unused_in_properties(options, name, properties@, 0) {
                Some(found) => Some(
                    UnusedBindingResult(
                        found.0,
                        found.1 || (options.ignore_rest_siblings && rest is Some),
                    ),
                ),
                None => match rest {
                    Some(rest) => unused_binding(options, name, *rest),
                    None => None,
                },
            }
        },
    }
}

/// Where the elements of an array pattern from the `from`th on bind
/// `name`. Holes and identifiers of another name are passed over. The first
/// element that is an identifier of that name, or no identifier at all,
/// decides.
pub open spec fn unused_in_elements(
    options: NoUnusedVarsView,
    name: Seq<char>,
    elements: Seq<Option<BindingPattern>>,
    from: int,
) -> Option<UnusedBindingResult>
    decreases elements, elements.len() - from,
{
    if 0 <= from < elements.len() {
        match elements[from] {
            None => unused_in_elements(options, name, elements, from + 1),
            Some(BindingPattern::BindingIdentifier { name: bound, span }) => {
                if bound@ == name {
                    Some(
                        UnusedBindingResult(
                            span,
                            ignores(options.destructured_array_ignore_pattern, name),
                        ),
                    )
                } else {
                    unused_in_elements(options, name, elements, from + 1)
                }
            },
            Some(element) => unused_binding(options, name, element),
        }
    } else {
        None
    }
}

/// Where the values of the properties of an object pattern from the
/// `from`th on bind `name`: the first binding that one of them has.
pub open spec fn unused_in_properties(
    options: NoUnusedVarsView,
    name: Seq<char>,
    properties: Seq<BindingPattern>,
    from: int,
) -> Option<UnusedBindingResult>
    decreases properties, properties.len() - from,
{
    if 0 <= from < properties.len() {
        match unused_binding(options, name, properties[from]) {
            Some(found) => Some(found),
            None => unused_in_properties(options, name, properties, from + 1),
        }
    } else {
        None
    }
}

impl NoUnusedVars {
    /// Where `id` binds `name`, and whether the binding is ignored: as an
    /// element of an array pattern, if its name matches the pattern for
    /// those; as a property of an object pattern, if the pattern has a rest
    /// element and the siblings of one are ignored.
    pub fn check_unused_binding_pattern(&self, name: &str, id: &BindingPattern) -> (found: Option<
        UnusedBindingResult,
    >)
        ensures
            found == unused_binding(self@, name@, *id),
        decreases id,
    {
        match id {
            BindingPattern::BindingIdentifier { name: bound, span } => {
                if super::options::same_text(bound.as_str(), name) {
                    Some(UnusedBindingResult::from(*span))
                } else {
                    None
                }
            },
            BindingPattern::AssignmentPattern { left } => {
                self.check_unused_binding_pattern(name, left)
            },
            BindingPattern::ArrayPattern { elements } => {
                let mut i: usize = 0;
                while i < elements.len()
                    invariant
                        i <= elements.len(),
                        id == (BindingPattern::ArrayPattern { elements: *elements }),
                        unused_binding(self@, name@, *id) == unused_in_elements(
                            self@,
                            name@,
                            elements@,
                            i as int,
                        ),
                    decreases elements.len() - i,
                {
                    match &elements[i] {
                        None => {},
                        Some(BindingPattern::BindingIdentifier { name: bound, span }) => {
                            if super::options::same_text(bound.as_str(), name) {
                                let ignored = self.is_ignored_array_destructured(name);
                                return Some(UnusedBindingResult(*span, ignored));
                            }
                        },
                        Some(element) => {
                            return self.check_unused_binding_pattern(name, element);
                        },
                    }
                    i += 1;
                }
                None
            },
            BindingPattern::ObjectPattern { properties, rest } => {
                let mut i: usize = 0;
                while i < properties.len()
                    invariant
                        i <= properties.len(),
                        id == (BindingPattern::ObjectPattern {
                            properties: *properties,
                            rest: *rest,
                        }),
                        unused_in_properties(self@, name@, properties@, 0) == unused_in_properties(
                            self@,
                            name@,
                            properties@,
                            i as int,
                        ),
                    decreases properties.len() - i,
                {
                    match self.check_unused_binding_pattern(name, &properties[i]) {
                        Some(found) => {
                            let is_ignorable = self.ignore_rest_siblings() && rest.is_some();
                            return Some(found.or(is_ignorable));
                        },
                        None => {},
                    }
                    i += 1;
                }
                match rest {
                    Some(rest) => self.check_unused_binding_pattern(name, rest),
                    None => None,
                }
            },
        }
    }
}

} // verus!
