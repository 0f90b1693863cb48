//! Query arguments: the recognized options of a read query and their
//! extraction from a request field's argument list.
//!
//! The argument list is folded left to right; a recognized key replaces
//! whatever an earlier occurrence set (last occurrence wins — kept as the
//! documented behaviour of the fold), an unknown key or a wrong value type
//! for a known key is refused.

use vstd::prelude::*;
use crate::chars::{chars_of, chars_prefix, chars_suffix, char_positions, char_positions_spec,
    char_positions_upto, lower_chars, lower_seq, chars_eq, string_from};
use crate::error::CoreError;
use crate::schema::{Model, field_name};
use crate::values::{GraphqlId, IdView, PrismaValue, ValueView, from_value, spec_from_value};
use crate::request::Value;

verus! {

/// Direction of an ordering.
#[derive(Debug, PartialEq, Eq, Structural, Clone, Copy)]
pub enum SortOrder {
    Ascending,
    Descending,
}

/// An ordering: a scalar field of the model and a direction.
#[derive(Debug)]
pub struct OrderBy {
    pub field: String,
    pub sort_order: SortOrder,
}

/// A validated filter: a conjunction of equality conditions on scalar
/// fields of one model.
#[derive(Debug)]
pub struct Filter {
    pub conditions: Vec<(String, PrismaValue)>,
}

/// Mathematical image of a filter.
pub open spec fn filter_view(f: Filter) -> Seq<(Seq<char>, ValueView)> {
    f.conditions@.map_values(|c: (String, PrismaValue)| (c.0@, c.1@))
}

impl View for Filter {
    type V = Seq<(Seq<char>, ValueView)>;

    open spec fn view(&self) -> Seq<(Seq<char>, ValueView)> {
        filter_view(*self)
    }
}

/// The recognized options of a read query.
#[derive(Debug)]
pub struct QueryArguments {
    pub skip: Option<u32>,
    pub first: Option<u32>,
    pub last: Option<u32>,
    pub after: Option<GraphqlId>,
    pub before: Option<GraphqlId>,
    pub order_by: Option<OrderBy>,
    pub filter: Option<Filter>,
}

/// Mathematical image of the recognized options.
pub struct QueryArgsView {
    pub skip: Option<u32>,
    pub first: Option<u32>,
    pub last: Option<u32>,
    pub after: Option<IdView>,
    pub before: Option<IdView>,
    pub order_by: Option<(Seq<char>, SortOrder)>,
    pub filter: Option<Seq<(Seq<char>, ValueView)>>,
}

impl View for QueryArguments {
    type V = QueryArgsView;

    open spec fn view(&self) -> QueryArgsView {
        QueryArgsView {
            skip: self.skip,
            first: self.first,
            last: self.last,
            after: match self.after {
                Some(id) => Some(id@),
                None => None,
            },
            before: match self.before {
                Some(id) => Some(id@),
                None => None,
            },
            order_by: match self.order_by {
                Some(ob) => Some((ob.field@, ob.sort_order)),
                None => None,
            },
            filter: match self.filter {
                Some(f) => Some(filter_view(f)),
                None => None,
            },
        }
    }
}

/// The option record with nothing set.
pub open spec fn empty_args() -> QueryArgsView {
    QueryArgsView {
        skip: None,
        first: None,
        last: None,
        after: None,
        before: None,
        order_by: None,
        filter: None,
    }
}

impl Default for QueryArguments {
    /// The option record with nothing set.
    fn default() -> (r: QueryArguments)
        ensures
            r@ == empty_args(),
    {
        QueryArguments {
            skip: None,
            first: None,
            last: None,
            after: None,
            before: None,
            order_by: None,
            filter: None,
        }
    }
}

/// What `uuid::Uuid::parse_str` returns for a string, carried as the
/// 128-bit value of the parsed identifier: a pure function of the
/// characters alone, `None` when the string is not a textual UUID.
pub uninterp spec fn uuid_of(s: Seq<char>) -> Option<u128>;

/// Relies on `uuid::Uuid::parse_str` and `Uuid::as_u128`: parsing depends
/// on the characters alone; `as_u128` returns the parsed value.
#[verifier::external_body]
pub fn parse_uuid(s: &String) -> (r: Option<u128>)
    ensures
        r == uuid_of(s@),
{
    match uuid::Uuid::parse_str(s.as_str()) {
        Ok(u) => Some(u.as_u128()),
        Err(_) => None,
    }
}

/// What a cursor argument denotes: a UUID when the string parses as one,
/// otherwise the plain string id; an in-range integer is a positional
/// offset; anything else is refused.
pub open spec fn spec_cursor(v: Value) -> Option<IdView> {
    match v {
        Value::Text(s) => match uuid_of(s@) {
            Some(u) => Some(IdView::Uuid(u)),
            None => Some(IdView::Text(s@)),
        },
        Value::Int(n) => if 0 <= n <= u32::MAX {
            Some(IdView::Int(n as int))
        } else {
            None
        },
        _ => None,
    }
}

/// Reads a cursor argument.
pub fn cursor_from(v: &Value) -> (r: Result<GraphqlId, CoreError>)
    ensures
        r matches Ok(id) ==> spec_cursor(*v) == Some(id@),
        r matches Err(e) ==> spec_cursor(*v) is None && e.is_validation(),
{
    match v {
        Value::Text(s) => match parse_uuid(s) {
            Some(u) => Ok(GraphqlId::Uuid(u)),
            None => Ok(GraphqlId::Text(s.clone())),
        },
        Value::Int(n) => {
            if *n >= 0 && *n <= u32::MAX as i64 {
                Ok(GraphqlId::Int(*n as usize))
            } else {
                Err(CoreError::QueryValidationError(String::from_str("Invalid number provided")))
            }
        },
        _ => Err(CoreError::QueryValidationError(String::from_str("Invalid cursor value"))),
    }
}

/// Whether the model has a scalar field of the given name.
pub open spec fn scalar_field_exists(model: Model, name: Seq<char>) -> bool {
    exists|f: int|
        0 <= f < model.fields@.len() && model.fields@[f] is Scalar && field_name(model.fields@[f])
            == name
}

/// What an `orderBy` enum value denotes on a model: `field_DIRECTION`,
/// exactly one underscore, the direction `ASC` or `DESC`, the field a
/// scalar field of the model; everything else is refused.
pub open spec fn spec_order_by(model: Model, s: Seq<char>) -> Option<(Seq<char>, SortOrder)> {
    let ps = char_positions_spec(s, '_');
    if ps.len() != 1 {
        None
    } else {
        let p = ps[0];
        let field_part = s.subrange(0, p);
        let dir = s.subrange(p + 1, s.len() as int);
        if dir == "ASC"@ {
            if scalar_field_exists(model, field_part) {
                Some((field_part, SortOrder::Ascending))
            } else {
                None
            }
        } else if dir == "DESC"@ {
            if scalar_field_exists(model, field_part) {
                Some((field_part, SortOrder::Descending))
            } else {
                None
            }
        } else {
            None
        }
    }
}

/// Positions reported by the underscore scan are in range and hold the
/// scanned character.
proof fn lemma_char_positions_in_range(s: Seq<char>, c: char, n: int)
    requires
        n <= s.len(),
    ensures
        forall|k: int|
            0 <= k < char_positions_upto(s, c, n).len() ==> 0 <= #[trigger] char_positions_upto(
                s,
                c,
                n,
            )[k] < n,
    decreases n,
{
    if n > 0 {
        lemma_char_positions_in_range(s, c, n - 1);
        assert forall|k: int|
            0 <= k < char_positions_upto(s, c, n).len() implies 0 <= #[trigger] char_positions_upto(
            s,
            c,
            n,
        )[k] < n by {
            if s[n - 1] == c {
                assert(char_positions_upto(s, c, n) == char_positions_upto(s, c, n - 1).push(
                    n - 1,
                ));
                if k < char_positions_upto(s, c, n - 1).len() {
                    assert(char_positions_upto(s, c, n)[k] == char_positions_upto(s, c, n - 1)[k]);
                } else {
                    assert(char_positions_upto(s, c, n)[k] == n - 1);
                }
            } else {
                assert(char_positions_upto(s, c, n) == char_positions_upto(s, c, n - 1));
            }
        }
    }
}

/// Folds an `orderBy` argument into the option record: on success the
/// ordering is set and every other option is kept; a malformed value, an
/// unknown direction or an unknown field is a validation error.
pub fn extract_order_by(aggregator: QueryArguments, order_arg: &String, model: &Model) -> (r:
    Result<QueryArguments, CoreError>)
    ensures
        r matches Ok(qa) ==> spec_order_by(*model, order_arg@) matches Some(ob) && qa@
            == (QueryArgsView { order_by: Some(ob), ..aggregator@ }),
        r matches Err(e) ==> spec_order_by(*model, order_arg@) is None && e.is_validation(),
{
    let chars = chars_of(order_arg);
    let positions = char_positions(&chars, '_');
    proof {
        lemma_char_positions_in_range(order_arg@, '_', order_arg@.len() as int);
    }
    if positions.len() != 1 {
        proof {
            assert(positions@.map_values(|u: usize| u as int).len() == positions@.len());
        }
        return Err(CoreError::QueryValidationError(
            String::from_str("Malformed orderBy argument"),
        ));
    }
    let p = positions[0];
    proof {
        assert(positions@.map_values(|u: usize| u as int)[0] == p as int);
        assert(p as int == char_positions_spec(order_arg@, '_')[0]);
        assert(p < chars@.len());
        assert(chars.len() == chars@.len());
    }
    let field_part = chars_prefix(&chars, p);
    let dir = chars_suffix(&chars, p + 1);
    let asc = chars_of(&String::from_str("ASC"));
    let desc = chars_of(&String::from_str("DESC"));
    let sort_order = if chars_eq(&dir, &asc) {
        SortOrder::Ascending
    } else if chars_eq(&dir, &desc) {
        SortOrder::Descending
    } else {
        return Err(CoreError::QueryValidationError(String::from_str("Unknown sort direction")));
    };
    let field_string = string_from(&field_part);
    match model.find_from_scalar(&field_string) {
        Some(f_idx) => {
            proof {
                assert(model.fields@[f_idx as int] is Scalar && field_name(
                    model.fields@[f_idx as int],
                ) == field_string@);
                assert(scalar_field_exists(*model, field_string@));
            }
            Ok(QueryArguments { order_by: Some(OrderBy { field: field_string, sort_order }), ..aggregator })
        },
        None => {
            proof {
                assert(!scalar_field_exists(*model, field_string@));
            }
            Err(CoreError::QueryValidationError(String::from_str("Unknown field")))
        },
    }
}

/// What a `where` object denotes on a model: each entry an equality
/// condition on a scalar field holding a scalar value.
pub open spec fn spec_filter_conditions(model: Model, entries: Seq<(String, Value)>) -> Option<
    Seq<(Seq<char>, ValueView)>,
>
    decreases entries.len(),
{
    if entries.len() == 0 {
        Some(Seq::empty())
    } else {
        match spec_filter_conditions(model, entries.drop_last()) {
            None => None,
            Some(acc) => {
                let k = entries.last().0;
                let v = entries.last().1;
                if scalar_field_exists(model, k@) {
                    match spec_from_value(v) {
                        Some(pv) => Some(acc.push((k@, pv))),
                        None => None,
                    }
                } else {
                    None
                }
            },
        }
    }
}

/// Builds a validated filter from a `where` object.
pub fn extract_filter_conditions(model: &Model, entries: &Vec<(String, Value)>) -> (r: Result<
    Filter,
    CoreError,
>)
    ensures
        r matches Ok(f) ==> spec_filter_conditions(*model, entries@) == Some(f@),
        r matches Err(e) ==> spec_filter_conditions(*model, entries@) is None
            && e.is_validation(),
{
    let mut out: Vec<(String, PrismaValue)> = Vec::new();
    let mut i: usize = 0;
    while i < entries.len()
        invariant
            i <= entries@.len(),
            spec_filter_conditions(*model, entries@.subrange(0, i as int)) == Some(
                out@.map_values(|c: (String, PrismaValue)| (c.0@, c.1@)),
            ),
        decreases entries@.len() - i,
    {
        let (k, v) = &entries[i];
        if model.find_from_scalar(k).is_none() {
            proof {
                lemma_filter_conditions_prefix_none(*model, entries@, i as int);
            }
            return Err(CoreError::QueryValidationError(
                String::from_str("Unknown field in filter"),
            ));
        }
        let pv = match from_value(v) {
            Ok(pv) => pv,
            Err(e) => {
                proof {
                    lemma_filter_conditions_prefix_none(*model, entries@, i as int);
                }
                return Err(CoreError::QueryValidationError(
                    String::from_str("Malformed value in filter"),
                ));
            },
        };
        out.push((k.clone(), pv));
        i = i + 1;
        proof {
            assert(entries@.subrange(0, i as int).drop_last() =~= entries@.subrange(
                0,
                i as int - 1,
            ));
            assert(entries@.subrange(0, i as int).last() == entries@[i as int - 1]);
            assert(out@.map_values(|c: (String, PrismaValue)| (c.0@, c.1@)) =~= spec_filter_conditions(
                *model,
                entries@.subrange(0, i as int),
            )->Some_0);
        }
    }
    proof {
        assert(entries@.subrange(0, entries@.len() as int) =~= entries@);
    }
    Ok(Filter { conditions: out })
}

/// A failure at entry `i` poisons the whole fold.
proof fn lemma_filter_conditions_prefix_none(model: Model, entries: Seq<(String, Value)>, i: int)
    requires
        0 <= i < entries.len(),
        !(scalar_field_exists(model, entries[i].0@) && spec_from_value(entries[i].1) is Some),
    ensures
        spec_filter_conditions(model, entries) is None,
    decreases entries.len(),
{
    if entries.len() > 0 {
        if i == entries.len() - 1 {
            assert(entries.last() == entries[i]);
        } else {
            lemma_filter_conditions_prefix_none(model, entries.drop_last(), i);
            assert(entries.drop_last()[i] == entries[i]);
        }
    }
}

/// What folding one argument into the option record yields: the key is
/// matched ASCII-case-insensitively against the recognized names; a
/// recognized key replaces the option it names, everything else is refused.
pub open spec fn spec_apply_arg(model: Model, acc: QueryArgsView, key: Seq<char>, v: Value) -> Option<QueryArgsView> {
    let k = lower_seq(key);
    if k == "skip"@ {
        match v {
            Value::Int(n) => if 0 <= n <= u32::MAX {
                Some(QueryArgsView { skip: Some(n as u32), ..acc })
            } else {
                None
            },
            _ => None,
        }
    } else if k == "first"@ {
        match v {
            Value::Int(n) => if 0 <= n <= u32::MAX {
                Some(QueryArgsView { first: Some(n as u32), ..acc })
            } else {
                None
            },
            _ => None,
        }
    } else if k == "last"@ {
        match v {
            Value::Int(n) => if 0 <= n <= u32::MAX {
                Some(QueryArgsView { last: Some(n as u32), ..acc })
            } else {
                None
            },
            _ => None,
        }
    } else if k == "after"@ {
        match spec_cursor(v) {
            Some(id) => Some(QueryArgsView { after: Some(id), ..acc }),
            None => None,
        }
    } else if k == "before"@ {
        match spec_cursor(v) {
            Some(id) => Some(QueryArgsView { before: Some(id), ..acc }),
            None => None,
        }
    } else if k == "orderby"@ {
        match v {
            Value::EnumValue(s) => match spec_order_by(model, s@) {
                Some(ob) => Some(QueryArgsView { order_by: Some(ob), ..acc }),
                None => None,
            },
            _ => None,
        }
    } else if k == "where"@ {
        match v {
            Value::Object(entries) => match spec_filter_conditions(model, entries@) {
                Some(cs) => Some(QueryArgsView { filter: Some(cs), ..acc }),
                None => None,
            },
            _ => None,
        }
    } else {
        None
    }
}

/// What the whole left-to-right fold of an argument list yields.
pub open spec fn spec_extract_args(model: Model, args: Seq<(String, Value)>) -> Option<QueryArgsView>
    decreases args.len(),
{
    if args.len() == 0 {
        Some(empty_args())
    } else {
        match spec_extract_args(model, args.drop_last()) {
            None => None,
            Some(acc) => spec_apply_arg(model, acc, args.last().0@, args.last().1),
        }
    }
}

/// Folds one argument into the option record.
fn apply_arg(model: &Model, acc: QueryArguments, key: &String, v: &Value) -> (r: Result<QueryArguments, CoreError>)
    ensures
        r matches Ok(qa) ==> spec_apply_arg(*model, acc@, key@, *v) == Some(qa@),
        r matches Err(e) ==> spec_apply_arg(*model, acc@, key@, *v) is None && e.is_validation(),
{
    let key_chars = chars_of(key);
    let k = lower_chars(&key_chars);
    let invalid_number = || -> CoreError { CoreError::QueryValidationError(String::from_str("Invalid number provided")) };
    if chars_eq(&k, &chars_of(&String::from_str("skip"))) {
        match v {
            Value::Int(n) => {
                if *n >= 0 && *n <= u32::MAX as i64 {
                    Ok(QueryArguments { skip: Some(*n as u32), ..acc })
                } else {
                    Err(CoreError::QueryValidationError(String::from_str("Invalid number provided")))
                }
            },
            _ => Err(CoreError::QueryValidationError(String::from_str("Invalid number provided"))),
        }
    } else if chars_eq(&k, &chars_of(&String::from_str("first"))) {
        match v {
            Value::Int(n) => {
                if *n >= 0 && *n <= u32::MAX as i64 {
                    Ok(QueryArguments { first: Some(*n as u32), ..acc })
                } else {
                    Err(CoreError::QueryValidationError(String::from_str("Invalid number provided")))
                }
            },
            _ => Err(CoreError::QueryValidationError(String::from_str("Invalid number provided"))),
        }
    } else if chars_eq(&k, &chars_of(&String::from_str("last"))) {
        match v {
            Value::Int(n) => {
                if *n >= 0 && *n <= u32::MAX as i64 {
                    Ok(QueryArguments { last: Some(*n as u32), ..acc })
                } else {
                    Err(CoreError::QueryValidationError(String::from_str("Invalid number provided")))
                }
            },
            _ => Err(CoreError::QueryValidationError(String::from_str("Invalid number provided"))),
        }
    } else if chars_eq(&k, &chars_of(&String::from_str("after"))) {
        match cursor_from(v) {
            Ok(id) => Ok(QueryArguments { after: Some(id), ..acc }),
            Err(e) => Err(e),
        }
    } else if chars_eq(&k, &chars_of(&String::from_str("before"))) {
        match cursor_from(v) {
            Ok(id) => Ok(QueryArguments { before: Some(id), ..acc }),
            Err(e) => Err(e),
        }
    } else if chars_eq(&k, &chars_of(&String::from_str("orderby"))) {
        match v {
            Value::EnumValue(s) => extract_order_by(acc, s, model),
            _ => Err(CoreError::QueryValidationError(String::from_str("Malformed orderBy argument"))),
        }
    } else if chars_eq(&k, &chars_of(&String::from_str("where"))) {
        match v {
            Value::Object(entries) => extract_filter(acc, entries, model),
            _ => Err(CoreError::QueryValidationError(String::from_str("Malformed where argument"))),
        }
    } else {
        Err(CoreError::QueryValidationError(String::from_str("Unknown key")))
    }
}

/// Folds a `where` object into the option record as a validated filter.
pub fn extract_filter(aggregator: QueryArguments, entries: &Vec<(String, Value)>, model: &Model) -> (r: Result<QueryArguments, CoreError>)
    ensures
        r matches Ok(qa) ==> spec_filter_conditions(*model, entries@) matches Some(cs) && qa@
            == (QueryArgsView { filter: Some(cs), ..aggregator@ }),
        r matches Err(e) ==> spec_filter_conditions(*model, entries@) is None
            && e.is_validation(),
{
    match extract_filter_conditions(model, entries) {
        Ok(f) => Ok(QueryArguments { filter: Some(f), ..aggregator }),
        Err(e) => Err(e),
    }
}

/// Folds a request field's whole argument list, left to right, into the
/// option record: exactly the recognized keys are accepted, a later
/// occurrence of a key silently replaces an earlier one, and the first
/// offending argument stops the fold with a validation error.
pub fn extract_query_args(field: &crate::request::Field, model: &Model) -> (r: Result<QueryArguments, CoreError>)
    ensures
        r matches Ok(qa) ==> spec_extract_args(*model, field.arguments@) == Some(qa@),
        r matches Err(e) ==> spec_extract_args(*model, field.arguments@) is None
            && e.is_validation(),
{
    let mut acc = QueryArguments::default();
    let mut i: usize = 0;
    while i < field.arguments.len()
        invariant
            i <= field.arguments@.len(),
            spec_extract_args(*model, field.arguments@.subrange(0, i as int)) == Some(acc@),
        decreases field.arguments@.len() - i,
    {
        let (k, v) = &field.arguments[i];
        acc = match apply_arg(model, acc, k, v) {
            Ok(qa) => qa,
            Err(e) => {
                proof {
                    lemma_extract_args_prefix_none(*model, field.arguments@, i as int, acc@);
                }
                return Err(e);
            },
        };
        i = i + 1;
        proof {
            assert(field.arguments@.subrange(0, i as int).drop_last() =~= field.arguments@.subrange(0, i as int - 1));
            assert(field.arguments@.subrange(0, i as int).last() == field.arguments@[i as int - 1]);
        }
    }
    proof {
        assert(field.arguments@.subrange(0, field.arguments@.len() as int) =~= field.arguments@);
    }
    Ok(acc)
}

/// A failing argument poisons the whole fold.
proof fn lemma_extract_args_prefix_none(model: Model, args: Seq<(String, Value)>, i: int, acc: QueryArgsView)
    requires
        0 <= i < args.len(),
        spec_extract_args(model, args.subrange(0, i)) == Some(acc),
        spec_apply_arg(model, acc, args[i].0@, args[i].1) is None,
    ensures
        spec_extract_args(model, args) is None,
    decreases args.len(),
{
    if i == args.len() - 1 {
        assert(args.subrange(0, i) =~= args.drop_last());
        assert(args.last() == args[i]);
    } else {
        assert(args.drop_last().subrange(0, i) =~= args.subrange(0, i));
        assert(args.drop_last()[i] == args[i]);
        lemma_extract_args_prefix_none(model, args.drop_last(), i, acc);
    }
}

} // verus!
