use vstd::prelude::*;
use vstd::string::StringExecFns;
use vstd::utf8::encode_utf8;

use crate::error::{
    copy_path, errors_view, path_view, ErrorCode, ErrorView, Limit, PathSegment, Received,
    ReceivedView, Step, ValidationError,
};
use crate::message::{decimal, join3, join_count};
use crate::number::Number;
use crate::schema::{
    contains_name, find_key, has_entry, lemma_lookup_first, lookup, names_contain, ArraySchema, NumberSchema, ObjectSchema, Schema,
    StringSchema,
};
use crate::value::{kind_of, Value, ValueKind};

verus! {

broadcast use vstd::std_specs::vec::axiom_vec_index_decreases;

/// The length of a string in UTF-8 bytes (as `str::len` gives it).
pub open spec fn byte_len(s: Seq<char>) -> usize {
    encode_utf8(s).len() as usize
}

pub open spec fn error_at(
    path: Seq<Step>,
    code: ErrorCode,
    message: Seq<char>,
    expected: Option<Limit>,
    received: Option<ReceivedView>,
) -> ErrorView {
    ErrorView { path, code, message, expected, received }
}

pub open spec fn schema_name(s: Schema) -> Seq<char> {
    match s {
        Schema::String(_) => "string"@,
        Schema::Number(_) => "number"@,
        Schema::Boolean => "boolean"@,
        Schema::Object(_) => "object"@,
        Schema::Array(_) => "array"@,
    }
}

pub open spec fn kind_name(k: ValueKind) -> Seq<char> {
    match k {
        ValueKind::Null => "null"@,
        ValueKind::Bool => "boolean"@,
        ValueKind::Number => "number"@,
        ValueKind::String => "string"@,
        ValueKind::Array => "array"@,
        ValueKind::Object => "object"@,
    }
}

/// The one error for a value whose kind the schema does not accept.
pub open spec fn type_error(schema: Schema, value: Value, path: Seq<Step>) -> ErrorView {
    let k = kind_of(value);
    error_at(
        path,
        ErrorCode::InvalidType,
        "Expected "@ + schema_name(schema) + ", received "@ + kind_name(k),
        None,
        Some(ReceivedView::Kind(k)),
    )
}

pub open spec fn string_errors(ss: StringSchema, s: Seq<char>, path: Seq<Step>) -> Seq<ErrorView> {
    let n = byte_len(s);
    let low = match ss.min_length {
        Some(m) => if n < m {
            seq![error_at(path, ErrorCode::MinLength,
                "String must be at least "@ + decimal(m as nat) + " characters"@,
                Some(Limit::Count(m)), Some(ReceivedView::Text(s)))]
        } else {
            seq![]
        },
        None => seq![],
    };
    let high = match ss.max_length {
        Some(m) => if n > m {
            seq![error_at(path, ErrorCode::MaxLength,
                "String must be at most "@ + decimal(m as nat) + " characters"@,
                Some(Limit::Count(m)), Some(ReceivedView::Text(s)))]
        } else {
            seq![]
        },
        None => seq![],
    };
    low + high
}

pub open spec fn number_errors(ns: NumberSchema, x: Number, path: Seq<Step>) -> Seq<ErrorView> {
    let low = match ns.min {
        Some(m) => if x.spec_less(m) {
            seq![error_at(path, ErrorCode::Min, "Number is less than the allowed minimum"@,
                Some(Limit::Number(m)), Some(ReceivedView::Number(x)))]
        } else {
            seq![]
        },
        None => seq![],
    };
    let high = match ns.max {
        Some(m) => if m.spec_less(x) {
            seq![error_at(path, ErrorCode::Max, "Number is greater than the allowed maximum"@,
                Some(Limit::Number(m)), Some(ReceivedView::Number(x)))]
        } else {
            seq![]
        },
        None => seq![],
    };
    low + high
}

pub open spec fn count_errors(a: ArraySchema, n: usize, path: Seq<Step>) -> Seq<ErrorView> {
    let low = match a.min_items {
        Some(m) => if n < m {
            seq![error_at(path, ErrorCode::MinItems,
                "Array must have at least "@ + decimal(m as nat) + " items"@,
                Some(Limit::Count(m)), Some(ReceivedView::Count(n)))]
        } else {
            seq![]
        },
        None => seq![],
    };
    let high = match a.max_items {
        Some(m) => if n > m {
            seq![error_at(path, ErrorCode::MaxItems,
                "Array must have at most "@ + decimal(m as nat) + " items"@,
                Some(Limit::Count(m)), Some(ReceivedView::Count(n)))]
        } else {
            seq![]
        },
        None => seq![],
    };
    low + high
}

pub open spec fn required_error(path: Seq<Step>, k: Seq<char>) -> ErrorView {
    error_at(path.push(Step::Key(k)), ErrorCode::Required,
        "Required property '"@ + k + "' is missing"@, None, None)
}

/// The error for a member that a strict schema does not declare; what was
/// received is summed up by the member value's kind.
pub open spec fn additional_error(path: Seq<Step>, k: Seq<char>, kind: ValueKind) -> ErrorView {
    error_at(path.push(Step::Key(k)), ErrorCode::AdditionalProperty,
        "Additional property '"@ + k + "' is not allowed"@, None,
        Some(ReceivedView::Kind(kind)))
}

/// The errors for the first `n` required keys, one for each distinct name
/// that the object's members lack (the names form a set: a name repeated in
/// the list is reported once).
pub open spec fn required_errors(
    required: Seq<String>,
    members: Seq<(String, Value)>,
    path: Seq<Step>,
    n: nat,
) -> Seq<ErrorView>
    decreases n,
{
    if n == 0 {
        seq![]
    } else {
        let k = required[n - 1]@;
        required_errors(required, members, path, (n - 1) as nat) + if has_entry(members, k)
            || names_contain(required, n - 1, k) {
            seq![]
        } else {
            seq![required_error(path, k)]
        }
    }
}

/// The errors for the first `n` members of an object: a member with a
/// declared property is validated against it; one without is an error
/// when the schema is strict, and accepted as it is otherwise.
pub open spec fn member_errors(
    os: ObjectSchema,
    members: Vec<(String, Value)>,
    path: Seq<Step>,
    n: nat,
) -> Seq<ErrorView>
    decreases members, n,
{
    if n == 0 || n > members@.len() {
        seq![]
    } else {
        let k = members@[n - 1].0@;
        let here = match lookup(os.properties@, k) {
            Some(p) => errors_of(p, members@[n - 1].1, path.push(Step::Key(k))),
            None => if os.additional_properties {
                seq![]
            } else {
                seq![additional_error(path, k, kind_of(members@[n - 1].1))]
            },
        };
        member_errors(os, members, path, (n - 1) as nat) + here
    }
}

/// The errors for the first `n` elements of an array, each validated
/// against `item` at its index.
pub open spec fn item_errors(item: Schema, elems: Vec<Value>, path: Seq<Step>, n: nat) -> Seq<
    ErrorView,
>
    decreases elems, n,
{
    if n == 0 || n > elems@.len() {
        seq![]
    } else {
        item_errors(item, elems, path, (n - 1) as nat) + errors_of(
            item,
            elems@[n - 1],
            path.push(Step::Index((n - 1) as usize)),
        )
    }
}

/// Every violation of `schema` by `value`, in the order the walk finds
/// them, with `path` as the location of `value`.
pub open spec fn errors_of(schema: Schema, value: Value, path: Seq<Step>) -> Seq<ErrorView>
    decreases value,
{
    match value {
        Value::String(s) => match schema {
            Schema::String(ss) => string_errors(ss, s@, path),
            _ => seq![type_error(schema, value, path)],
        },
        Value::Number(x) => match schema {
            Schema::Number(ns) => number_errors(ns, x, path),
            _ => seq![type_error(schema, value, path)],
        },
        Value::Bool(_) => match schema {
            Schema::Boolean => seq![],
            _ => seq![type_error(schema, value, path)],
        },
        Value::Object(members) => match schema {
            Schema::Object(os) => required_errors(
                os.required@,
                members@,
                path,
                os.required@.len(),
            ) + member_errors(os, members, path, members@.len()),
            _ => seq![type_error(schema, value, path)],
        },
        Value::Array(elems) => match schema {
            Schema::Array(a) => count_errors(a, elems.len(), path) + match a.items {
                Some(item) => item_errors(*item, elems, path, elems@.len()),
                None => seq![],
            },
            _ => seq![type_error(schema, value, path)],
        },
        Value::Null => seq![type_error(schema, value, path)],
    }
}

proof fn lemma_path_view_push(s: Seq<PathSegment>, x: PathSegment)
    ensures
        path_view(s.push(x)) == path_view(s).push(x@),
{
    assert(path_view(s.push(x)) =~= path_view(s).push(x@));
}

fn push_error(errors: &mut Vec<ValidationError>, e: ValidationError)
    ensures
        errors_view(final(errors)@) == errors_view(old(errors)@).push(e@),
{
    let ghost e_view = e@;
    errors.push(e);
    assert(errors_view(final(errors)@) =~= errors_view(old(errors)@).push(e_view));
}

fn make_error(
    path: &Vec<PathSegment>,
    code: ErrorCode,
    message: String,
    expected: Option<Limit>,
    received: Option<Received>,
) -> (r: ValidationError)
    ensures
        r@ == error_at(
            path_view(path@),
            code,
            message@,
            expected,
            match received {
                Some(x) => Some(x@),
                None => None,
            },
        ),
{
    ValidationError { path: copy_path(path), code, message, expected, received }
}

fn schema_type_name(schema: &Schema) -> (r: &'static str)
    ensures
        r@ == schema_name(*schema),
{
    match schema {
        Schema::String(_) => "string",
        Schema::Number(_) => "number",
        Schema::Boolean => "boolean",
        Schema::Object(_) => "object",
        Schema::Array(_) => "array",
    }
}

fn value_type_name(k: ValueKind) -> (r: &'static str)
    ensures
        r@ == kind_name(k),
{
    match k {
        ValueKind::Null => "null",
        ValueKind::Bool => "boolean",
        ValueKind::Number => "number",
        ValueKind::String => "string",
        ValueKind::Array => "array",
        ValueKind::Object => "object",
    }
}

fn report_type(
    schema: &Schema,
    value: &Value,
    path: &Vec<PathSegment>,
    errors: &mut Vec<ValidationError>,
)
    ensures
        errors_view(final(errors)@) == errors_view(old(errors)@).push(
            type_error(*schema, *value, path_view(path@)),
        ),
{
    let k = value.kind();
    let mut message = String::from_str("Expected ");
    message.append(schema_type_name(schema));
    message.append(", received ");
    message.append(value_type_name(k));
    let e = make_error(path, ErrorCode::InvalidType, message, None, Some(Received::Kind(k)));
    push_error(errors, e);
}

fn check_string(
    ss: &StringSchema,
    s: &String,
    path: &Vec<PathSegment>,
    errors: &mut Vec<ValidationError>,
)
    ensures
        errors_view(final(errors)@) == errors_view(old(errors)@) + string_errors(
            *ss,
            s@,
            path_view(path@),
        ),
{
    let n = s.as_str().len();
    let ghost pv = path_view(path@);
    let ghost e0 = errors_view(errors@);
    if let Some(m) = ss.min_length {
        if n < m {
            let message = join_count("String must be at least ", m, " characters");
            push_error(
                errors,
                make_error(
                    path,
                    ErrorCode::MinLength,
                    message,
                    Some(Limit::Count(m)),
                    Some(Received::Text(s.clone())),
                ),
            );
        }
    }
    if let Some(m) = ss.max_length {
        if n > m {
            let message = join_count("String must be at most ", m, " characters");
            push_error(
                errors,
                make_error(
                    path,
                    ErrorCode::MaxLength,
                    message,
                    Some(Limit::Count(m)),
                    Some(Received::Text(s.clone())),
                ),
            );
        }
    }
    assert(errors_view(errors@) =~= e0 + string_errors(*ss, s@, pv));
}

fn check_number(
    ns: &NumberSchema,
    x: &Number,
    path: &Vec<PathSegment>,
    errors: &mut Vec<ValidationError>,
)
    ensures
        errors_view(final(errors)@) == errors_view(old(errors)@) + number_errors(
            *ns,
            *x,
            path_view(path@),
        ),
{
    let ghost pv = path_view(path@);
    let ghost e0 = errors_view(errors@);
    if let Some(m) = ns.min {
        if x.less_than(&m) {
            let message = String::from_str("Number is less than the allowed minimum");
            push_error(
                errors,
                make_error(
                    path,
                    ErrorCode::Min,
                    message,
                    Some(Limit::Number(m)),
                    Some(Received::Number(*x)),
                ),
            );
        }
    }
    if let Some(m) = ns.max {
        if m.less_than(x) {
            let message = String::from_str("Number is greater than the allowed maximum");
            push_error(
                errors,
                make_error(
                    path,
                    ErrorCode::Max,
                    message,
                    Some(Limit::Number(m)),
                    Some(Received::Number(*x)),
                ),
            );
        }
    }
    assert(errors_view(errors@) =~= e0 + number_errors(*ns, *x, pv));
}

fn check_count(
    a: &ArraySchema,
    n: usize,
    path: &Vec<PathSegment>,
    errors: &mut Vec<ValidationError>,
)
    ensures
        errors_view(final(errors)@) == errors_view(old(errors)@) + count_errors(
            *a,
            n,
            path_view(path@),
        ),
{
    let ghost pv = path_view(path@);
    let ghost e0 = errors_view(errors@);
    if let Some(m) = a.min_items {
        if n < m {
            let message = join_count("Array must have at least ", m, " items");
            push_error(
                errors,
                make_error(
                    path,
                    ErrorCode::MinItems,
                    message,
                    Some(Limit::Count(m)),
                    Some(Received::Count(n)),
                ),
            );
        }
    }
    if let Some(m) = a.max_items {
        if n > m {
            let message = join_count("Array must have at most ", m, " items");
            push_error(
                errors,
                make_error(
                    path,
                    ErrorCode::MaxItems,
                    message,
                    Some(Limit::Count(m)),
                    Some(Received::Count(n)),
                ),
            );
        }
    }
    assert(errors_view(errors@) =~= e0 + count_errors(*a, n, pv));
}

/// Appends to `errors` every violation of `schema` by `value`, where `path`
/// locates `value`; `path` is pushed and popped around each descent.
fn validate_node(
    schema: &Schema,
    value: &Value,
    path: &mut Vec<PathSegment>,
    errors: &mut Vec<ValidationError>,
)
    ensures
        final(path)@ == old(path)@,
        errors_view(final(errors)@) == errors_view(old(errors)@) + errors_of(
            *schema,
            *value,
            path_view(old(path)@),
        ),
    decreases value,
{
    let ghost pv = path_view(path@);
    let ghost p0 = path@;
    let ghost e0 = errors_view(errors@);
    match value {
        Value::String(s) => match schema {
            Schema::String(ss) => check_string(ss, s, path, errors),
            _ => report_type(schema, value, path, errors),
        },
        Value::Number(x) => match schema {
            Schema::Number(ns) => check_number(ns, x, path, errors),
            _ => report_type(schema, value, path, errors),
        },
        Value::Bool(_) => match schema {
            Schema::Boolean => {
                assert(errors_view(errors@) =~= e0 + errors_of(*schema, *value, pv));
            },
            _ => report_type(schema, value, path, errors),
        },
        Value::Null => report_type(schema, value, path, errors),
        Value::Object(members) => match schema {
            Schema::Object(os) => {
                let mut i: usize = 0;
                while i < os.required.len()
                    invariant
                        i <= os.required@.len(),
                        path@ == p0,
                        pv == path_view(p0),
                        errors_view(errors@) == e0 + required_errors(
                            os.required@,
                            members@,
                            pv,
                            i as nat,
                        ),
                    decreases os.required@.len() - i,
                {
                    let k = &os.required[i];
                    if find_key(members, k).is_none() && !contains_name(&os.required, i, k) {
                        path.push(PathSegment::Key(k.clone()));
                        proof {
                            lemma_path_view_push(p0, path@.last());
                        }
                        let message = join3("Required property '", k.as_str(), "' is missing");
                        let e = make_error(path, ErrorCode::Required, message, None, None);
                        push_error(errors, e);
                        path.pop();
                    }
                    i = i + 1;
                    assert(errors_view(errors@) =~= e0 + required_errors(
                        os.required@,
                        members@,
                        pv,
                        i as nat,
                    ));
                }
                let ghost e1 = errors_view(errors@);
                let mut j: usize = 0;
                while j < members.len()
                    invariant
                        j <= members@.len(),
                        *value == Value::Object(*members),
                        path@ == p0,
                        pv == path_view(p0),
                        e1 == e0 + required_errors(os.required@, members@, pv, os.required@.len()),
                        errors_view(errors@) == e1 + member_errors(*os, *members, pv, j as nat),
                    decreases members@.len() - j,
                {
                    let key = &members[j].0;
                    let val = &members[j].1;
                    path.push(PathSegment::Key(key.clone()));
                    proof {
                        lemma_path_view_push(p0, path@.last());
                    }
                    match find_key(&os.properties, key) {
                        Some(p) => {
                            proof {
                                lemma_lookup_first(os.properties@, key@, p as int);
                                assert(decreases_to!(*value => (*value)->Object_0));
                                assert(decreases_to!(*members => members[j as int]));
                                assert(decreases_to!(members[j as int] => members[j as int].1));
                            }
                            validate_node(&os.properties[p].1, val, path, errors);
                        },
                        None => {
                            if !os.additional_properties {
                                let message = join3(
                                    "Additional property '",
                                    key.as_str(),
                                    "' is not allowed",
                                );
                                push_error(
                                    errors,
                                    make_error(
                                        path,
                                        ErrorCode::AdditionalProperty,
                                        message,
                                        None,
                                        Some(Received::Kind(val.kind())),
                                    ),
                                );
                            }
                        },
                    }
                    path.pop();
                    j = j + 1;
                    assert(errors_view(errors@) =~= e1 + member_errors(
                        *os,
                        *members,
                        pv,
                        j as nat,
                    ));
                }
                assert(errors_view(errors@) =~= e0 + errors_of(*schema, *value, pv));
            },
            _ => report_type(schema, value, path, errors),
        },
        Value::Array(elems) => match schema {
            Schema::Array(a) => {
                check_count(a, elems.len(), path, errors);
                let ghost e1 = errors_view(errors@);
                match &a.items {
                    Some(item) => {
                        let mut i: usize = 0;
                        while i < elems.len()
                            invariant
                                i <= elems@.len(),
                                *value == Value::Array(*elems),
                                path@ == p0,
                                pv == path_view(p0),
                                e1 == e0 + count_errors(*a, elems.len(), pv),
                                errors_view(errors@) == e1 + item_errors(
                                    **item,
                                    *elems,
                                    pv,
                                    i as nat,
                                ),
                            decreases elems@.len() - i,
                        {
                            path.push(PathSegment::Index(i));
                            proof {
                                lemma_path_view_push(p0, path@.last());
                            }
                            proof {
                                assert(decreases_to!(*value => (*value)->Array_0));
                                assert(decreases_to!(*elems => elems[i as int]));
                            }
                            validate_node(item, &elems[i], path, errors);
                            path.pop();
                            i = i + 1;
                            assert(errors_view(errors@) =~= e1 + item_errors(
                                **item,
                                *elems,
                                pv,
                                i as nat,
                            ));
                        }
                    },
                    None => {},
                }
                assert(errors_view(errors@) =~= e0 + errors_of(*schema, *value, pv));
            },
            _ => report_type(schema, value, path, errors),
        },
    }
}

/// Validates `value` against `schema`: success when nothing is violated,
/// and otherwise every violation, in the order of a depth-first walk.
pub fn validate(schema: &Schema, value: &Value) -> (r: Result<(), Vec<ValidationError>>)
    ensures
        validation_outcome(*schema, *value, r),
{
    let mut errors: Vec<ValidationError> = Vec::new();
    let mut path: Vec<PathSegment> = Vec::new();
    proof {
        assert(errors_view(errors@) =~= Seq::<ErrorView>::empty());
        assert(path_view(path@) =~= Seq::<Step>::empty());
    }
    validate_node(schema, value, &mut path, &mut errors);
    proof {
        assert(errors_view(errors@) =~= errors_of(*schema, *value, seq![]));
    }
    if errors.len() == 0 {
        Ok(())
    } else {
        Err(errors)
    }
}

/// What `validate` returns for `schema` and `value`: success exactly when
/// the walk finds no violation, and otherwise the non-empty list of them.
pub open spec fn validation_outcome(
    schema: Schema,
    value: Value,
    r: Result<(), Vec<ValidationError>>,
) -> bool {
    let found = errors_of(schema, value, seq![]);
    match r {
        Ok(_) => found.len() == 0,
        Err(e) => found.len() > 0 && e@.len() > 0 && errors_view(e@) == found,
    }
}

} // verus!
