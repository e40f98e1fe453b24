use vstd::prelude::*;

use crate::error::{errors_view, ErrorCode, ErrorView, Step, ValidationError};
use crate::schema::{has_entry, lookup, names_contain, ObjectSchema, Schema};
use crate::validate::{
    additional_error, count_errors, errors_of, item_errors, member_errors, required_error,
    required_errors, type_error, validation_outcome,
};
use crate::value::{kind_of, well_formed, Value, ValueKind};

verus! {

/// The kind of value that a schema accepts.
pub open spec fn accepted_kind(schema: Schema) -> ValueKind {
    match schema {
        Schema::String(_) => ValueKind::String,
        Schema::Number(_) => ValueKind::Number,
        Schema::Boolean => ValueKind::Bool,
        Schema::Object(_) => ValueKind::Object,
        Schema::Array(_) => ValueKind::Array,
    }
}

/// Validation keeps no state: two validations of the same schema and value
/// agree on success, and on failure report the same errors in the same order.
pub proof fn validation_is_deterministic(
    schema: Schema,
    value: Value,
    r1: Result<(), Vec<ValidationError>>,
    r2: Result<(), Vec<ValidationError>>,
)
    requires
        validation_outcome(schema, value, r1),
        validation_outcome(schema, value, r2),
    ensures
        r1 is Ok <==> r2 is Ok,
        r1 is Err ==> errors_view(r1->Err_0@) == errors_view(r2->Err_0@),
{
}

/// Once a value has passed a schema, validating it again passes too.
pub proof fn success_is_stable(
    schema: Schema,
    value: Value,
    r1: Result<(), Vec<ValidationError>>,
    r2: Result<(), Vec<ValidationError>>,
)
    requires
        validation_outcome(schema, value, r1),
        r1 is Ok,
        validation_outcome(schema, value, r2),
    ensures
        r2 is Ok,
{
}

/// A value of a kind that the schema does not accept gives exactly one
/// error, an `InvalidType` at the value's own path, and nothing inside it
/// is looked at.
pub proof fn mismatch_gives_one_error(schema: Schema, value: Value, path: Seq<Step>)
    requires
        kind_of(value) != accepted_kind(schema),
    ensures
        errors_of(schema, value, path) == seq![type_error(schema, value, path)],
        errors_of(schema, value, path)[0].code == ErrorCode::InvalidType,
        errors_of(schema, value, path)[0].path == path,
{
}

/// Required keys are checked exhaustively: when an object has none of the
/// first `n` required names, and those names are distinct, there is one
/// `Required` error for each of them, in the order they were declared, each
/// located at its key.
pub proof fn each_missing_key_reported(
    required: Seq<String>,
    members: Seq<(String, Value)>,
    path: Seq<Step>,
    n: nat,
)
    requires
        n <= required.len(),
        forall|i: int| 0 <= i < n ==> !has_entry(members, (#[trigger] required[i])@),
        forall|i: int, j: int| 0 <= i < j < n ==> (#[trigger] required[i])@ != (#[trigger] required[j])@,
    ensures
        required_errors(required, members, path, n).len() == n,
        forall|i: int|
            0 <= i < n ==> #[trigger] required_errors(required, members, path, n)[i]
                == required_error(path, required[i]@),
    decreases n,
{
    if n > 0 {
        each_missing_key_reported(required, members, path, (n - 1) as nat);
        assert(!has_entry(members, required[n - 1]@));
        assert(!names_contain(required, n - 1, required[n - 1]@));
    }
}

/// A name required twice is still reported once: the required names act as
/// a set.
pub proof fn repeated_required_name_reported_once(
    required: Seq<String>,
    members: Seq<(String, Value)>,
    path: Seq<Step>,
    n: nat,
)
    requires
        0 < n <= required.len(),
        names_contain(required, n - 1, required[n - 1]@),
    ensures
        required_errors(required, members, path, n) == required_errors(
            required,
            members,
            path,
            (n - 1) as nat,
        ),
{
    assert(required_errors(required, members, path, n) =~= required_errors(
        required,
        members,
        path,
        (n - 1) as nat,
    ));
}

/// On a well-formed object (no key twice) and a strict schema that
/// declares no properties, the member pass reports every member once, in
/// the object's order, each at its own key, so no two errors share a path.
pub proof fn strict_reports_each_key_once(
    os: ObjectSchema,
    members: Vec<(String, Value)>,
    path: Seq<Step>,
    n: nat,
)
    requires
        os.properties@.len() == 0,
        !os.additional_properties,
        well_formed(Value::Object(members)),
        n <= members@.len(),
    ensures
        member_errors(os, members, path, n).len() == n,
        forall|i: int|
            0 <= i < n ==> #[trigger] member_errors(os, members, path, n)[i] == additional_error(
                path,
                members@[i].0@,
                kind_of(members@[i].1),
            ),
        forall|i: int, j: int|
            0 <= i < j < n ==> (#[trigger] member_errors(os, members, path, n)[i]).path
                != (#[trigger] member_errors(os, members, path, n)[j]).path,
    decreases n,
{
    if n > 0 {
        strict_reports_each_key_once(os, members, path, (n - 1) as nat);
        assert(lookup(os.properties@, members@[n - 1].0@) is None);
    }
    let e = member_errors(os, members, path, n);
    assert forall|i: int, j: int| 0 <= i < j < n implies (#[trigger] e[i]).path
        != (#[trigger] e[j]).path by {
        assert(e[i].path[path.len() as int] == Step::Key(members@[i].0@));
        assert(e[j].path[path.len() as int] == Step::Key(members@[j].0@));
        assert(members@[i].0@ != members@[j].0@);
    }
}

/// `p` begins with the steps of `q`.
pub open spec fn starts_with(p: Seq<Step>, q: Seq<Step>) -> bool {
    q.len() <= p.len() && forall|j: int| 0 <= j < q.len() ==> p[j] == q[j]
}

/// Every error of `errs` lies at or below `path`.
pub open spec fn located_under(errs: Seq<ErrorView>, path: Seq<Step>) -> bool {
    forall|i: int| 0 <= i < errs.len() ==> starts_with(#[trigger] errs[i].path, path)
}

proof fn lemma_located_concat(a: Seq<ErrorView>, b: Seq<ErrorView>, path: Seq<Step>)
    requires
        located_under(a, path),
        located_under(b, path),
    ensures
        located_under(a + b, path),
{
    assert forall|i: int| 0 <= i < (a + b).len() implies
        starts_with(#[trigger] (a + b)[i].path, path) by {
        if i < a.len() {
            assert((a + b)[i] == a[i]);
        } else {
            assert((a + b)[i] == b[i - a.len()]);
        }
    }
}

proof fn lemma_located_deeper(errs: Seq<ErrorView>, path: Seq<Step>, s: Step)
    requires
        located_under(errs, path.push(s)),
    ensures
        located_under(errs, path),
{
    assert forall|i: int| 0 <= i < errs.len() implies
        starts_with(#[trigger] errs[i].path, path) by {
        assert(starts_with(errs[i].path, path.push(s)));
        assert forall|j: int| 0 <= j < path.len() implies errs[i].path[j] == path[j] by {
            assert(path.push(s)[j] == path[j]);
        }
    }
}

proof fn lemma_required_located(
    required: Seq<String>,
    members: Seq<(String, Value)>,
    path: Seq<Step>,
    n: nat,
)
    ensures
        located_under(required_errors(required, members, path, n), path),
    decreases n,
{
    if n > 0 {
        lemma_required_located(required, members, path, (n - 1) as nat);
        let k = required[n - 1]@;
        let one: Seq<ErrorView> = if has_entry(members, k) || names_contain(
            required,
            n - 1,
            k,
        ) {
            seq![]
        } else {
            seq![required_error(path, k)]
        };
        assert(located_under(one, path.push(Step::Key(k)))) by {
            if !(has_entry(members, k) || names_contain(required, n - 1, k)) {
                assert(one[0].path == path.push(Step::Key(k)));
            }
        }
        lemma_located_deeper(one, path, Step::Key(k));
        lemma_located_concat(required_errors(required, members, path, (n - 1) as nat), one, path);
    }
}

proof fn lemma_members_located(
    os: ObjectSchema,
    members: Vec<(String, Value)>,
    path: Seq<Step>,
    n: nat,
)
    ensures
        located_under(member_errors(os, members, path, n), path),
    decreases members, n,
{
    if n != 0 && n <= members@.len() {
        lemma_members_located(os, members, path, (n - 1) as nat);
        let k = members@[n - 1].0@;
        let here = path.push(Step::Key(k));
        match lookup(os.properties@, k) {
            Some(p) => {
                assert(decreases_to!(members => members[n - 1]));
                errors_located_under(p, members@[n - 1].1, here);
                lemma_located_deeper(errors_of(p, members@[n - 1].1, here), path, Step::Key(k));
                lemma_located_concat(
                    member_errors(os, members, path, (n - 1) as nat),
                    errors_of(p, members@[n - 1].1, here),
                    path,
                );
            },
            None => {
                let one: Seq<ErrorView> = if os.additional_properties {
                    seq![]
                } else {
                    seq![additional_error(path, k, kind_of(members@[n - 1].1))]
                };
                assert(located_under(one, here)) by {
                    if !os.additional_properties {
                        assert(one[0].path == here);
                    }
                }
                lemma_located_deeper(one, path, Step::Key(k));
                lemma_located_concat(member_errors(os, members, path, (n - 1) as nat), one, path);
            },
        }
    }
}

proof fn lemma_items_located(item: Schema, elems: Vec<Value>, path: Seq<Step>, n: nat)
    ensures
        located_under(item_errors(item, elems, path, n), path),
    decreases elems, n,
{
    if n != 0 && n <= elems@.len() {
        lemma_items_located(item, elems, path, (n - 1) as nat);
        let s = Step::Index((n - 1) as usize);
        assert(decreases_to!(elems => elems[n - 1]));
        errors_located_under(item, elems@[n - 1], path.push(s));
        lemma_located_deeper(errors_of(item, elems@[n - 1], path.push(s)), path, s);
        lemma_located_concat(
            item_errors(item, elems, path, (n - 1) as nat),
            errors_of(item, elems@[n - 1], path.push(s)),
            path,
        );
    }
}

/// Every error is located inside the value it was found in: its path
/// begins with the path of that value, so an error inside an array element
/// or an object member carries that element's index or that member's key.
pub proof fn errors_located_under(schema: Schema, value: Value, path: Seq<Step>)
    ensures
        located_under(errors_of(schema, value, path), path),
    decreases value,
{
    match value {
        Value::Object(members) => match schema {
            Schema::Object(os) => {
                lemma_required_located(os.required@, members@, path, os.required@.len());
                lemma_members_located(os, members, path, members@.len());
                lemma_located_concat(
                    required_errors(os.required@, members@, path, os.required@.len()),
                    member_errors(os, members, path, members@.len()),
                    path,
                );
            },
            _ => {},
        },
        Value::Array(elems) => match schema {
            Schema::Array(a) => {
                match a.items {
                    Some(item) => {
                        lemma_items_located(*item, elems, path, elems@.len());
                        lemma_located_concat(
                            count_errors(a, elems.len(), path),
                            item_errors(*item, elems, path, elems@.len()),
                            path,
                        );
                    },
                    None => {},
                }
            },
            _ => {},
        },
        _ => {},
    }
}

} // verus!
