use vstd::prelude::*;

verus! {

use vstd::string::StrSliceExecFns;
use crate::json::{JsonValue, JsonVal, spec_obj_lookup, spec_falsy, spec_canon, lemma_view_shape,
    lemma_arr_view, lemma_obj_view, deep_eq};
use crate::model_public::{GrowthBookAttribute, spec_attrs_view, find_value};
use crate::text::{str_eq, spec_eq_ci, str_eq_ci, spec_str_cmp, str_cmp, spec_parse_version,
    spec_cmp_segments, parse_version, cmp_segments};

broadcast use vstd::std_specs::vec::axiom_vec_index_decreases;

/// Whether a regular expression pattern compiles. Stands for what
/// `regex::Regex::new` accepts, which depends on the pattern alone.
pub uninterp spec fn regex_valid(pattern: Seq<char>) -> bool;

/// Whether a regular expression matches somewhere in a text. Stands
/// for what `regex::Regex::is_match` returns, which depends on the
/// pattern and the text alone.
pub uninterp spec fn regex_match(pattern: Seq<char>, text: Seq<char>) -> bool;

/// Relies on regex::Regex::new, which accepts or rejects a pattern by
/// its text alone, and on regex::Regex::is_match, whose result is a
/// function of the pattern and the haystack.
#[verifier::external_body]
fn regex_is_match(pattern: &str, text: &str) -> (r: Option<bool>)
    ensures
        r is Some <==> regex_valid(pattern@),
        r is Some ==> r->Some_0 == regex_match(pattern@, text@),
{
    match regex::Regex::new(pattern) {
        Ok(re) => Some(re.is_match(text)),
        Err(_) => None,
    }
}

/// A document that conditions are evaluated against: either the user's
/// attribute list or one JSON value (an array element, or the shape a
/// prerequisite result is checked as).
pub enum Doc<'a> {
    Attrs(&'a Vec<GrowthBookAttribute>),
    Val(&'a JsonValue),
}

/// The named fields that a document offers to path lookups.
pub open spec fn spec_doc_view(d: Doc) -> Seq<(Seq<char>, JsonVal)> {
    match d {
        Doc::Attrs(a) => spec_attrs_view(a@),
        Doc::Val(v) => match v@ {
            JsonVal::Obj(fs) => fs,
            _ => Seq::empty(),
        },
    }
}

/// Position of the first dot in a path, or -1 when it has none.
pub open spec fn spec_first_dot(s: Seq<char>) -> int
    decreases s.len(),
{
    if s.len() == 0 {
        -1
    } else if s[0] == '.' {
        0
    } else {
        let r = spec_first_dot(s.skip(1));
        if r < 0 {
            -1
        } else {
            r + 1
        }
    }
}

/// The first dot lies in the string, is a dot, and nothing before it is one.
pub proof fn lemma_first_dot_props(s: Seq<char>)
    ensures
        -1 <= spec_first_dot(s) < s.len(),
        spec_first_dot(s) == -1 ==> forall|k: int| 0 <= k < s.len() ==> s[k] != '.',
        spec_first_dot(s) >= 0 ==> s[spec_first_dot(s)] == '.' && forall|k: int|
            0 <= k < spec_first_dot(s) ==> s[k] != '.',
    decreases s.len(),
{
    if s.len() > 0 && s[0] != '.' {
        lemma_first_dot_props(s.skip(1));
        assert forall|k: int| 1 <= k < s.len() implies s[k] == s.skip(1)[k - 1] by {}
    }
}

/// The value a dotted path reaches: the part before the first dot
/// names a field, the rest descends into the object found there. A
/// missing field or a non-object on the way yields nothing.
pub open spec fn spec_lookup_path(doc: Seq<(Seq<char>, JsonVal)>, path: Seq<char>) -> Option<
    JsonVal,
>
    decreases path.len(),
{
    let d = spec_first_dot(path);
    if d < 0 || d >= path.len() {
        spec_obj_lookup(doc, path)
    } else {
        match spec_obj_lookup(doc, path.take(d)) {
            Some(v) => match v {
                JsonVal::Obj(fs) => spec_lookup_path(fs, path.skip(d + 1)),
                _ => None,
            },
            None => None,
        }
    }
}

/// The attribute value a condition entry addresses, with a missing
/// value standing in as null where a bare comparison needs one.
pub open spec fn spec_actual_or_null(a: Option<JsonVal>) -> JsonVal {
    match a {
        Some(v) => v,
        None => JsonVal::Null,
    }
}

/// Whether every key of an object starts with `$`, which makes it an
/// operator object rather than a value to compare against.
pub open spec fn spec_is_operator_obj(fields: Seq<(Seq<char>, JsonVal)>) -> bool {
    forall|k: int|
        0 <= k < fields.len() ==> (#[trigger] fields[k].0).len() > 0 && fields[k].0[0] == '$'
}

/// The type name of a value, as the `$type` operator reports it.
pub open spec fn spec_type_of(a: Option<JsonVal>) -> Seq<char> {
    match a {
        None => seq!['u', 'n', 'd', 'e', 'f', 'i', 'n', 'e', 'd'],
        Some(JsonVal::Null) => seq!['n', 'u', 'l', 'l'],
        Some(JsonVal::Bool(_)) => seq!['b', 'o', 'o', 'l', 'e', 'a', 'n'],
        Some(JsonVal::Num(_)) => seq!['n', 'u', 'm', 'b', 'e', 'r'],
        Some(JsonVal::Str(_)) => seq!['s', 't', 'r', 'i', 'n', 'g'],
        Some(JsonVal::Arr(_)) => seq!['a', 'r', 'r', 'a', 'y'],
        Some(JsonVal::Obj(_)) => seq!['o', 'b', 'j', 'e', 'c', 't'],
    }
}

/// Three-way ordering of an attribute against an operand: numeric for
/// two numbers; for two strings, by version segments when both parse
/// as versions, else lexicographic; nothing for any other pairing.
pub open spec fn spec_compare(a: Option<JsonVal>, b: JsonVal) -> Option<int> {
    match (a, b) {
        (Some(JsonVal::Num(x)), JsonVal::Num(y)) => Some(
            if x < y {
                -1
            } else if x > y {
                1
            } else {
                0
            },
        ),
        (Some(JsonVal::Str(x)), JsonVal::Str(y)) => match (spec_parse_version(x), spec_parse_version(
            y,
        )) {
            (Some(vx), Some(vy)) => Some(spec_cmp_segments(vx, vy)),
            _ => Some(spec_str_cmp(x, y)),
        },
        _ => None,
    }
}

/// Equality up to ASCII case on the canonical text of two scalars;
/// plain equality where either side has no canonical text. Folding
/// is ASCII-only, so non-ASCII letters compare case-sensitively
/// under the case-insensitive set operators.
pub open spec fn spec_ci_eq(a: JsonVal, b: JsonVal) -> bool {
    match (spec_canon(a), spec_canon(b)) {
        (Some(ca), Some(cb)) => spec_eq_ci(ca, cb),
        _ => a == b,
    }
}

/// Whether one value equals another, case-insensitively when asked.
pub open spec fn spec_val_eq(a: JsonVal, b: JsonVal, ci: bool) -> bool {
    if ci {
        spec_ci_eq(a, b)
    } else {
        a == b
    }
}

/// The `$in` test: an array attribute shares an element with the
/// list; any other attribute, or a missing one as null, is an element
/// of the list.
pub open spec fn spec_in_test(a: Option<JsonVal>, items: Seq<JsonVal>, ci: bool) -> bool {
    match a {
        Some(JsonVal::Arr(av)) => exists|i: int, j: int|
            0 <= i < av.len() && 0 <= j < items.len() && spec_val_eq(av[i], items[j], ci),
        _ => exists|j: int|
            0 <= j < items.len() && spec_val_eq(spec_actual_or_null(a), items[j], ci),
    }
}

/// Whether some element of the array equals the given value.
pub open spec fn spec_has_match(av: Seq<JsonVal>, item: JsonVal, ci: bool) -> bool {
    exists|i: int| 0 <= i < av.len() && spec_val_eq(#[trigger] av[i], item, ci)
}

/// The `$all` test: the attribute is an array holding a match for
/// every listed element.
pub open spec fn spec_all_test(a: Option<JsonVal>, items: Seq<JsonVal>, ci: bool) -> bool {
    match a {
        Some(JsonVal::Arr(av)) => forall|j: int|
            0 <= j < items.len() ==> spec_has_match(av, #[trigger] items[j], ci),
        _ => false,
    }
}

/// Whether a condition holds of a document: every entry of the
/// condition object holds; anything but an object holds of nothing.
pub open spec fn spec_eval_condition(doc: Seq<(Seq<char>, JsonVal)>, cond: JsonVal) -> bool
    decreases cond, 0int, 0int,
{
    match cond {
        JsonVal::Obj(fields) => spec_eval_cond_fields(doc, fields),
        _ => false,
    }
}

/// Whether every condition entry holds of the document.
pub open spec fn spec_eval_cond_fields(
    doc: Seq<(Seq<char>, JsonVal)>,
    fields: Seq<(Seq<char>, JsonVal)>,
) -> bool
    decreases fields, 0int, 1int,
{
    if fields.len() == 0 {
        true
    } else {
        spec_eval_cond_entry(doc, fields[0].0, fields[0].1) && spec_eval_cond_fields(
            doc,
            fields.skip(1),
        )
    }
}

/// Whether any condition in the list holds of the document; an empty
/// list holds vacuously.
pub open spec fn spec_eval_or(doc: Seq<(Seq<char>, JsonVal)>, items: Seq<JsonVal>) -> bool
    decreases items, 0int, 0int,
{
    if items.len() == 0 {
        true
    } else if items.len() == 1 {
        spec_eval_condition(doc, items[0])
    } else {
        spec_eval_condition(doc, items[0]) || spec_eval_or(doc, items.skip(1))
    }
}

/// Whether every condition in the list holds of the document.
pub open spec fn spec_eval_and(doc: Seq<(Seq<char>, JsonVal)>, items: Seq<JsonVal>) -> bool
    decreases items, 0int, 0int,
{
    if items.len() == 0 {
        true
    } else {
        spec_eval_condition(doc, items[0]) && spec_eval_and(doc, items.skip(1))
    }
}

/// Whether one condition entry holds: the logical keys combine
/// sub-conditions, and any other key addresses an attribute path.
pub open spec fn spec_eval_cond_entry(
    doc: Seq<(Seq<char>, JsonVal)>,
    key: Seq<char>,
    val: JsonVal,
) -> bool
    decreases val, 2int, 0int,
{
    if key == seq!['$', 'o', 'r'] {
        match val {
            JsonVal::Arr(items) => spec_eval_or(doc, items),
            _ => false,
        }
    } else if key == seq!['$', 'n', 'o', 'r'] {
        match val {
            JsonVal::Arr(items) => !spec_eval_or(doc, items),
            _ => false,
        }
    } else if key == seq!['$', 'a', 'n', 'd'] {
        match val {
            JsonVal::Arr(items) => spec_eval_and(doc, items),
            _ => false,
        }
    } else if key == seq!['$', 'n', 'o', 't'] {
        !spec_eval_condition(doc, val)
    } else {
        spec_eval_condition_value(val, spec_lookup_path(doc, key))
    }
}

/// Whether a condition value accepts an attribute: an operator object
/// applies each of its operators, anything else compares for deep
/// equality, a missing attribute standing in as null.
pub open spec fn spec_eval_condition_value(cond: JsonVal, a: Option<JsonVal>) -> bool
    decreases cond, 1int, 0int,
{
    match cond {
        JsonVal::Obj(fields) => if spec_is_operator_obj(fields) {
            spec_eval_ops(fields, a)
        } else {
            spec_actual_or_null(a) == cond
        },
        _ => spec_actual_or_null(a) == cond,
    }
}

/// Whether every operator in an operator object accepts the attribute.
pub open spec fn spec_eval_ops(fields: Seq<(Seq<char>, JsonVal)>, a: Option<JsonVal>) -> bool
    decreases fields, 0int, 1int,
{
    if fields.len() == 0 {
        true
    } else {
        spec_eval_op(fields[0].0, fields[0].1, a) && spec_eval_ops(fields.skip(1), a)
    }
}

/// Whether the array attribute has an element that the `$elemMatch`
/// operand accepts: an operator object applies its operators to the
/// element, any other operand is a condition on the element's fields.
pub open spec fn spec_elem_match(param: JsonVal, elem: JsonVal) -> bool
    decreases param, 1int, 1int,
{
    match param {
        JsonVal::Obj(fields) => if spec_is_operator_obj(fields) {
            spec_eval_ops(fields, Some(elem))
        } else {
            spec_eval_condition(
                match elem {
                    JsonVal::Obj(efs) => efs,
                    _ => Seq::empty(),
                },
                param,
            )
        },
        _ => false,
    }
}

/// Whether one operator accepts the attribute value. An operator the
/// evaluator does not know accepts nothing.
pub open spec fn spec_eval_op(op: Seq<char>, param: JsonVal, a: Option<JsonVal>) -> bool
    decreases param, 2int, 0int,
{
    let present = a is Some && !(a matches Some(JsonVal::Null));
    if op == seq!['$', 'e', 'x', 'i', 's', 't', 's'] {
        if spec_falsy(param) {
            !present
        } else {
            present
        }
    } else if op == seq!['$', 't', 'y', 'p', 'e'] {
        param matches JsonVal::Str(t) && t == spec_type_of(a)
    } else if op == seq!['$', 'e', 'q'] {
        spec_actual_or_null(a) == param
    } else if op == seq!['$', 'n', 'e'] {
        spec_actual_or_null(a) != param
    } else if op == seq!['$', 'l', 't'] {
        spec_compare(a, param) matches Some(c) && c < 0
    } else if op == seq!['$', 'l', 't', 'e'] {
        spec_compare(a, param) matches Some(c) && c <= 0
    } else if op == seq!['$', 'g', 't'] {
        spec_compare(a, param) matches Some(c) && c > 0
    } else if op == seq!['$', 'g', 't', 'e'] {
        spec_compare(a, param) matches Some(c) && c >= 0
    } else if op == seq!['$', 'i', 'n'] {
        param matches JsonVal::Arr(items) && spec_in_test(a, items, false)
    } else if op == seq!['$', 'n', 'i', 'n'] {
        param matches JsonVal::Arr(items) && !spec_in_test(a, items, false)
    } else if op == seq!['$', 'i', 'n', 'i'] {
        param matches JsonVal::Arr(items) && spec_in_test(a, items, true)
    } else if op == seq!['$', 'n', 'i', 'n', 'i'] {
        param matches JsonVal::Arr(items) && !spec_in_test(a, items, true)
    } else if op == seq!['$', 'a', 'l', 'l'] {
        param matches JsonVal::Arr(items) && spec_all_test(a, items, false)
    } else if op == seq!['$', 'a', 'l', 'l', 'i'] {
        param matches JsonVal::Arr(items) && spec_all_test(a, items, true)
    } else if op == seq!['$', 'e', 'l', 'e', 'm', 'M', 'a', 't', 'c', 'h'] {
        a matches Some(JsonVal::Arr(av)) && exists|i: int|
            0 <= i < av.len() && spec_elem_match(param, #[trigger] av[i])
    } else if op == seq!['$', 's', 'i', 'z', 'e'] {
        a matches Some(JsonVal::Arr(av)) && spec_eval_condition_value(
            param,
            Some(JsonVal::Num(spec_size_num(av.len() as int))),
        )
    } else if op == seq!['$', 'r', 'e', 'g', 'e', 'x'] {
        spec_regex_op(param, a, false, false)
    } else if op == seq!['$', 'n', 'o', 't', 'R', 'e', 'g', 'e', 'x'] {
        spec_regex_op(param, a, false, true)
    } else if op == seq!['$', 'r', 'e', 'g', 'e', 'x', 'i'] {
        spec_regex_op(param, a, true, false)
    } else if op == seq!['$', 'n', 'o', 't', 'R', 'e', 'g', 'e', 'x', 'i'] {
        spec_regex_op(param, a, true, true)
    } else if op == seq!['$', 'v', 'e', 'q'] {
        spec_version_compare(a, param) matches Some(c) && c == 0
    } else if op == seq!['$', 'v', 'n', 'e'] {
        spec_version_compare(a, param) matches Some(c) && c != 0
    } else if op == seq!['$', 'v', 'l', 't'] {
        spec_version_compare(a, param) matches Some(c) && c < 0
    } else if op == seq!['$', 'v', 'l', 't', 'e'] {
        spec_version_compare(a, param) matches Some(c) && c <= 0
    } else if op == seq!['$', 'v', 'g', 't'] {
        spec_version_compare(a, param) matches Some(c) && c > 0
    } else if op == seq!['$', 'v', 'g', 't', 'e'] {
        spec_version_compare(a, param) matches Some(c) && c >= 0
    } else {
        false
    }
}

/// The array length as a fixed-point number, saturated at the widest
/// representable value.
pub open spec fn spec_size_num(len: int) -> int {
    if len * 1000000 <= i64::MAX {
        len * 1000000
    } else {
        i64::MAX as int
    }
}

/// The regular-expression operators: the attribute is a string, the
/// pattern compiles — with `(?i)` in front for the case-insensitive
/// forms — and the match comes out as demanded.
pub open spec fn spec_regex_op(param: JsonVal, a: Option<JsonVal>, ci: bool, negated: bool) -> bool {
    match (param, a) {
        (JsonVal::Str(p), Some(JsonVal::Str(s))) => {
            let pat = if ci {
                seq!['(', '?', 'i', ')'] + p
            } else {
                p
            };
            regex_valid(pat) && (regex_match(pat, s) != negated)
        },
        _ => false,
    }
}

/// Three-way version ordering of a string attribute against a string
/// operand, when both parse as dot-separated versions.
pub open spec fn spec_version_compare(a: Option<JsonVal>, b: JsonVal) -> Option<int> {
    match (a, b) {
        (Some(JsonVal::Str(x)), JsonVal::Str(y)) => match (
            spec_parse_version(x),
            spec_parse_version(y),
        ) {
            (Some(vx), Some(vy)) => Some(spec_cmp_segments(vx, vy)),
            _ => None,
        },
        _ => None,
    }
}

/// The value stored under a plain (undotted) name in a document.
fn lookup_doc<'a>(doc: &Doc<'a>, name: &str) -> (r: Option<&'a JsonValue>)
    ensures
        match spec_obj_lookup(spec_doc_view(*doc), name@) {
            Some(v) => r is Some && r->Some_0@ == v,
            None => r is None,
        },
{
    match doc {
        Doc::Attrs(a) => find_value(a, name),
        Doc::Val(v) => {
            proof {
                lemma_view_shape(v);
            }
            v.get_field(name)
        },
    }
}

/// Position of the first dot in a path string, if any.
#[verifier::loop_isolation(false)]
pub(crate) fn first_dot(s: &str) -> (r: Option<usize>)
    ensures
        match r {
            Some(i) => spec_first_dot(s@) == i,
            None => spec_first_dot(s@) == -1,
        },
{
    proof {
        lemma_first_dot_props(s@);
    }
    let n = s.unicode_len();
    let mut i: usize = 0;
    while i < n
        invariant
            i <= n,
            n == s@.len(),
            forall|k: int| 0 <= k < i ==> s@[k] != '.',
        decreases n - i,
    {
        if s.get_char(i) == '.' {
            return Some(i);
        }
        i += 1;
    }
    None
}

/// The value a dotted path reaches in a document.
#[verifier::loop_isolation(false)]
pub fn get_path<'a>(doc: &Doc<'a>, path: &str) -> (r: Option<&'a JsonValue>)
    ensures
        match spec_lookup_path(spec_doc_view(*doc), path@) {
            Some(v) => r is Some && r->Some_0@ == v,
            None => r is None,
        },
    decreases path@.len(),
{
    proof {
        lemma_first_dot_props(path@);
    }
    match first_dot(path) {
        None => lookup_doc(doc, path),
        Some(d) => {
            let n = path.unicode_len();
            let seg = path.substring_char(0, d);
            proof {
                assert(path@.subrange(0, d as int) =~= path@.take(d as int));
            }
            match lookup_doc(doc, seg) {
                Some(v) => {
                    proof {
                        lemma_view_shape(v);
                    }
                    match v {
                        JsonValue::Obj(_) => {
                            let rest = path.substring_char(d + 1, n);
                            proof {
                                assert(path@.subrange(d as int + 1, n as int) =~= path@.skip(
                                    d as int + 1,
                                ));
                            }
                            get_path(&Doc::Val(v), rest)
                        },
                        _ => None,
                    }
                },
                None => None,
            }
        },
    }
}

/// The model of an optional borrowed value.
pub open spec fn spec_opt_view(a: Option<&JsonValue>) -> Option<JsonVal> {
    match a {
        Some(v) => Some(v@),
        None => None,
    }
}

/// A field list holds of a document exactly when each entry does.
proof fn lemma_cond_fields_forall(doc: Seq<(Seq<char>, JsonVal)>, fields: Seq<(Seq<char>, JsonVal)>)
    ensures
        spec_eval_cond_fields(doc, fields) <==> (forall|k: int|
            0 <= k < fields.len() ==> spec_eval_cond_entry(
                doc,
                (#[trigger] fields[k]).0,
                fields[k].1,
            )),
    decreases fields.len(),
{
    if fields.len() > 0 {
        lemma_cond_fields_forall(doc, fields.skip(1));
        assert(forall|k: int|
            0 <= k < fields.skip(1).len() ==> #[trigger] fields.skip(1)[k] == fields[k + 1]);
        if spec_eval_cond_fields(doc, fields) {
            assert forall|k: int| 0 <= k < fields.len() implies spec_eval_cond_entry(
                doc,
                (#[trigger] fields[k]).0,
                fields[k].1,
            ) by {
                if k > 0 {
                    assert(fields.skip(1)[k - 1] == fields[k]);
                }
            }
        } else {
            if spec_eval_cond_entry(doc, fields[0].0, fields[0].1) {
                let k0 = choose|k: int|
                    0 <= k < fields.skip(1).len() && !spec_eval_cond_entry(
                        doc,
                        (#[trigger] fields.skip(1)[k]).0,
                        fields.skip(1)[k].1,
                    );
                assert(fields.skip(1)[k0] == fields[k0 + 1]);
                assert(!spec_eval_cond_entry(doc, fields[k0 + 1].0, fields[k0 + 1].1));
            }
        }
    }
}

/// An operator object accepts a value exactly when each operator does.
proof fn lemma_ops_forall(fields: Seq<(Seq<char>, JsonVal)>, a: Option<JsonVal>)
    ensures
        spec_eval_ops(fields, a) <==> (forall|k: int|
            0 <= k < fields.len() ==> spec_eval_op((#[trigger] fields[k]).0, fields[k].1, a)),
    decreases fields.len(),
{
    if fields.len() > 0 {
        lemma_ops_forall(fields.skip(1), a);
        assert(forall|k: int|
            0 <= k < fields.skip(1).len() ==> #[trigger] fields.skip(1)[k] == fields[k + 1]);
        if spec_eval_ops(fields, a) {
            assert forall|k: int| 0 <= k < fields.len() implies spec_eval_op(
                (#[trigger] fields[k]).0,
                fields[k].1,
                a,
            ) by {
                if k > 0 {
                    assert(fields.skip(1)[k - 1] == fields[k]);
                }
            }
        } else {
            if spec_eval_op(fields[0].0, fields[0].1, a) {
                let k0 = choose|k: int|
                    0 <= k < fields.skip(1).len() && !spec_eval_op(
                        (#[trigger] fields.skip(1)[k]).0,
                        fields.skip(1)[k].1,
                        a,
                    );
                assert(fields.skip(1)[k0] == fields[k0 + 1]);
                assert(!spec_eval_op(fields[k0 + 1].0, fields[k0 + 1].1, a));
            }
        }
    }
}

/// An `$and` list holds exactly when each listed condition does.
proof fn lemma_and_forall(doc: Seq<(Seq<char>, JsonVal)>, items: Seq<JsonVal>)
    ensures
        spec_eval_and(doc, items) <==> (forall|k: int|
            0 <= k < items.len() ==> spec_eval_condition(doc, #[trigger] items[k])),
    decreases items.len(),
{
    if items.len() > 0 {
        lemma_and_forall(doc, items.skip(1));
        assert(forall|k: int|
            0 <= k < items.skip(1).len() ==> #[trigger] items.skip(1)[k] == items[k + 1]);
        if spec_eval_and(doc, items) {
            assert forall|k: int| 0 <= k < items.len() implies spec_eval_condition(
                doc,
                #[trigger] items[k],
            ) by {
                if k > 0 {
                    assert(items.skip(1)[k - 1] == items[k]);
                }
            }
        } else {
            if spec_eval_condition(doc, items[0]) {
                let k0 = choose|k: int|
                    0 <= k < items.skip(1).len() && !spec_eval_condition(
                        doc,
                        #[trigger] items.skip(1)[k],
                    );
                assert(items.skip(1)[k0] == items[k0 + 1]);
                assert(!spec_eval_condition(doc, items[k0 + 1]));
            }
        }
    }
}

/// A non-empty `$or` list holds exactly when some listed condition does.
proof fn lemma_or_exists(doc: Seq<(Seq<char>, JsonVal)>, items: Seq<JsonVal>)
    ensures
        items.len() > 0 ==> (spec_eval_or(doc, items) <==> (exists|k: int|
            0 <= k < items.len() && spec_eval_condition(doc, #[trigger] items[k]))),
    decreases items.len(),
{
    if items.len() > 1 {
        lemma_or_exists(doc, items.skip(1));
        assert(forall|k: int|
            0 <= k < items.skip(1).len() ==> #[trigger] items.skip(1)[k] == items[k + 1]);
        if spec_eval_or(doc, items) {
            if spec_eval_condition(doc, items[0]) {
            } else {
                let k0 = choose|k: int|
                    0 <= k < items.skip(1).len() && spec_eval_condition(
                        doc,
                        #[trigger] items.skip(1)[k],
                    );
                assert(spec_eval_condition(doc, items[k0 + 1]));
            }
        } else {
            if exists|k: int| 0 <= k < items.len() && spec_eval_condition(doc, #[trigger] items[k]) {
                let k0 = choose|k: int|
                    0 <= k < items.len() && spec_eval_condition(doc, #[trigger] items[k]);
                if k0 > 0 {
                    assert(items.skip(1)[k0 - 1] == items[k0]);
                }
            }
        }
    }
}

/// The type name of a value, as `$type` reports it.
fn type_of(a: Option<&JsonValue>) -> (r: &'static str)
    ensures
        r@ == spec_type_of(spec_opt_view(a)),
{
    proof {
        reveal_strlit("undefined");
        reveal_strlit("null");
        reveal_strlit("boolean");
        reveal_strlit("number");
        reveal_strlit("string");
        reveal_strlit("array");
        reveal_strlit("object");
    }
    match a {
        None => {
            proof {
                assert("undefined"@ =~= seq!['u', 'n', 'd', 'e', 'f', 'i', 'n', 'e', 'd']);
            }
            "undefined"
        },
        Some(v) => {
            proof {
                lemma_view_shape(v);
                assert("null"@ =~= seq!['n', 'u', 'l', 'l']);
                assert("boolean"@ =~= seq!['b', 'o', 'o', 'l', 'e', 'a', 'n']);
                assert("number"@ =~= seq!['n', 'u', 'm', 'b', 'e', 'r']);
                assert("string"@ =~= seq!['s', 't', 'r', 'i', 'n', 'g']);
                assert("array"@ =~= seq!['a', 'r', 'r', 'a', 'y']);
                assert("object"@ =~= seq!['o', 'b', 'j', 'e', 'c', 't']);
            }
            match v {
                JsonValue::Null => "null",
                JsonValue::Bool(_) => "boolean",
                JsonValue::Num(_) => "number",
                JsonValue::Str(_) => "string",
                JsonValue::Arr(_) => "array",
                JsonValue::Obj(_) => "object",
            }
        },
    }
}

/// Whether every key of the object starts with `$`.
#[verifier::loop_isolation(false)]
fn is_operator_obj(fields: &Vec<(String, JsonValue)>) -> (r: bool)
    ensures
        r == spec_is_operator_obj(Seq::new(fields@.len(), |i: int| (fields@[i].0@, fields@[i].1@))),
{
    let ghost model: Seq<(Seq<char>, JsonVal)> = Seq::new(
        fields@.len(),
        |i: int| (fields@[i].0@, fields@[i].1@),
    );
    let mut i: usize = 0;
    while i < fields.len()
        invariant
            i <= fields@.len(),
            model.len() == fields@.len(),
            forall|k: int|
                0 <= k < i ==> (#[trigger] model[k].0).len() > 0 && model[k].0[0] == '$',
        decreases fields@.len() - i,
    {
        let key = fields[i].0.as_str();
        proof {
            assert(model[i as int] == (fields@[i as int].0@, fields@[i as int].1@));
        }
        if key.unicode_len() == 0 {
            proof {
                assert(!((model[i as int].0).len() > 0));
            }
            return false;
        }
        if key.get_char(0) != '$' {
            proof {
                assert(!(model[i as int].0.len() > 0 && model[i as int].0[0] == '$'));
            }
            return false;
        }
        i += 1;
    }
    true
}

/// Three-way ordering of an attribute against an operand, as the
/// plain comparison operators use it.
fn compare_values(a: Option<&JsonValue>, b: &JsonValue) -> (r: Option<i8>)
    ensures
        match spec_compare(spec_opt_view(a), b@) {
            Some(c) => r is Some && r->Some_0 as int == c,
            None => r is None,
        },
{
    proof {
        lemma_view_shape(b);
        if let Some(av) = a {
            lemma_view_shape(av);
        }
    }
    match (a, b) {
        (Some(JsonValue::Num(x)), JsonValue::Num(y)) => Some(
            if *x < *y {
                -1
            } else if *x > *y {
                1
            } else {
                0
            },
        ),
        (Some(JsonValue::Str(x)), JsonValue::Str(y)) => {
            let vx = parse_version(x.as_str());
            let vy = parse_version(y.as_str());
            match (vx, vy) {
                (Some(sx), Some(sy)) => Some(cmp_segments(&sx, &sy)),
                _ => Some(str_cmp(x.as_str(), y.as_str())),
            }
        },
        _ => None,
    }
}

/// Three-way version ordering for the `$v` operators.
fn version_compare(a: Option<&JsonValue>, b: &JsonValue) -> (r: Option<i8>)
    ensures
        match spec_version_compare(spec_opt_view(a), b@) {
            Some(c) => r is Some && r->Some_0 as int == c,
            None => r is None,
        },
{
    proof {
        lemma_view_shape(b);
        if let Some(av) = a {
            lemma_view_shape(av);
        }
    }
    match (a, b) {
        (Some(JsonValue::Str(x)), JsonValue::Str(y)) => {
            let vx = parse_version(x.as_str());
            let vy = parse_version(y.as_str());
            match (vx, vy) {
                (Some(sx), Some(sy)) => Some(cmp_segments(&sx, &sy)),
                _ => None,
            }
        },
        _ => None,
    }
}

/// Whether two values are equal, case-insensitively on canonical
/// scalar text when asked.
fn val_eq(a: &JsonValue, b: &JsonValue, ci: bool) -> (r: bool)
    ensures
        r == spec_val_eq(a@, b@, ci),
{
    if ci {
        let ca = a.to_canon_string();
        let cb = b.to_canon_string();
        match (ca, cb) {
            (Some(sa), Some(sb)) => str_eq_ci(sa.as_str(), sb.as_str()),
            _ => deep_eq(a, b),
        }
    } else {
        deep_eq(a, b)
    }
}

/// The `$in` membership test.
#[verifier::loop_isolation(false)]
fn in_test(a: Option<&JsonValue>, items: &Vec<JsonValue>, ci: bool) -> (r: bool)
    ensures
        r == spec_in_test(
            spec_opt_view(a),
            Seq::new(items@.len(), |i: int| items@[i]@),
            ci,
        ),
{
    let ghost sitems: Seq<JsonVal> = Seq::new(items@.len(), |i: int| items@[i]@);
    proof {
        match a {
            Some(av) => lemma_view_shape(av),
            None => (),
        }
    }
    match a {
        Some(JsonValue::Arr(elems)) => {
            proof {
                lemma_arr_view(a->Some_0);
            }
            let ghost sav = a->Some_0@->Arr_0;
            let mut i: usize = 0;
            while i < elems.len()
                invariant
                    i <= elems@.len(),
                    sav.len() == elems@.len(),
                    forall|k: int| 0 <= k < elems@.len() ==> sav[k] == elems@[k]@,
                    sitems.len() == items@.len(),
                    forall|k: int| 0 <= k < items@.len() ==> sitems[k] == items@[k]@,
                    forall|x: int, y: int|
                        #![trigger sav[x], sitems[y]]
                        0 <= x < i && 0 <= y < sitems.len() ==> !spec_val_eq(sav[x], sitems[y], ci),
                decreases elems@.len() - i,
            {
                let mut j: usize = 0;
                while j < items.len()
                    invariant
                        i < elems@.len(),
                        j <= items@.len(),
                        sav.len() == elems@.len(),
                        forall|k: int| 0 <= k < elems@.len() ==> sav[k] == elems@[k]@,
                        sitems.len() == items@.len(),
                        forall|k: int| 0 <= k < items@.len() ==> sitems[k] == items@[k]@,
                        forall|y: int|
                            0 <= y < j ==> !spec_val_eq(sav[i as int], #[trigger] sitems[y], ci),
                    decreases items@.len() - j,
                {
                    if val_eq(&elems[i], &items[j], ci) {
                        proof {
                            assert(spec_val_eq(sav[i as int], sitems[j as int], ci));
                        }
                        return true;
                    }
                    j += 1;
                }
                i += 1;
            }
            false
        },
        _ => {
            let null_val = JsonValue::Null;
            proof {
                lemma_view_shape(&null_val);
            }
            let actual: &JsonValue = match a {
                Some(v) => v,
                None => &null_val,
            };
            let mut j: usize = 0;
            while j < items.len()
                invariant
                    j <= items@.len(),
                    actual@ == spec_actual_or_null(spec_opt_view(a)),
                    sitems.len() == items@.len(),
                    forall|k: int| 0 <= k < items@.len() ==> sitems[k] == items@[k]@,
                    forall|y: int|
                        0 <= y < j ==> !spec_val_eq(
                            spec_actual_or_null(spec_opt_view(a)),
                            #[trigger] sitems[y],
                            ci,
                        ),
                decreases items@.len() - j,
            {
                if val_eq(actual, &items[j], ci) {
                    proof {
                        assert(spec_val_eq(spec_actual_or_null(spec_opt_view(a)), sitems[j as int], ci));
                    }
                    return true;
                }
                j += 1;
            }
            false
        },
    }
}

/// The `$all` containment test.
#[verifier::loop_isolation(false)]
fn all_test(a: Option<&JsonValue>, items: &Vec<JsonValue>, ci: bool) -> (r: bool)
    ensures
        r == spec_all_test(
            spec_opt_view(a),
            Seq::new(items@.len(), |i: int| items@[i]@),
            ci,
        ),
{
    let ghost sitems: Seq<JsonVal> = Seq::new(items@.len(), |i: int| items@[i]@);
    proof {
        match a {
            Some(av) => lemma_view_shape(av),
            None => (),
        }
    }
    match a {
        Some(JsonValue::Arr(elems)) => {
            proof {
                lemma_arr_view(a->Some_0);
            }
            let ghost sav = a->Some_0@->Arr_0;
            let mut j: usize = 0;
            while j < items.len()
                invariant
                    j <= items@.len(),
                    sav.len() == elems@.len(),
                    forall|k: int| 0 <= k < elems@.len() ==> sav[k] == elems@[k]@,
                    sitems.len() == items@.len(),
                    forall|k: int| 0 <= k < items@.len() ==> sitems[k] == items@[k]@,
                    forall|y: int| 0 <= y < j ==> spec_has_match(sav, #[trigger] sitems[y], ci),
                decreases items@.len() - j,
            {
                let mut i: usize = 0;
                let mut found = false;
                while i < elems.len() && !found
                    invariant
                        j < items@.len(),
                        i <= elems@.len(),
                        sav.len() == elems@.len(),
                        forall|k: int| 0 <= k < elems@.len() ==> sav[k] == elems@[k]@,
                        sitems.len() == items@.len(),
                        forall|k: int| 0 <= k < items@.len() ==> sitems[k] == items@[k]@,
                        found ==> spec_has_match(sav, sitems[j as int], ci),
                        !found ==> forall|x: int|
                            0 <= x < i ==> !spec_val_eq(#[trigger] sav[x], sitems[j as int], ci),
                    decreases elems@.len() - i + (if found { 0int } else { 1int }),
                {
                    if val_eq(&elems[i], &items[j], ci) {
                        proof {
                            assert(spec_val_eq(sav[i as int], sitems[j as int], ci));
                        }
                        found = true;
                    } else {
                        i += 1;
                    }
                }
                if !found {
                    proof {
                        assert(!spec_has_match(sav, sitems[j as int], ci));
                    }
                    return false;
                }
                j += 1;
            }
            true
        },
        _ => false,
    }
}

/// Whether a condition holds of a document: every entry of the
/// condition object must hold; anything but an object holds of nothing.
#[verifier::loop_isolation(false)]
pub fn eval_condition(doc: &Doc, cond: &JsonValue) -> (r: bool)
    ensures
        r == spec_eval_condition(spec_doc_view(*doc), cond@),
    decreases cond, 0int, 0int,
{
    proof {
        lemma_view_shape(cond);
    }
    match cond {
        JsonValue::Obj(fields) => {
            proof {
                lemma_obj_view(cond);
                lemma_cond_fields_forall(spec_doc_view(*doc), cond@->Obj_0);
            }
            let ghost sfields = cond@->Obj_0;
            let mut i: usize = 0;
            while i < fields.len()
                invariant
                    i <= fields@.len(),
                    sfields.len() == fields@.len(),
                    forall|k: int|
                        0 <= k < fields@.len() ==> sfields[k] == (fields@[k].0@, fields@[k].1@),
                    forall|k: int|
                        0 <= k < i ==> spec_eval_cond_entry(
                            spec_doc_view(*doc),
                            (#[trigger] sfields[k]).0,
                            sfields[k].1,
                        ),
                decreases fields@.len() - i,
            {
                if !eval_cond_entry(doc, &fields[i].0, &fields[i].1) {
                    proof {
                        assert(sfields[i as int] == (fields@[i as int].0@, fields@[i as int].1@));
                        assert(!spec_eval_cond_entry(
                            spec_doc_view(*doc),
                            sfields[i as int].0,
                            sfields[i as int].1,
                        ));
                    }
                    return false;
                }
                i += 1;
            }
            true
        },
        _ => false,
    }
}

/// Whether any condition in the list holds of the document; an empty
/// list holds vacuously.
#[verifier::loop_isolation(false)]
fn or_any(doc: &Doc, items: &Vec<JsonValue>) -> (r: bool)
    ensures
        r == spec_eval_or(spec_doc_view(*doc), Seq::new(items@.len(), |i: int| items@[i]@)),
    decreases items, 0int, 0int,
{
    let ghost sitems: Seq<JsonVal> = Seq::new(items@.len(), |i: int| items@[i]@);
    proof {
        lemma_or_exists(spec_doc_view(*doc), sitems);
    }
    if items.len() == 0 {
        return true;
    }
    let mut i: usize = 0;
    while i < items.len()
        invariant
            i <= items@.len(),
            sitems.len() == items@.len(),
            forall|k: int| 0 <= k < i ==> !spec_eval_condition(spec_doc_view(*doc), #[trigger] sitems[k]),
        decreases items@.len() - i,
    {
        if eval_condition(doc, &items[i]) {
            proof {
                assert(spec_eval_condition(spec_doc_view(*doc), sitems[i as int]));
            }
            return true;
        }
        i += 1;
    }
    false
}

/// Whether every condition in the list holds of the document.
#[verifier::loop_isolation(false)]
fn and_all(doc: &Doc, items: &Vec<JsonValue>) -> (r: bool)
    ensures
        r == spec_eval_and(spec_doc_view(*doc), Seq::new(items@.len(), |i: int| items@[i]@)),
    decreases items, 0int, 0int,
{
    let ghost sitems: Seq<JsonVal> = Seq::new(items@.len(), |i: int| items@[i]@);
    proof {
        lemma_and_forall(spec_doc_view(*doc), sitems);
    }
    let mut i: usize = 0;
    while i < items.len()
        invariant
            i <= items@.len(),
            sitems.len() == items@.len(),
            forall|k: int| 0 <= k < i ==> spec_eval_condition(spec_doc_view(*doc), #[trigger] sitems[k]),
        decreases items@.len() - i,
    {
        if !eval_condition(doc, &items[i]) {
            proof {
                assert(!spec_eval_condition(spec_doc_view(*doc), sitems[i as int]));
            }
            return false;
        }
        i += 1;
    }
    true
}

/// Whether every operator of an operator object accepts the value.
#[verifier::loop_isolation(false)]
fn eval_ops_all(fields: &Vec<(String, JsonValue)>, a: Option<&JsonValue>) -> (r: bool)
    ensures
        r == spec_eval_ops(
            Seq::new(fields@.len(), |i: int| (fields@[i].0@, fields@[i].1@)),
            spec_opt_view(a),
        ),
    decreases fields, 0int, 0int,
{
    let ghost sfields: Seq<(Seq<char>, JsonVal)> = Seq::new(
        fields@.len(),
        |i: int| (fields@[i].0@, fields@[i].1@),
    );
    proof {
        lemma_ops_forall(sfields, spec_opt_view(a));
    }
    let mut i: usize = 0;
    while i < fields.len()
        invariant
            i <= fields@.len(),
            sfields.len() == fields@.len(),
            forall|k: int|
                0 <= k < i ==> spec_eval_op(
                    (#[trigger] sfields[k]).0,
                    sfields[k].1,
                    spec_opt_view(a),
                ),
        decreases fields@.len() - i,
    {
        if !eval_op(&fields[i].0, &fields[i].1, a) {
            proof {
                assert(!spec_eval_op(sfields[i as int].0, sfields[i as int].1, spec_opt_view(a)));
            }
            return false;
        }
        i += 1;
    }
    true
}

/// Whether one condition entry holds of the document.
fn eval_cond_entry(doc: &Doc, key: &String, val: &JsonValue) -> (r: bool)
    ensures
        r == spec_eval_cond_entry(spec_doc_view(*doc), key@, val@),
    decreases val, 2int, 0int,
{
    proof {
        reveal_strlit("$or");
        reveal_strlit("$nor");
        reveal_strlit("$and");
        reveal_strlit("$not");
        assert("$or"@ =~= seq!['$', 'o', 'r']);
        assert("$nor"@ =~= seq!['$', 'n', 'o', 'r']);
        assert("$and"@ =~= seq!['$', 'a', 'n', 'd']);
        assert("$not"@ =~= seq!['$', 'n', 'o', 't']);
        lemma_view_shape(val);
    }
    if str_eq(key.as_str(), "$or") {
        match val {
            JsonValue::Arr(items) => {
                proof {
                    lemma_arr_view(val);
                    assert(Seq::new(items@.len(), |i: int| items@[i]@) =~= val@->Arr_0);
                }
                or_any(doc, items)
            },
            _ => false,
        }
    } else if str_eq(key.as_str(), "$nor") {
        match val {
            JsonValue::Arr(items) => {
                proof {
                    lemma_arr_view(val);
                    assert(Seq::new(items@.len(), |i: int| items@[i]@) =~= val@->Arr_0);
                }
                !or_any(doc, items)
            },
            _ => false,
        }
    } else if str_eq(key.as_str(), "$and") {
        match val {
            JsonValue::Arr(items) => {
                proof {
                    lemma_arr_view(val);
                    assert(Seq::new(items@.len(), |i: int| items@[i]@) =~= val@->Arr_0);
                }
                and_all(doc, items)
            },
            _ => false,
        }
    } else if str_eq(key.as_str(), "$not") {
        !eval_condition(doc, val)
    } else {
        let actual = get_path(doc, key.as_str());
        eval_condition_value(val, actual)
    }
}

/// Whether a condition value accepts an attribute value.
fn eval_condition_value(cond: &JsonValue, a: Option<&JsonValue>) -> (r: bool)
    ensures
        r == spec_eval_condition_value(cond@, spec_opt_view(a)),
    decreases cond, 1int, 0int,
{
    proof {
        lemma_view_shape(cond);
    }
    match cond {
        JsonValue::Obj(fields) => {
            proof {
                lemma_obj_view(cond);
                assert(Seq::new(fields@.len(), |i: int| (fields@[i].0@, fields@[i].1@)) =~= cond@->Obj_0);
            }
            if is_operator_obj(fields) {
                eval_ops_all(fields, a)
            } else {
                bare_eq(cond, a)
            }
        },
        _ => bare_eq(cond, a),
    }
}

/// Whether the attribute value, a missing one standing in as null,
/// deep-equals the operand.
fn bare_eq(cond: &JsonValue, a: Option<&JsonValue>) -> (r: bool)
    ensures
        r == (spec_actual_or_null(spec_opt_view(a)) == cond@),
{
    match a {
        Some(v) => deep_eq(v, cond),
        None => {
            let null_val = JsonValue::Null;
            proof {
                lemma_view_shape(&null_val);
            }
            deep_eq(&null_val, cond)
        },
    }
}

/// Whether the array attribute has an element the `$elemMatch`
/// operand accepts.
fn elem_match(param: &JsonValue, elem: &JsonValue) -> (r: bool)
    ensures
        r == spec_elem_match(param@, elem@),
    decreases param, 1int, 1int,
{
    proof {
        lemma_view_shape(param);
    }
    match param {
        JsonValue::Obj(fields) => {
            proof {
                lemma_obj_view(param);
                assert(Seq::new(fields@.len(), |i: int| (fields@[i].0@, fields@[i].1@)) =~= param@->Obj_0);
            }
            if is_operator_obj(fields) {
                eval_ops_all(fields, Some(elem))
            } else {
                eval_condition(&Doc::Val(elem), param)
            }
        },
        _ => false,
    }
}

/// Whether one operator accepts the attribute value.
#[verifier::loop_isolation(false)]
fn eval_op(op: &String, param: &JsonValue, a: Option<&JsonValue>) -> (r: bool)
    ensures
        r == spec_eval_op(op@, param@, spec_opt_view(a)),
    decreases param, 2int, 0int,
{
    proof {
        lemma_view_shape(param);
        match a {
            Some(av) => lemma_view_shape(av),
            None => (),
        }
    }
    let present = match a {
        Some(v) => !matches!(v, JsonValue::Null),
        None => false,
    };
    proof {
        reveal_strlit("$exists");
        assert("$exists"@ =~= seq!['$', 'e', 'x', 'i', 's', 't', 's']);
    }
    if str_eq(op.as_str(), "$exists") {
        return if param.is_falsy() {
            !present
        } else {
            present
        };
    }
    proof {
        reveal_strlit("$type");
        assert("$type"@ =~= seq!['$', 't', 'y', 'p', 'e']);
    }
    if str_eq(op.as_str(), "$type") {
        return match param {
            JsonValue::Str(t) => str_eq(t.as_str(), type_of(a)),
            _ => false,
        };
    }
    proof {
        reveal_strlit("$eq");
        assert("$eq"@ =~= seq!['$', 'e', 'q']);
    }
    if str_eq(op.as_str(), "$eq") {
        return bare_eq(param, a);
    }
    proof {
        reveal_strlit("$ne");
        assert("$ne"@ =~= seq!['$', 'n', 'e']);
    }
    if str_eq(op.as_str(), "$ne") {
        return !bare_eq(param, a);
    }
    proof {
        reveal_strlit("$lt");
        assert("$lt"@ =~= seq!['$', 'l', 't']);
    }
    if str_eq(op.as_str(), "$lt") {
        return match compare_values(a, param) {
            Some(c) => c < 0,
            None => false,
        };
    }
    proof {
        reveal_strlit("$lte");
        assert("$lte"@ =~= seq!['$', 'l', 't', 'e']);
    }
    if str_eq(op.as_str(), "$lte") {
        return match compare_values(a, param) {
            Some(c) => c <= 0,
            None => false,
        };
    }
    proof {
        reveal_strlit("$gt");
        assert("$gt"@ =~= seq!['$', 'g', 't']);
    }
    if str_eq(op.as_str(), "$gt") {
        return match compare_values(a, param) {
            Some(c) => c > 0,
            None => false,
        };
    }
    proof {
        reveal_strlit("$gte");
        assert("$gte"@ =~= seq!['$', 'g', 't', 'e']);
    }
    if str_eq(op.as_str(), "$gte") {
        return match compare_values(a, param) {
            Some(c) => c >= 0,
            None => false,
        };
    }
    proof {
        reveal_strlit("$in");
        assert("$in"@ =~= seq!['$', 'i', 'n']);
    }
    if str_eq(op.as_str(), "$in") {
        return match param {
            JsonValue::Arr(items) => {
                proof {
                    lemma_arr_view(param);
                    assert(Seq::new(items@.len(), |i: int| items@[i]@) =~= param@->Arr_0);
                }
                in_test(a, items, false)
            },
            _ => false,
        };
    }
    proof {
        reveal_strlit("$nin");
        assert("$nin"@ =~= seq!['$', 'n', 'i', 'n']);
    }
    if str_eq(op.as_str(), "$nin") {
        return match param {
            JsonValue::Arr(items) => {
                proof {
                    lemma_arr_view(param);
                    assert(Seq::new(items@.len(), |i: int| items@[i]@) =~= param@->Arr_0);
                }
                !in_test(a, items, false)
            },
            _ => false,
        };
    }
    proof {
        reveal_strlit("$ini");
        assert("$ini"@ =~= seq!['$', 'i', 'n', 'i']);
    }
    if str_eq(op.as_str(), "$ini") {
        return match param {
            JsonValue::Arr(items) => {
                proof {
                    lemma_arr_view(param);
                    assert(Seq::new(items@.len(), |i: int| items@[i]@) =~= param@->Arr_0);
                }
                in_test(a, items, true)
            },
            _ => false,
        };
    }
    proof {
        reveal_strlit("$nini");
        assert("$nini"@ =~= seq!['$', 'n', 'i', 'n', 'i']);
    }
    if str_eq(op.as_str(), "$nini") {
        return match param {
            JsonValue::Arr(items) => {
                proof {
                    lemma_arr_view(param);
                    assert(Seq::new(items@.len(), |i: int| items@[i]@) =~= param@->Arr_0);
                }
                !in_test(a, items, true)
            },
            _ => false,
        };
    }
    proof {
        reveal_strlit("$all");
        assert("$all"@ =~= seq!['$', 'a', 'l', 'l']);
    }
    if str_eq(op.as_str(), "$all") {
        return match param {
            JsonValue::Arr(items) => {
                proof {
                    lemma_arr_view(param);
                    assert(Seq::new(items@.len(), |i: int| items@[i]@) =~= param@->Arr_0);
                }
                all_test(a, items, false)
            },
            _ => false,
        };
    }
    proof {
        reveal_strlit("$alli");
        assert("$alli"@ =~= seq!['$', 'a', 'l', 'l', 'i']);
    }
    if str_eq(op.as_str(), "$alli") {
        return match param {
            JsonValue::Arr(items) => {
                proof {
                    lemma_arr_view(param);
                    assert(Seq::new(items@.len(), |i: int| items@[i]@) =~= param@->Arr_0);
                }
                all_test(a, items, true)
            },
            _ => false,
        };
    }
    proof {
        reveal_strlit("$elemMatch");
        assert("$elemMatch"@ =~= seq!['$', 'e', 'l', 'e', 'm', 'M', 'a', 't', 'c', 'h']);
    }
    if str_eq(op.as_str(), "$elemMatch") {
        return match a {
            Some(JsonValue::Arr(elems)) => {
                proof {
                    lemma_arr_view(a->Some_0);
                }
                let ghost sav = a->Some_0@->Arr_0;
                let mut i: usize = 0;
                let mut r = false;
                while i < elems.len()
                    invariant
                        i <= elems@.len(),
                        sav.len() == elems@.len(),
                        forall|k: int| 0 <= k < elems@.len() ==> sav[k] == elems@[k]@,
                        !r,
                        forall|k: int| 0 <= k < i ==> !spec_elem_match(param@, #[trigger] sav[k]),
                    decreases elems@.len() - i,
                {
                    if elem_match(param, &elems[i]) {
                        proof {
                            assert(spec_elem_match(param@, sav[i as int]));
                        }
                        return true;
                    }
                    i += 1;
                }
                false
            },
            _ => false,
        };
    }
    proof {
        reveal_strlit("$size");
        assert("$size"@ =~= seq!['$', 's', 'i', 'z', 'e']);
    }
    if str_eq(op.as_str(), "$size") {
        return match a {
            Some(JsonValue::Arr(elems)) => {
                proof {
                    lemma_arr_view(a->Some_0);
                }
                let num: i64 = if elems.len() as u64 > 9223372036854u64 {
                    i64::MAX
                } else {
                    (elems.len() as i64) * 1000000
                };
                let size_val = JsonValue::Num(num);
                proof {
                    lemma_view_shape(&size_val);
                    assert(num as int == spec_size_num(a->Some_0@->Arr_0.len() as int));
                }
                eval_condition_value(param, Some(&size_val))
            },
            _ => false,
        };
    }
    proof {
        reveal_strlit("$regex");
        assert("$regex"@ =~= seq!['$', 'r', 'e', 'g', 'e', 'x']);
    }
    if str_eq(op.as_str(), "$regex") {
        return regex_op(param, a, false, false);
    }
    proof {
        reveal_strlit("$notRegex");
        assert("$notRegex"@ =~= seq!['$', 'n', 'o', 't', 'R', 'e', 'g', 'e', 'x']);
    }
    if str_eq(op.as_str(), "$notRegex") {
        return regex_op(param, a, false, true);
    }
    proof {
        reveal_strlit("$regexi");
        assert("$regexi"@ =~= seq!['$', 'r', 'e', 'g', 'e', 'x', 'i']);
    }
    if str_eq(op.as_str(), "$regexi") {
        return regex_op(param, a, true, false);
    }
    proof {
        reveal_strlit("$notRegexi");
        assert("$notRegexi"@ =~= seq!['$', 'n', 'o', 't', 'R', 'e', 'g', 'e', 'x', 'i']);
    }
    if str_eq(op.as_str(), "$notRegexi") {
        return regex_op(param, a, true, true);
    }
    proof {
        reveal_strlit("$veq");
        assert("$veq"@ =~= seq!['$', 'v', 'e', 'q']);
    }
    if str_eq(op.as_str(), "$veq") {
        return match version_compare(a, param) {
            Some(c) => c == 0,
            None => false,
        };
    }
    proof {
        reveal_strlit("$vne");
        assert("$vne"@ =~= seq!['$', 'v', 'n', 'e']);
    }
    if str_eq(op.as_str(), "$vne") {
        return match version_compare(a, param) {
            Some(c) => c != 0,
            None => false,
        };
    }
    proof {
        reveal_strlit("$vlt");
        assert("$vlt"@ =~= seq!['$', 'v', 'l', 't']);
    }
    if str_eq(op.as_str(), "$vlt") {
        return match version_compare(a, param) {
            Some(c) => c < 0,
            None => false,
        };
    }
    proof {
        reveal_strlit("$vlte");
        assert("$vlte"@ =~= seq!['$', 'v', 'l', 't', 'e']);
    }
    if str_eq(op.as_str(), "$vlte") {
        return match version_compare(a, param) {
            Some(c) => c <= 0,
            None => false,
        };
    }
    proof {
        reveal_strlit("$vgt");
        assert("$vgt"@ =~= seq!['$', 'v', 'g', 't']);
    }
    if str_eq(op.as_str(), "$vgt") {
        return match version_compare(a, param) {
            Some(c) => c > 0,
            None => false,
        };
    }
    proof {
        reveal_strlit("$vgte");
        assert("$vgte"@ =~= seq!['$', 'v', 'g', 't', 'e']);
    }
    if str_eq(op.as_str(), "$vgte") {
        return match version_compare(a, param) {
            Some(c) => c >= 0,
            None => false,
        };
    }
    false
}

/// The regular-expression operators on an attribute value.
fn regex_op(param: &JsonValue, a: Option<&JsonValue>, ci: bool, negated: bool) -> (r: bool)
    ensures
        r == spec_regex_op(param@, spec_opt_view(a), ci, negated),
{
    proof {
        lemma_view_shape(param);
        match a {
            Some(av) => lemma_view_shape(av),
            None => (),
        }
    }
    match (param, a) {
        (JsonValue::Str(p), Some(JsonValue::Str(s))) => {
            let outcome = if ci {
                proof {
                    reveal_strlit("(?i)");
                }
                let mut pat = String::from_str("(?i)");
                pat.append(p.as_str());
                proof {
                    assert(pat@ =~= seq!['(', '?', 'i', ')'] + p@);
                }
                regex_is_match(pat.as_str(), s.as_str())
            } else {
                regex_is_match(p.as_str(), s.as_str())
            };
            match outcome {
                Some(m) => m != negated,
                None => false,
            }
        },
        _ => false,
    }
}

/// Whether a condition holds of a user's attribute list.
pub fn eval_condition_attrs(attrs: &Vec<GrowthBookAttribute>, cond: &JsonValue) -> (r: bool)
    ensures
        r == spec_eval_condition(spec_attrs_view(attrs@), cond@),
{
    eval_condition(&Doc::Attrs(attrs), cond)
}

} // verus!
