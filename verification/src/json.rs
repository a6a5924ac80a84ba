use vstd::prelude::*;

verus! {

broadcast use vstd::std_specs::vec::axiom_vec_index_decreases;

use crate::text::{str_eq, spec_dec_nat, spec_digit_char, append_dec_u64};
use vstd::string::StringExecFns;
use vstd::string::StrSliceExecFns;

/// Number of fixed-point units in one whole JSON number.
/// All JSON numbers in this library are decimal fixed-point values
/// scaled by this factor (one unit is a millionth).
pub const MICROS_PER_UNIT: i64 = 1000000;

/// Mathematical model of a JSON document. Numbers are fixed-point
/// integers counted in millionths; objects are ordered key/value lists.
pub enum JsonVal {
    Null,
    Bool(bool),
    Num(int),
    Str(Seq<char>),
    Arr(Seq<JsonVal>),
    Obj(Seq<(Seq<char>, JsonVal)>),
}

/// A JSON document. Numbers are decimal fixed-point values in
/// millionths of a unit, so `1.5` is stored as `1500000`.
/// Objects keep their fields in insertion order.
#[derive(Debug)]
pub enum JsonValue {
    Null,
    Bool(bool),
    Num(i64),
    Str(String),
    Arr(Vec<JsonValue>),
    Obj(Vec<(String, JsonValue)>),
}

impl View for JsonValue {
    type V = JsonVal;

    open spec fn view(&self) -> JsonVal
        decreases self,
    {
        match self {
            JsonValue::Null => JsonVal::Null,
            JsonValue::Bool(b) => JsonVal::Bool(*b),
            JsonValue::Num(m) => JsonVal::Num(*m as int),
            JsonValue::Str(s) => JsonVal::Str(s@),
            JsonValue::Arr(items) => JsonVal::Arr(
                Seq::new(
                    items@.len(),
                    |i: int|
                        if 0 <= i < items@.len() {
                            items@[i].view()
                        } else {
                            JsonVal::Null
                        },
                ),
            ),
            JsonValue::Obj(fields) => JsonVal::Obj(
                Seq::new(
                    fields@.len(),
                    |i: int|
                        if 0 <= i < fields@.len() {
                            (fields@[i].0@, fields@[i].1.view())
                        } else {
                            (Seq::<char>::empty(), JsonVal::Null)
                        },
                ),
            ),
        }
    }
}

/// A value is falsy when it is null, false, zero or the empty string.
pub open spec fn spec_falsy(v: JsonVal) -> bool {
    match v {
        JsonVal::Null => true,
        JsonVal::Bool(b) => !b,
        JsonVal::Num(m) => m == 0,
        JsonVal::Str(s) => s.len() == 0,
        _ => false,
    }
}

/// Unfolds the view of an array value: the model has one element for
/// each element of the vector, in order.
pub proof fn lemma_arr_view(v: &JsonValue)
    requires
        v is Arr,
    ensures
        v@ is Arr,
        v@->Arr_0.len() == v->Arr_0@.len(),
        forall|k: int| 0 <= k < v->Arr_0@.len() ==> v@->Arr_0[k] == v->Arr_0@[k]@,
{
    reveal_with_fuel(<JsonValue as View>::view, 2);
}

/// Unfolds the view of an object value: the model has one field for
/// each field of the vector, in order.
pub proof fn lemma_obj_view(v: &JsonValue)
    requires
        v is Obj,
    ensures
        v@ is Obj,
        v@->Obj_0.len() == v->Obj_0@.len(),
        forall|k: int|
            0 <= k < v->Obj_0@.len() ==> v@->Obj_0[k] == (v->Obj_0@[k].0@, v->Obj_0@[k].1@),
{
    reveal_with_fuel(<JsonValue as View>::view, 2);
}

/// The model of a value has the same shape as the value itself, and
/// scalar payloads carry over unchanged.
pub proof fn lemma_view_shape(v: &JsonValue)
    ensures
        v@ is Null <==> v is Null,
        v@ is Bool <==> v is Bool,
        v@ is Num <==> v is Num,
        v@ is Str <==> v is Str,
        v@ is Arr <==> v is Arr,
        v@ is Obj <==> v is Obj,
        v is Bool ==> v@ == JsonVal::Bool(v->Bool_0),
        v is Num ==> v@ == JsonVal::Num(v->Num_0 as int),
        v is Str ==> v@ == JsonVal::Str(v->Str_0@),
{
    reveal_with_fuel(<JsonValue as View>::view, 2);
}

/// First value stored under `key` in an ordered field list, if any.
pub open spec fn spec_obj_lookup(fields: Seq<(Seq<char>, JsonVal)>, key: Seq<char>) -> Option<
    JsonVal,
>
    decreases fields.len(),
{
    if fields.len() == 0 {
        None
    } else if fields[0].0 == key {
        Some(fields[0].1)
    } else {
        spec_obj_lookup(fields.skip(1), key)
    }
}

/// Deep structural equality of two JSON documents.
#[verifier::loop_isolation(false)]
pub fn deep_eq(a: &JsonValue, b: &JsonValue) -> (r: bool)
    ensures
        r == (a@ == b@),
    decreases a,
{
    proof {
        lemma_view_shape(a);
        lemma_view_shape(b);
    }
    match (a, b) {
        (JsonValue::Null, JsonValue::Null) => true,
        (JsonValue::Bool(x), JsonValue::Bool(y)) => x == y,
        (JsonValue::Num(x), JsonValue::Num(y)) => x == y,
        (JsonValue::Str(x), JsonValue::Str(y)) => str_eq(x.as_str(), y.as_str()),
        (JsonValue::Arr(x), JsonValue::Arr(y)) => {
            proof {
                lemma_arr_view(a);
                lemma_arr_view(b);
            }
            if x.len() != y.len() {
                return false;
            }
            let ghost sa = a@->Arr_0;
            let ghost sb = b@->Arr_0;
            let mut i: usize = 0;
            while i < x.len()
                invariant
                    i <= x.len(),
                    x.len() == y.len(),
                    a@ == JsonVal::Arr(sa),
                    b@ == JsonVal::Arr(sb),
                    sa.len() == x.len(),
                    sb.len() == y.len(),
                    forall|k: int| 0 <= k < i ==> sa[k] == sb[k],
                    forall|k: int| 0 <= k < x.len() ==> sa[k] == x@[k]@,
                    forall|k: int| 0 <= k < y.len() ==> sb[k] == y@[k]@,
                decreases x.len() - i,
            {
                if !deep_eq(&x[i], &y[i]) {
                    proof {
                        assert(sa[i as int] != sb[i as int]);
                    }
                    return false;
                }
                i += 1;
            }
            proof {
                assert(sa =~= sb);
            }
            true
        },
        (JsonValue::Obj(x), JsonValue::Obj(y)) => {
            proof {
                lemma_obj_view(a);
                lemma_obj_view(b);
            }
            if x.len() != y.len() {
                return false;
            }
            let ghost sa = a@->Obj_0;
            let ghost sb = b@->Obj_0;
            let mut i: usize = 0;
            while i < x.len()
                invariant
                    i <= x.len(),
                    x.len() == y.len(),
                    a@ == JsonVal::Obj(sa),
                    b@ == JsonVal::Obj(sb),
                    sa.len() == x.len(),
                    sb.len() == y.len(),
                    forall|k: int| 0 <= k < i ==> sa[k] == sb[k],
                    forall|k: int| 0 <= k < x.len() ==> sa[k] == (x@[k].0@, x@[k].1@),
                    forall|k: int| 0 <= k < y.len() ==> sb[k] == (y@[k].0@, y@[k].1@),
                decreases x.len() - i,
            {
                if !(x[i].0 == y[i].0) {
                    proof {
                        assert(sa[i as int] != sb[i as int]);
                    }
                    return false;
                }
                if !deep_eq(&x[i].1, &y[i].1) {
                    proof {
                        assert(sa[i as int] != sb[i as int]);
                    }
                    return false;
                }
                i += 1;
            }
            proof {
                assert(sa =~= sb);
            }
            true
        },
        _ => false,
    }
}

/// Pads a digit string with leading zeros to six places.
pub open spec fn spec_pad6(s: Seq<char>) -> Seq<char> {
    if s.len() <= 6 {
        Seq::new((6 - s.len()) as nat, |i: int| '0') + s
    } else {
        s
    }
}

/// Drops trailing zero characters.
pub open spec fn spec_trim_zeros(s: Seq<char>) -> Seq<char>
    decreases s.len(),
{
    if s.len() > 0 && s.last() == '0' {
        spec_trim_zeros(s.drop_last())
    } else {
        s
    }
}

/// Canonical text of a fixed-point number: the whole part in decimal,
/// then the fraction with trailing zeros dropped, and no fraction at
/// all for a whole number.
pub open spec fn spec_canon_num(m: int) -> Seq<char> {
    let a = if m < 0 {
        -m
    } else {
        m
    };
    let sign: Seq<char> = if m < 0 {
        seq!['-']
    } else {
        Seq::empty()
    };
    let whole = spec_dec_nat((a / (MICROS_PER_UNIT as int)) as nat);
    let frac = a % (MICROS_PER_UNIT as int);
    if frac == 0 {
        sign + whole
    } else {
        sign + whole + seq!['.'] + spec_trim_zeros(spec_pad6(spec_dec_nat(frac as nat)))
    }
}

/// Canonical text of a scalar value, as it is fed to the hasher and
/// to the sticky-bucket store: strings stand as they are, numbers in
/// canonical decimal, booleans as `true` or `false`. Null, arrays and
/// objects have no canonical text and make their attribute unusable
/// for hashing.
pub open spec fn spec_canon(v: JsonVal) -> Option<Seq<char>> {
    match v {
        JsonVal::Str(s) => Some(s),
        JsonVal::Num(m) => Some(spec_canon_num(m)),
        JsonVal::Bool(b) => Some(
            if b {
                seq!['t', 'r', 'u', 'e']
            } else {
                seq!['f', 'a', 'l', 's', 'e']
            },
        ),
        _ => None,
    }
}

/// The number of digits in the decimal form of a number under a million.
proof fn lemma_dec_len6(n: nat)
    requires
        n < 1000000,
    ensures
        n < 10 ==> spec_dec_nat(n).len() == 1,
        10 <= n < 100 ==> spec_dec_nat(n).len() == 2,
        100 <= n < 1000 ==> spec_dec_nat(n).len() == 3,
        1000 <= n < 10000 ==> spec_dec_nat(n).len() == 4,
        10000 <= n < 100000 ==> spec_dec_nat(n).len() == 5,
        100000 <= n < 1000000 ==> spec_dec_nat(n).len() == 6,
    decreases n,
{
    if n >= 10 {
        lemma_dec_len6(n / 10);
    }
}

/// The fractional digits of a fixed-point number: six places padded
/// with leading zeros, trailing zeros dropped.
#[verifier::loop_isolation(false)]
fn frac_string(frac: u64) -> (r: String)
    requires
        0 < frac < 1000000,
    ensures
        r@ == spec_trim_zeros(spec_pad6(spec_dec_nat(frac as nat))),
{
    proof {
        reveal_strlit("0");
        lemma_dec_len6(frac as nat);
    }
    let mut fs = String::new();
    if frac < 100000 {
        fs.append("0");
    }
    if frac < 10000 {
        fs.append("0");
    }
    if frac < 1000 {
        fs.append("0");
    }
    if frac < 100 {
        fs.append("0");
    }
    if frac < 10 {
        fs.append("0");
    }
    append_dec_u64(&mut fs, frac);
    proof {
        assert(fs@ =~= spec_pad6(spec_dec_nat(frac as nat)));
    }
    let ghost orig = fs@;
    let mut ln = fs.unicode_len();
    while ln > 0 && fs.get_char(ln - 1) == '0'
        invariant
            ln == fs@.len(),
            spec_trim_zeros(fs@) == spec_trim_zeros(orig),
        decreases ln,
    {
        let shorter = fs.substring_char(0, ln - 1);
        proof {
            assert(fs@.subrange(0, ln - 1) =~= fs@.drop_last());
        }
        fs = String::from_str(shorter);
        ln = ln - 1;
    }
    fs
}

/// Canonical decimal text of a fixed-point number.
fn canon_num_string(m: i64) -> (r: String)
    ensures
        r@ == spec_canon_num(m as int),
{
    let a: u64 = if m < 0 {
        if m == i64::MIN {
            9223372036854775808u64
        } else {
            (-m) as u64
        }
    } else {
        m as u64
    };
    let whole: u64 = a / 1000000;
    let frac: u64 = a % 1000000;
    let mut s = String::new();
    if m < 0 {
        proof {
            reveal_strlit("-");
        }
        s.append("-");
        proof {
            assert(s@ =~= seq!['-']);
        }
    }
    append_dec_u64(&mut s, whole);
    if frac > 0 {
        proof {
            reveal_strlit(".");
        }
        s.append(".");
        let f = frac_string(frac);
        s.append(f.as_str());
    }
    proof {
        assert(s@ =~= spec_canon_num(m as int));
    }
    s
}

impl JsonValue {
    /// First field of an object stored under `name`, if this is an
    /// object that has one.
    #[verifier::loop_isolation(false)]
    pub fn get_field(&self, name: &str) -> (r: Option<&JsonValue>)
        ensures
            match self@ {
                JsonVal::Obj(fields) => match spec_obj_lookup(fields, name@) {
                    Some(v) => r is Some && r->Some_0@ == v,
                    None => r is None,
                },
                _ => r is None,
            },
    {
        match self {
            JsonValue::Obj(fields) => {
                proof {
                    lemma_obj_view(self);
                }
                let ghost sfields = self@->Obj_0;
                proof {
                    assert(sfields.skip(0) =~= sfields);
                }
                let mut i: usize = 0;
                while i < fields.len()
                    invariant
                        i <= fields.len(),
                        self@ == JsonVal::Obj(sfields),
                        sfields.len() == fields.len(),
                        forall|k: int|
                            0 <= k < fields.len() ==> sfields[k] == (
                            fields@[k].0@,
                            fields@[k].1@,
                            ),
                        spec_obj_lookup(sfields, name@) == spec_obj_lookup(
                            sfields.skip(i as int),
                            name@,
                        ),
                    decreases fields.len() - i,
                {
                    if str_eq(fields[i].0.as_str(), name) {
                        proof {
                            assert(sfields.skip(i as int)[0] == sfields[i as int]);
                        }
                        return Some(&fields[i].1);
                    }
                    proof {
                        assert(sfields.skip(i as int).skip(1) =~= sfields.skip(i as int + 1));
                        assert(sfields.skip(i as int)[0] == sfields[i as int]);
                    }
                    i += 1;
                }
                proof {
                    assert(sfields.skip(fields.len() as int) =~= Seq::<(Seq<char>, JsonVal)>::empty());
                }
                None
            },
            _ => {
                proof {
                    lemma_view_shape(self);
                }
                None
            },
        }
    }

    /// A copy of the value that models the same document.
    #[verifier::loop_isolation(false)]
    pub fn deep_clone(&self) -> (r: JsonValue)
        ensures
            r@ == self@,
        decreases self,
    {
        proof {
            lemma_view_shape(self);
        }
        match self {
            JsonValue::Null => JsonValue::Null,
            JsonValue::Bool(b) => {
                let r = JsonValue::Bool(*b);
                proof {
                    lemma_view_shape(&r);
                }
                r
            },
            JsonValue::Num(m) => {
                let r = JsonValue::Num(*m);
                proof {
                    lemma_view_shape(&r);
                }
                r
            },
            JsonValue::Str(s) => {
                let r = JsonValue::Str(s.clone());
                proof {
                    lemma_view_shape(&r);
                }
                r
            },
            JsonValue::Arr(items) => {
                proof {
                    lemma_arr_view(self);
                }
                let mut out: Vec<JsonValue> = Vec::new();
                let mut i: usize = 0;
                while i < items.len()
                    invariant
                        i <= items.len(),
                        out@.len() == i,
                        forall|k: int| 0 <= k < i ==> out@[k]@ == items@[k]@,
                    decreases items.len() - i,
                {
                    out.push(items[i].deep_clone());
                    i += 1;
                }
                let r = JsonValue::Arr(out);
                proof {
                    lemma_arr_view(&r);
                    assert(r@->Arr_0 =~= self@->Arr_0);
                }
                r
            },
            JsonValue::Obj(fields) => {
                proof {
                    lemma_obj_view(self);
                }
                let mut out: Vec<(String, JsonValue)> = Vec::new();
                let mut i: usize = 0;
                while i < fields.len()
                    invariant
                        i <= fields.len(),
                        out@.len() == i,
                        forall|k: int|
                            0 <= k < i ==> out@[k].0@ == fields@[k].0@ && out@[k].1@
                                == fields@[k].1@,
                    decreases fields.len() - i,
                {
                    out.push((fields[i].0.clone(), fields[i].1.deep_clone()));
                    i += 1;
                }
                let r = JsonValue::Obj(out);
                proof {
                    lemma_obj_view(&r);
                    assert(r@->Obj_0 =~= self@->Obj_0);
                }
                r
            },
        }
    }

    /// Canonical text of a scalar value; `None` for null, arrays and
    /// objects, whose holder is then unusable for hashing.
    pub fn to_canon_string(&self) -> (r: Option<String>)
        ensures
            match spec_canon(self@) {
                Some(t) => r is Some && r->Some_0@ == t,
                None => r is None,
            },
    {
        proof {
            lemma_view_shape(self);
        }
        match self {
            JsonValue::Str(s) => Some(s.clone()),
            JsonValue::Bool(b) => {
                if *b {
                    proof {
                        reveal_strlit("true");
                    }
                    let t = String::from_str("true");
                    proof {
                        assert(t@ =~= seq!['t', 'r', 'u', 'e']);
                    }
                    Some(t)
                } else {
                    proof {
                        reveal_strlit("false");
                    }
                    let t = String::from_str("false");
                    proof {
                        assert(t@ =~= seq!['f', 'a', 'l', 's', 'e']);
                    }
                    Some(t)
                }
            },
            JsonValue::Num(m) => Some(canon_num_string(*m)),
            _ => None,
        }
    }

    /// Whether the value counts as "off": null, false, zero or the empty string.
    pub fn is_falsy(&self) -> (r: bool)
        ensures
            r == spec_falsy(self@),
    {
        match self {
            JsonValue::Null => true,
            JsonValue::Bool(b) => !*b,
            JsonValue::Num(m) => *m == 0,
            JsonValue::Str(s) => s.as_str().is_empty(),
            _ => false,
        }
    }
}

} // verus!
