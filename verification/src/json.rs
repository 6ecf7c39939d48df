use vstd::prelude::*;

verus! {

/// A JSON document, as the driver models it.
///
/// Strings are carried as their UTF-8 content bytes, unescaped; object
/// members keep their insertion order, since the canonical output the
/// server receives is a byte sequence, not a map.
#[verifier::ext_equal]
pub enum Json {
    Null,
    Bool(bool),
    Int(i64),
    UInt(u64),
    Str(Vec<u8>),
    Arr(Vec<Json>),
    Obj(Vec<(Vec<u8>, Json)>),
}

/// The mathematical shape of a JSON document.
#[verifier::ext_equal]
pub enum JsonV {
    Null,
    Bool(bool),
    Int(int),
    UInt(nat),
    Str(Seq<u8>),
    Arr(Seq<JsonV>),
    Obj(Seq<(Seq<u8>, JsonV)>),
}

pub open spec fn view_json_list(elems: Seq<Json>) -> Seq<JsonV>
    decreases elems, 0int,
{
    if elems.len() == 0 {
        Seq::empty()
    } else {
        view_json_list(elems.subrange(0, elems.len() - 1)).push(elems[elems.len() - 1]@)
    }
}

pub open spec fn view_json_fields(fields: Seq<(Vec<u8>, Json)>) -> Seq<(Seq<u8>, JsonV)>
    decreases fields, 0int,
{
    if fields.len() == 0 {
        Seq::empty()
    } else {
        view_json_fields(fields.subrange(0, fields.len() - 1)).push(
            (fields[fields.len() - 1].0@, fields[fields.len() - 1].1@),
        )
    }
}

impl View for Json {
    type V = JsonV;

    open spec fn view(&self) -> JsonV
        decreases self, 1int,
    {
        match self {
            Json::Null => JsonV::Null,
            Json::Bool(b) => JsonV::Bool(*b),
            Json::Int(i) => JsonV::Int(*i as int),
            Json::UInt(u) => JsonV::UInt(*u as nat),
            Json::Str(s) => JsonV::Str(s@),
            Json::Arr(elems) => JsonV::Arr(view_json_list(elems@)),
            Json::Obj(fields) => JsonV::Obj(view_json_fields(fields@)),
        }
    }
}

pub proof fn lemma_view_json_list(elems: Seq<Json>)
    ensures
        view_json_list(elems).len() == elems.len(),
        forall|i: int| 0 <= i < elems.len() ==> view_json_list(elems)[i] == #[trigger] elems[i]@,
    decreases elems.len(),
{
    if elems.len() > 0 {
        let front = elems.subrange(0, elems.len() - 1);
        lemma_view_json_list(front);
        assert(view_json_list(elems) == view_json_list(front).push(elems[elems.len() - 1]@));
        assert(view_json_list(elems).len() == elems.len());
        assert forall|i: int| 0 <= i < elems.len() implies view_json_list(elems)[i]
            == #[trigger] elems[i]@ by {
            if i < elems.len() - 1 {
                assert(front[i] == elems[i]);
                assert(view_json_list(elems)[i] == view_json_list(front)[i]);
            }
        }
    }
}

pub proof fn lemma_view_json_fields(fields: Seq<(Vec<u8>, Json)>)
    ensures
        view_json_fields(fields).len() == fields.len(),
        forall|i: int|
            0 <= i < fields.len() ==> view_json_fields(fields)[i] == (
            #[trigger] fields[i].0@,
            fields[i].1@,
            ),
    decreases fields.len(),
{
    if fields.len() > 0 {
        let front = fields.subrange(0, fields.len() - 1);
        lemma_view_json_fields(front);
        assert(view_json_fields(fields) == view_json_fields(front).push(
            (fields[fields.len() - 1].0@, fields[fields.len() - 1].1@),
        ));
        assert(view_json_fields(fields).len() == fields.len());
        assert forall|i: int| 0 <= i < fields.len() implies view_json_fields(fields)[i] == (
        #[trigger] fields[i].0@,
        fields[i].1@,
        ) by {
            if i < fields.len() - 1 {
                assert(front[i] == fields[i]);
                assert(view_json_fields(fields)[i] == view_json_fields(front)[i]);
            }
        }
    }
}


/// Decimal digits of `n`, most significant first.
pub open spec fn spec_dec_digits(n: nat) -> Seq<u8>
    decreases n,
{
    if n < 10 {
        seq![(48 + n) as u8]
    } else {
        spec_dec_digits(n / 10) + seq![(48 + n % 10) as u8]
    }
}

/// ASCII decimal rendering of an unsigned integer.
pub fn dec_u64(n: u64) -> (r: Vec<u8>)
    ensures
        r@ == spec_dec_digits(n as nat),
    decreases n,
{
    let mut r: Vec<u8>;
    if n < 10 {
        r = Vec::new();
        r.push(48 + (n as u8));
    } else {
        r = dec_u64(n / 10);
        r.push(48 + ((n % 10) as u8));
        proof {
            assert(r@ =~= spec_dec_digits((n / 10) as nat) + seq![(48 + (n as nat) % 10) as u8]);
        }
    }
    r
}

/// The escaped form of one byte inside a JSON string literal.
pub open spec fn spec_escape_byte(b: u8) -> Seq<u8> {
    if b == 34 {
        seq![92u8, 34u8]
    } else if b == 92 {
        seq![92u8, 92u8]
    } else if b == 10 {
        seq![92u8, 110u8]
    } else if b == 13 {
        seq![92u8, 114u8]
    } else if b == 9 {
        seq![92u8, 116u8]
    } else if b < 32 {
        seq![92u8, 117u8, 48u8, 48u8, spec_hex_digit(b / 16), spec_hex_digit(b % 16)]
    } else {
        seq![b]
    }
}

pub open spec fn spec_hex_digit(n: u8) -> u8 {
    if n < 10 {
        (48 + n) as u8
    } else {
        (87 + n) as u8
    }
}

/// The body of a JSON string literal: every byte escaped as needed.
pub open spec fn spec_escape(s: Seq<u8>) -> Seq<u8>
    decreases s.len(),
{
    if s.len() == 0 {
        Seq::empty()
    } else {
        spec_escape(s.subrange(0, s.len() - 1)) + spec_escape_byte(s[s.len() - 1])
    }
}

/// ASCII decimal rendering of an integer, with a leading minus sign
/// when it is negative.
pub open spec fn spec_int_digits(i: int) -> Seq<u8> {
    if i < 0 {
        seq![45u8] + spec_dec_digits((-i) as nat)
    } else {
        spec_dec_digits(i as nat)
    }
}

/// Canonical serialization: no whitespace, members in order.
pub open spec fn spec_json_bytes(v: JsonV) -> Seq<u8>
    decreases v,
{
    match v {
        JsonV::Null => seq![110u8, 117u8, 108u8, 108u8],
        JsonV::Bool(b) => if b {
            seq![116u8, 114u8, 117u8, 101u8]
        } else {
            seq![102u8, 97u8, 108u8, 115u8, 101u8]
        },
        JsonV::Int(i) => spec_int_digits(i),
        JsonV::UInt(u) => spec_dec_digits(u),
        JsonV::Str(s) => seq![34u8] + spec_escape(s) + seq![34u8],
        JsonV::Arr(elems) => seq![91u8] + spec_list_bytes(elems) + seq![93u8],
        JsonV::Obj(fields) => seq![123u8] + spec_fields_bytes(fields) + seq![125u8],
    }
}

/// Comma-separated serialization of array elements.
pub open spec fn spec_list_bytes(elems: Seq<JsonV>) -> Seq<u8>
    decreases elems,
{
    if elems.len() == 0 {
        Seq::empty()
    } else if elems.len() == 1 {
        spec_json_bytes(elems[0])
    } else {
        spec_list_bytes(elems.subrange(0, elems.len() - 1)) + seq![44u8] + spec_json_bytes(
            elems[elems.len() - 1],
        )
    }
}

/// One `"key":value` object member.
pub open spec fn spec_member_bytes(f: (Seq<u8>, JsonV)) -> Seq<u8>
    decreases f,
{
    seq![34u8] + spec_escape(f.0) + seq![34u8, 58u8] + spec_json_bytes(f.1)
}

/// Comma-separated serialization of object members.
pub open spec fn spec_fields_bytes(fields: Seq<(Seq<u8>, JsonV)>) -> Seq<u8>
    decreases fields,
{
    if fields.len() == 0 {
        Seq::empty()
    } else if fields.len() == 1 {
        spec_member_bytes(fields[0])
    } else {
        spec_fields_bytes(fields.subrange(0, fields.len() - 1)) + seq![44u8] + spec_member_bytes(
            fields[fields.len() - 1],
        )
    }
}

/// Escapes the content bytes of a JSON string literal.
pub fn escape_bytes(s: &Vec<u8>) -> (r: Vec<u8>)
    ensures
        r@ == spec_escape(s@),
{
    let mut r: Vec<u8> = Vec::new();
    let mut i: usize = 0;
    while i < s.len()
        invariant
            i <= s@.len(),
            r@ == spec_escape(s@.subrange(0, i as int)),
        decreases s@.len() - i,
    {
        let b = s[i];
        if b == 34 {
            r.push(92);
            r.push(34);
        } else if b == 92 {
            r.push(92);
            r.push(92);
        } else if b == 10 {
            r.push(92);
            r.push(110);
        } else if b == 13 {
            r.push(92);
            r.push(114);
        } else if b == 9 {
            r.push(92);
            r.push(116);
        } else if b < 32 {
            r.push(92);
            r.push(117);
            r.push(48);
            r.push(48);
            let hi = b / 16;
            let lo = b % 16;
            r.push(if hi < 10 { 48 + hi } else { 87 + hi });
            r.push(if lo < 10 { 48 + lo } else { 87 + lo });
        } else {
            r.push(b);
        }
        proof {
            let pre = s@.subrange(0, i as int);
            let post = s@.subrange(0, i + 1);
            assert(post.subrange(0, post.len() - 1) =~= pre);
            assert(post[post.len() - 1] == s@[i as int]);
            assert(r@ =~= spec_escape(pre) + spec_escape_byte(s@[i as int]));
        }
        i = i + 1;
    }
    proof {
        assert(s@.subrange(0, s@.len() as int) =~= s@);
    }
    r
}

/// ASCII decimal rendering of a signed integer.
pub fn dec_i64(i: i64) -> (r: Vec<u8>)
    ensures
        r@ == spec_int_digits(i as int),
{
    if i >= 0 {
        dec_u64(i as u64)
    } else {
        let mag: u64 = if i == i64::MIN {
            9223372036854775808u64
        } else {
            (-i) as u64
        };
        let mut r: Vec<u8> = Vec::new();
        r.push(45);
        let mut digits = dec_u64(mag);
        r.append(&mut digits);
        proof {
            assert(mag as nat == (-(i as int)) as nat);
            assert(r@ =~= seq![45u8] + spec_dec_digits((-(i as int)) as nat));
        }
        r
    }
}

/// Serializes a document into canonical JSON bytes.
pub fn json_bytes(v: &Json) -> (r: Vec<u8>)
    ensures
        r@ == spec_json_bytes(v@),
    decreases v@, 0int,
{
    match v {
        Json::Null => {
            let mut r: Vec<u8> = Vec::new();
            r.push(110);
            r.push(117);
            r.push(108);
            r.push(108);
            proof {
                assert(r@ =~= seq![110u8, 117u8, 108u8, 108u8]);
            }
            r
        },
        Json::Bool(b) => {
            let mut r: Vec<u8> = Vec::new();
            if *b {
                r.push(116);
                r.push(114);
                r.push(117);
                r.push(101);
                proof {
                    assert(r@ =~= seq![116u8, 114u8, 117u8, 101u8]);
                }
            } else {
                r.push(102);
                r.push(97);
                r.push(108);
                r.push(115);
                r.push(101);
                proof {
                    assert(r@ =~= seq![102u8, 97u8, 108u8, 115u8, 101u8]);
                }
            }
            r
        },
        Json::Int(i) => dec_i64(*i),
        Json::UInt(u) => dec_u64(*u),
        Json::Str(s) => {
            let mut r: Vec<u8> = Vec::new();
            r.push(34);
            let mut body = escape_bytes(s);
            r.append(&mut body);
            r.push(34);
            proof {
                assert(r@ =~= seq![34u8] + spec_escape(s@) + seq![34u8]);
            }
            r
        },
        Json::Arr(elems) => {
            let n = elems.len();
            let mut r: Vec<u8> = Vec::new();
            r.push(91);
            proof {
                assert(v@ == JsonV::Arr(view_json_list(elems@)));
                assert(decreases_to!(v@ => view_json_list(elems@)));
            }
            let mut body = json_list_bytes(elems, n);
            r.append(&mut body);
            r.push(93);
            proof {
                let s = view_json_list(elems@);
                lemma_view_json_list(elems@);
                assert(s.subrange(0, n as int) =~= s);
                assert(r@ =~= seq![91u8] + spec_list_bytes(s) + seq![93u8]);
            }
            r
        },
        Json::Obj(fields) => {
            let n = fields.len();
            let mut r: Vec<u8> = Vec::new();
            r.push(123);
            proof {
                assert(v@ == JsonV::Obj(view_json_fields(fields@)));
                assert(decreases_to!(v@ => view_json_fields(fields@)));
            }
            let mut body = json_fields_bytes(fields, n);
            r.append(&mut body);
            r.push(125);
            proof {
                let s = view_json_fields(fields@);
                lemma_view_json_fields(fields@);
                assert(s.subrange(0, n as int) =~= s);
                assert(r@ =~= seq![123u8] + spec_fields_bytes(s) + seq![125u8]);
            }
            r
        },
    }
}

/// Serializes the first `n` elements of an array body.
fn json_list_bytes(elems: &Vec<Json>, n: usize) -> (r: Vec<u8>)
    requires
        n <= elems@.len(),
    ensures
        r@ == spec_list_bytes(view_json_list(elems@).subrange(0, n as int)),
    decreases view_json_list(elems@), n,
{
    proof {
        lemma_view_json_list(elems@);
    }
    let ghost s = view_json_list(elems@);
    if n == 0 {
        let r: Vec<u8> = Vec::new();
        proof {
            assert(s.subrange(0, 0) =~= Seq::<JsonV>::empty());
        }
        r
    } else {
        let mut r = json_list_bytes(elems, n - 1);
        if n > 1 {
            r.push(44);
        }
        let mut piece = json_bytes(&elems[n - 1]);
        r.append(&mut piece);
        proof {
            let cur = s.subrange(0, n as int);
            assert(cur.subrange(0, cur.len() - 1) =~= s.subrange(0, n - 1));
            assert(cur[cur.len() - 1] == elems@[n - 1]@);
            if n == 1 {
                assert(r@ =~= spec_json_bytes(cur[0]));
            } else {
                assert(r@ =~= spec_list_bytes(s.subrange(0, n - 1)) + seq![44u8]
                    + spec_json_bytes(cur[cur.len() - 1]));
            }
        }
        r
    }
}

/// Serializes the first `n` members of an object body.
fn json_fields_bytes(fields: &Vec<(Vec<u8>, Json)>, n: usize) -> (r: Vec<u8>)
    requires
        n <= fields@.len(),
    ensures
        r@ == spec_fields_bytes(view_json_fields(fields@).subrange(0, n as int)),
    decreases view_json_fields(fields@), n,
{
    proof {
        lemma_view_json_fields(fields@);
    }
    let ghost s = view_json_fields(fields@);
    if n == 0 {
        let r: Vec<u8> = Vec::new();
        proof {
            assert(s.subrange(0, 0) =~= Seq::<(Seq<u8>, JsonV)>::empty());
        }
        r
    } else {
        let mut r = json_fields_bytes(fields, n - 1);
        if n > 1 {
            r.push(44);
        }
        r.push(34);
        let mut key = escape_bytes(&fields[n - 1].0);
        r.append(&mut key);
        r.push(34);
        r.push(58);
        proof {
            assert(s[n - 1] == (fields@[n - 1].0@, fields@[n - 1].1@));
            assert(decreases_to!(s => s[n - 1].1));
            assert(fields@[n - 1].1@ == s[n - 1].1);
        }
        let mut val = json_bytes(&fields[n - 1].1);
        r.append(&mut val);
        proof {
            let cur = s.subrange(0, n as int);
            assert(cur.subrange(0, cur.len() - 1) =~= s.subrange(0, n - 1));
            assert(cur[cur.len() - 1] == (fields@[n - 1].0@, fields@[n - 1].1@));
            if n == 1 {
                assert(r@ =~= spec_member_bytes(cur[0]));
            } else {
                assert(r@ =~= spec_fields_bytes(s.subrange(0, n - 1)) + seq![44u8]
                    + spec_member_bytes(cur[cur.len() - 1]));
            }
        }
        r
    }
}


/// The array-wrap normalization: a raw JSON array of data becomes
/// `[make_array, [elements]]`, recursively; object values are
/// normalized in place; scalars are left alone.
pub open spec fn spec_wrap(v: JsonV, ma: nat) -> JsonV
    decreases v,
{
    match v {
        JsonV::Arr(elems) => JsonV::Arr(
            seq![JsonV::UInt(ma), JsonV::Arr(spec_wrap_list(elems, ma))],
        ),
        JsonV::Obj(fields) => JsonV::Obj(spec_wrap_fields(fields, ma)),
        other => other,
    }
}

pub open spec fn spec_wrap_list(elems: Seq<JsonV>, ma: nat) -> Seq<JsonV>
    decreases elems,
{
    if elems.len() == 0 {
        Seq::empty()
    } else {
        spec_wrap_list(elems.subrange(0, elems.len() - 1), ma).push(
            spec_wrap(elems[elems.len() - 1], ma),
        )
    }
}

pub open spec fn spec_wrap_fields(fields: Seq<(Seq<u8>, JsonV)>, ma: nat) -> Seq<(Seq<u8>, JsonV)>
    decreases fields,
{
    if fields.len() == 0 {
        Seq::empty()
    } else {
        spec_wrap_fields(fields.subrange(0, fields.len() - 1), ma).push(
            (fields[fields.len() - 1].0, spec_wrap(fields[fields.len() - 1].1, ma)),
        )
    }
}

pub proof fn lemma_spec_wrap_list(elems: Seq<JsonV>, ma: nat)
    ensures
        spec_wrap_list(elems, ma).len() == elems.len(),
        forall|i: int|
            0 <= i < elems.len() ==> spec_wrap_list(elems, ma)[i] == spec_wrap(
                #[trigger] elems[i],
                ma,
            ),
    decreases elems.len(),
{
    if elems.len() > 0 {
        let front = elems.subrange(0, elems.len() - 1);
        lemma_spec_wrap_list(front, ma);
        assert forall|i: int| 0 <= i < elems.len() implies spec_wrap_list(elems, ma)[i]
            == spec_wrap(#[trigger] elems[i], ma) by {
            if i < elems.len() - 1 {
                assert(front[i] == elems[i]);
                assert(spec_wrap_list(elems, ma)[i] == spec_wrap_list(front, ma)[i]);
            }
        }
    }
}

pub proof fn lemma_spec_wrap_fields(fields: Seq<(Seq<u8>, JsonV)>, ma: nat)
    ensures
        spec_wrap_fields(fields, ma).len() == fields.len(),
        forall|i: int|
            0 <= i < fields.len() ==> spec_wrap_fields(fields, ma)[i] == (
            (#[trigger] fields[i]).0,
            spec_wrap(fields[i].1, ma),
            ),
    decreases fields.len(),
{
    if fields.len() > 0 {
        let front = fields.subrange(0, fields.len() - 1);
        lemma_spec_wrap_fields(front, ma);
        assert forall|i: int| 0 <= i < fields.len() implies spec_wrap_fields(fields, ma)[i] == (
        (#[trigger] fields[i]).0,
        spec_wrap(fields[i].1, ma),
        ) by {
            if i < fields.len() - 1 {
                assert(front[i] == fields[i]);
                assert(spec_wrap_fields(fields, ma)[i] == spec_wrap_fields(front, ma)[i]);
            }
        }
    }
}

/// The normalization is structural: every array sub-value becomes the
/// two-element form headed by `ma`, with its elements normalized one by
/// one; objects keep their keys, with each value normalized; scalars
/// come back unchanged.
pub proof fn lemma_wrap_structural(v: JsonV, ma: nat)
    ensures
        v matches JsonV::Arr(elems) ==> {
            &&& spec_wrap(v, ma) matches JsonV::Arr(outer)
            &&& outer.len() == 2
            &&& outer[0] == JsonV::UInt(ma)
            &&& outer[1] matches JsonV::Arr(inner)
            &&& inner.len() == elems.len()
            &&& forall|i: int|
                0 <= i < elems.len() ==> inner[i] == spec_wrap(#[trigger] elems[i], ma)
        },
        v matches JsonV::Obj(fields) ==> {
            &&& spec_wrap(v, ma) matches JsonV::Obj(wrapped)
            &&& wrapped.len() == fields.len()
            &&& forall|i: int|
                0 <= i < fields.len() ==> wrapped[i] == (
                (#[trigger] fields[i]).0,
                spec_wrap(fields[i].1, ma),
                )
        },
        !(v is Arr) && !(v is Obj) ==> spec_wrap(v, ma) == v,
{
    match v {
        JsonV::Arr(elems) => {
            lemma_spec_wrap_list(elems, ma);
        },
        JsonV::Obj(fields) => {
            lemma_spec_wrap_fields(fields, ma);
        },
        _ => {},
    }
}

/// Applies the array-wrap normalization to a document.
pub fn wrap_arrays(v: Json, make_array: u64) -> (r: Json)
    ensures
        r@ == spec_wrap(v@, make_array as nat),
    decreases v@, 0int,
{
    match v {
        Json::Arr(elems) => {
            let ghost orig = elems@;
            proof {
                assert(decreases_to!(JsonV::Arr(view_json_list(orig)) => view_json_list(orig)));
            }
            let wrapped = wrap_list(elems, make_array);
            let mut outer: Vec<Json> = Vec::new();
            outer.push(Json::UInt(make_array));
            outer.push(Json::Arr(wrapped));
            let r = Json::Arr(outer);
            proof {
                lemma_view_json_list(outer@);
                assert(outer@.len() == 2);
                assert(outer@[0] == Json::UInt(make_array));
                assert(outer@[1] == Json::Arr(wrapped));
                assert(outer@[0]@ == JsonV::UInt(make_array as nat));
                assert(outer@[1]@ == JsonV::Arr(view_json_list(wrapped@)));
                assert(view_json_list(outer@) =~= seq![
                    JsonV::UInt(make_array as nat),
                    JsonV::Arr(view_json_list(wrapped@)),
                ]);
            }
            r
        },
        Json::Obj(fields) => {
            let ghost orig = fields@;
            proof {
                assert(decreases_to!(JsonV::Obj(view_json_fields(orig)) => view_json_fields(orig)));
            }
            let wrapped = wrap_fields(fields, make_array);
            Json::Obj(wrapped)
        },
        other => other,
    }
}

/// Normalizes each element of an array body.
fn wrap_list(mut elems: Vec<Json>, make_array: u64) -> (r: Vec<Json>)
    ensures
        view_json_list(r@) == spec_wrap_list(view_json_list(elems@), make_array as nat),
    decreases view_json_list(elems@), 1int,
{
    let ghost s = view_json_list(elems@);
    let n = elems.len();
    if n == 0 {
        proof {
            assert(view_json_list(elems@) =~= Seq::<JsonV>::empty());
        }
        elems
    } else {
        proof {
            lemma_view_json_list(elems@);
            assert(s == view_json_list(elems@.subrange(0, n - 1)).push(elems@[n - 1]@));
        }
        let last = elems.pop().unwrap();
        proof {
            assert(view_json_list(elems@) =~= s.subrange(0, n - 1));
            assert(decreases_to!(s => s.subrange(0, s.len() - 1)));
            assert(decreases_to!(s => s[s.len() - 1]));
            assert(last@ == s[s.len() - 1]);
        }
        let mut r = wrap_list(elems, make_array);
        let ghost rest = r@;
        let w = wrap_arrays(last, make_array);
        r.push(w);
        proof {
            let whole = spec_wrap_list(s, make_array as nat);
            assert(view_json_list(r@) == view_json_list(r@.subrange(0, r@.len() - 1)).push(
                r@[r@.len() - 1]@,
            ));
            assert(r@.subrange(0, r@.len() - 1) =~= rest);
            assert(whole == spec_wrap_list(s.subrange(0, s.len() - 1), make_array as nat).push(
                spec_wrap(s[s.len() - 1], make_array as nat),
            ));
        }
        r
    }
}

/// Normalizes each member value of an object body.
fn wrap_fields(mut fields: Vec<(Vec<u8>, Json)>, make_array: u64) -> (r: Vec<(Vec<u8>, Json)>)
    ensures
        view_json_fields(r@) == spec_wrap_fields(view_json_fields(fields@), make_array as nat),
    decreases view_json_fields(fields@), 1int,
{
    let ghost s = view_json_fields(fields@);
    let n = fields.len();
    if n == 0 {
        proof {
            assert(view_json_fields(fields@) =~= Seq::<(Seq<u8>, JsonV)>::empty());
        }
        fields
    } else {
        proof {
            lemma_view_json_fields(fields@);
            assert(s == view_json_fields(fields@.subrange(0, n - 1)).push(
                (fields@[n - 1].0@, fields@[n - 1].1@),
            ));
        }
        let last = fields.pop().unwrap();
        proof {
            assert(view_json_fields(fields@) =~= s.subrange(0, n - 1));
            assert(decreases_to!(s => s.subrange(0, s.len() - 1)));
            assert(s[s.len() - 1] == (last.0@, last.1@));
            assert(decreases_to!(s => s[s.len() - 1].1));
            assert(last.1@ == s[s.len() - 1].1);
        }
        let mut r = wrap_fields(fields, make_array);
        let ghost rest = r@;
        let w = wrap_arrays(last.1, make_array);
        r.push((last.0, w));
        proof {
            assert(view_json_fields(r@) == view_json_fields(r@.subrange(0, r@.len() - 1)).push(
                (r@[r@.len() - 1].0@, r@[r@.len() - 1].1@),
            ));
            assert(r@.subrange(0, r@.len() - 1) =~= rest);
            assert(spec_wrap_fields(s, make_array as nat) == spec_wrap_fields(
                s.subrange(0, s.len() - 1),
                make_array as nat,
            ).push((s[s.len() - 1].0, spec_wrap(s[s.len() - 1].1, make_array as nat))));
        }
        r
    }
}


} // verus!
