use vstd::prelude::*;

use crate::errors::Error;
use crate::json::{
    spec_wrap, view_json_list, wrap_arrays, Json, JsonV,
};
use crate::opcodes::{term_make_array, OP_MAKE_ARRAY};

verus! {

/// One argument handed to the term builder.
pub enum Arg {
    Bool(bool),
    Int(i64),
    UInt(u64),
    /// A string scalar, as UTF-8 content bytes.
    Str(Vec<u8>),
    /// A JSON document; raw arrays in it are data and get the
    /// array-wrap normalization.
    Doc(Json),
    /// An already-built sub-term, passed through untouched.
    Sub(Json),
    /// A positional argument together with an options object.
    WithOpts(Box<Arg>, Json),
}

/// The mathematical shape of an argument.
pub enum ArgV {
    Bool(bool),
    Int(int),
    UInt(nat),
    Str(Seq<u8>),
    Doc(JsonV),
    Sub(JsonV),
    WithOpts(Box<ArgV>, JsonV),
}

impl View for Arg {
    type V = ArgV;

    open spec fn view(&self) -> ArgV
        decreases self,
    {
        match self {
            Arg::Bool(b) => ArgV::Bool(*b),
            Arg::Int(i) => ArgV::Int(*i as int),
            Arg::UInt(u) => ArgV::UInt(*u as nat),
            Arg::Str(s) => ArgV::Str(s@),
            Arg::Doc(j) => ArgV::Doc(j@),
            Arg::Sub(j) => ArgV::Sub(j@),
            Arg::WithOpts(a, o) => ArgV::WithOpts(Box::new((**a)@), o@),
        }
    }
}

/// What the argument encoder produces: an optional positional value
/// and an optional options object, or the error it rejects with.
pub open spec fn spec_encode_arg(a: ArgV, ma: nat) -> Result<(Option<JsonV>, Option<JsonV>), Error>
    decreases a,
{
    match a {
        ArgV::Bool(b) => Ok((Some(JsonV::Bool(b)), None)),
        ArgV::Int(i) => Ok((Some(JsonV::Int(i)), None)),
        ArgV::UInt(u) => Ok((Some(JsonV::UInt(u)), None)),
        ArgV::Str(s) => Ok((Some(JsonV::Str(s)), None)),
        ArgV::Doc(j) => Ok((Some(spec_wrap(j, ma)), None)),
        ArgV::Sub(t) => Ok((Some(t), None)),
        ArgV::WithOpts(inner, opts) => if !(opts is Obj) {
            Err(Error::NonObjectOptions)
        } else {
            match spec_encode_arg(*inner, ma) {
                Ok(p) => Ok((p.0, Some(spec_wrap(opts, ma)))),
                Err(e) => Err(e),
            }
        },
    }
}

/// The encoder's result with documents in place of their views.
pub open spec fn view_encoded(
    r: Result<(Option<Json>, Option<Json>), Error>,
) -> Result<(Option<JsonV>, Option<JsonV>), Error> {
    match r {
        Ok((pos, opts)) => Ok(
            (
                match pos {
                    Some(p) => Some(p@),
                    None => None,
                },
                match opts {
                    Some(o) => Some(o@),
                    None => None,
                },
            ),
        ),
        Err(e) => Err(e),
    }
}

/// Encodes one argument into its positional and options parts.
///
/// The options half of a pair must be a JSON object; anything else is
/// rejected before any encoding happens. Of a nested pair only the
/// outer positional and options are kept.
pub fn encode_arg(a: Arg) -> (r: Result<(Option<Json>, Option<Json>), Error>)
    ensures
        view_encoded(r) == spec_encode_arg(a@, OP_MAKE_ARRAY as nat),
    decreases a,
{
    match a {
        Arg::Bool(b) => Ok((Some(Json::Bool(b)), None)),
        Arg::Int(i) => Ok((Some(Json::Int(i)), None)),
        Arg::UInt(u) => Ok((Some(Json::UInt(u)), None)),
        Arg::Str(s) => Ok((Some(Json::Str(s)), None)),
        Arg::Doc(j) => {
            let ma = term_make_array();
            Ok((Some(wrap_arrays(j, ma)), None))
        },
        Arg::Sub(t) => Ok((Some(t), None)),
        Arg::WithOpts(inner, opts) => {
            let is_object = match &opts {
                Json::Obj(_) => true,
                _ => false,
            };
            if !is_object {
                Err(Error::NonObjectOptions)
            } else {
                match encode_arg(*inner) {
                    Ok((pos, _)) => {
                        let ma = term_make_array();
                        Ok((pos, Some(wrap_arrays(opts, ma))))
                    },
                    Err(e) => Err(e),
                }
            }
        },
    }
}

/// A value that can stand as a term argument.
///
/// `arg_spec` names, in specification terms, the argument the value
/// turns into; `to_arg` performs exactly that conversion.
pub trait IntoCommandArg: Sized {
    spec fn arg_spec(self) -> Result<ArgV, Error>;

    fn to_arg(self) -> (r: Result<Arg, Error>)
        ensures
            view_arg_result(r) == self.arg_spec(),
    ;
}

pub open spec fn view_arg_result(r: Result<Arg, Error>) -> Result<ArgV, Error> {
    match r {
        Ok(a) => Ok(a@),
        Err(e) => Err(e),
    }
}

impl IntoCommandArg for bool {
    open spec fn arg_spec(self) -> Result<ArgV, Error> {
        Ok(ArgV::Bool(self))
    }

    fn to_arg(self) -> (r: Result<Arg, Error>) {
        Ok(Arg::Bool(self))
    }
}

impl IntoCommandArg for i64 {
    open spec fn arg_spec(self) -> Result<ArgV, Error> {
        Ok(ArgV::Int(self as int))
    }

    fn to_arg(self) -> (r: Result<Arg, Error>) {
        Ok(Arg::Int(self))
    }
}

impl IntoCommandArg for i32 {
    open spec fn arg_spec(self) -> Result<ArgV, Error> {
        Ok(ArgV::Int(self as int))
    }

    fn to_arg(self) -> (r: Result<Arg, Error>) {
        Ok(Arg::Int(self as i64))
    }
}

impl IntoCommandArg for u64 {
    open spec fn arg_spec(self) -> Result<ArgV, Error> {
        Ok(ArgV::UInt(self as nat))
    }

    fn to_arg(self) -> (r: Result<Arg, Error>) {
        Ok(Arg::UInt(self))
    }
}

impl IntoCommandArg for u32 {
    open spec fn arg_spec(self) -> Result<ArgV, Error> {
        Ok(ArgV::UInt(self as nat))
    }

    fn to_arg(self) -> (r: Result<Arg, Error>) {
        Ok(Arg::UInt(self as u64))
    }
}


impl IntoCommandArg for u8 {
    open spec fn arg_spec(self) -> Result<ArgV, Error> {
        Ok(ArgV::UInt(self as nat))
    }

    fn to_arg(self) -> (r: Result<Arg, Error>) {
        Ok(Arg::UInt(self as u64))
    }
}

impl IntoCommandArg for u16 {
    open spec fn arg_spec(self) -> Result<ArgV, Error> {
        Ok(ArgV::UInt(self as nat))
    }

    fn to_arg(self) -> (r: Result<Arg, Error>) {
        Ok(Arg::UInt(self as u64))
    }
}

impl IntoCommandArg for usize {
    open spec fn arg_spec(self) -> Result<ArgV, Error> {
        Ok(ArgV::UInt(self as nat))
    }

    fn to_arg(self) -> (r: Result<Arg, Error>) {
        Ok(Arg::UInt(self as u64))
    }
}

impl IntoCommandArg for i8 {
    open spec fn arg_spec(self) -> Result<ArgV, Error> {
        Ok(ArgV::Int(self as int))
    }

    fn to_arg(self) -> (r: Result<Arg, Error>) {
        Ok(Arg::Int(self as i64))
    }
}

impl IntoCommandArg for i16 {
    open spec fn arg_spec(self) -> Result<ArgV, Error> {
        Ok(ArgV::Int(self as int))
    }

    fn to_arg(self) -> (r: Result<Arg, Error>) {
        Ok(Arg::Int(self as i64))
    }
}

impl IntoCommandArg for isize {
    open spec fn arg_spec(self) -> Result<ArgV, Error> {
        Ok(ArgV::Int(self as int))
    }

    fn to_arg(self) -> (r: Result<Arg, Error>) {
        Ok(Arg::Int(self as i64))
    }
}

impl<'a> IntoCommandArg for &'a str {
    open spec fn arg_spec(self) -> Result<ArgV, Error> {
        Ok(ArgV::Str(vstd::utf8::encode_utf8(self@)))
    }

    fn to_arg(self) -> (r: Result<Arg, Error>) {
        Ok(Arg::Str(vstd::string::StrSliceExecFns::as_bytes_vec(self)))
    }
}

impl IntoCommandArg for String {
    open spec fn arg_spec(self) -> Result<ArgV, Error> {
        Ok(ArgV::Str(vstd::utf8::encode_utf8(self@)))
    }

    fn to_arg(self) -> (r: Result<Arg, Error>) {
        Ok(Arg::Str(vstd::string::StrSliceExecFns::as_bytes_vec(self.as_str())))
    }
}

impl IntoCommandArg for Json {
    open spec fn arg_spec(self) -> Result<ArgV, Error> {
        Ok(ArgV::Doc(self@))
    }

    fn to_arg(self) -> (r: Result<Arg, Error>) {
        Ok(Arg::Doc(self))
    }
}

impl IntoCommandArg for Arg {
    open spec fn arg_spec(self) -> Result<ArgV, Error> {
        Ok(self@)
    }

    fn to_arg(self) -> (r: Result<Arg, Error>) {
        Ok(self)
    }
}

impl<T: IntoCommandArg> IntoCommandArg for (T, Json) {
    open spec fn arg_spec(self) -> Result<ArgV, Error> {
        match self.0.arg_spec() {
            Ok(a) => Ok(ArgV::WithOpts(Box::new(a), self.1@)),
            Err(e) => Err(e),
        }
    }

    fn to_arg(self) -> (r: Result<Arg, Error>) {
        match self.0.to_arg() {
            Ok(a) => Ok(Arg::WithOpts(Box::new(a), self.1)),
            Err(e) => Err(e),
        }
    }
}

/// The term node `[op, [sub?, pos?], opts?]` as a JSON value.
pub open spec fn spec_term_node(
    op: nat,
    pos: Option<JsonV>,
    opts: Option<JsonV>,
    sub: Option<JsonV>,
) -> JsonV {
    let args = (match sub {
        Some(s) => seq![s],
        None => Seq::empty(),
    }) + (match pos {
        Some(p) => seq![p],
        None => Seq::empty(),
    });
    let base = seq![JsonV::UInt(op), JsonV::Arr(args)];
    JsonV::Arr(
        match opts {
            Some(o) => base.push(o),
            None => base,
        },
    )
}

/// What the term builder returns: the term node, or the first error
/// the argument encoder rejected with.
pub open spec fn spec_wrap_cmd(
    op: nat,
    input: Option<Result<ArgV, Error>>,
    sub: Option<JsonV>,
    ma: nat,
) -> Result<JsonV, Error> {
    let enc = match input {
        None => Ok((None, None)),
        Some(Err(e)) => Err(e),
        Some(Ok(a)) => spec_encode_arg(a, ma),
    };
    match enc {
        Err(e) => Err(e),
        Ok((pos, opts)) => Ok(spec_term_node(op, pos, opts, sub)),
    }
}

pub open spec fn view_json_result(r: Result<Json, Error>) -> Result<JsonV, Error> {
    match r {
        Ok(t) => Ok(t@),
        Err(e) => Err(e),
    }
}

pub open spec fn view_input_spec<T: IntoCommandArg>(input: Option<T>) -> Option<
    Result<ArgV, Error>,
> {
    match input {
        Some(t) => Some(t.arg_spec()),
        None => None,
    }
}

pub struct Command;

impl Command {
    /// Assembles a term node from an opcode, an optional argument and
    /// an optional already-built sub-term.
    pub fn wrap<T: IntoCommandArg>(command: u64, input: Option<T>, commands: Option<Json>) -> (r:
        Result<Json, Error>)
        ensures
            view_json_result(r) == spec_wrap_cmd(
                command as nat,
                view_input_spec(input),
                match commands {
                    Some(c) => Some(c@),
                    None => None,
                },
                OP_MAKE_ARRAY as nat,
            ),
    {
        let ghost sub_v: Option<JsonV> = match &commands {
            Some(c) => Some(c@),
            None => None,
        };
        let ghost input_v = view_input_spec(input);
        let enc: (Option<Json>, Option<Json>) = match input {
            None => (None, None),
            Some(t) => match t.to_arg() {
                Ok(a) => match encode_arg(a) {
                    Ok(p) => p,
                    Err(e) => {
                        return Err(e);
                    },
                },
                Err(e) => {
                    return Err(e);
                },
            },
        };
        let (pos, opts) = enc;
        let ghost pos_v: Option<JsonV> = match &pos {
            Some(p) => Some(p@),
            None => None,
        };
        let ghost opts_v: Option<JsonV> = match &opts {
            Some(o) => Some(o@),
            None => None,
        };
        let mut args: Vec<Json> = Vec::new();
        if let Some(c) = commands {
            args.push(c);
        }
        if let Some(p) = pos {
            args.push(p);
        }
        proof {
            crate::json::lemma_view_json_list(args@);
            let spec_args = (match sub_v {
                Some(s) => seq![s],
                None => Seq::<JsonV>::empty(),
            }) + (match pos_v {
                Some(p) => seq![p],
                None => Seq::<JsonV>::empty(),
            });
            match (sub_v, pos_v) {
                (Some(s), Some(p)) => {
                    assert(args@.len() == 2);
                    assert(args@[0]@ == s);
                    assert(args@[1]@ == p);
                    assert(spec_args.len() == 2);
                    assert(spec_args[0] == s);
                    assert(spec_args[1] == p);
                },
                (Some(s), None) => {
                    assert(args@.len() == 1);
                    assert(args@[0]@ == s);
                    assert(spec_args[0] == s);
                },
                (None, Some(p)) => {
                    assert(args@.len() == 1);
                    assert(args@[0]@ == p);
                    assert(spec_args[0] == p);
                },
                (None, None) => {
                    assert(args@.len() == 0);
                },
            }
            assert(view_json_list(args@) =~= spec_args);
        }
        let ghost args_v = view_json_list(args@);
        let mut node: Vec<Json> = Vec::new();
        node.push(Json::UInt(command));
        node.push(Json::Arr(args));
        if let Some(o) = opts {
            node.push(o);
        }
        let r = Json::Arr(node);
        proof {
            crate::json::lemma_view_json_list(node@);
            assert(node@[0]@ == JsonV::UInt(command as nat));
            assert(node@[1]@ == JsonV::Arr(args_v));
            let base = seq![JsonV::UInt(command as nat), JsonV::Arr(args_v)];
            match opts_v {
                Some(o) => {
                    assert(node@.len() == 3);
                    assert(node@[2]@ == o);
                    assert(view_json_list(node@) =~= base.push(o));
                },
                None => {
                    assert(node@.len() == 2);
                    assert(view_json_list(node@) =~= base);
                },
            }
            let expected = spec_wrap_cmd(command as nat, input_v, sub_v, OP_MAKE_ARRAY as nat);
            assert(expected is Ok);
            assert(r@ =~~= expected->Ok_0);
        }
        Ok(r)
    }
}

/// A built term is a JSON array of two or three elements whose first
/// element is the opcode it was built with.
pub proof fn lemma_term_shape(
    op: nat,
    input: Option<Result<ArgV, Error>>,
    sub: Option<JsonV>,
    ma: nat,
)
    ensures
        spec_wrap_cmd(op, input, sub, ma) matches Ok(t) ==> {
            &&& t matches JsonV::Arr(elems)
            &&& elems.len() == 2 || elems.len() == 3
            &&& elems[0] == JsonV::UInt(op)
        },
{
}

} // verus!
