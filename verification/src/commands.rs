use vstd::prelude::*;

use crate::config::SessionConfig;
use crate::errors::Error;
use crate::json::{json_bytes, spec_json_bytes, view_json_fields, view_json_list, Json, JsonV};
use crate::opcodes::{
    query_start, term_contains, term_db, term_db_create, term_db_drop, term_delete, term_filter,
    term_get, term_get_all, term_index_create, term_index_drop, term_insert, term_limit,
    term_order_by, term_replace, term_table, term_table_create, term_table_drop, term_update,
    term_without, OP_CONTAINS, OP_DB, OP_DB_CREATE, OP_DB_DROP, OP_DELETE, OP_FILTER, OP_GET,
    OP_GET_ALL, OP_INDEX_CREATE, OP_INDEX_DROP, OP_INSERT, OP_LIMIT, OP_MAKE_ARRAY, OP_ORDER_BY,
    OP_REPLACE, OP_TABLE, OP_TABLE_CREATE, OP_TABLE_DROP, OP_UPDATE, OP_WITHOUT, QT_START,
};
use crate::query::{spec_query_env, Query};
use crate::term::{
    encode_arg, spec_encode_arg, spec_wrap_cmd, view_json_result, Arg, ArgV, Command,
    IntoCommandArg,
};
use vstd::utf8::encode_utf8;

verus! {

/// A command chain under construction: the term built so far, or the
/// first error met while building it.
pub struct RootCommand(pub Result<Json, Error>);

pub open spec fn view_root(r: RootCommand) -> Result<JsonV, Error> {
    view_json_result(r.0)
}

/// A term with one argument and no sub-term.
pub open spec fn spec_command(op: nat, arg: Result<ArgV, Error>) -> Result<JsonV, Error> {
    spec_wrap_cmd(op, Some(arg), None, OP_MAKE_ARRAY as nat)
}

/// A term chained onto an already-built command: the command becomes
/// the first argument, the new argument the second.
pub open spec fn spec_chain(op: nat, cmd: Result<JsonV, Error>, arg: Result<ArgV, Error>) -> Result<
    JsonV,
    Error,
> {
    match cmd {
        Err(e) => Err(e),
        Ok(t) => spec_wrap_cmd(op, Some(arg), Some(t), OP_MAKE_ARRAY as nat),
    }
}

/// What `expr` evaluates to: the encoded positional value itself.
pub open spec fn spec_expr(arg: Result<ArgV, Error>) -> Result<JsonV, Error> {
    match arg {
        Err(e) => Err(e),
        Ok(a) => match spec_encode_arg(a, OP_MAKE_ARRAY as nat) {
            Err(e) => Err(e),
            Ok((Some(p), _)) => Ok(p),
            Ok((None, _)) => Ok(JsonV::Null),
        },
    }
}

impl RootCommand {
    /// Chains one more command onto this one.
    fn chain<T: IntoCommandArg>(self, op: u64, arg: T) -> (r: RootCommand)
        ensures
            view_root(r) == spec_chain(op as nat, view_root(self), arg.arg_spec()),
    {
        match self.0 {
            Err(e) => RootCommand(Err(e)),
            Ok(t) => RootCommand(Command::wrap(op, Some(arg), Some(t))),
        }
    }

    pub fn table_create<T: IntoCommandArg>(self, arg: T) -> (r: RootCommand)
        ensures
            view_root(r) == spec_chain(OP_TABLE_CREATE as nat, view_root(self), arg.arg_spec()),
    {
        let op = term_table_create();
        self.chain(op, arg)
    }

    pub fn table_drop<T: IntoCommandArg>(self, arg: T) -> (r: RootCommand)
        ensures
            view_root(r) == spec_chain(OP_TABLE_DROP as nat, view_root(self), arg.arg_spec()),
    {
        let op = term_table_drop();
        self.chain(op, arg)
    }

    pub fn table<T: IntoCommandArg>(self, arg: T) -> (r: RootCommand)
        ensures
            view_root(r) == spec_chain(OP_TABLE as nat, view_root(self), arg.arg_spec()),
    {
        let op = term_table();
        self.chain(op, arg)
    }

    pub fn index_drop<T: IntoCommandArg>(self, arg: T) -> (r: RootCommand)
        ensures
            view_root(r) == spec_chain(OP_INDEX_DROP as nat, view_root(self), arg.arg_spec()),
    {
        let op = term_index_drop();
        self.chain(op, arg)
    }

    pub fn index_create<T: IntoCommandArg>(self, arg: T) -> (r: RootCommand)
        ensures
            view_root(r) == spec_chain(OP_INDEX_CREATE as nat, view_root(self), arg.arg_spec()),
    {
        let op = term_index_create();
        self.chain(op, arg)
    }

    pub fn replace<T: IntoCommandArg>(self, arg: T) -> (r: RootCommand)
        ensures
            view_root(r) == spec_chain(OP_REPLACE as nat, view_root(self), arg.arg_spec()),
    {
        let op = term_replace();
        self.chain(op, arg)
    }

    pub fn update<T: IntoCommandArg>(self, arg: T) -> (r: RootCommand)
        ensures
            view_root(r) == spec_chain(OP_UPDATE as nat, view_root(self), arg.arg_spec()),
    {
        let op = term_update();
        self.chain(op, arg)
    }

    pub fn order_by<T: IntoCommandArg>(self, arg: T) -> (r: RootCommand)
        ensures
            view_root(r) == spec_chain(OP_ORDER_BY as nat, view_root(self), arg.arg_spec()),
    {
        let op = term_order_by();
        self.chain(op, arg)
    }

    pub fn without<T: IntoCommandArg>(self, arg: T) -> (r: RootCommand)
        ensures
            view_root(r) == spec_chain(OP_WITHOUT as nat, view_root(self), arg.arg_spec()),
    {
        let op = term_without();
        self.chain(op, arg)
    }

    pub fn contains<T: IntoCommandArg>(self, arg: T) -> (r: RootCommand)
        ensures
            view_root(r) == spec_chain(OP_CONTAINS as nat, view_root(self), arg.arg_spec()),
    {
        let op = term_contains();
        self.chain(op, arg)
    }

    pub fn limit<T: IntoCommandArg>(self, arg: T) -> (r: RootCommand)
        ensures
            view_root(r) == spec_chain(OP_LIMIT as nat, view_root(self), arg.arg_spec()),
    {
        let op = term_limit();
        self.chain(op, arg)
    }

    pub fn get<T: IntoCommandArg>(self, arg: T) -> (r: RootCommand)
        ensures
            view_root(r) == spec_chain(OP_GET as nat, view_root(self), arg.arg_spec()),
    {
        let op = term_get();
        self.chain(op, arg)
    }

    pub fn get_all<T: IntoCommandArg>(self, arg: T) -> (r: RootCommand)
        ensures
            view_root(r) == spec_chain(OP_GET_ALL as nat, view_root(self), arg.arg_spec()),
    {
        let op = term_get_all();
        self.chain(op, arg)
    }

    pub fn filter<T: IntoCommandArg>(self, arg: T) -> (r: RootCommand)
        ensures
            view_root(r) == spec_chain(OP_FILTER as nat, view_root(self), arg.arg_spec()),
    {
        let op = term_filter();
        self.chain(op, arg)
    }

    pub fn insert<T: IntoCommandArg>(self, arg: T) -> (r: RootCommand)
        ensures
            view_root(r) == spec_chain(OP_INSERT as nat, view_root(self), arg.arg_spec()),
    {
        let op = term_insert();
        self.chain(op, arg)
    }

    /// Chains a delete, which takes no argument.
    pub fn delete(self) -> (r: RootCommand)
        ensures
            view_root(r) == (match view_root(self) {
                Err(e) => Err(e),
                Ok(t) => spec_wrap_cmd(
                    OP_DELETE as nat,
                    None,
                    Some(t),
                    OP_MAKE_ARRAY as nat,
                ),
            }),
    {
        match self.0 {
            Err(e) => RootCommand(Err(e)),
            Ok(t) => {
                let op = term_delete();
                RootCommand(Command::wrap(op, None::<Arg>, Some(t)))
            },
        }
    }

    /// The canonical JSON bytes of the term built so far.
    pub fn term_bytes(self) -> (r: Result<Vec<u8>, Error>)
        ensures
            (match view_root(self) {
                Err(e) => r == Err::<Vec<u8>, Error>(e),
                Ok(t) => r matches Ok(b) && b@ == spec_json_bytes(t),
            }),
    {
        match self.0 {
            Err(e) => Err(e),
            Ok(t) => Ok(json_bytes(&t)),
        }
    }

    /// The bytes of the whole start envelope for this command: the
    /// term wrapped under the start query type, serialized.
    pub fn envelope(self) -> (r: Result<Vec<u8>, Error>)
        ensures
            (match view_root(self) {
                Err(e) => r == Err::<Vec<u8>, Error>(e),
                Ok(t) => r matches Ok(b) && b@ == spec_json_bytes(
                    spec_query_env(QT_START as nat, Some(t), None),
                ),
            }),
    {
        match self.0 {
            Err(e) => Err(e),
            Ok(t) => {
                let qt = query_start();
                let env = Query::wrap(qt, Some(t), None);
                Ok(json_bytes(&env))
            },
        }
    }
}

impl IntoCommandArg for RootCommand {
    open spec fn arg_spec(self) -> Result<ArgV, Error> {
        match self.0 {
            Ok(t) => Ok(ArgV::Sub(t@)),
            Err(e) => Err(e),
        }
    }

    fn to_arg(self) -> (r: Result<Arg, Error>) {
        match self.0 {
            Ok(t) => Ok(Arg::Sub(t)),
            Err(e) => Err(e),
        }
    }
}

/// The fluent entry point, carrying the session configuration.
pub struct Client {
    pub config: SessionConfig,
}

impl Client {
    pub fn new(config: SessionConfig) -> (r: Client)
        ensures
            r.config == config,
    {
        Client { config }
    }

    /// A copy of the session configuration.
    pub fn connection(&self) -> (r: SessionConfig)
        ensures
            r == self.config,
    {
        SessionConfig {
            host: self.config.host.clone(),
            port: self.config.port,
            db: self.config.db.clone(),
            user: self.config.user.clone(),
            password: self.config.password.clone(),
            timeout_secs: self.config.timeout_secs,
            retries: self.config.retries,
        }
    }

    /// Evaluates a bare value into a command.
    pub fn expr<T: IntoCommandArg>(&self, e: T) -> (r: RootCommand)
        ensures
            view_root(r) == spec_expr(e.arg_spec()),
    {
        match e.to_arg() {
            Err(e) => RootCommand(Err(e)),
            Ok(a) => match encode_arg(a) {
                Err(e) => RootCommand(Err(e)),
                Ok((Some(p), _)) => RootCommand(Ok(p)),
                Ok((None, _)) => RootCommand(Ok(Json::Null)),
            },
        }
    }

    pub fn db_create<T: IntoCommandArg>(&self, name: T) -> (r: RootCommand)
        ensures
            view_root(r) == spec_command(OP_DB_CREATE as nat, name.arg_spec()),
    {
        let op = term_db_create();
        RootCommand(Command::wrap(op, Some(name), None))
    }

    pub fn db_drop<T: IntoCommandArg>(&self, name: T) -> (r: RootCommand)
        ensures
            view_root(r) == spec_command(OP_DB_DROP as nat, name.arg_spec()),
    {
        let op = term_db_drop();
        RootCommand(Command::wrap(op, Some(name), None))
    }

    pub fn db<T: IntoCommandArg>(&self, name: T) -> (r: RootCommand)
        ensures
            view_root(r) == spec_command(OP_DB as nat, name.arg_spec()),
    {
        let op = term_db();
        RootCommand(Command::wrap(op, Some(name), None))
    }

    /// `table_create` on the session's default database.
    pub fn table_create<T: IntoCommandArg>(&self, name: T) -> (r: RootCommand)
        ensures
            view_root(r) == spec_chain(
                OP_TABLE_CREATE as nat,
                spec_command(OP_DB as nat, Ok(ArgV::Str(encode_utf8(self.config.db@)))),
                name.arg_spec(),
            ),
    {
        let db_name = self.config.db.clone();
        let base = self.db(db_name);
        base.table_create(name)
    }

    /// `table` on the session's default database.
    pub fn table<T: IntoCommandArg>(&self, name: T) -> (r: RootCommand)
        ensures
            view_root(r) == spec_chain(
                OP_TABLE as nat,
                spec_command(OP_DB as nat, Ok(ArgV::Str(encode_utf8(self.config.db@)))),
                name.arg_spec(),
            ),
    {
        let db_name = self.config.db.clone();
        let base = self.db(db_name);
        base.table(name)
    }

    /// `table_drop` on the session's default database.
    pub fn table_drop<T: IntoCommandArg>(&self, name: T) -> (r: RootCommand)
        ensures
            view_root(r) == spec_chain(
                OP_TABLE_DROP as nat,
                spec_command(OP_DB as nat, Ok(ArgV::Str(encode_utf8(self.config.db@)))),
                name.arg_spec(),
            ),
    {
        let db_name = self.config.db.clone();
        let base = self.db(db_name);
        base.table_drop(name)
    }

    /// An empty object builder.
    pub fn object(&self) -> (r: ObjectBuilder)
        ensures
            r.fields@.len() == 0,
    {
        ObjectBuilder { fields: Vec::new() }
    }

    /// An empty array builder.
    pub fn array(&self) -> (r: ArrayBuilder)
        ensures
            r.elems@.len() == 0,
    {
        ArrayBuilder { elems: Vec::new() }
    }
}

/// Builds a JSON object member by member.
pub struct ObjectBuilder {
    pub fields: Vec<(Vec<u8>, Json)>,
}

impl ObjectBuilder {
    pub fn insert(self, key: &str, value: Json) -> (r: ObjectBuilder)
        ensures
            view_json_fields(r.fields@) == view_json_fields(self.fields@).push(
                (encode_utf8(key@), value@),
            ),
    {
        let k = vstd::string::StrSliceExecFns::as_bytes_vec(key);
        let ghost before = self.fields@;
        let mut fields = self.fields;
        fields.push((k, value));
        proof {
            assert(fields@.subrange(0, fields@.len() - 1) =~= before);
        }
        ObjectBuilder { fields }
    }

    pub fn build(self) -> (r: Json)
        ensures
            r@ == JsonV::Obj(view_json_fields(self.fields@)),
    {
        Json::Obj(self.fields)
    }
}

/// Builds a JSON array element by element.
pub struct ArrayBuilder {
    pub elems: Vec<Json>,
}

impl ArrayBuilder {
    pub fn push(self, value: Json) -> (r: ArrayBuilder)
        ensures
            view_json_list(r.elems@) == view_json_list(self.elems@).push(value@),
    {
        let ghost before = self.elems@;
        let mut elems = self.elems;
        elems.push(value);
        proof {
            assert(elems@.subrange(0, elems@.len() - 1) =~= before);
        }
        ArrayBuilder { elems }
    }

    pub fn build(self) -> (r: Json)
        ensures
            r@ == JsonV::Arr(view_json_list(self.elems@)),
    {
        Json::Arr(self.elems)
    }
}

} // verus!
