use vstd::prelude::*;
use std::ops::DerefMut;
use crate::store::seq_view;
use crate::StoreError;

verus! {

#[verifier::external_type_specification]
#[verifier::external_body]
pub struct ExCmd(redis::Cmd);

#[verifier::external_type_specification]
#[verifier::external_body]
pub struct ExValue(redis::Value);

#[verifier::external_type_specification]
#[verifier::external_body]
pub struct ExScript(redis::Script);

/// The argument list a command value holds, the command's name first,
/// each argument as the text it was appended from.
pub uninterp spec fn cmd_args(c: redis::Cmd) -> Seq<Seq<char>>;

/// The decimal text an integer is sent as on the wire.
pub uninterp spec fn int_text(a: i64) -> Seq<char>;

/// The source text a script value holds.
pub uninterp spec fn script_text(s: redis::Script) -> Seq<char>;

/// Bounded pool of reusable, authenticated connections to one store
/// instance. The pool's own locking, revalidation and blocking hand-out
/// are r2d2's; this handle only carries it.
#[verifier::external_body]
pub struct ConnSource {
    pool: r2d2::Pool<r2d2_redis::RedisConnectionManager>,
}

/// Relies on r2d2_redis::RedisConnectionManager::new and r2d2::Pool::new:
/// parses `address` and builds a pool of live connections to that store,
/// failing when the address does not parse or the store is unreachable.
#[verifier::external_body]
fn pool_connect(address: &str) -> (r: Result<ConnSource, StoreError>)
    ensures
        r matches Err(e) ==> e == StoreError::Pool,
{
    let manager = match r2d2_redis::RedisConnectionManager::new(address) {
        Ok(m) => m,
        Err(_) => return Err(StoreError::Pool),
    };
    match r2d2::Pool::new(manager) {
        Ok(pool) => Ok(ConnSource { pool }),
        Err(_) => Err(StoreError::Pool),
    }
}

/// Relies on redis::cmd: starts a command holding `name` as its single,
/// first argument.
#[verifier::external_body]
fn cmd_new(name: &str) -> (r: redis::Cmd)
    ensures
        cmd_args(r) == seq![name@],
{
    redis::cmd(name)
}

/// Relies on redis::Cmd::arg: appends one text argument to the command.
#[verifier::external_body]
fn cmd_arg_str(cmd: &mut redis::Cmd, a: &str)
    ensures
        cmd_args(*final(cmd)) == cmd_args(*old(cmd)).push(a@),
{
    cmd.arg(a);
}

/// Relies on redis::Cmd::arg: appends one integer argument, sent as its
/// decimal text.
#[verifier::external_body]
fn cmd_arg_int(cmd: &mut redis::Cmd, a: i64)
    ensures
        cmd_args(*final(cmd)) == cmd_args(*old(cmd)).push(int_text(a)),
{
    cmd.arg(a);
}

/// Relies on r2d2::Pool::get and redis::Cmd::query: borrows one pooled
/// connection for the single round trip, sends the command, and returns
/// the store's raw reply. A failure to obtain a connection is `Pool`; a
/// transport or store-reported failure is `Command`.
#[verifier::external_body]
fn conn_query(conns: &ConnSource, cmd: &redis::Cmd) -> (r: Result<redis::Value, StoreError>)
    ensures
        r matches Err(e) ==> e == StoreError::Pool || e == StoreError::Command,
{
    let mut conn = match conns.pool.get() {
        Ok(c) => c,
        Err(_) => return Err(StoreError::Pool),
    };
    cmd.query::<redis::Value>(conn.deref_mut()).map_err(|_| StoreError::Command)
}

/// Relies on the nil variant of redis::Value and on redis::from_redis_value
/// for String: a nil reply is a missing key or field (`Absent`); any other
/// reply that cannot be read as text is `TypeConversion`.
#[verifier::external_body]
fn value_to_string_absent(v: redis::Value) -> (r: Result<String, StoreError>)
    ensures
        r matches Err(e) ==> e == StoreError::TypeConversion || e == StoreError::Absent,
{
    if let redis::Value::Nil = v {
        return Err(StoreError::Absent);
    }
    redis::from_redis_value::<String>(&v).map_err(|_| StoreError::TypeConversion)
}

/// Relies on redis::from_redis_value for bool: reads a reply as a truth
/// value under redis's documented conversion (0/1, "0"/"1", nil is false).
#[verifier::external_body]
fn value_to_bool(v: redis::Value) -> (r: Result<bool, StoreError>)
    ensures
        r matches Err(e) ==> e == StoreError::TypeConversion,
{
    redis::from_redis_value::<bool>(&v).map_err(|_| StoreError::TypeConversion)
}

/// Relies on redis::from_redis_value for i64: reads an integer reply.
#[verifier::external_body]
fn value_to_int(v: redis::Value) -> (r: Result<i64, StoreError>)
    ensures
        r matches Err(e) ==> e == StoreError::TypeConversion,
{
    redis::from_redis_value::<i64>(&v).map_err(|_| StoreError::TypeConversion)
}

/// Relies on redis::from_redis_value for Vec<String>: reads a bulk reply
/// as a sequence of texts; a nil reply reads as the empty sequence.
#[verifier::external_body]
fn value_to_string_vec(v: redis::Value) -> (r: Result<Vec<String>, StoreError>)
    ensures
        r matches Err(e) ==> e == StoreError::TypeConversion,
{
    redis::from_redis_value::<Vec<String>>(&v).map_err(|_| StoreError::TypeConversion)
}

/// Relies on redis::Script::new: stores exactly the given source text and
/// computes its content hash; nothing is sent to the store yet.
#[verifier::external_body]
fn script_new(source: &str) -> (r: redis::Script)
    ensures
        script_text(r) == source@,
{
    redis::Script::new(source)
}

/// Relies on redis::Script::arg, redis::ScriptInvocation::invoke and
/// r2d2::Pool::get: runs the script atomically on the store with `key`
/// and `payload` bound as its two positional arguments, reading the reply
/// as a truth value.
#[verifier::external_body]
fn script_run(conns: &ConnSource, script: &redis::Script, key: &str, payload: &str) -> (r: Result<
    bool,
    StoreError,
>)
    ensures
        r matches Err(e) ==> e == StoreError::Pool || e == StoreError::Command || e
            == StoreError::TypeConversion,
{
    let mut conn = match conns.pool.get() {
        Ok(c) => c,
        Err(_) => return Err(StoreError::Pool),
    };
    script.arg(key).arg(payload).invoke::<bool>(conn.deref_mut()).map_err(
        |e| if e.kind() == redis::ErrorKind::TypeError {
            StoreError::TypeConversion
        } else {
            StoreError::Command
        },
    )
}

/// Pooled client to the remote store: a bounded connection pool plus an
/// optional server-side script loaded once at construction. The handle
/// holds no per-call state and is shared read-only by concurrent callers.
pub struct RedisPool {
    conns: ConnSource,
    script: Option<redis::Script>,
}

impl RedisPool {
    /// The source text of the script loaded at construction, if one was.
    /// The field is never written after construction, so this never
    /// changes over the client's lifetime.
    pub closed spec fn loaded_script(self) -> Option<Seq<char>> {
        match self.script {
            Some(s) => Some(script_text(s)),
            None => None,
        }
    }

    /// Whether a script was loaded at construction.
    pub open spec fn has_script(self) -> bool {
        self.loaded_script() is Some
    }

    /// Sends a fully built command, whose argument list must be exactly
    /// `expected`, over one pooled connection.
    fn send(&self, c: &redis::Cmd, expected: Ghost<Seq<Seq<char>>>) -> (r: Result<
        redis::Value,
        StoreError,
    >)
        requires
            cmd_args(*c) == expected@,
        ensures
            r matches Err(e) ==> e == StoreError::Pool || e == StoreError::Command,
    {
        conn_query(&self.conns, c)
    }

    /// Connects to the store at `address` with no script loaded.
    pub fn new(address: &str) -> (r: Result<RedisPool, StoreError>)
        ensures
            r matches Ok(p) ==> p.loaded_script() is None,
            r matches Err(e) ==> e == StoreError::Pool,
    {
        match pool_connect(address) {
            Ok(conns) => Ok(RedisPool { conns, script: None }),
            Err(e) => Err(e),
        }
    }

    /// Connects to the store at `address` and loads the script whose
    /// source is exactly `script_source`; it is never reloaded.
    pub fn new_with_script(address: &str, script_source: &str) -> (r: Result<
        RedisPool,
        StoreError,
    >)
        ensures
            r matches Ok(p) ==> p.loaded_script() == Some(script_source@),
            r matches Err(e) ==> e == StoreError::Pool,
    {
        match pool_connect(address) {
            Ok(conns) => Ok(RedisPool { conns, script: Some(script_new(script_source)) }),
            Err(e) => Err(e),
        }
    }

    /// Sends `keys pattern`: enumerates the keys matching the glob
    /// `pattern`. The reply is the store's point-in-time, non-atomic
    /// snapshot: exact on a quiescent store, an under- or
    /// over-approximation under concurrent mutation.
    pub fn keys(&self, pattern: &str) -> (r: Result<Vec<String>, StoreError>)
        ensures
            r matches Err(e) ==> e != StoreError::NoScript && e != StoreError::Absent,
    {
        let mut c = cmd_new("keys");
        cmd_arg_str(&mut c, pattern);
        let ghost expected: Seq<Seq<char>> = seq!["keys"@, pattern@];
        proof {
            assert(cmd_args(c) =~= expected);
        }
        let res = self.send(&c, Ghost(expected));
        match res {
            Ok(v) => value_to_string_vec(v),
            Err(e) => Err(e),
        }
    }

    /// Sends `exists redis_key`: whether `redis_key` is a live key.
    pub fn exists_key(&self, redis_key: &str) -> (r: Result<bool, StoreError>)
        ensures
            r matches Err(e) ==> e != StoreError::NoScript && e != StoreError::Absent,
    {
        let mut c = cmd_new("exists");
        cmd_arg_str(&mut c, redis_key);
        let ghost expected: Seq<Seq<char>> = seq!["exists"@, redis_key@];
        proof {
            assert(cmd_args(c) =~= expected);
        }
        let res = self.send(&c, Ghost(expected));
        match res {
            Ok(v) => value_to_bool(v),
            Err(e) => Err(e),
        }
    }

    /// Sends `expire redis_key sec`: sets a time-to-live of `sec` seconds
    /// on `redis_key`; repeating the call leaves the most recent value,
    /// with no accumulation.
    pub fn expire(&self, redis_key: &str, sec: i64) -> (r: Result<(), StoreError>)
        ensures
            r matches Err(e) ==> e == StoreError::Pool || e == StoreError::Command,
    {
        let mut c = cmd_new("expire");
        cmd_arg_str(&mut c, redis_key);
        cmd_arg_int(&mut c, sec);
        let ghost expected: Seq<Seq<char>> = seq!["expire"@, redis_key@, int_text(sec)];
        proof {
            assert(cmd_args(c) =~= expected);
        }
        let res = self.send(&c, Ghost(expected));
        match res {
            Ok(_) => Ok(()),
            Err(e) => Err(e),
        }
    }

    /// Sends `del k1 k2 …` over every key of `redis_keys` in one command;
    /// reports whether at least one was live. Deleting missing keys is no
    /// error.
    pub fn del(&self, redis_keys: &Vec<String>) -> (r: Result<bool, StoreError>)
        ensures
            r matches Err(e) ==> e != StoreError::NoScript && e != StoreError::Absent,
    {
        let mut c = cmd_new("del");
        let mut i: usize = 0;
        proof {
            assert(cmd_args(c) =~= seq!["del"@] + seq_view(redis_keys@).take(0));
        }
        while i < redis_keys.len()
            invariant
                i <= redis_keys@.len(),
                cmd_args(c) == seq!["del"@] + seq_view(redis_keys@).take(i as int),
            decreases redis_keys@.len() - i,
        {
            cmd_arg_str(&mut c, redis_keys[i].as_str());
            proof {
                assert(seq_view(redis_keys@).take(i as int).push(redis_keys@[i as int]@)
                    =~= seq_view(redis_keys@).take(i as int + 1));
                assert((seq!["del"@] + seq_view(redis_keys@).take(i as int)).push(
                    redis_keys@[i as int]@,
                ) =~= seq!["del"@] + seq_view(redis_keys@).take(i as int + 1));
            }
            i += 1;
        }
        let ghost expected: Seq<Seq<char>> = seq!["del"@] + seq_view(redis_keys@);
        proof {
            assert(seq_view(redis_keys@).take(redis_keys@.len() as int) =~= seq_view(
                redis_keys@,
            ));
        }
        let res = self.send(&c, Ghost(expected));
        match res {
            Ok(v) => value_to_bool(v),
            Err(e) => Err(e),
        }
    }

    /// Sends `set redis_key value`: writes scalar `value` under
    /// `redis_key`.
    pub fn set(&self, redis_key: &str, value: &str) -> (r: Result<(), StoreError>)
        ensures
            r matches Err(e) ==> e == StoreError::Pool || e == StoreError::Command,
    {
        let mut c = cmd_new("set");
        cmd_arg_str(&mut c, redis_key);
        cmd_arg_str(&mut c, value);
        let ghost expected: Seq<Seq<char>> = seq!["set"@, redis_key@, value@];
        proof {
            assert(cmd_args(c) =~= expected);
        }
        let res = self.send(&c, Ghost(expected));
        match res {
            Ok(_) => Ok(()),
            Err(e) => Err(e),
        }
    }

    /// Sends `get redis_key`: reads the scalar value of `redis_key`. A
    /// missing key is `Absent`; a value of another shape is
    /// `TypeConversion` — never a silent default, never conflated.
    pub fn get(&self, redis_key: &str) -> (r: Result<String, StoreError>)
        ensures
            r matches Err(e) ==> e != StoreError::NoScript,
    {
        let mut c = cmd_new("get");
        cmd_arg_str(&mut c, redis_key);
        let ghost expected: Seq<Seq<char>> = seq!["get"@, redis_key@];
        proof {
            assert(cmd_args(c) =~= expected);
        }
        let res = self.send(&c, Ghost(expected));
        match res {
            Ok(v) => value_to_string_absent(v),
            Err(e) => Err(e),
        }
    }

    /// Sends `hset redis_key hash_key value`: sets field `hash_key` of
    /// the hash under `redis_key` to `value`.
    pub fn hset(&self, redis_key: &str, hash_key: &str, value: &str) -> (r: Result<
        (),
        StoreError,
    >)
        ensures
            r matches Err(e) ==> e == StoreError::Pool || e == StoreError::Command,
    {
        let mut c = cmd_new("hset");
        cmd_arg_str(&mut c, redis_key);
        cmd_arg_str(&mut c, hash_key);
        cmd_arg_str(&mut c, value);
        let ghost expected: Seq<Seq<char>> = seq!["hset"@, redis_key@, hash_key@, value@];
        proof {
            assert(cmd_args(c) =~= expected);
        }
        let res = self.send(&c, Ghost(expected));
        match res {
            Ok(_) => Ok(()),
            Err(e) => Err(e),
        }
    }

    /// Sends `hdel redis_key hash_key`: deletes field `hash_key` of the
    /// hash under `redis_key`.
    pub fn hdel(&self, redis_key: &str, hash_key: &str) -> (r: Result<(), StoreError>)
        ensures
            r matches Err(e) ==> e == StoreError::Pool || e == StoreError::Command,
    {
        let mut c = cmd_new("hdel");
        cmd_arg_str(&mut c, redis_key);
        cmd_arg_str(&mut c, hash_key);
        let ghost expected: Seq<Seq<char>> = seq!["hdel"@, redis_key@, hash_key@];
        proof {
            assert(cmd_args(c) =~= expected);
        }
        let res = self.send(&c, Ghost(expected));
        match res {
            Ok(_) => Ok(()),
            Err(e) => Err(e),
        }
    }

    /// Sends `hget redis_key hash_key`: reads field `hash_key` of the
    /// hash under `redis_key`. A missing key or field is `Absent`, kept
    /// apart from `TypeConversion`.
    pub fn hget(&self, redis_key: &str, hash_key: &str) -> (r: Result<String, StoreError>)
        ensures
            r matches Err(e) ==> e != StoreError::NoScript,
    {
        let mut c = cmd_new("hget");
        cmd_arg_str(&mut c, redis_key);
        cmd_arg_str(&mut c, hash_key);
        let ghost expected: Seq<Seq<char>> = seq!["hget"@, redis_key@, hash_key@];
        proof {
            assert(cmd_args(c) =~= expected);
        }
        let res = self.send(&c, Ghost(expected));
        match res {
            Ok(v) => value_to_string_absent(v),
            Err(e) => Err(e),
        }
    }

    /// Sends `hexists redis_key hash_key`: whether the hash under
    /// `redis_key` has field `hash_key`.
    pub fn hexists(&self, redis_key: &str, hash_key: &str) -> (r: Result<bool, StoreError>)
        ensures
            r matches Err(e) ==> e != StoreError::NoScript && e != StoreError::Absent,
    {
        let mut c = cmd_new("hexists");
        cmd_arg_str(&mut c, redis_key);
        cmd_arg_str(&mut c, hash_key);
        let ghost expected: Seq<Seq<char>> = seq!["hexists"@, redis_key@, hash_key@];
        proof {
            assert(cmd_args(c) =~= expected);
        }
        let res = self.send(&c, Ghost(expected));
        match res {
            Ok(v) => value_to_bool(v),
            Err(e) => Err(e),
        }
    }

    /// Sends `lpush redis_key value`: prepends `value` to the list under
    /// `redis_key`.
    pub fn lpush(&self, redis_key: &str, value: &str) -> (r: Result<(), StoreError>)
        ensures
            r matches Err(e) ==> e == StoreError::Pool || e == StoreError::Command,
    {
        let mut c = cmd_new("lpush");
        cmd_arg_str(&mut c, redis_key);
        cmd_arg_str(&mut c, value);
        let ghost expected: Seq<Seq<char>> = seq!["lpush"@, redis_key@, value@];
        proof {
            assert(cmd_args(c) =~= expected);
        }
        let res = self.send(&c, Ghost(expected));
        match res {
            Ok(_) => Ok(()),
            Err(e) => Err(e),
        }
    }

    /// Sends `llen redis_key`: the length of the list under `redis_key`.
    pub fn llen(&self, redis_key: &str) -> (r: Result<i64, StoreError>)
        ensures
            r matches Err(e) ==> e != StoreError::NoScript && e != StoreError::Absent,
    {
        let mut c = cmd_new("llen");
        cmd_arg_str(&mut c, redis_key);
        let ghost expected: Seq<Seq<char>> = seq!["llen"@, redis_key@];
        proof {
            assert(cmd_args(c) =~= expected);
        }
        let res = self.send(&c, Ghost(expected));
        match res {
            Ok(v) => value_to_int(v),
            Err(e) => Err(e),
        }
    }

    /// Sends `ltrim redis_key start stop`: keeps only the inclusive range
    /// `[start, stop]` of the list under `redis_key`; negative indices
    /// count from the end.
    pub fn ltrim(&self, redis_key: &str, start: i64, stop: i64) -> (r: Result<(), StoreError>)
        ensures
            r matches Err(e) ==> e == StoreError::Pool || e == StoreError::Command,
    {
        let mut c = cmd_new("ltrim");
        cmd_arg_str(&mut c, redis_key);
        cmd_arg_int(&mut c, start);
        cmd_arg_int(&mut c, stop);
        let ghost expected: Seq<Seq<char>> = seq!["ltrim"@, redis_key@, int_text(start), int_text(stop)];
        proof {
            assert(cmd_args(c) =~= expected);
        }
        let res = self.send(&c, Ghost(expected));
        match res {
            Ok(_) => Ok(()),
            Err(e) => Err(e),
        }
    }

    /// Sends `lrem redis_key count value`: removes occurrences of `value`
    /// from the list under `redis_key` — from the head for a positive
    /// `count`, from the tail for a negative one, all of them for zero.
    pub fn lrem(&self, redis_key: &str, count: i64, value: &str) -> (r: Result<(), StoreError>)
        ensures
            r matches Err(e) ==> e == StoreError::Pool || e == StoreError::Command,
    {
        let mut c = cmd_new("lrem");
        cmd_arg_str(&mut c, redis_key);
        cmd_arg_int(&mut c, count);
        cmd_arg_str(&mut c, value);
        let ghost expected: Seq<Seq<char>> = seq!["lrem"@, redis_key@, int_text(count), value@];
        proof {
            assert(cmd_args(c) =~= expected);
        }
        let res = self.send(&c, Ghost(expected));
        match res {
            Ok(_) => Ok(()),
            Err(e) => Err(e),
        }
    }

    /// Sends `lrange redis_key start stop`: reads the inclusive range
    /// `[start, stop]` of the list under `redis_key`; negative indices
    /// count from the end.
    pub fn lrange(&self, redis_key: &str, start: i64, stop: i64) -> (r: Result<
        Vec<String>,
        StoreError,
    >)
        ensures
            r matches Err(e) ==> e != StoreError::NoScript && e != StoreError::Absent,
    {
        let mut c = cmd_new("lrange");
        cmd_arg_str(&mut c, redis_key);
        cmd_arg_int(&mut c, start);
        cmd_arg_int(&mut c, stop);
        let ghost expected: Seq<Seq<char>> = seq![
            "lrange"@,
            redis_key@,
            int_text(start),
            int_text(stop),
        ];
        proof {
            assert(cmd_args(c) =~= expected);
        }
        let res = self.send(&c, Ghost(expected));
        match res {
            Ok(v) => value_to_string_vec(v),
            Err(e) => Err(e),
        }
    }

    /// Runs a script whose source must be exactly the text loaded at
    /// construction, with `key` and `payload` as its two positional
    /// arguments.
    fn invoke_loaded(&self, s: &redis::Script, key: &str, payload: &str, expected: Ghost<
        Seq<char>,
    >) -> (r: Result<bool, StoreError>)
        requires
            self.loaded_script() == Some(expected@),
            script_text(*s) == expected@,
        ensures
            r matches Err(e) ==> e == StoreError::Pool || e == StoreError::Command || e
                == StoreError::TypeConversion,
    {
        script_run(&self.conns, s, key, payload)
    }

    /// Runs the script loaded at construction — exactly that one, never
    /// reloaded — atomically, with `redis_key` and `ip` as its two
    /// positional arguments. Invoking with no script loaded fails with
    /// `NoScript` — deterministically, and only then.
    pub fn lua_push(&self, redis_key: &str, ip: &str) -> (r: Result<bool, StoreError>)
        ensures
            (r == Err::<bool, StoreError>(StoreError::NoScript)) <==> !self.has_script(),
    {
        match &self.script {
            None => Err(StoreError::NoScript),
            Some(s) => {
                let ghost txt: Seq<char> = self.loaded_script()->Some_0;
                self.invoke_loaded(s, redis_key, ip, Ghost(txt))
            },
        }
    }
}

/// Marker under which a host framework keeps the process-wide shared
/// client handle; the binding to a concrete framework's extension map
/// lives with the host.
pub struct Redis;

} // verus!
