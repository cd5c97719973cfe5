use vstd::prelude::*;
use crate::peek_core::{io_error_for, lemma_convert_io_error, EnvVar, PeekError};
use crate::proc_reader::environ::{environ_entries, read_environ, EnvironEntry};
use crate::proc_reader::error::{IoFailure};
use crate::sort::{
    key_order_total, lemma_lex_le_total, lemma_lex_le_trans, lemma_stable_sorted, lex_le, sorted_by_key,
    stable_sort, stable_sorted, views, SortKey,
};
use crate::text::{
    byte_len, chars_byte_len, chars_contains, chars_of, contains_seq, has_prefix_str, starts_with,
    string_from, to_uppercase, trim, trim_chars, uppercase,
};

verus! {

impl SortKey for EnvVar {
    open spec fn key_le(a: (Seq<char>, Seq<char>, bool), b: (Seq<char>, Seq<char>, bool)) -> bool {
        lex_le(a.0, b.0)
    }

    fn key_le_exec(&self, other: &Self) -> (r: bool) {
        let a = chars_of(self.key.as_str());
        let b = chars_of(other.key.as_str());
        crate::sort::chars_le(&a, &b)
    }
}

/// Whether an upper-cased key names a secret: it holds one of the patterns
/// of secret-ish variable names.
pub open spec fn key_names_secret(upper: Seq<char>) -> bool {
    ||| contains_seq(upper, "PASSWORD"@)
    ||| contains_seq(upper, "PASSWD"@)
    ||| contains_seq(upper, "PWD"@)
    ||| contains_seq(upper, "SECRET"@)
    ||| contains_seq(upper, "TOKEN"@)
    ||| contains_seq(upper, "API_KEY"@)
    ||| contains_seq(upper, "APIKEY"@)
    ||| contains_seq(upper, "AUTH"@)
    ||| contains_seq(upper, "CREDENTIAL"@)
    ||| contains_seq(upper, "PRIVATE_KEY"@)
    ||| contains_seq(upper, "ACCESS_KEY"@)
    ||| contains_seq(upper, "AWS_ACCESS_KEY"@)
    ||| contains_seq(upper, "AWS_SECRET"@)
    ||| contains_seq(upper, "DATABASE_URL"@)
    ||| contains_seq(upper, "DB_URL"@)
    ||| contains_seq(upper, "REDIS_URL"@)
    ||| contains_seq(upper, "MONGO_URL"@)
    ||| contains_seq(upper, "DSN"@)
    ||| contains_seq(upper, "SLACK_WEBHOOK"@)
    ||| contains_seq(upper, "WEBHOOK_URL"@)
}

/// Whether a value looks like a secret: after trimming, a private key block,
/// an AWS access key (`AKIA` and at least 16 bytes), or a token of at least 40 bytes.
pub open spec fn value_looks_secret(value: Seq<char>) -> bool {
    let t = trim(value);
    if t.len() == 0 {
        false
    } else {
        ||| starts_with(t, "-----BEGIN "@)
        ||| (starts_with(t, "AKIA"@) && byte_len(t) >= 16)
        ||| byte_len(t) >= 40
    }
}

/// Whether a variable is redacted, given its key in upper case.
pub open spec fn secret_rule(upper_key: Seq<char>, value: Seq<char>) -> bool {
    key_names_secret(upper_key) || value_looks_secret(value)
}

/// A variable whose upper-cased key holds any one of the secret-ish name
/// patterns (PASSWORD, PASSWD, PWD, SECRET, TOKEN, API_KEY, APIKEY, AUTH,
/// CREDENTIAL, PRIVATE_KEY, ACCESS_KEY, AWS_ACCESS_KEY, AWS_SECRET,
/// DATABASE_URL, DB_URL, REDIS_URL, MONGO_URL, DSN, SLACK_WEBHOOK,
/// WEBHOOK_URL) is redacted, whatever its value.
pub proof fn lemma_secret_key_patterns(upper_key: Seq<char>, value: Seq<char>)
    ensures
        contains_seq(upper_key, "PASSWORD"@) ==> secret_rule(upper_key, value),
        contains_seq(upper_key, "PASSWD"@) ==> secret_rule(upper_key, value),
        contains_seq(upper_key, "PWD"@) ==> secret_rule(upper_key, value),
        contains_seq(upper_key, "SECRET"@) ==> secret_rule(upper_key, value),
        contains_seq(upper_key, "TOKEN"@) ==> secret_rule(upper_key, value),
        contains_seq(upper_key, "API_KEY"@) ==> secret_rule(upper_key, value),
        contains_seq(upper_key, "APIKEY"@) ==> secret_rule(upper_key, value),
        contains_seq(upper_key, "AUTH"@) ==> secret_rule(upper_key, value),
        contains_seq(upper_key, "CREDENTIAL"@) ==> secret_rule(upper_key, value),
        contains_seq(upper_key, "PRIVATE_KEY"@) ==> secret_rule(upper_key, value),
        contains_seq(upper_key, "ACCESS_KEY"@) ==> secret_rule(upper_key, value),
        contains_seq(upper_key, "AWS_ACCESS_KEY"@) ==> secret_rule(upper_key, value),
        contains_seq(upper_key, "AWS_SECRET"@) ==> secret_rule(upper_key, value),
        contains_seq(upper_key, "DATABASE_URL"@) ==> secret_rule(upper_key, value),
        contains_seq(upper_key, "DB_URL"@) ==> secret_rule(upper_key, value),
        contains_seq(upper_key, "REDIS_URL"@) ==> secret_rule(upper_key, value),
        contains_seq(upper_key, "MONGO_URL"@) ==> secret_rule(upper_key, value),
        contains_seq(upper_key, "DSN"@) ==> secret_rule(upper_key, value),
        contains_seq(upper_key, "SLACK_WEBHOOK"@) ==> secret_rule(upper_key, value),
        contains_seq(upper_key, "WEBHOOK_URL"@) ==> secret_rule(upper_key, value),
{
}

/// A variable whose value, once trimmed, opens a PEM block
/// (`-----BEGIN `), or is an AWS access key id (`AKIA` and at least 16
/// bytes), or is at least 40 bytes long, is redacted, whatever its key; an
/// empty (or all-blank) value never makes a variable secret by itself.
pub proof fn lemma_secret_values(upper_key: Seq<char>, value: Seq<char>)
    ensures
        starts_with(trim(value), "-----BEGIN "@) ==> secret_rule(upper_key, value),
        (starts_with(trim(value), "AKIA"@) && byte_len(trim(value)) >= 16) ==> secret_rule(
            upper_key,
            value,
        ),
        byte_len(trim(value)) >= 40 ==> secret_rule(upper_key, value),
        trim(value).len() == 0 ==> (secret_rule(upper_key, value) == key_names_secret(upper_key)),
{
    reveal_strlit("-----BEGIN ");
    reveal_strlit("AKIA");
    if trim(value).len() == 0 {
        assert(!starts_with(trim(value), "-----BEGIN "@));
    }
}

fn has(u: &Vec<char>, p: &str) -> (r: bool)
    ensures
        r == contains_seq(u@, p@),
{
    let pv = chars_of(p);
    chars_contains(u, &pv)
}

/// Whether a variable is a secret, given its key already in upper case.
pub fn is_secret_upper(upper_key: &str, value: &str) -> (r: bool)
    ensures
        r == secret_rule(upper_key@, value@),
{
    let u = chars_of(upper_key);
    if has(&u, "PASSWORD") || has(&u, "PASSWD") || has(&u, "PWD") || has(&u, "SECRET") || has(
        &u,
        "TOKEN",
    ) || has(&u, "API_KEY") || has(&u, "APIKEY") || has(&u, "AUTH") || has(&u, "CREDENTIAL")
        || has(&u, "PRIVATE_KEY") || has(&u, "ACCESS_KEY") || has(&u, "AWS_ACCESS_KEY") || has(
        &u,
        "AWS_SECRET",
    ) || has(&u, "DATABASE_URL") || has(&u, "DB_URL") || has(&u, "REDIS_URL") || has(
        &u,
        "MONGO_URL",
    ) || has(&u, "DSN") || has(&u, "SLACK_WEBHOOK") || has(&u, "WEBHOOK_URL") {
        return true;
    }
    let vv = chars_of(value);
    let t = trim_chars(&vv);
    if t.len() == 0 {
        return false;
    }
    if has_prefix_str(&t, "-----BEGIN ") {
        return true;
    }
    let n = chars_byte_len(&t);
    if has_prefix_str(&t, "AKIA") && n >= 16 {
        return true;
    }
    n >= 40
}

/// Whether an environment variable holds a secret (by key or by value).
pub fn is_secret(key: &str, value: &str) -> (r: bool)
    ensures
        r == secret_rule(uppercase(key@), value@),
{
    let upper = to_uppercase(key);
    is_secret_upper(upper.as_str(), value)
}

/// An entry as listed: secrets have their value replaced by `***`.
pub open spec fn redact(e: (Seq<char>, Seq<char>)) -> (Seq<char>, Seq<char>, bool) {
    let r = secret_rule(uppercase(e.0), e.1);
    (e.0, if r { "***"@ } else { e.1 }, r)
}

/// The environment listing of a process: entries redacted, sorted by key.
pub open spec fn env_listing(raw: Seq<u8>) -> Seq<(Seq<char>, Seq<char>, bool)> {
    stable_sorted::<EnvVar>(
        stable_sorted::<EnvironEntry>(environ_entries(raw)).map_values(
            |e: (Seq<char>, Seq<char>)| redact(e),
        ),
    )
}

/// Environment variables of a process with secrets redacted, sorted by key,
/// from what reading `/proc/<pid>/environ` produced.
pub fn collect_env(pid: i32, raw: Result<Vec<u8>, IoFailure>) -> (r: Result<Vec<EnvVar>, PeekError>)
    ensures
        match raw {
            Ok(bytes) => r matches Ok(vars) && views(vars@) == env_listing(bytes@),
            Err(e) => r matches Err(err) && io_error_for(err, pid, e),
        },
{
    let ghost raw0 = raw;
    let entries = match read_environ(pid, raw) {
        Ok(v) => v,
        Err(e) => {
            proof {
                reveal_strlit("environ");
                if let Err(f) = raw0 {
                    lemma_convert_io_error(pid, "environ"@, f, e);
                }
            }
            return Err(PeekError::from(e));
        },
    };
    let ghost ev = views(entries@);
    let mut vars: Vec<EnvVar> = Vec::new();
    let mut i: usize = 0;
    while i < entries.len()
        invariant
            i <= entries.len(),
            ev == views(entries@),
            views(vars@) == ev.take(i as int).map_values(|e: (Seq<char>, Seq<char>)| redact(e)),
        decreases entries.len() - i,
    {
        let entry = &entries[i];
        let redacted = is_secret(entry.key.as_str(), entry.value.as_str());
        let value = if redacted {
            string_from("***")
        } else {
            string_from(entry.value.as_str())
        };
        let v = EnvVar { key: string_from(entry.key.as_str()), value, redacted };
        let ghost before = views(vars@);
        assert(v@ == redact(entry@));
        vars.push(v);
        assert(views(vars@) =~= before.push(v@));
        assert(ev[i as int] == entry@);
        assert(ev.take(i + 1) =~= ev.take(i as int).push(entry@));
        assert(views(vars@) =~= ev.take(i + 1).map_values(|e: (Seq<char>, Seq<char>)| redact(e)));
        i = i + 1;
    }
    assert(ev.take(entries.len() as int) =~= ev);
    Ok(stable_sort(vars))
}

/// The environment listing is in key order, has one entry per variable of
/// the block, each the redaction of a variable and every variable's
/// redaction present, and shows `***` in place of every value it flags.
pub proof fn lemma_env_listing_law(raw: Seq<u8>)
    ensures
        sorted_by_key::<EnvVar>(env_listing(raw)),
        env_listing(raw).len() == environ_entries(raw).len(),
        forall|v: (Seq<char>, Seq<char>, bool)| #[trigger] env_listing(raw).contains(v) <==> exists|
            e: (Seq<char>, Seq<char>),
        | #[trigger] environ_entries(raw).contains(e) && v == redact(e),
        forall|i: int| 0 <= i < env_listing(raw).len() ==> (#[trigger] env_listing(raw)[i]).2
            ==> env_listing(raw)[i].1 == "***"@,
{
    assert forall|a: (Seq<char>, Seq<char>), b: (Seq<char>, Seq<char>)| #[trigger] EnvironEntry::key_le(a, b)
        || EnvironEntry::key_le(b, a) by {
        lemma_lex_le_total(a.0, b.0);
    }
    assert forall|a: (Seq<char>, Seq<char>), b: (Seq<char>, Seq<char>), c: (Seq<char>, Seq<char>)|
        #[trigger] EnvironEntry::key_le(a, b) && #[trigger] EnvironEntry::key_le(b, c) implies EnvironEntry::key_le(a, c) by {
        lemma_lex_le_trans(a.0, b.0, c.0);
    }
    assert forall|a: (Seq<char>, Seq<char>, bool), b: (Seq<char>, Seq<char>, bool)| #[trigger] EnvVar::key_le(a, b)
        || EnvVar::key_le(b, a) by {
        lemma_lex_le_total(a.0, b.0);
    }
    assert forall|a: (Seq<char>, Seq<char>, bool), b: (Seq<char>, Seq<char>, bool), c: (Seq<char>, Seq<char>, bool)|
        #[trigger] EnvVar::key_le(a, b) && #[trigger] EnvVar::key_le(b, c) implies EnvVar::key_le(a, c) by {
        lemma_lex_le_trans(a.0, b.0, c.0);
    }
    assert(key_order_total::<EnvironEntry>());
    assert(key_order_total::<EnvVar>());
    let es = environ_entries(raw);
    let inner = stable_sorted::<EnvironEntry>(es);
    lemma_stable_sorted::<EnvironEntry>(es);
    let mapped = inner.map_values(|e: (Seq<char>, Seq<char>)| redact(e));
    lemma_stable_sorted::<EnvVar>(mapped);
    let out = env_listing(raw);
    assert(out == stable_sorted::<EnvVar>(mapped));
    assert forall|v: (Seq<char>, Seq<char>, bool)| #[trigger] out.contains(v) <==> exists|
        e: (Seq<char>, Seq<char>),
    | #[trigger] es.contains(e) && v == redact(e) by {
        if out.contains(v) {
            assert(mapped.contains(v));
            let k = choose|k: int| 0 <= k < mapped.len() && mapped[k] == v;
            assert(inner.contains(inner[k]));
            assert(es.contains(inner[k]));
        }
        if exists|e: (Seq<char>, Seq<char>)| #[trigger] es.contains(e) && v == redact(e) {
            let e = choose|e: (Seq<char>, Seq<char>)| #[trigger] es.contains(e) && v == redact(e);
            assert(inner.contains(e));
            let k = choose|k: int| 0 <= k < inner.len() && inner[k] == e;
            assert(mapped[k] == v);
            assert(mapped.contains(v));
        }
    }
    assert forall|i: int| 0 <= i < out.len() implies (#[trigger] out[i]).2 ==> out[i].1 == "***"@ by {
        assert(out.contains(out[i]));
        assert(mapped.contains(out[i]));
        let k = choose|k: int| 0 <= k < mapped.len() && mapped[k] == out[i];
        assert(mapped[k] == redact(inner[k]));
    }
}

} // verus!
