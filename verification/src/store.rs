use vstd::prelude::*;
use vstd::utf8::encode_utf8;
use cosmwasm_std::MemoryStorage;
use crate::errors::Error;
use crate::keys::str_lt;
use crate::keys::ckey_lt;
use crate::keys::ckey_bytes;
use crate::keys::nul_free;

verus! {

/// The durable ordered key-value substrate that all four registries share.
/// It stores raw byte keys in byte-lexicographic order; each registry lives
/// under its own length-prefixed namespace, so the four never collide.
#[verifier::external_type_specification]
#[verifier::external_body]
pub struct ExMemoryStorage(MemoryStorage);

/// The denomination-trace entries a store holds: local denomination to full
/// remote provenance path.
pub uninterp spec fn traces_of(s: MemoryStorage) -> Map<Seq<char>, Seq<char>>;

/// The active-channel entries a store holds: connection to current channel.
pub uninterp spec fn channels_of(s: MemoryStorage) -> Map<Seq<char>, Seq<char>>;

/// The interchain-account entries a store holds: (connection, controller)
/// to account address.  An entry is stored under the connection id's
/// bytes, a NUL separator and the controller's bytes, with the pair
/// repeated beside the address in the value.
pub uninterp spec fn accounts_of(s: MemoryStorage) -> Map<(Seq<char>, Seq<char>), Seq<char>>;

/// The singleton configuration record a store holds, if initialization ever
/// saved one: (account code id, transfer handle, default timeout seconds).
pub uninterp spec fn config_of(s: MemoryStorage) -> Option<(u64, Seq<char>, u64)>;

/// Well-formedness of a store: every entry under the four registry
/// namespaces decodes as the expected shape (UTF-8 keys, JSON string or
/// record values), every composite account key carries a NUL separator
/// with a NUL-free connection component before it, and every account
/// value repeats its own key pair.  A fresh store is well-formed and the
/// write paths below keep it so.
pub uninterp spec fn store_ok(s: MemoryStorage) -> bool;

/// The cursor a paginated scan starts strictly after, if any.
pub open spec fn opt_view(o: Option<&String>) -> Option<Seq<char>> {
    match o {
        Some(s) => Some(s@),
        None => None,
    }
}

/// Whether a string key lies strictly after the cursor (no cursor admits
/// every key).
pub open spec fn str_after(c: Option<Seq<char>>, k: Seq<char>) -> bool {
    match c {
        None => true,
        Some(cv) => str_lt(cv, k),
    }
}

/// The composite cursor a paginated account scan starts strictly after.
pub open spec fn copt_view(o: Option<&(String, String)>) -> Option<(Seq<char>, Seq<char>)> {
    match o {
        Some(p) => Some((p.0@, p.1@)),
        None => None,
    }
}

/// Whether a composite key lies strictly after the composite cursor.
pub open spec fn ckey_after(c: Option<(Seq<char>, Seq<char>)>, k: (Seq<char>, Seq<char>)) -> bool {
    match c {
        None => true,
        Some(cv) => ckey_lt(cv, k),
    }
}

/// Relies on cosmwasm_std::MemoryStorage::new: a fresh store holds no
/// entries at all, so every registry starts empty and well-formed.
#[verifier::external_body]
pub(crate) fn storage_new() -> (r: MemoryStorage)
    ensures
        store_ok(r),
        traces_of(r) =~= Map::empty(),
        channels_of(r) =~= Map::empty(),
        accounts_of(r) =~= Map::empty(),
        config_of(r) is None,
{
    MemoryStorage::new()
}

/// Relies on cw_storage_plus::Map::save over the "denom_traces" namespace:
/// the entry is upserted under the key's raw UTF-8 bytes.  Serializing a
/// string with serde-json-wasm cannot fail and the in-memory set cannot
/// fail, so the save always succeeds.  Distinct namespaces leave the
/// other registries untouched.
#[verifier::external_body]
pub(crate) fn traces_save(s: &mut MemoryStorage, denom: &String, trace: &String) -> (r: Result<
    (),
    Error,
>)
    ensures
        r is Ok,
        traces_of(*final(s)) == traces_of(*old(s)).insert(denom@, trace@),
        channels_of(*final(s)) == channels_of(*old(s)),
        accounts_of(*final(s)) == accounts_of(*old(s)),
        config_of(*final(s)) == config_of(*old(s)),
        store_ok(*old(s)) ==> store_ok(*final(s)),
{
    let m: cw_storage_plus::Map<&str, String> = cw_storage_plus::Map::new("denom_traces");
    match m.save(s, denom.as_str(), trace) {
        Ok(()) => Ok(()),
        Err(_) => Err(Error::Decode),
    }
}

/// Relies on cw_storage_plus::Map::load over the "denom_traces" namespace:
/// in a well-formed store it returns the stored value of a present key and
/// a not-found error for an absent one.
#[verifier::external_body]
pub(crate) fn traces_load(s: &MemoryStorage, denom: &String) -> (r: Result<String, Error>)
    ensures
        match r {
            Ok(v) => store_ok(*s) ==> traces_of(*s).contains_key(denom@) && v@ == traces_of(
                *s,
            )[denom@],
            Err(e) => store_ok(*s) ==> !traces_of(*s).contains_key(denom@) && e == Error::NotFound,
        },
{
    let m: cw_storage_plus::Map<&str, String> = cw_storage_plus::Map::new("denom_traces");
    match m.load(s, denom.as_str()) {
        Ok(v) => Ok(v),
        Err(cosmwasm_std::StdError::NotFound { .. }) => Err(Error::NotFound),
        Err(_) => Err(Error::Decode),
    }
}

/// Relies on cw_storage_plus::Map::range over the "denom_traces" namespace
/// with an exclusive lower bound: ascending byte-lexicographic key order,
/// yielding exactly the stored entries strictly after the cursor.
#[verifier::external_body]
pub(crate) fn traces_range_after(s: &MemoryStorage, start_after: Option<&String>) -> (r: Result<
    Vec<(String, String)>,
    Error,
>)
    ensures
        match r {
            Ok(list) => store_ok(*s) ==> {
                &&& forall|i: int|
                    0 <= i < list@.len() ==> {
                        let e = #[trigger] list@[i];
                        &&& traces_of(*s).contains_key(e.0@)
                        &&& traces_of(*s)[e.0@] == e.1@
                        &&& str_after(opt_view(start_after), e.0@)
                    }
                &&& forall|i: int, j: int|
                    0 <= i < j < list@.len() ==> str_lt(list@[i].0@, list@[j].0@)
                &&& forall|k: Seq<char>|
                    traces_of(*s).contains_key(k) && str_after(opt_view(start_after), k)
                        ==> exists|i: int| 0 <= i < list@.len() && (#[trigger] list@[i]).0@ == k
            },
            Err(_) => !store_ok(*s),
        },
{
    let m: cw_storage_plus::Map<&str, String> = cw_storage_plus::Map::new("denom_traces");
    let min = start_after.map(|d| cw_storage_plus::Bound::exclusive(d.as_str()));
    match m.range(s, min, None, cosmwasm_std::Order::Ascending).collect::<cosmwasm_std::StdResult<
        Vec<(String, String)>,
    >>() {
        Ok(v) => Ok(v),
        Err(_) => Err(Error::Decode),
    }
}

/// Relies on cw_storage_plus::Map::save over the "active_channels"
/// namespace; same guarantees as the denomination-trace save, so it
/// always succeeds too.
#[verifier::external_body]
pub(crate) fn channels_save(s: &mut MemoryStorage, connection_id: &String, channel_id: &String) -> (r: Result<
    (),
    Error,
>)
    ensures
        r is Ok,
        channels_of(*final(s)) == channels_of(*old(s)).insert(connection_id@, channel_id@),
        traces_of(*final(s)) == traces_of(*old(s)),
        accounts_of(*final(s)) == accounts_of(*old(s)),
        config_of(*final(s)) == config_of(*old(s)),
        store_ok(*old(s)) ==> store_ok(*final(s)),
{
    let m: cw_storage_plus::Map<&str, String> = cw_storage_plus::Map::new("active_channels");
    match m.save(s, connection_id.as_str(), channel_id) {
        Ok(()) => Ok(()),
        Err(_) => Err(Error::Decode),
    }
}

/// Relies on cw_storage_plus::Map::load over the "active_channels"
/// namespace; same guarantees as the denomination-trace load.
#[verifier::external_body]
pub(crate) fn channels_load(s: &MemoryStorage, connection_id: &String) -> (r: Result<
    String,
    Error,
>)
    ensures
        match r {
            Ok(v) => store_ok(*s) ==> channels_of(*s).contains_key(connection_id@) && v@
                == channels_of(*s)[connection_id@],
            Err(e) => store_ok(*s) ==> !channels_of(*s).contains_key(connection_id@) && e
                == Error::NotFound,
        },
{
    let m: cw_storage_plus::Map<&str, String> = cw_storage_plus::Map::new("active_channels");
    match m.load(s, connection_id.as_str()) {
        Ok(v) => Ok(v),
        Err(cosmwasm_std::StdError::NotFound { .. }) => Err(Error::NotFound),
        Err(_) => Err(Error::Decode),
    }
}

/// Relies on cw_storage_plus::Map::range over the "active_channels"
/// namespace; same guarantees as the denomination-trace scan.
#[verifier::external_body]
pub(crate) fn channels_range_after(s: &MemoryStorage, start_after: Option<&String>) -> (r: Result<
    Vec<(String, String)>,
    Error,
>)
    ensures
        match r {
            Ok(list) => store_ok(*s) ==> {
                &&& forall|i: int|
                    0 <= i < list@.len() ==> {
                        let e = #[trigger] list@[i];
                        &&& channels_of(*s).contains_key(e.0@)
                        &&& channels_of(*s)[e.0@] == e.1@
                        &&& str_after(opt_view(start_after), e.0@)
                    }
                &&& forall|i: int, j: int|
                    0 <= i < j < list@.len() ==> str_lt(list@[i].0@, list@[j].0@)
                &&& forall|k: Seq<char>|
                    channels_of(*s).contains_key(k) && str_after(opt_view(start_after), k)
                        ==> exists|i: int| 0 <= i < list@.len() && (#[trigger] list@[i]).0@ == k
            },
            Err(_) => !store_ok(*s),
        },
{
    let m: cw_storage_plus::Map<&str, String> = cw_storage_plus::Map::new("active_channels");
    let min = start_after.map(|d| cw_storage_plus::Bound::exclusive(d.as_str()));
    match m.range(s, min, None, cosmwasm_std::Order::Ascending).collect::<cosmwasm_std::StdResult<
        Vec<(String, String)>,
    >>() {
        Ok(v) => Ok(v),
        Err(_) => Err(Error::Decode),
    }
}

/// Relies on cw_storage_plus::Map::save over the "accounts" namespace
/// with a raw byte key: the NUL-free connection id's bytes, a NUL
/// separator, the controller's bytes, with the pair repeated in the
/// value.  Serializing the string triple cannot fail and the in-memory
/// set cannot fail, so the save always succeeds.  The NUL separator keeps
/// the encoding injective, so exactly the given pair is upserted.
#[verifier::external_body]
pub(crate) fn accounts_save(
    s: &mut MemoryStorage,
    key: &Vec<u8>,
    connection_id: &String,
    controller: &String,
    address: &String,
) -> (r: Result<(), Error>)
    requires
        key@ == ckey_bytes(connection_id@, controller@),
        nul_free(encode_utf8(connection_id@)),
    ensures
        r is Ok,
        accounts_of(*final(s)) == accounts_of(*old(s)).insert(
            (connection_id@, controller@),
            address@,
        ),
        traces_of(*final(s)) == traces_of(*old(s)),
        channels_of(*final(s)) == channels_of(*old(s)),
        config_of(*final(s)) == config_of(*old(s)),
        store_ok(*old(s)) ==> store_ok(*final(s)),
{
    let m: cw_storage_plus::Map<&[u8], (String, String, String)> = cw_storage_plus::Map::new(
        "accounts",
    );
    let value = (connection_id.clone(), controller.clone(), address.clone());
    match m.save(s, key.as_slice(), &value) {
        Ok(()) => Ok(()),
        Err(_) => Err(Error::Decode),
    }
}

/// Relies on cw_storage_plus::Map::load over the "accounts" namespace
/// with the same raw byte key as the save: in a well-formed store it
/// returns the stored address of a present pair and a not-found error
/// for an absent one.
#[verifier::external_body]
pub(crate) fn accounts_load(
    s: &MemoryStorage,
    key: &Vec<u8>,
    connection_id: &String,
    controller: &String,
) -> (r: Result<String, Error>)
    requires
        key@ == ckey_bytes(connection_id@, controller@),
        nul_free(encode_utf8(connection_id@)),
    ensures
        match r {
            Ok(v) => store_ok(*s) ==> accounts_of(*s).contains_key((connection_id@, controller@))
                && v@ == accounts_of(*s)[(connection_id@, controller@)],
            Err(e) => store_ok(*s) ==> !accounts_of(*s).contains_key((connection_id@, controller@))
                && e == Error::NotFound,
        },
{
    let m: cw_storage_plus::Map<&[u8], (String, String, String)> = cw_storage_plus::Map::new(
        "accounts",
    );
    match m.load(s, key.as_slice()) {
        Ok(v) => Ok(v.2),
        Err(cosmwasm_std::StdError::NotFound { .. }) => Err(Error::NotFound),
        Err(_) => Err(Error::Decode),
    }
}

/// Relies on cw_storage_plus::Map::range over the "accounts" namespace
/// with an exclusive raw lower bound.  Stored keys are connection bytes,
/// a NUL separator, controller bytes; since stored connection ids are
/// NUL-free and every value repeats its own key pair (both store_ok),
/// the substrate's byte order over those keys is exactly the
/// (connection_id, controller) order `ckey_lt`, and the scan yields the
/// stored pairs strictly after the cursor, ascending.
#[verifier::external_body]
pub(crate) fn accounts_range_after(
    s: &MemoryStorage,
    start_after: Option<&(String, String)>,
    start_key: Option<&Vec<u8>>,
) -> (r: Result<Vec<(String, String, String)>, Error>)
    requires
        match (start_after, start_key) {
            (Some(p), Some(k)) => k@ == ckey_bytes(p.0@, p.1@) && nul_free(encode_utf8(p.0@)),
            (None, None) => true,
            _ => false,
        },
    ensures
        match r {
            Ok(list) => store_ok(*s) ==> {
                &&& forall|i: int|
                    0 <= i < list@.len() ==> {
                        let e = #[trigger] list@[i];
                        &&& accounts_of(*s).contains_key((e.0@, e.1@))
                        &&& accounts_of(*s)[(e.0@, e.1@)] == e.2@
                        &&& ckey_after(copt_view(start_after), (e.0@, e.1@))
                    }
                &&& forall|i: int, j: int|
                    0 <= i < j < list@.len() ==> ckey_lt(
                        (list@[i].0@, list@[i].1@),
                        (list@[j].0@, list@[j].1@),
                    )
                &&& forall|k: (Seq<char>, Seq<char>)|
                    accounts_of(*s).contains_key(k) && ckey_after(copt_view(start_after), k)
                        ==> exists|i: int|
                        0 <= i < list@.len() && ((#[trigger] list@[i]).0@, list@[i].1@) == k
            },
            Err(_) => !store_ok(*s),
        },
{
    let m: cw_storage_plus::Map<&[u8], (String, String, String)> = cw_storage_plus::Map::new(
        "accounts",
    );
    let min: Option<cw_storage_plus::Bound<&[u8]>> = start_key.map(|k| {
        cw_storage_plus::Bound::ExclusiveRaw(k.clone())
    });
    match m.range(s, min, None, cosmwasm_std::Order::Ascending).collect::<cosmwasm_std::StdResult<
        Vec<(Vec<u8>, (String, String, String))>,
    >>() {
        Ok(v) => Ok(v.into_iter().map(|(_, t)| t).collect()),
        Err(_) => Err(Error::Decode),
    }
}

/// Relies on cw_storage_plus::Item::save under the raw "config" key,
/// which no length-prefixed registry namespace can collide with.
/// Serializing the (u64, String, u64) record with serde-json-wasm cannot
/// fail and the in-memory set cannot fail, so the save always succeeds
/// and the singleton holds exactly the given record.
#[verifier::external_body]
pub(crate) fn config_save(
    s: &mut MemoryStorage,
    account_code_id: u64,
    transfer: &String,
    default_timeout_secs: u64,
) -> (r: Result<(), Error>)
    ensures
        r is Ok,
        config_of(*final(s)) == Some((account_code_id, transfer@, default_timeout_secs)),
        traces_of(*final(s)) == traces_of(*old(s)),
        channels_of(*final(s)) == channels_of(*old(s)),
        accounts_of(*final(s)) == accounts_of(*old(s)),
        store_ok(*old(s)) ==> store_ok(*final(s)),
{
    let it: cw_storage_plus::Item<(u64, String, u64)> = cw_storage_plus::Item::new("config");
    match it.save(s, &(account_code_id, transfer.clone(), default_timeout_secs)) {
        Ok(()) => Ok(()),
        Err(_) => Err(Error::Decode),
    }
}

/// Relies on cw_storage_plus::Item::load under the raw "config" key: in a
/// well-formed store it returns the saved record, or a not-found error if
/// initialization never ran.
#[verifier::external_body]
pub(crate) fn config_load(s: &MemoryStorage) -> (r: Result<(u64, String, u64), Error>)
    ensures
        match r {
            Ok(c) => store_ok(*s) ==> Some((c.0, c.1@, c.2)) == config_of(*s),
            Err(e) => store_ok(*s) ==> config_of(*s) is None && e == Error::NotFound,
        },
{
    let it: cw_storage_plus::Item<(u64, String, u64)> = cw_storage_plus::Item::new("config");
    match it.load(s) {
        Ok(c) => Ok(c),
        Err(cosmwasm_std::StdError::NotFound { .. }) => Err(Error::NotFound),
        Err(_) => Err(Error::Decode),
    }
}

} // verus!
