use vstd::prelude::*;
use vstd::utf8::encode_utf8;
use crate::errors::Error;
use crate::keys::str_lt;
use crate::keys::ckey_lt;
use crate::keys::encode_ckey;
use crate::keys::nul_free;
use crate::registry::Registry;
use crate::store::accounts_load;
use crate::store::accounts_range_after;
use crate::store::channels_load;
use crate::store::channels_range_after;
use crate::store::ckey_after;
use crate::store::config_load;
use crate::store::copt_view;
use crate::store::opt_view;
use crate::store::str_after;
use crate::store::traces_load;
use crate::store::traces_range_after;

verus! {

/// The page cap applied when a caller gives no explicit limit, so that a
/// scan over an unbounded map stays cost-bounded.
pub const DEFAULT_PAGE_LIMIT: u32 = 30;

/// The number of entries a paginated query may return: the caller's limit,
/// or the component-wide default cap when none is given.
pub open spec fn eff_limit(limit: Option<u32>) -> nat {
    match limit {
        Some(l) => l as nat,
        None => DEFAULT_PAGE_LIMIT as nat,
    }
}

/// The cursor value of an owned optional key.
pub open spec fn owned_view(o: Option<String>) -> Option<Seq<char>> {
    match o {
        Some(s) => Some(s@),
        None => None,
    }
}

/// The cursor value of an owned optional composite key.
pub open spec fn cowned_view(o: Option<(String, String)>) -> Option<(Seq<char>, Seq<char>)> {
    match o {
        Some(p) => Some((p.0@, p.1@)),
        None => None,
    }
}

/// The singleton configuration of the module.
#[derive(Debug, Clone, PartialEq, Eq)]
pub struct ConfigResponse {
    pub account_code_id: u64,
    pub transfer: String,
    pub default_timeout_secs: u64,
}

/// One denomination-trace entry.
#[derive(Debug, Clone, PartialEq, Eq)]
pub struct DenomTraceResponse {
    pub denom: String,
    pub trace: String,
}

/// One interchain-account entry.
#[derive(Debug, Clone, PartialEq, Eq)]
pub struct AccountResponse {
    pub connection_id: String,
    pub controller: String,
    pub address: String,
}

/// One active-channel entry.
#[derive(Debug, Clone, PartialEq, Eq)]
pub struct ActiveChannelResponse {
    pub connection_id: String,
    pub channel_id: String,
}

fn limit_to_usize(limit: Option<u32>) -> (n: usize)
    ensures
        n as nat == eff_limit(limit),
{
    match limit {
        Some(l) => l as usize,
        None => DEFAULT_PAGE_LIMIT as usize,
    }
}

/// Loads the singleton configuration; fails with `NotFound` if
/// initialization never stored one.
pub fn config(reg: &Registry) -> (r: Result<ConfigResponse, Error>)
    requires
        reg.wf(),
    ensures
        match r {
            Ok(c) => reg.config() == Some((c.account_code_id, c.transfer@, c.default_timeout_secs)),
            Err(e) => reg.config() is None && e == Error::NotFound,
        },
{
    proof {
        reg.model();
    }
    match config_load(&reg.store) {
        Ok(c) => Ok(
            ConfigResponse {
                account_code_id: c.0,
                transfer: c.1,
                default_timeout_secs: c.2,
            },
        ),
        Err(e) => Err(e),
    }
}

/// Point lookup of the trace recorded for a denomination; fails with
/// `NotFound` exactly when none was recorded.
pub fn denom_trace(reg: &Registry, denom: String) -> (r: Result<DenomTraceResponse, Error>)
    requires
        reg.wf(),
    ensures
        match r {
            Ok(resp) => reg.traces().contains_key(denom@) && resp.denom@ == denom@ && resp.trace@
                == reg.traces()[denom@],
            Err(e) => !reg.traces().contains_key(denom@) && e == Error::NotFound,
        },
{
    proof {
        reg.model();
    }
    match traces_load(&reg.store, &denom) {
        Ok(t) => Ok(DenomTraceResponse { denom, trace: t }),
        Err(e) => Err(e),
    }
}

/// Paginated listing of denomination-trace entries in ascending
/// byte-lexicographic denomination order, starting strictly after the
/// cursor, capped by the limit (or the default cap).  The returned page is
/// exactly the first such entries; a caller continues with the last
/// returned denomination as the next cursor.
pub fn denom_traces(reg: &Registry, start_after: Option<String>, limit: Option<u32>) -> (r: Result<
    Vec<DenomTraceResponse>,
    Error,
>)
    requires
        reg.wf(),
    ensures
        r is Ok,
        match r {
            Ok(page) => {
                &&& page@.len() <= eff_limit(limit)
                &&& forall|i: int|
                    0 <= i < page@.len() ==> {
                        let p = #[trigger] page@[i];
                        &&& reg.traces().contains_key(p.denom@)
                        &&& reg.traces()[p.denom@] == p.trace@
                        &&& str_after(owned_view(start_after), p.denom@)
                    }
                &&& forall|i: int, j: int|
                    0 <= i < j < page@.len() ==> str_lt(page@[i].denom@, page@[j].denom@)
                &&& forall|k: Seq<char>|
                    reg.traces().contains_key(k) && str_after(owned_view(start_after), k) ==> {
                        ||| exists|i: int|
                            0 <= i < page@.len() && (#[trigger] page@[i]).denom@ == k
                        ||| (page@.len() == eff_limit(limit) && (page@.len() == 0 || str_lt(
                            page@.last().denom@,
                            k,
                        )))
                    }
            },
            Err(_) => true,
        },
{
    proof {
        reg.model();
    }
    let cursor: Option<&String> = match &start_after {
        Some(s) => Some(s),
        None => None,
    };
    let entries = match traces_range_after(&reg.store, cursor) {
        Ok(v) => v,
        Err(e) => {
            // A well-formed store always scans cleanly, so this arm is
            // provably unreachable.
            proof {
                assert(false);
            }
            return Err(e);
        },
    };
    let n = limit_to_usize(limit);
    let mut page: Vec<DenomTraceResponse> = Vec::new();
    let mut i: usize = 0;
    while i < entries.len() && i < n
        invariant
            i <= entries@.len(),
            i <= n,
            page@.len() == i as int,
            forall|j: int|
                0 <= j < i as int ==> (#[trigger] page@[j]).denom@ == entries@[j].0@
                    && page@[j].trace@ == entries@[j].1@,
        decreases entries@.len() - i,
    {
        let e = &entries[i];
        page.push(DenomTraceResponse { denom: e.0.clone(), trace: e.1.clone() });
        i = i + 1;
    }
    proof {
        assert forall|a: int, b: int|
            0 <= a < b < page@.len() implies str_lt(page@[a].denom@, page@[b].denom@) by {
            assert(page@[a].denom@ == entries@[a].0@);
            assert(page@[b].denom@ == entries@[b].0@);
        }
        assert forall|k: Seq<char>|
            reg.traces().contains_key(k) && str_after(owned_view(start_after), k) && !(exists|i: int|
                0 <= i < page@.len() && (#[trigger] page@[i]).denom@ == k) implies page@.len()
            == eff_limit(limit) && (page@.len() == 0 || str_lt(page@.last().denom@, k)) by {
            assert(str_after(opt_view(cursor), k));
            let j = choose|j: int| 0 <= j < entries@.len() && (#[trigger] entries@[j]).0@ == k;
            assert(0 <= j < entries@.len());
            if j < page@.len() {
                assert(page@[j].denom@ == entries@[j].0@);
                assert(false);
            }
            assert(page@.len() < entries@.len());
            assert(page@.len() == n as int);
            if page@.len() > 0 {
                assert(page@.last().denom@ == entries@[page@.len() - 1].0@);
                assert(str_lt(entries@[page@.len() - 1].0@, entries@[j].0@));
            }
        }
    }
    Ok(page)
}

/// Point lookup of the interchain account registered for a
/// (connection, controller) pair; fails with `NotFound` exactly when none
/// is registered, and with `InvalidInput` when the connection id carries
/// a NUL byte, which the composite-key separator reserves.
pub fn account(reg: &Registry, connection_id: String, controller: String) -> (r: Result<
    AccountResponse,
    Error,
>)
    requires
        reg.wf(),
    ensures
        match r {
            Ok(resp) => reg.accounts().contains_key((connection_id@, controller@))
                && resp.connection_id@ == connection_id@ && resp.controller@ == controller@
                && resp.address@ == reg.accounts()[(connection_id@, controller@)],
            Err(e) => if !nul_free(encode_utf8(connection_id@)) {
                e == Error::InvalidInput
            } else {
                !reg.accounts().contains_key((connection_id@, controller@)) && e == Error::NotFound
            },
        },
{
    proof {
        reg.model();
    }
    let key = match encode_ckey(&connection_id, &controller) {
        Some(k) => k,
        None => return Err(Error::InvalidInput),
    };
    match accounts_load(&reg.store, &key, &connection_id, &controller) {
        Ok(a) => Ok(AccountResponse { connection_id, controller, address: a }),
        Err(e) => Err(e),
    }
}

/// Paginated listing of interchain-account entries, ordered strictly by
/// (connection_id, controller) — first the connection id, then the
/// controller, each in ascending byte-lexicographic order — starting
/// strictly after the cursor, capped by the limit (or the default cap).
/// A cursor whose connection id carries a NUL byte is rejected as
/// `InvalidInput`.
pub fn accounts(
    reg: &Registry,
    start_after: Option<(String, String)>,
    limit: Option<u32>,
) -> (r: Result<Vec<AccountResponse>, Error>)
    requires
        reg.wf(),
    ensures
        match r {
            Ok(page) => {
                &&& match start_after {
                    Some(p) => nul_free(encode_utf8(p.0@)),
                    None => true,
                }
                &&& page@.len() <= eff_limit(limit)
                &&& forall|i: int|
                    0 <= i < page@.len() ==> {
                        let p = #[trigger] page@[i];
                        &&& reg.accounts().contains_key((p.connection_id@, p.controller@))
                        &&& reg.accounts()[(p.connection_id@, p.controller@)] == p.address@
                        &&& ckey_after(
                            cowned_view(start_after),
                            (p.connection_id@, p.controller@),
                        )
                    }
                &&& forall|i: int, j: int|
                    0 <= i < j < page@.len() ==> ckey_lt(
                        (page@[i].connection_id@, page@[i].controller@),
                        (page@[j].connection_id@, page@[j].controller@),
                    )
                &&& forall|k: (Seq<char>, Seq<char>)|
                    reg.accounts().contains_key(k) && ckey_after(cowned_view(start_after), k)
                        ==> {
                        ||| exists|i: int|
                            0 <= i < page@.len() && ((#[trigger] page@[i]).connection_id@,
                            page@[i].controller@) == k
                        ||| (page@.len() == eff_limit(limit) && (page@.len() == 0 || ckey_lt(
                            (page@.last().connection_id@, page@.last().controller@),
                            k,
                        )))
                    }
            },
            Err(e) => e == Error::InvalidInput && match start_after {
                Some(p) => !nul_free(encode_utf8(p.0@)),
                None => false,
            },
        },
{
    proof {
        reg.model();
    }
    let cursor_key: Option<Vec<u8>> = match &start_after {
        Some(p) => {
            match encode_ckey(&p.0, &p.1) {
                Some(k) => Some(k),
                None => {
                    return Err(Error::InvalidInput);
                },
            }
        },
        None => None,
    };
    let cursor: Option<&(String, String)> = match &start_after {
        Some(p) => Some(p),
        None => None,
    };
    let start_key: Option<&Vec<u8>> = match &cursor_key {
        Some(k) => Some(k),
        None => None,
    };
    let entries = match accounts_range_after(&reg.store, cursor, start_key) {
        Ok(v) => v,
        Err(e) => {
            // A well-formed store always scans cleanly, so this arm is
            // provably unreachable.
            proof {
                assert(false);
            }
            return Err(e);
        },
    };
    let n = limit_to_usize(limit);
    let mut page: Vec<AccountResponse> = Vec::new();
    let mut i: usize = 0;
    while i < entries.len() && i < n
        invariant
            i <= entries@.len(),
            i <= n,
            page@.len() == i as int,
            forall|j: int|
                0 <= j < i as int ==> (#[trigger] page@[j]).connection_id@ == entries@[j].0@
                    && page@[j].controller@ == entries@[j].1@ && page@[j].address@
                    == entries@[j].2@,
        decreases entries@.len() - i,
    {
        let e = &entries[i];
        page.push(
            AccountResponse {
                connection_id: e.0.clone(),
                controller: e.1.clone(),
                address: e.2.clone(),
            },
        );
        i = i + 1;
    }
    proof {
        assert forall|a: int, b: int|
            0 <= a < b < page@.len() implies ckey_lt(
            (page@[a].connection_id@, page@[a].controller@),
            (page@[b].connection_id@, page@[b].controller@),
        ) by {
            assert(page@[a].connection_id@ == entries@[a].0@ && page@[a].controller@
                == entries@[a].1@);
            assert(page@[b].connection_id@ == entries@[b].0@ && page@[b].controller@
                == entries@[b].1@);
        }
        assert forall|k: (Seq<char>, Seq<char>)|
            reg.accounts().contains_key(k) && ckey_after(cowned_view(start_after), k) && !(exists|
                i: int,
            |
                0 <= i < page@.len() && ((#[trigger] page@[i]).connection_id@, page@[i].controller@)
                    == k) implies page@.len() == eff_limit(limit) && (page@.len() == 0 || ckey_lt(
            (page@.last().connection_id@, page@.last().controller@),
            k,
        )) by {
            assert(ckey_after(copt_view(cursor), k));
            let j = choose|j: int|
                0 <= j < entries@.len() && ((#[trigger] entries@[j]).0@, entries@[j].1@) == k;
            assert(0 <= j < entries@.len());
            if j < page@.len() {
                assert((page@[j].connection_id@, page@[j].controller@) == k);
                assert(false);
            }
            assert(page@.len() < entries@.len());
            assert(page@.len() == n as int);
            if page@.len() > 0 {
                assert(page@.last().connection_id@ == entries@[page@.len() - 1].0@);
                assert(page@.last().controller@ == entries@[page@.len() - 1].1@);
                assert(ckey_lt(
                    (entries@[page@.len() - 1].0@, entries@[page@.len() - 1].1@),
                    (entries@[j].0@, entries@[j].1@),
                ));
            }
        }
    }
    Ok(page)
}

/// Point lookup of the channel currently active on a connection; fails
/// with `NotFound` exactly when none was recorded.
pub fn active_channel(reg: &Registry, connection_id: String) -> (r: Result<
    ActiveChannelResponse,
    Error,
>)
    requires
        reg.wf(),
    ensures
        match r {
            Ok(resp) => reg.channels().contains_key(connection_id@) && resp.connection_id@
                == connection_id@ && resp.channel_id@ == reg.channels()[connection_id@],
            Err(e) => !reg.channels().contains_key(connection_id@) && e == Error::NotFound,
        },
{
    proof {
        reg.model();
    }
    match channels_load(&reg.store, &connection_id) {
        Ok(c) => Ok(ActiveChannelResponse { connection_id, channel_id: c }),
        Err(e) => Err(e),
    }
}

/// Paginated listing of active-channel entries in ascending
/// byte-lexicographic connection order, starting strictly after the
/// cursor, capped by the limit (or the default cap).
pub fn active_channels(reg: &Registry, start_after: Option<String>, limit: Option<u32>) -> (r:
    Result<Vec<ActiveChannelResponse>, Error>)
    requires
        reg.wf(),
    ensures
        r is Ok,
        match r {
            Ok(page) => {
                &&& page@.len() <= eff_limit(limit)
                &&& forall|i: int|
                    0 <= i < page@.len() ==> {
                        let p = #[trigger] page@[i];
                        &&& reg.channels().contains_key(p.connection_id@)
                        &&& reg.channels()[p.connection_id@] == p.channel_id@
                        &&& str_after(owned_view(start_after), p.connection_id@)
                    }
                &&& forall|i: int, j: int|
                    0 <= i < j < page@.len() ==> str_lt(
                        page@[i].connection_id@,
                        page@[j].connection_id@,
                    )
                &&& forall|k: Seq<char>|
                    reg.channels().contains_key(k) && str_after(owned_view(start_after), k) ==> {
                        ||| exists|i: int|
                            0 <= i < page@.len() && (#[trigger] page@[i]).connection_id@ == k
                        ||| (page@.len() == eff_limit(limit) && (page@.len() == 0 || str_lt(
                            page@.last().connection_id@,
                            k,
                        )))
                    }
            },
            Err(_) => true,
        },
{
    proof {
        reg.model();
    }
    let cursor: Option<&String> = match &start_after {
        Some(s) => Some(s),
        None => None,
    };
    let entries = match channels_range_after(&reg.store, cursor) {
        Ok(v) => v,
        Err(e) => {
            // A well-formed store always scans cleanly, so this arm is
            // provably unreachable.
            proof {
                assert(false);
            }
            return Err(e);
        },
    };
    let n = limit_to_usize(limit);
    let mut page: Vec<ActiveChannelResponse> = Vec::new();
    let mut i: usize = 0;
    while i < entries.len() && i < n
        invariant
            i <= entries@.len(),
            i <= n,
            page@.len() == i as int,
            forall|j: int|
                0 <= j < i as int ==> (#[trigger] page@[j]).connection_id@ == entries@[j].0@
                    && page@[j].channel_id@ == entries@[j].1@,
        decreases entries@.len() - i,
    {
        let e = &entries[i];
        page.push(ActiveChannelResponse { connection_id: e.0.clone(), channel_id: e.1.clone() });
        i = i + 1;
    }
    proof {
        assert forall|a: int, b: int|
            0 <= a < b < page@.len() implies str_lt(
            page@[a].connection_id@,
            page@[b].connection_id@,
        ) by {
            assert(page@[a].connection_id@ == entries@[a].0@);
            assert(page@[b].connection_id@ == entries@[b].0@);
        }
        assert forall|k: Seq<char>|
            reg.channels().contains_key(k) && str_after(owned_view(start_after), k) && !(exists|
                i: int,
            |
                0 <= i < page@.len() && (#[trigger] page@[i]).connection_id@ == k) implies page@.len()
            == eff_limit(limit) && (page@.len() == 0 || str_lt(page@.last().connection_id@, k)) by {
            assert(str_after(opt_view(cursor), k));
            let j = choose|j: int| 0 <= j < entries@.len() && (#[trigger] entries@[j]).0@ == k;
            assert(0 <= j < entries@.len());
            if j < page@.len() {
                assert(page@[j].connection_id@ == entries@[j].0@);
                assert(false);
            }
            assert(page@.len() < entries@.len());
            assert(page@.len() == n as int);
            if page@.len() > 0 {
                assert(page@.last().connection_id@ == entries@[page@.len() - 1].0@);
                assert(str_lt(entries@[page@.len() - 1].0@, entries@[j].0@));
            }
        }
    }
    Ok(page)
}

} // verus!
