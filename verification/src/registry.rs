use vstd::prelude::*;
use vstd::utf8::encode_utf8;
use crate::keys::encode_ckey;
use crate::keys::nul_free;
use cosmwasm_std::MemoryStorage;
use crate::errors::Error;
use crate::store::accounts_of;
use crate::store::accounts_save;
use crate::store::channels_of;
use crate::store::channels_save;
use crate::store::config_of;
use crate::store::config_save;
use crate::store::storage_new;
use crate::store::store_ok;
use crate::store::traces_of;
use crate::store::traces_save;

verus! {

/// The four durable registries of the module, kept in one ordered
/// key-value store under separate namespaces: the singleton configuration,
/// the interchain-account registry, the active-channel registry and the
/// denomination-trace registry.
///
/// Write-path collaborators mutate it through the `save_*` operations
/// below; the query operations only read.
pub struct Registry {
    pub(crate) store: MemoryStorage,
}

impl Registry {
    /// The denomination-trace entries: local denomination to remote
    /// provenance path.
    pub closed spec fn traces(self) -> Map<Seq<char>, Seq<char>> {
        traces_of(self.store)
    }

    /// The active-channel entries: connection to currently active channel.
    pub closed spec fn channels(self) -> Map<Seq<char>, Seq<char>> {
        channels_of(self.store)
    }

    /// The interchain-account entries: (connection, controller) to the
    /// account's address.
    pub closed spec fn accounts(self) -> Map<(Seq<char>, Seq<char>), Seq<char>> {
        accounts_of(self.store)
    }

    /// The singleton configuration, if initialization ever stored one:
    /// (account code id, transfer handle, default timeout seconds).
    pub closed spec fn config(self) -> Option<(u64, Seq<char>, u64)> {
        config_of(self.store)
    }

    /// Well-formedness: every stored entry decodes as its expected shape.
    /// `new` establishes it and every operation preserves it.
    pub closed spec fn wf(self) -> bool {
        store_ok(self.store)
    }

    /// Unfolds the closed model of a registry onto its store, for the
    /// query operations that read the store directly.
    pub(crate) proof fn model(self)
        ensures
            self.wf() == store_ok(self.store),
            self.traces() == traces_of(self.store),
            self.channels() == channels_of(self.store),
            self.accounts() == accounts_of(self.store),
            self.config() == config_of(self.store),
    {
    }

    /// A fresh registry: well-formed and empty in all four namespaces.
    pub fn new() -> (r: Registry)
        ensures
            r.wf(),
            r.traces() =~= Map::empty(),
            r.channels() =~= Map::empty(),
            r.accounts() =~= Map::empty(),
            r.config() is None,
    {
        Registry { store: storage_new() }
    }

    /// Records the provenance trace of a locally recognized denomination
    /// (upsert); the write always succeeds.
    pub fn save_denom_trace(&mut self, denom: &String, trace: &String) -> (r: Result<(), Error>)
        requires
            old(self).wf(),
        ensures
            final(self).wf(),
            r is Ok,
            final(self).traces() == old(self).traces().insert(denom@, trace@),
            final(self).channels() == old(self).channels(),
            final(self).accounts() == old(self).accounts(),
            final(self).config() == old(self).config(),
    {
        traces_save(&mut self.store, denom, trace)
    }

    /// Records the channel now active on a connection, superseding any
    /// stale entry (upsert); the write always succeeds.
    pub fn save_active_channel(&mut self, connection_id: &String, channel_id: &String) -> (r:
        Result<(), Error>)
        requires
            old(self).wf(),
        ensures
            final(self).wf(),
            r is Ok,
            final(self).channels() == old(self).channels().insert(connection_id@, channel_id@),
            final(self).traces() == old(self).traces(),
            final(self).accounts() == old(self).accounts(),
            final(self).config() == old(self).config(),
    {
        channels_save(&mut self.store, connection_id, channel_id)
    }

    /// Records the resolved address of the interchain account for a
    /// (connection, controller) pair (upsert).  A connection id carrying a
    /// NUL byte, which the composite-key separator reserves, is rejected
    /// as invalid input and nothing changes; every other write succeeds.
    pub fn save_account(
        &mut self,
        connection_id: &String,
        controller: &String,
        address: &String,
    ) -> (r: Result<(), Error>)
        requires
            old(self).wf(),
        ensures
            final(self).wf(),
            r is Ok <==> nul_free(encode_utf8(connection_id@)),
            r is Ok ==> final(self).accounts() == old(self).accounts().insert(
                (connection_id@, controller@),
                address@,
            ),
            r matches Err(e) ==> *final(self) == *old(self) && e == Error::InvalidInput,
            final(self).traces() == old(self).traces(),
            final(self).channels() == old(self).channels(),
            final(self).config() == old(self).config(),
    {
        match encode_ckey(connection_id, controller) {
            Some(key) => accounts_save(
                &mut self.store,
                &key,
                connection_id,
                controller,
                address,
            ),
            None => Err(Error::InvalidInput),
        }
    }

    /// Stores the singleton configuration record; the write always
    /// succeeds.  Initialization calls this once.
    pub fn init_config(
        &mut self,
        account_code_id: u64,
        transfer: &String,
        default_timeout_secs: u64,
    ) -> (r: Result<(), Error>)
        requires
            old(self).wf(),
        ensures
            final(self).wf(),
            r is Ok,
            final(self).config() == Some((account_code_id, transfer@, default_timeout_secs)),
            final(self).traces() == old(self).traces(),
            final(self).channels() == old(self).channels(),
            final(self).accounts() == old(self).accounts(),
    {
        config_save(&mut self.store, account_code_id, transfer, default_timeout_secs)
    }
}

/// Save/load law for every registry: a saved key is present afterwards
/// with exactly the saved value, and a fresh registry holds no key at all,
/// so loading it fails with `NotFound`.
pub proof fn lemma_save_then_load(
    m: Map<Seq<char>, Seq<char>>,
    k: Seq<char>,
    v: Seq<char>,
    never_saved: Seq<char>,
)
    ensures
        m.insert(k, v).contains_key(k),
        m.insert(k, v)[k] == v,
        !Map::<Seq<char>, Seq<char>>::empty().contains_key(never_saved),
{
}

} // verus!
