use vstd::prelude::*;
use crate::store::{
    spec_due, spec_get_server, spec_sorted_by_date, ServerRecordV, Store, StoreError,
};
use crate::structs::Chapter;

verus! {

/// Opens one destination's announcement run. Reads the announce flag:
/// when it is already set, the run is a skipped no-op and the store is
/// untouched. Otherwise the flag is set and the chapters due by `now`
/// are handed back, date-ascending. When the destination is unknown, or
/// carries no watermark, the flag is cleared again and the run fails.
pub fn begin_announce(store: &mut Store, guild_id: &str, now: i64) -> (r: Result<
    Option<Vec<Chapter>>,
    StoreError,
>)
    requires
        old(store).wf(),
    ensures
        final(store).wf(),
        final(store).chapters == old(store).chapters,
        match r {
            Ok(None) => {
                &&& spec_get_server(old(store).servers.deep_view(), guild_id@) matches Some(rec)
                    && rec.is_announcing
                &&& *final(store) == *old(store)
            },
            Ok(Some(v)) => {
                &&& spec_get_server(old(store).servers.deep_view(), guild_id@) matches Some(rec)
                    && {
                    &&& !rec.is_announcing
                    &&& rec.last_announced_at matches Some(wm) && v.deep_view().to_multiset()
                        == spec_due(old(store).chapters.deep_view(), wm, now as int).to_multiset()
                    &&& spec_get_server(final(store).servers.deep_view(), guild_id@) == Some(
                        ServerRecordV { is_announcing: true, ..rec },
                    )
                }
                &&& spec_sorted_by_date(v.deep_view())
                &&& forall|other: Seq<char>|
                    other != guild_id@ ==> #[trigger] spec_get_server(
                        final(store).servers.deep_view(),
                        other,
                    ) == spec_get_server(old(store).servers.deep_view(), other)
            },
            Err(e) => {
                &&& e == StoreError::NotConfigured
                &&& !(spec_get_server(old(store).servers.deep_view(), guild_id@) matches Some(rec)
                    && rec.last_announced_at is Some)
                &&& forall|other: Seq<char>|
                    #![trigger spec_get_server(final(store).servers.deep_view(), other)]
                    spec_get_server(final(store).servers.deep_view(), other) == spec_get_server(
                        old(store).servers.deep_view(),
                        other,
                    )
            },
        },
{
    let is_announcing = match store.get_announcing_server_flag(guild_id) {
        Ok(b) => b,
        Err(e) => {
            return Err(e);
        },
    };
    if is_announcing {
        return Ok(None);
    }
    match store.set_announcing_server_flag(guild_id, true) {
        Ok(()) => {},
        Err(e) => {
            proof {
                assert(false);
            }
            return Err(e);
        },
    }
    match store.get_unnanounced_chapters(guild_id, now) {
        Ok(chapters) => Ok(Some(chapters)),
        Err(e) => {
            // Clear the flag again: a failed run must not leave the
            // destination locked.
            match store.set_announcing_server_flag(guild_id, false) {
                Ok(()) => {},
                Err(_) => {
                    proof {
                        assert(false);
                    }
                },
            }
            Err(e)
        },
    }
}

/// Closes one destination's announcement run: advances the watermark to
/// `now` exactly when at least one chapter was sent, and clears the
/// announce flag unconditionally, send failures included.
pub fn finish_announce(store: &mut Store, guild_id: &str, now: i64, sent_any: bool) -> (r: Result<
    (),
    StoreError,
>)
    requires
        old(store).wf(),
    ensures
        final(store).wf(),
        final(store).chapters == old(store).chapters,
        match r {
            Ok(()) => {
                &&& spec_get_server(old(store).servers.deep_view(), guild_id@) matches Some(rec)
                    && spec_get_server(final(store).servers.deep_view(), guild_id@) == Some(
                    ServerRecordV {
                        is_announcing: false,
                        last_announced_at: if sent_any {
                            Some(now as int)
                        } else {
                            rec.last_announced_at
                        },
                        ..rec
                    },
                )
                &&& forall|other: Seq<char>|
                    other != guild_id@ ==> #[trigger] spec_get_server(
                        final(store).servers.deep_view(),
                        other,
                    ) == spec_get_server(old(store).servers.deep_view(), other)
            },
            Err(e) => {
                &&& e == StoreError::NotConfigured
                &&& spec_get_server(old(store).servers.deep_view(), guild_id@) is None
                &&& *final(store) == *old(store)
            },
        },
{
    if sent_any {
        match store.set_last_announced_time(guild_id, now) {
            Ok(()) => {},
            Err(e) => {
                return Err(e);
            },
        }
    }
    match store.set_announcing_server_flag(guild_id, false) {
        Ok(()) => Ok(()),
        Err(e) => Err(e),
    }
}

} // verus!
