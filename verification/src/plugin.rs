//! The status-line program's decisions: where its quota figures come from.
//! Run as the status line it prefers a cache that is still good, then the
//! API (keeping what it fetched in the cache), then an expired cache, then
//! nothing; run by hand it asks the API first and, when that fails, shows an
//! expired cache or else the model and context alone (or the error).
use vstd::prelude::*;

verus! {

/// How far the program has got.
#[derive(Clone, Copy, Debug, PartialEq, Eq, Structural)]
pub enum PluginStage {
    Start,
    AwaitFreshCache,
    AwaitFetch,
    AwaitCacheWrite,
    AwaitExpiredCache,
    Done,
}

/// The program's state: whether it runs as the status line (its standard
/// input is not a terminal), whether an API key and endpoint are configured,
/// and how far it has got.
#[derive(Clone, Copy, Debug, PartialEq, Eq, Structural)]
pub struct PluginState {
    pub statusline: bool,
    pub has_keys: bool,
    pub stage: PluginStage,
}

/// What the last action came to.
#[derive(Clone, Copy, Debug, PartialEq, Eq, Structural)]
pub enum PluginEvent {
    Started,
    /// Whether the cache held figures still good for the key and endpoint.
    FreshCache(bool),
    /// Whether the API gave figures.
    Fetched(bool),
    CacheWritten,
    /// Whether the cache held figures for the key and endpoint, however old.
    ExpiredCache(bool),
}

/// What the program does next.
#[derive(Clone, Copy, Debug, PartialEq, Eq, Structural)]
pub enum PluginAction {
    ReadFreshCache,
    Fetch,
    /// Keep the fetched figures in the cache.
    WriteCache,
    ReadExpiredCache,
    /// Show the status rows of the figures read from the cache.
    ShowCached,
    /// Show the status rows of the fetched figures.
    ShowFetched,
    /// Show the status rows without any figures.
    ShowEmpty,
    /// Show the model and context line, or else report the fetch error.
    ShowFallback,
    /// Nothing more to do.
    Stop,
}

/// The program's state at its start.
pub open spec fn plugin_start(statusline: bool, has_keys: bool) -> PluginState {
    PluginState { statusline, has_keys, stage: PluginStage::Start }
}

/// The next state and action for a state and the outcome of the last action.
pub open spec fn plugin_step(st: PluginState, ev: PluginEvent) -> (PluginState, PluginAction) {
    let at = |stage: PluginStage| PluginState { stage, ..st };
    match (st.stage, ev) {
        (PluginStage::Start, PluginEvent::Started) => if !st.statusline {
            (at(PluginStage::AwaitFetch), PluginAction::Fetch)
        } else if st.has_keys {
            (at(PluginStage::AwaitFreshCache), PluginAction::ReadFreshCache)
        } else {
            (at(PluginStage::Done), PluginAction::ShowEmpty)
        },
        (PluginStage::AwaitFreshCache, PluginEvent::FreshCache(found)) => if found {
            (at(PluginStage::Done), PluginAction::ShowCached)
        } else {
            (at(PluginStage::AwaitFetch), PluginAction::Fetch)
        },
        (PluginStage::AwaitFetch, PluginEvent::Fetched(ok)) => if ok {
            if st.has_keys {
                (at(PluginStage::AwaitCacheWrite), PluginAction::WriteCache)
            } else {
                (at(PluginStage::Done), PluginAction::ShowFetched)
            }
        } else if st.has_keys {
            (at(PluginStage::AwaitExpiredCache), PluginAction::ReadExpiredCache)
        } else if st.statusline {
            (at(PluginStage::Done), PluginAction::ShowEmpty)
        } else {
            (at(PluginStage::Done), PluginAction::ShowFallback)
        },
        (PluginStage::AwaitCacheWrite, PluginEvent::CacheWritten) => (
            at(PluginStage::Done),
            PluginAction::ShowFetched,
        ),
        (PluginStage::AwaitExpiredCache, PluginEvent::ExpiredCache(found)) => if found {
            (at(PluginStage::Done), PluginAction::ShowCached)
        } else if st.statusline {
            (at(PluginStage::Done), PluginAction::ShowEmpty)
        } else {
            (at(PluginStage::Done), PluginAction::ShowFallback)
        },
        _ => (at(PluginStage::Done), PluginAction::Stop),
    }
}

/// The program's state at its start.
pub fn plugin_begin(statusline: bool, has_keys: bool) -> (r: PluginState)
    ensures
        r == plugin_start(statusline, has_keys),
{
    PluginState { statusline, has_keys, stage: PluginStage::Start }
}

/// The next state and action for a state and the outcome of the last action.
pub fn plugin_next(st: PluginState, ev: PluginEvent) -> (r: (PluginState, PluginAction))
    ensures
        r == plugin_step(st, ev),
{
    let at = |stage: PluginStage| -> (r: PluginState)
        ensures
            r == (PluginState { stage, ..st }),
        { PluginState { statusline: st.statusline, has_keys: st.has_keys, stage } };
    match (st.stage, ev) {
        (PluginStage::Start, PluginEvent::Started) => if !st.statusline {
            (at(PluginStage::AwaitFetch), PluginAction::Fetch)
        } else if st.has_keys {
            (at(PluginStage::AwaitFreshCache), PluginAction::ReadFreshCache)
        } else {
            (at(PluginStage::Done), PluginAction::ShowEmpty)
        },
        (PluginStage::AwaitFreshCache, PluginEvent::FreshCache(found)) => if found {
            (at(PluginStage::Done), PluginAction::ShowCached)
        } else {
            (at(PluginStage::AwaitFetch), PluginAction::Fetch)
        },
        (PluginStage::AwaitFetch, PluginEvent::Fetched(ok)) => if ok {
            if st.has_keys {
                (at(PluginStage::AwaitCacheWrite), PluginAction::WriteCache)
            } else {
                (at(PluginStage::Done), PluginAction::ShowFetched)
            }
        } else if st.has_keys {
            (at(PluginStage::AwaitExpiredCache), PluginAction::ReadExpiredCache)
        } else if st.statusline {
            (at(PluginStage::Done), PluginAction::ShowEmpty)
        } else {
            (at(PluginStage::Done), PluginAction::ShowFallback)
        },
        (PluginStage::AwaitCacheWrite, PluginEvent::CacheWritten) => (
            at(PluginStage::Done),
            PluginAction::ShowFetched,
        ),
        (PluginStage::AwaitExpiredCache, PluginEvent::ExpiredCache(found)) => if found {
            (at(PluginStage::Done), PluginAction::ShowCached)
        } else if st.statusline {
            (at(PluginStage::Done), PluginAction::ShowEmpty)
        } else {
            (at(PluginStage::Done), PluginAction::ShowFallback)
        },
        _ => (at(PluginStage::Done), PluginAction::Stop),
    }
}

} // verus!
