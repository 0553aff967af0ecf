use zhipukit::plugin::{plugin_begin, plugin_next, PluginAction, PluginEvent, PluginStage, PluginState};

/// Runs the decisions with the given outcomes and returns the actions taken.
fn run(statusline: bool, has_keys: bool, fresh: bool, fetch_ok: bool, expired: bool) -> Vec<PluginAction> {
    let mut st: PluginState = plugin_begin(statusline, has_keys);
    let mut ev = PluginEvent::Started;
    let mut actions = Vec::new();
    loop {
        let (next, action) = plugin_next(st, ev);
        st = next;
        actions.push(action);
        ev = match action {
            PluginAction::ReadFreshCache => PluginEvent::FreshCache(fresh),
            PluginAction::Fetch => PluginEvent::Fetched(fetch_ok),
            PluginAction::WriteCache => PluginEvent::CacheWritten,
            PluginAction::ReadExpiredCache => PluginEvent::ExpiredCache(expired),
            _ => break,
        };
        assert!(actions.len() < 10);
    }
    assert_eq!(st.stage, PluginStage::Done);
    actions
}

#[test]
fn status_line_prefers_fresh_cache() {
    assert_eq!(run(true, true, true, true, true), vec![PluginAction::ReadFreshCache, PluginAction::ShowCached]);
    assert_eq!(run(true, true, false, true, true), vec![PluginAction::ReadFreshCache, PluginAction::Fetch, PluginAction::WriteCache, PluginAction::ShowFetched]);
    assert_eq!(run(true, true, false, false, true), vec![PluginAction::ReadFreshCache, PluginAction::Fetch, PluginAction::ReadExpiredCache, PluginAction::ShowCached]);
    assert_eq!(run(true, true, false, false, false), vec![PluginAction::ReadFreshCache, PluginAction::Fetch, PluginAction::ReadExpiredCache, PluginAction::ShowEmpty]);
    assert_eq!(run(true, false, true, true, true), vec![PluginAction::ShowEmpty]);
}

#[test]
fn by_hand_asks_the_api_first() {
    assert_eq!(run(false, true, true, true, true), vec![PluginAction::Fetch, PluginAction::WriteCache, PluginAction::ShowFetched]);
    assert_eq!(run(false, false, true, true, true), vec![PluginAction::Fetch, PluginAction::ShowFetched]);
    assert_eq!(run(false, true, true, false, true), vec![PluginAction::Fetch, PluginAction::ReadExpiredCache, PluginAction::ShowCached]);
    assert_eq!(run(false, true, true, false, false), vec![PluginAction::Fetch, PluginAction::ReadExpiredCache, PluginAction::ShowFallback]);
    assert_eq!(run(false, false, true, false, true), vec![PluginAction::Fetch, PluginAction::ShowFallback]);
}

#[test]
fn unexpected_outcome_stops() {
    let st = plugin_begin(true, true);
    let (next, action) = plugin_next(st, PluginEvent::CacheWritten);
    assert_eq!(action, PluginAction::Stop);
    assert_eq!(next.stage, PluginStage::Done);
}
