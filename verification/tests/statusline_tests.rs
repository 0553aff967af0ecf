use zhipukit::quota::{CodingPlanInfo, QuotaData};
use zhipukit::statusline::{
    build_segments, format_git, format_hour5, format_mcp, format_model, format_tier, mcp_percent,
    progress_bar_pct, render_segments, status_text, tray_status_text, tray_tooltip, BAR_WIDTH,
};
use zhipukit::utils::format_status_bar;

const NOW: i64 = 1_700_000_000_000;

fn plan(level: &str, hour5: i64, weekly: i64, used: i64, total: i64) -> CodingPlanInfo {
    CodingPlanInfo {
        level: level.to_string(),
        hour5_percentage: hour5,
        hour5_next_reset: 0,
        weekly_percentage: weekly,
        weekly_next_reset: 0,
        mcp_total: total,
        mcp_used: used,
        mcp_remaining: 0,
        mcp_next_reset: 0,
    }
}

#[test]
fn bar_with_percentage() {
    assert_eq!(BAR_WIDTH, 10);
    assert_eq!(
        progress_bar_pct(40),
        "\x1b[32m●\x1b[32m●\x1b[32m●\x1b[32m●\x1b[32m●\x1b[32m●\x1b[32m●\x1b[32m●\x1b[32m○\x1b[0m○\x1b[0m 40%"
    );
    assert_eq!(progress_bar_pct(-3), format!("{} -3%", format_status_bar(-3, 10)));
}

#[test]
fn simple_segments() {
    assert_eq!(format_tier("lite"), "ZhipuKit LITE");
    assert_eq!(format_tier("straße"), "ZhipuKit STRASSE");
    assert_eq!(format_git("main"), "Git (main)");
    assert_eq!(format_model("glm-4.6"), "Model (glm-4.6)");
}

#[test]
fn hour5_segment() {
    let bar = progress_bar_pct(40);
    assert_eq!(format_hour5(40, None, NOW), format!("5h {}", bar));
    assert_eq!(format_hour5(40, Some(NOW + 3_600_000), NOW), format!("5h {} (4h 0m/5h)", bar));
    assert_eq!(format_hour5(40, Some(NOW - 5), NOW), format!("5h {} (5h 0m/5h)", bar));
    assert_eq!(format_hour5(40, Some(NOW + 20_000_000), NOW), format!("5h {} (0m/5h)", bar));
    assert_eq!(format_hour5(40, Some(i64::MAX), i64::MIN), format!("5h {} (0m/5h)", bar));
}

#[test]
fn mcp_segment() {
    let reset = NOW + 2_592_000_000 - 90_000_000;
    assert_eq!(
        format_mcp(30, 100, Some(reset), NOW),
        format!("MCP {} (30/100, 1d 1h/30d)", format_status_bar(30, 10))
    );
    assert_eq!(format_mcp(250, 100, None, NOW), format!("MCP {} (250/100)", format_status_bar(100, 10)));
    assert_eq!(format_mcp(7, -2, None, NOW), format!("MCP {} (7/-2)", format_status_bar(0, 10)));
    assert_eq!(mcp_percent(7, -2), -1);
    assert_eq!(mcp_percent(1, 3), 33);
    assert_eq!(mcp_percent(-1, 300), 0);
    assert_eq!(mcp_percent(i64::MAX, 1), 100);
    assert_eq!(mcp_percent(i64::MIN, 1), -1);
}

#[test]
fn segments_rows_and_rendering() {
    let q = QuotaData {
        level: Some("pro".to_string()),
        hour5_pct: Some(40),
        hour5_next_reset: None,
        weekly_pct: Some(1),
        weekly_next_reset: None,
        mcp_used: Some(30),
        mcp_total: Some(100),
        mcp_next_reset: None,
    };
    let rows = build_segments(&q, Some("12.5"), Some("Context X"), Some("glm"), Some("main"), NOW);
    let hour5 = format_hour5(40, None, NOW);
    let mcp = format_mcp(30, 100, None, NOW);
    assert_eq!(
        rows,
        vec![
            vec!["ZhipuKit PRO".to_string(), "¥12.5".to_string(), "Git (main)".to_string()],
            vec!["Model (glm)".to_string(), "Context X".to_string()],
            vec![hour5.clone(), mcp.clone()],
        ]
    );
    assert_eq!(
        render_segments(&rows),
        format!("ZhipuKit PRO | ¥12.5 | Git (main)\nModel (glm) | Context X\n{} | {}", hour5, mcp)
    );
}

#[test]
fn empty_rows_are_left_out() {
    let mut q = QuotaData::default();
    q.mcp_used = Some(3);
    q.mcp_total = Some(0);
    let rows = build_segments(&q, None, None, Some("m"), None, NOW);
    assert_eq!(rows, vec![vec!["Model (m)".to_string()]]);
    assert_eq!(render_segments(&rows), "Model (m)");
    assert!(build_segments(&QuotaData::default(), None, None, None, None, NOW).is_empty());
    assert_eq!(render_segments(&vec![]), "");
    assert_eq!(render_segments(&vec![vec!["".to_string()], vec!["a".to_string()]]), "a");
}

#[test]
fn status_program_text() {
    let mut q = QuotaData::default();
    assert_eq!(status_text(&q, None, "", "H", "M", NOW), "ZhipuKit UNKNOWN");
    q.hour5_pct = Some(10);
    q.mcp_used = Some(1);
    q.mcp_total = Some(2);
    assert_eq!(
        status_text(&q, Some("3"), "", "B5", "BM", NOW),
        "ZhipuKit UNKNOWN | ¥3\n5h B5 | MCP BM (1/2)"
    );
    q.level = Some("max".to_string());
    q.mcp_next_reset = Some(NOW + 2_592_000_000 - 90_000_000);
    q.hour5_next_reset = Some(NOW + 3_600_000);
    assert_eq!(
        status_text(&q, None, "dev", "B5", "BM", NOW),
        "ZhipuKit MAX | Git (dev)\n5h B5 (4h 0m/5h) | MCP BM (1/2 | 1d 1h/30d)"
    );
}

#[test]
fn tray_status_and_tooltip() {
    let p = plan("lite", 25, 0, 0, 0);
    assert_eq!(tray_status_text(&p, "8", "dev", "B", "M", NOW), "ZhipuKit LITE | ¥8 | Git (dev)\n5h B 25%");
    let p = plan("lite", 0, 0, 10, 100);
    assert_eq!(tray_status_text(&p, "8", "", "B", "M", NOW), "ZhipuKit LITE | ¥8\nMCP M (10/100)");
    let mut p = plan("pro", 25, 7, 10, 100);
    p.hour5_next_reset = NOW + 3_600_000;
    assert_eq!(
        tray_status_text(&p, "0", "", "B", "M", NOW),
        "ZhipuKit PRO | ¥0\n5h B 25% (4h 0m/5h) | MCP M (10/100)"
    );
    assert_eq!(tray_tooltip(Some("8"), Some(&p)), "¥8 | 5h 25% | 周 7% | MCP 10/100");
    assert_eq!(tray_tooltip(None, Some(&plan("x", 0, 0, 0, 0))), "5h 0%");
    assert_eq!(tray_tooltip(Some("1.25"), None), "¥1.25");
    assert_eq!(tray_tooltip(None, None), "ZhipuKit");
}
