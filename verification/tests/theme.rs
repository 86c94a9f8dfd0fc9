use looplace_core::theme::theme_css;

/// Core selectors / tokens that must exist in the shared theme.
const REQUIRED_SELECTORS: &[&str] = &[
    ":root",
    "body {",
    ".page {",
    ".button {",
    ".button--primary",
    ".button--accent",
    ".button--ghost",
    ".task-readiness",
    ".task-readiness--early",
    ".task-readiness--ready",
    ".results__header",
    ".results__panels",
    ".results-card",
    ".results-card__header",
    ".results-card__meta",
    ".results-card__placeholder",
    ".results-list__items",
    ".results-list__item",
    ".results-list__item--active",
    ".results-list__button",
    ".results-list__metric",
    ".results-list__metric-label",
    ".results-list__metric-value",
    ".results-detail__summary",
    ".results-detail__grid",
    ".results-detail__metric-label",
    ".results-detail__qc",
    ".results-highlights",
    ".results-chart",
    ".results-chart__title",
    ".results-chart__legend-swatch--lapses",
    ".results-chart__legend-swatch--false",
    ".results-highlight",
    ".results-highlight__value",
    ".results-export__summary",
    ".results-export__actions",
    "@media (max-width: 720px)",
];

#[test]
fn embedded_css_file_exists_and_is_not_empty() {
    assert!(
        !theme_css().trim().is_empty(),
        "Embedded CSS file appears to be empty. If this is intentional, remove the test."
    );
}

#[test]
fn embedded_css_contains_expected_tokens() {
    // Quick sanity tokens that should exist in our theme.
    let required = [
        "--color-bg",
        ".task-readiness",
        "body {",
        ".button--primary",
    ];
    for token in required {
        assert!(
            theme_css().contains(token),
            "Expected token `{token}` missing from embedded CSS"
        );
    }
}

#[test]
fn unified_theme_contains_required_selectors() {
    let mut missing = Vec::new();
    for sel in REQUIRED_SELECTORS {
        if !theme_css().contains(sel) {
            missing.push(*sel);
        }
    }

    if !missing.is_empty() {
        panic!(
            "Missing {} required CSS selectors/tokens in unified theme:\n{}",
            missing.len(),
            missing.join("\n")
        );
    }
}

#[test]
fn unified_theme_not_trivially_empty() {
    let non_ws_len = theme_css().chars().filter(|c| !c.is_whitespace()).count();
    assert!(
        non_ws_len > 4_000,
        "Embedded theme appears unexpectedly small ({} non-whitespace chars)",
        non_ws_len
    );
}

#[test]
fn readiness_block_consistency() {
    // Ensure readiness status classes have expected pairing.
    let has_status = theme_css().contains(".task-readiness__status");
    let has_detail = theme_css().contains(".task-readiness__detail");
    assert!(
        has_status && has_detail,
        "Readiness advisory sub-selectors missing (status: {has_status}, detail: {has_detail})"
    );
}
