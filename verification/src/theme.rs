//! The unified visual theme shared by the graphical front ends. It lives
//! with the library so every packaging of the tasks ships one identical
//! stylesheet, and so its required selectors can be checked in one place.

use vstd::prelude::*;

verus! {

/// The stylesheet, embedded as source.
pub fn theme_css() -> &'static str {
    r#":root {
  --color-bg: #0f1115;
  --color-bg-raised: #171a21;
  --color-fg: #e8eaf0;
  --color-fg-muted: #9aa3b2;
  --color-accent: #4f8cff;
  --color-accent-soft: #2a3d5f;
  --color-positive: #3ecf8e;
  --color-warning: #f5a623;
  --color-danger: #e5484d;
  --radius-card: 12px;
  --radius-pill: 999px;
  --shadow-card: 0 10px 30px rgba(0, 0, 0, 0.35);
  --font-stack: "Inter", "Segoe UI", system-ui, sans-serif;
  --font-mono: "JetBrains Mono", "Consolas", monospace;
}

* {
  box-sizing: border-box;
}

body {
  margin: 0;
  min-height: 100vh;
  background: var(--color-bg);
  color: var(--color-fg);
  font-family: var(--font-stack);
  line-height: 1.5;
  -webkit-font-smoothing: antialiased;
}

.page {
  max-width: 960px;
  margin: 0 auto;
  padding: 2rem 1.5rem 4rem;
}

.page__header {
  display: flex;
  align-items: baseline;
  justify-content: space-between;
  gap: 1rem;
  margin-bottom: 2rem;
}

.navbar {
  display: flex;
  gap: 0.75rem;
  padding: 0.75rem 1.25rem;
  background: var(--color-bg-raised);
  border-bottom: 1px solid rgba(255, 255, 255, 0.06);
}

.navbar__link {
  color: var(--color-fg-muted);
  text-decoration: none;
  padding: 0.35rem 0.75rem;
  border-radius: var(--radius-pill);
}

.navbar__link:hover,
.navbar__link--active {
  color: var(--color-fg);
  background: var(--color-accent-soft);
}

.button {
  appearance: none;
  border: 1px solid transparent;
  border-radius: var(--radius-pill);
  padding: 0.55rem 1.4rem;
  font-size: 1rem;
  font-weight: 600;
  cursor: pointer;
  transition: background 120ms ease, color 120ms ease;
}

.button--primary {
  background: var(--color-accent);
  color: #ffffff;
}

.button--primary:hover {
  background: #3f7bef;
}

.button--accent {
  background: var(--color-positive);
  color: #06281a;
}

.button--ghost {
  background: transparent;
  color: var(--color-fg-muted);
  border-color: rgba(255, 255, 255, 0.14);
}

.button--ghost:hover {
  color: var(--color-fg);
}

.button:disabled {
  opacity: 0.5;
  cursor: not-allowed;
}

.task-readiness {
  display: inline-flex;
  align-items: center;
  gap: 0.5rem;
  padding: 0.4rem 0.9rem;
  border-radius: var(--radius-pill);
  font-size: 0.85rem;
  border: 1px solid rgba(255, 255, 255, 0.08);
}

.task-readiness--ready {
  background: rgba(62, 207, 142, 0.12);
  color: var(--color-positive);
}

.task-readiness--early {
  background: rgba(245, 166, 35, 0.12);
  color: var(--color-warning);
}

.task-readiness__status {
  font-weight: 700;
  letter-spacing: 0.02em;
  text-transform: uppercase;
}

.task-readiness__detail {
  color: var(--color-fg-muted);
}

.task-stage {
  display: grid;
  place-items: center;
  min-height: 280px;
  border-radius: var(--radius-card);
  background: var(--color-bg-raised);
  box-shadow: var(--shadow-card);
}

.task-stage__indicator {
  font-family: var(--font-mono);
  font-size: 3.5rem;
  font-variant-numeric: tabular-nums;
}

.task-stage__letter {
  font-size: 5rem;
  font-weight: 700;
  letter-spacing: 0.08em;
}

.results__header {
  display: flex;
  justify-content: space-between;
  align-items: center;
  margin-bottom: 1.25rem;
}

.results__panels {
  display: grid;
  grid-template-columns: minmax(240px, 1fr) 2fr;
  gap: 1.25rem;
}

.results-card {
  background: var(--color-bg-raised);
  border-radius: var(--radius-card);
  padding: 1.25rem;
  box-shadow: var(--shadow-card);
}

.results-card__header {
  display: flex;
  justify-content: space-between;
  align-items: baseline;
  margin-bottom: 0.75rem;
}

.results-card__meta {
  color: var(--color-fg-muted);
  font-size: 0.85rem;
}

.results-card__placeholder {
  color: var(--color-fg-muted);
  text-align: center;
  padding: 2.5rem 1rem;
}

.results-list__items {
  list-style: none;
  margin: 0;
  padding: 0;
  display: flex;
  flex-direction: column;
  gap: 0.5rem;
}

.results-list__item {
  border-radius: 8px;
  overflow: hidden;
}

.results-list__item--active {
  outline: 2px solid var(--color-accent);
}

.results-list__button {
  width: 100%;
  text-align: left;
  background: transparent;
  border: none;
  color: inherit;
  padding: 0.7rem 0.9rem;
  cursor: pointer;
}

.results-list__metric {
  display: inline-flex;
  gap: 0.3rem;
  margin-right: 0.8rem;
}

.results-list__metric-label {
  color: var(--color-fg-muted);
  font-size: 0.8rem;
}

.results-list__metric-value {
  font-variant-numeric: tabular-nums;
  font-weight: 600;
}

.results-detail__summary {
  display: flex;
  flex-wrap: wrap;
  gap: 0.75rem;
  margin-bottom: 1rem;
}

.results-detail__grid {
  display: grid;
  grid-template-columns: repeat(auto-fill, minmax(140px, 1fr));
  gap: 0.75rem;
}

.results-detail__metric-label {
  color: var(--color-fg-muted);
  font-size: 0.8rem;
  text-transform: uppercase;
  letter-spacing: 0.04em;
}

.results-detail__qc {
  margin-top: 1rem;
  padding-top: 0.75rem;
  border-top: 1px dashed rgba(255, 255, 255, 0.12);
  color: var(--color-fg-muted);
  font-size: 0.85rem;
}

.results-highlights {
  display: grid;
  grid-template-columns: repeat(auto-fit, minmax(150px, 1fr));
  gap: 0.9rem;
  margin-bottom: 1.25rem;
}

.results-highlight {
  background: var(--color-bg-raised);
  border-radius: var(--radius-card);
  padding: 0.9rem 1.1rem;
}

.results-highlight__value {
  font-size: 1.6rem;
  font-weight: 700;
  font-variant-numeric: tabular-nums;
}

.results-chart {
  background: var(--color-bg-raised);
  border-radius: var(--radius-card);
  padding: 1rem;
  margin-bottom: 1rem;
}

.results-chart__title {
  font-size: 0.95rem;
  font-weight: 600;
  margin-bottom: 0.5rem;
}

.results-chart__legend-swatch--lapses {
  background: var(--color-warning);
}

.results-chart__legend-swatch--false {
  background: var(--color-danger);
}

.results-export__summary {
  color: var(--color-fg-muted);
  margin-bottom: 0.75rem;
}

.results-export__actions {
  display: flex;
  gap: 0.6rem;
  flex-wrap: wrap;
}

@media (max-width: 720px) {
  .results__panels {
    grid-template-columns: 1fr;
  }

  .page {
    padding: 1.25rem 1rem 3rem;
  }

  .task-stage__indicator {
    font-size: 2.4rem;
  }
}
"#
}

} // verus!
