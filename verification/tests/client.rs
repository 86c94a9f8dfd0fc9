use looplace_core::lang::{available_languages, task_label};
use looplace_core::platform::{current, platform_string, timezone_string, user_agent_string,
    ClientInfo, Platform};
use looplace_core::qc::{DeviceSnapshot, QualityFlags};

#[test]
fn fallback_language_is_present() {
    assert!(available_languages().contains(&"en-US".to_string()));
}

#[test]
fn languages_are_sorted_and_unique() {
    let langs = available_languages();
    assert_eq!(langs, vec!["en-US", "es-ES", "fr-FR"]);
}

#[test]
fn task_labels_cover_known_tasks() {
    assert_eq!(task_label("pvt"), "Psychomotor Vigilance");
    assert_eq!(task_label("nback2"), "2-back working memory");
    assert_eq!(task_label("anything-else"), "Session");
}

#[test]
fn platform_identifiers() {
    assert_eq!(current(), Platform::Desktop);
    assert_eq!(platform_string(), "desktop");
    assert_eq!(Platform::Web.as_str(), "web");
    assert_eq!(Platform::Mobile.as_str(), "mobile");
    assert_eq!(Platform::Unknown.as_str(), "unknown");
    assert_eq!(timezone_string(), "UTC");
    assert!(user_agent_string().is_none());
}

#[test]
fn client_info_captures_platform_and_zone() {
    let info = ClientInfo::current();
    assert_eq!(info.platform, "desktop");
    assert_eq!(info.tz, "UTC");
}

#[test]
fn quality_flags_accumulate() {
    let mut flags = QualityFlags::pristine();
    assert_eq!(flags.visibility_blur_events, 0);
    assert_eq!(flags.focus_lost_events, 0);
    assert!(flags.min_trials_met);

    flags.log_visibility_blur();
    flags.log_visibility_blur();
    flags.log_focus_loss();
    flags.mark_min_trials(false);
    assert_eq!(flags.visibility_blur_events, 2);
    assert_eq!(flags.focus_lost_events, 1);
    assert!(!flags.min_trials_met);

    let device = DeviceSnapshot::capture();
    assert_eq!(device.platform, "desktop");
    assert!(device.user_agent.is_none());
}
