use cpm::pace::{pace_summary, Pace, PaceColor};
use cpm::quota::{DisplayData, QuotaInfo};

fn quota(label: &str, unlimited: bool) -> QuotaInfo<f64> {
    QuotaInfo {
        label: label.into(),
        entitlement: if unlimited { 0 } else { 300 },
        remaining: 0,
        unlimited,
        percent_remaining: 50.0,
    }
}

fn data(quotas: Vec<QuotaInfo<f64>>) -> DisplayData<f64> {
    DisplayData { quotas, days_remaining: 15, days_total: 30, reset_date: 0 }
}

#[test]
fn pace_labels() {
    assert_eq!(Pace::Overusing.label(), "⚠  Overusing");
    assert_eq!(Pace::SlightlyFast.label(), "△  Slightly fast");
    assert_eq!(Pace::GoodPace.label(), "✓  Good pace");
    assert_eq!(Pace::PlentyLeft.label(), "◎  Plenty left");
}

#[test]
fn pace_colors_follow_labels() {
    assert_eq!(Pace::Overusing.color(), PaceColor::Red);
    assert_eq!(Pace::SlightlyFast.color(), PaceColor::Yellow);
    assert_eq!(Pace::GoodPace.color(), PaceColor::Green);
    assert_eq!(Pace::PlentyLeft.color(), PaceColor::Green);
}

#[test]
fn pace_summary_all_unlimited() {
    let d = data(vec![quota("Chat", true), quota("Code Completions", true)]);
    assert_eq!(pace_summary(&d, &vec![Pace::Overusing, Pace::Overusing]), "No tracked quotas (all unlimited)");
    assert_eq!(pace_summary(&data(vec![]), &vec![]), "No tracked quotas (all unlimited)");
}

#[test]
fn pace_summary_one_metered() {
    let d = data(vec![quota("Chat", true), quota("Premium", false)]);
    assert_eq!(pace_summary(&d, &vec![Pace::PlentyLeft, Pace::GoodPace]), "Premium: ✓  Good pace");
}

#[test]
fn pace_summary_joins_in_order() {
    let d = data(vec![quota("Chat", false), quota("Code Completions", true), quota("Premium", false)]);
    let paces = vec![Pace::SlightlyFast, Pace::GoodPace, Pace::Overusing];
    assert_eq!(pace_summary(&d, &paces), "Chat: △  Slightly fast  |  Premium: ⚠  Overusing");
}
