use xilem_extras::widgets::radio_release;
use xilem_extras::{
    Alignment, BusyHexSize, ColumnResizeMode, FlowDirection, ProgressStyle, RadioToggled, RoundProgressSize, ScaleMode,
    StockChartMode, SwitchToggled, SwitchWidget,
};

#[test]
fn alignment_default() {
    let align: Alignment = Default::default();
    assert_eq!(align, Alignment::Start);
}

#[test]
fn flow_direction_rtl() {
    assert!(FlowDirection::Rtl.is_rtl());
    assert!(!FlowDirection::Ltr.is_rtl());
    let d: FlowDirection = Default::default();
    assert_eq!(d, FlowDirection::Ltr);
}

#[test]
fn option_defaults() {
    assert_eq!(ColumnResizeMode::default(), ColumnResizeMode::Overflow);
    assert_eq!(ScaleMode::default(), ScaleMode::AspectFill);
    assert_eq!(BusyHexSize::default(), BusyHexSize::Normal);
    assert_eq!(RoundProgressSize::default(), RoundProgressSize::Normal);
    assert_eq!(ProgressStyle::default(), ProgressStyle::Gradient);
    assert_eq!(StockChartMode::default(), StockChartMode::Candlestick);
}

#[test]
fn switch_flips_on_release_over_it() {
    let mut sw = SwitchWidget::new(false);
    assert!(!sw.is_on());
    assert_eq!(sw.release(false, true, true), Some(SwitchToggled(true)));
    assert!(sw.is_on());
    assert_eq!(sw.release(false, true, true), Some(SwitchToggled(false)));
    assert!(!sw.is_on());
}

#[test]
fn switch_ignores_release_elsewhere_or_disabled() {
    let mut sw = SwitchWidget::new(true);
    assert_eq!(sw.release(false, true, false), None);
    assert_eq!(sw.release(false, false, true), None);
    assert_eq!(sw.release(true, true, true), None);
    assert!(sw.is_on());
}

#[test]
fn switch_set_on_reports_change() {
    let mut sw = SwitchWidget::new(false);
    assert!(sw.set_on(true));
    assert!(!sw.set_on(true));
    assert!(sw.is_on());
    assert_eq!(sw.access_click(), SwitchToggled(false));
    assert!(!sw.is_on());
}

#[test]
fn radio_release_flips() {
    assert_eq!(radio_release(false, false, true, true), Some(RadioToggled(true)));
    assert_eq!(radio_release(true, false, true, true), Some(RadioToggled(false)));
    assert_eq!(radio_release(true, true, true, true), None);
    assert_eq!(radio_release(true, false, true, false), None);
}
