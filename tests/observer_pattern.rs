use weather_observer::data::{DataGen, GenError};
use weather_observer::observer::{Observable, Observer};
use weather_observer::weather::{WeatherData, WeatherRecord};
use weather_observer::widget::{StatsError, Widget, WidgetCurrent, WidgetStatistic, DEFAULT_HISTORY_LENGTH};

fn rec(temperature: i32, humidity: i32, pressure: i32) -> WeatherRecord {
    WeatherRecord { temperature, humidity, pressure }
}

#[test]
fn generator_values_stay_in_range() {
    let mut g = DataGen::new(10, 10).unwrap();
    for _ in 0..10_000 {
        let v = g.next().unwrap();
        assert!((10..20).contains(&v), "value {} out of range", v);
    }
}

#[test]
fn generator_with_negative_base_stays_in_range() {
    let mut g = DataGen::new(-50, 7).unwrap();
    for _ in 0..10_000 {
        let v = g.next().unwrap();
        assert!((-50..-43).contains(&v));
    }
}

#[test]
fn generator_of_width_one_is_constant() {
    let mut g = DataGen::new(700, 1).unwrap();
    for _ in 0..100 {
        assert_eq!(g.next(), Some(700));
    }
}

#[test]
fn generator_largest_range_stays_in_range() {
    let mut g = DataGen::new(i32::MAX - 2, 3).unwrap();
    for _ in 0..1000 {
        let v = g.next().unwrap();
        assert!(v >= i32::MAX - 2);
    }
}

#[test]
fn generator_rejects_empty_range() {
    assert_eq!(DataGen::new(5, 0).err(), Some(GenError::InvalidConfiguration));
    assert_eq!(DataGen::new(5, -3).err(), Some(GenError::InvalidConfiguration));
}

#[test]
fn weather_record_new_is_zero() {
    assert_eq!(WeatherRecord::new(), rec(0, 0, 0));
}

#[test]
fn statistic_of_three_values() {
    assert_eq!(WidgetStatistic::statistic(&vec![3, 1, 2]), Ok((1, 3, 6)));
}

#[test]
fn statistic_of_one_value() {
    assert_eq!(WidgetStatistic::statistic(&vec![-4]), Ok((-4, -4, -4)));
}

#[test]
fn statistic_with_equal_values() {
    assert_eq!(WidgetStatistic::statistic(&vec![7, 7, 7, 7]), Ok((7, 7, 28)));
}

#[test]
fn statistic_sum_goes_past_i32() {
    let v = vec![i32::MAX, i32::MAX, i32::MIN];
    assert_eq!(
        WidgetStatistic::statistic(&v),
        Ok((i32::MIN, i32::MAX, 2 * (i32::MAX as i128) + i32::MIN as i128))
    );
}

#[test]
fn statistic_of_empty_history_fails() {
    assert_eq!(WidgetStatistic::statistic(&vec![]), Err(StatsError::EmptyHistory));
}

#[test]
fn fresh_statistics_view_reports_empty_history() {
    let w = WidgetStatistic::new("S");
    assert_eq!(WidgetStatistic::statistic(w.history_temp()), Err(StatsError::EmptyHistory));
    assert_eq!(WidgetStatistic::statistic(w.history_humid()), Err(StatsError::EmptyHistory));
    assert_eq!(WidgetStatistic::statistic(w.history_press()), Err(StatsError::EmptyHistory));
}

#[test]
fn statistic_bounds_and_average() {
    let v = vec![12, 19, 10, 15, 17, 11];
    let (min, max, sum) = WidgetStatistic::statistic(&v).unwrap();
    for x in &v {
        assert!(min <= *x && *x <= max);
    }
    assert_eq!(sum, v.iter().map(|x| *x as i128).sum::<i128>());
    let avg = sum as f64 / v.len() as f64;
    assert!((avg - 14.0).abs() < 1e-9);
}

#[test]
fn statistics_window_keeps_most_recent() {
    let mut w = WidgetStatistic::with_capacity("S", 3);
    let temps = [1, 2, 3, 4, 5];
    for (m, t) in temps.iter().enumerate() {
        w.update(&rec(*t, 50 + *t, 700 + *t));
        let kept = std::cmp::min(m + 1, 3);
        let expected: Vec<i32> = temps[m + 1 - kept..m + 1].to_vec();
        assert_eq!(*w.history_temp(), expected);
        assert_eq!(*w.history_humid(), expected.iter().map(|x| 50 + x).collect::<Vec<i32>>());
        assert_eq!(*w.history_press(), expected.iter().map(|x| 700 + x).collect::<Vec<i32>>());
    }
}

#[test]
fn statistics_default_window_is_ten() {
    let mut w = WidgetStatistic::new("S");
    assert_eq!(w.history_length(), DEFAULT_HISTORY_LENGTH);
    assert_eq!(DEFAULT_HISTORY_LENGTH, 10);
    for t in 0..12 {
        w.update(&rec(t, t, t));
    }
    assert_eq!(*w.history_temp(), (2..12).collect::<Vec<i32>>());
}

#[test]
fn statistics_window_of_zero_keeps_nothing() {
    let mut w = WidgetStatistic::with_capacity("S", 0);
    w.update(&rec(1, 2, 3));
    assert!(w.history_temp().is_empty());
    assert_eq!(WidgetStatistic::statistic(w.history_temp()), Err(StatsError::EmptyHistory));
}

#[test]
fn current_view_keeps_latest_record() {
    let mut w = WidgetCurrent::new("C");
    assert_eq!(w.current(), rec(0, 0, 0));
    assert_eq!(w.name(), "C");
    w.update(&rec(11, 45, 710));
    w.update(&rec(12, 46, 711));
    assert_eq!(w.current(), rec(12, 46, 711));
}

fn current_of(w: &Widget) -> Option<WeatherRecord> {
    match w {
        Widget::Current(c) => Some(c.current()),
        Widget::Statistic(_) => None,
    }
}

#[test]
fn removed_listener_gets_no_notification() {
    let mut st: WeatherData<Widget> = WeatherData::new();
    let a = st.register(Widget::Current(WidgetCurrent::new("A")));
    let b = st.register(Widget::Current(WidgetCurrent::new("B")));
    assert_eq!(a, "A");
    assert_eq!(b, "B");
    st.remove(a);
    st.notify(rec(15, 50, 720));
    let obs = st.observers();
    assert_eq!(obs.len(), 1);
    assert_eq!(obs[0].name(), "B");
    assert_eq!(current_of(&obs[0]), Some(rec(15, 50, 720)));
}

#[test]
fn both_listeners_notified_before_removal() {
    let mut st: WeatherData<Widget> = WeatherData::new();
    st.register(Widget::Current(WidgetCurrent::new("A")));
    st.register(Widget::Current(WidgetCurrent::new("B")));
    st.notify(rec(1, 2, 3));
    let obs = st.observers();
    assert_eq!(obs.len(), 2);
    for o in obs {
        assert_eq!(current_of(o), Some(rec(1, 2, 3)));
    }
}

#[test]
fn removing_unknown_name_is_no_op() {
    let mut st: WeatherData<Widget> = WeatherData::new();
    st.register(Widget::Current(WidgetCurrent::new("A")));
    st.remove("Z".to_string());
    assert_eq!(st.observers().len(), 1);
}

#[test]
fn same_name_keeps_second_listener() {
    let mut st: WeatherData<Widget> = WeatherData::new();
    st.register(Widget::Current(WidgetCurrent::new("X")));
    st.register(Widget::Statistic(WidgetStatistic::new("X")));
    st.notify(rec(13, 44, 701));
    let obs = st.observers();
    assert_eq!(obs.len(), 1);
    match &obs[0] {
        Widget::Statistic(s) => assert_eq!(*s.history_temp(), vec![13]),
        Widget::Current(_) => panic!("the first listener was kept"),
    }
}

#[test]
fn end_to_end_four_refreshes() {
    let mut st: WeatherData<Widget> = WeatherData::new();
    st.register(Widget::Current(WidgetCurrent::new("C")));
    st.register(Widget::Statistic(WidgetStatistic::with_capacity("S", 3)));
    for t in [10, 20, 30, 40] {
        st.notify(rec(t, 50, 750));
    }
    let mut seen = 0;
    for o in st.observers() {
        match o {
            Widget::Current(c) => {
                assert_eq!(c.name(), "C");
                assert_eq!(c.current().temperature, 40);
                seen += 1;
            }
            Widget::Statistic(s) => {
                assert_eq!(s.name(), "S");
                assert_eq!(*s.history_temp(), vec![20, 30, 40]);
                let (min, max, sum) = WidgetStatistic::statistic(s.history_temp()).unwrap();
                assert_eq!((min, max), (20, 40));
                let avg = sum as f64 / s.history_temp().len() as f64;
                assert!((avg - 30.0).abs() < 1e-9);
                seen += 1;
            }
        }
    }
    assert_eq!(seen, 2);
}

#[test]
fn measurements_changed_delivers_in_range_record() {
    let mut st: WeatherData<Widget> = WeatherData::new();
    st.register(Widget::Current(WidgetCurrent::new("C")));
    st.register(Widget::Statistic(WidgetStatistic::new("S")));
    for _ in 0..15 {
        st.measurements_changed();
        for o in st.observers() {
            if let Some(r) = current_of(o) {
                assert!((10..20).contains(&r.temperature));
                assert!((40..100).contains(&r.humidity));
                assert!((700..790).contains(&r.pressure));
            }
        }
    }
    for o in st.observers() {
        if let Widget::Statistic(s) = o {
            assert_eq!(s.history_temp().len(), 10);
        }
    }
}
