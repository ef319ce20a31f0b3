//! Listeners that render views of the weather stream: the latest reading, and
//! min/max/sum over a bounded window of recent readings.

use vstd::prelude::*;
use crate::observer::Observer;
use crate::weather::{WeatherRecord, Temperature, Humidity, Pressure};

verus! {

/// The window length a statistics view gets unless told otherwise.
pub const DEFAULT_HISTORY_LENGTH: usize = 10;

/// A view that keeps the most recent record it was sent.
pub struct WidgetCurrent {
    name: String,
    current: WeatherRecord,
}

/// What a current-reading view holds: its name and the latest record.
pub struct CurrentView {
    pub name: Seq<char>,
    pub current: WeatherRecord,
}

impl View for WidgetCurrent {
    type V = CurrentView;

    closed spec fn view(&self) -> CurrentView {
        CurrentView { name: self.name@, current: self.current }
    }
}

impl WidgetCurrent {
    /// A view named `name` that holds the all-zero record.
    pub fn new(name: &str) -> (r: WidgetCurrent)
        ensures
            r@ == (CurrentView { name: name@, current: WeatherRecord::zero() }),
    {
        WidgetCurrent { name: name.to_owned(), current: WeatherRecord::new() }
    }

    /// The record the view holds.
    pub fn current(&self) -> (r: WeatherRecord)
        ensures
            r == self@.current,
    {
        self.current
    }
}

impl Observer<WeatherRecord> for WidgetCurrent {
    open spec fn id_of(v: CurrentView) -> Seq<char> {
        v.name
    }

    open spec fn after_update(v: CurrentView, value: WeatherRecord) -> CurrentView {
        CurrentView { current: value, ..v }
    }

    proof fn lemma_update_keeps_id(v: CurrentView, value: WeatherRecord) {
    }

    fn update(&mut self, value: &WeatherRecord) {
        self.current = *value;
    }

    fn name(&self) -> (r: String) {
        self.name.clone()
    }
}

/// The last `min(s.len(), n)` elements of `s`, oldest first.
pub open spec fn recent(s: Seq<i32>, n: nat) -> Seq<i32> {
    if s.len() <= n {
        s
    } else {
        s.subrange(s.len() - n, s.len() as int)
    }
}

/// `h` with `v` appended, then without its oldest element if that made it
/// longer than `n`.
pub open spec fn pushed_within(h: Seq<i32>, v: i32, n: nat) -> Seq<i32> {
    if h.len() + 1 > n {
        h.push(v).drop_first()
    } else {
        h.push(v)
    }
}

/// The sum of the elements of `s`.
pub open spec fn seq_sum(s: Seq<i32>) -> int
    decreases s.len(),
{
    if s.len() == 0 {
        0
    } else {
        seq_sum(s.drop_last()) + s.last()
    }
}

/// The least element of a non-empty `s`.
pub open spec fn seq_min(s: Seq<i32>) -> i32
    decreases s.len(),
{
    if s.len() <= 1 {
        s[0]
    } else if s.last() < seq_min(s.drop_last()) {
        s.last()
    } else {
        seq_min(s.drop_last())
    }
}

/// The greatest element of a non-empty `s`.
pub open spec fn seq_max(s: Seq<i32>) -> i32
    decreases s.len(),
{
    if s.len() <= 1 {
        s[0]
    } else if s.last() > seq_max(s.drop_last()) {
        s.last()
    } else {
        seq_max(s.drop_last())
    }
}

/// Why statistics could not be computed.
#[derive(Debug, Clone, Copy, PartialEq, Eq, Structural)]
pub enum StatsError {
    /// The history holds no reading yet.
    EmptyHistory,
}

/// What a statistics view holds: its name, its window length and the
/// retained readings of each kind, oldest first.
pub struct StatisticView {
    pub name: Seq<char>,
    pub capacity: nat,
    pub temperatures: Seq<i32>,
    pub humidities: Seq<i32>,
    pub pressures: Seq<i32>,
}

/// A view that keeps a bounded window of recent readings of each kind and
/// reports min, max and sum over it.
pub struct WidgetStatistic {
    name: String,
    history_length: usize,
    history_temp: Vec<Temperature>,
    history_humid: Vec<Humidity>,
    history_press: Vec<Pressure>,
}

impl View for WidgetStatistic {
    type V = StatisticView;

    closed spec fn view(&self) -> StatisticView {
        StatisticView {
            name: self.name@,
            capacity: self.history_length as nat,
            temperatures: self.history_temp@,
            humidities: self.history_humid@,
            pressures: self.history_press@,
        }
    }
}

impl WidgetStatistic {
    /// A view named `name` with an empty window of `DEFAULT_HISTORY_LENGTH` readings.
    pub fn new(name: &str) -> (r: WidgetStatistic)
        ensures
            r@ == (StatisticView {
                name: name@,
                capacity: DEFAULT_HISTORY_LENGTH as nat,
                temperatures: Seq::empty(),
                humidities: Seq::empty(),
                pressures: Seq::empty(),
            }),
    {
        WidgetStatistic::with_capacity(name, DEFAULT_HISTORY_LENGTH)
    }

    /// A view named `name` with an empty window of `history_length` readings.
    pub fn with_capacity(name: &str, history_length: usize) -> (r: WidgetStatistic)
        ensures
            r@ == (StatisticView {
                name: name@,
                capacity: history_length as nat,
                temperatures: Seq::empty(),
                humidities: Seq::empty(),
                pressures: Seq::empty(),
            }),
    {
        let r = WidgetStatistic {
            name: name.to_owned(),
            history_length,
            history_temp: Vec::new(),
            history_humid: Vec::new(),
            history_press: Vec::new(),
        };
        proof {
            assert(r@.temperatures =~= Seq::empty());
            assert(r@.humidities =~= Seq::empty());
            assert(r@.pressures =~= Seq::empty());
        }
        r
    }

    /// Retained temperatures, oldest first.
    pub fn history_temp(&self) -> (r: &Vec<Temperature>)
        ensures
            r@ == self@.temperatures,
    {
        &self.history_temp
    }

    /// Retained humidities, oldest first.
    pub fn history_humid(&self) -> (r: &Vec<Humidity>)
        ensures
            r@ == self@.humidities,
    {
        &self.history_humid
    }

    /// Retained pressures, oldest first.
    pub fn history_press(&self) -> (r: &Vec<Pressure>)
        ensures
            r@ == self@.pressures,
    {
        &self.history_press
    }

    /// Window length.
    pub fn history_length(&self) -> (r: usize)
        ensures
            r == self@.capacity,
    {
        self.history_length
    }

    /// Drops the oldest reading of each history that is longer than the window.
    fn strip_list(&mut self)
        ensures
            final(self)@ == (StatisticView {
                temperatures: if old(self)@.temperatures.len() > old(self)@.capacity {
                    old(self)@.temperatures.drop_first()
                } else {
                    old(self)@.temperatures
                },
                humidities: if old(self)@.humidities.len() > old(self)@.capacity {
                    old(self)@.humidities.drop_first()
                } else {
                    old(self)@.humidities
                },
                pressures: if old(self)@.pressures.len() > old(self)@.capacity {
                    old(self)@.pressures.drop_first()
                } else {
                    old(self)@.pressures
                },
                ..old(self)@
            }),
    {
        if self.history_temp.len() > self.history_length {
            self.history_temp.remove(0);
        }
        if self.history_humid.len() > self.history_length {
            self.history_humid.remove(0);
        }
        if self.history_press.len() > self.history_length {
            self.history_press.remove(0);
        }
        proof {
            assert(old(self)@.temperatures.drop_first() =~= old(self)@.temperatures.remove(0));
            assert(old(self)@.humidities.drop_first() =~= old(self)@.humidities.remove(0));
            assert(old(self)@.pressures.drop_first() =~= old(self)@.pressures.remove(0));
        }
    }

    /// `(min, max, sum)` over `list`; fails on an empty list.
    pub fn statistic(list: &Vec<i32>) -> (r: Result<(i32, i32, i128), StatsError>)
        ensures
            r is Err <==> list@.len() == 0,
            r is Err ==> r == Err::<(i32, i32, i128), StatsError>(StatsError::EmptyHistory),
            r matches Ok((mn, mx, sm)) ==> mn == seq_min(list@) && mx == seq_max(list@) && sm
                == seq_sum(list@),
    {
        if list.len() == 0 {
            return Err(StatsError::EmptyHistory);
        }
        let first = list[0];
        let mut min: i32 = first;
        let mut max: i32 = first;
        let mut sum: i128 = first as i128;
        proof {
            assert(list@.subrange(0, 1).drop_last() =~= Seq::<i32>::empty());
            assert(seq_sum(Seq::<i32>::empty()) == 0);
        }
        let mut i: usize = 1;
        while i < list.len()
            invariant
                1 <= i <= list@.len(),
                min == seq_min(list@.subrange(0, i as int)),
                max == seq_max(list@.subrange(0, i as int)),
                sum == seq_sum(list@.subrange(0, i as int)),
                -0x8000_0000 * (i as int) <= sum <= 0x7fff_ffff * (i as int),
            decreases list@.len() - i,
        {
            let curr = list[i];
            proof {
                let s = list@.subrange(0, i + 1);
                assert(s.drop_last() =~= list@.subrange(0, i as int));
                assert(s.last() == curr);
            }
            if min > curr {
                min = curr;
            }
            if max < curr {
                max = curr;
            }
            sum = sum + curr as i128;
            i = i + 1;
        }
        proof {
            assert(list@.subrange(0, i as int) =~= list@);
        }
        Ok((min, max, sum))
    }
}

impl Observer<WeatherRecord> for WidgetStatistic {
    open spec fn id_of(v: StatisticView) -> Seq<char> {
        v.name
    }

    open spec fn after_update(v: StatisticView, value: WeatherRecord) -> StatisticView {
        StatisticView {
            temperatures: pushed_within(v.temperatures, value.temperature, v.capacity),
            humidities: pushed_within(v.humidities, value.humidity, v.capacity),
            pressures: pushed_within(v.pressures, value.pressure, v.capacity),
            ..v
        }
    }

    proof fn lemma_update_keeps_id(v: StatisticView, value: WeatherRecord) {
    }

    fn update(&mut self, value: &WeatherRecord) {
        self.history_temp.push(value.temperature);
        self.history_humid.push(value.humidity);
        self.history_press.push(value.pressure);
        self.strip_list();
    }

    fn name(&self) -> (r: String) {
        self.name.clone()
    }
}

/// The state of a statistics view in state `v` once it has processed the
/// records of `rs` in order.
pub open spec fn delivered(v: StatisticView, rs: Seq<WeatherRecord>) -> StatisticView
    decreases rs.len(),
{
    if rs.len() == 0 {
        v
    } else {
        <WidgetStatistic as Observer<WeatherRecord>>::after_update(
            delivered(v, rs.drop_last()),
            rs.last(),
        )
    }
}

/// Keeping the window of the last `n` readings and then pushing one more
/// gives the window of the last `n` readings of the longer stream.
pub proof fn lemma_push_keeps_recent(xs: Seq<i32>, x: i32, n: nat)
    ensures
        pushed_within(recent(xs, n), x, n) == recent(xs.push(x), n),
{
    if xs.len() < n {
        assert(pushed_within(recent(xs, n), x, n) == xs.push(x));
    } else {
        let w = xs.subrange(xs.len() - n, xs.len() as int);
        assert(recent(xs, n) =~= w);
        assert(w.push(x).drop_first() =~= xs.push(x).subrange(
            xs.push(x).len() - n,
            xs.push(x).len() as int,
        ));
    }
}

/// After a view with an empty window of capacity `N` has processed the
/// records `rs` (`M` of them), each history holds exactly the last
/// `min(M, N)` readings of its kind, oldest first.
pub proof fn lemma_history_is_recent_window(v: StatisticView, rs: Seq<WeatherRecord>)
    requires
        v.temperatures.len() == 0,
        v.humidities.len() == 0,
        v.pressures.len() == 0,
    ensures
        delivered(v, rs).name == v.name,
        delivered(v, rs).capacity == v.capacity,
        delivered(v, rs).temperatures == recent(
            rs.map_values(|r: WeatherRecord| r.temperature),
            v.capacity,
        ),
        delivered(v, rs).humidities == recent(
            rs.map_values(|r: WeatherRecord| r.humidity),
            v.capacity,
        ),
        delivered(v, rs).pressures == recent(
            rs.map_values(|r: WeatherRecord| r.pressure),
            v.capacity,
        ),
    decreases rs.len(),
{
    let ts = rs.map_values(|r: WeatherRecord| r.temperature);
    let hs = rs.map_values(|r: WeatherRecord| r.humidity);
    let ps = rs.map_values(|r: WeatherRecord| r.pressure);
    if rs.len() == 0 {
        assert(recent(ts, v.capacity) =~= v.temperatures);
        assert(recent(hs, v.capacity) =~= v.humidities);
        assert(recent(ps, v.capacity) =~= v.pressures);
    } else {
        let init = rs.drop_last();
        let x = rs.last();
        lemma_history_is_recent_window(v, init);
        assert(ts =~= init.map_values(|r: WeatherRecord| r.temperature).push(x.temperature));
        assert(hs =~= init.map_values(|r: WeatherRecord| r.humidity).push(x.humidity));
        assert(ps =~= init.map_values(|r: WeatherRecord| r.pressure).push(x.pressure));
        lemma_push_keeps_recent(
            init.map_values(|r: WeatherRecord| r.temperature),
            x.temperature,
            v.capacity,
        );
        lemma_push_keeps_recent(
            init.map_values(|r: WeatherRecord| r.humidity),
            x.humidity,
            v.capacity,
        );
        lemma_push_keeps_recent(
            init.map_values(|r: WeatherRecord| r.pressure),
            x.pressure,
            v.capacity,
        );
    }
}

/// Over a non-empty sequence, the minimum and the maximum are elements of it
/// and bound every element.
pub proof fn lemma_min_max_bound(s: Seq<i32>)
    requires
        s.len() >= 1,
    ensures
        forall|j: int| 0 <= j < s.len() ==> seq_min(s) <= #[trigger] s[j] <= seq_max(s),
        s.contains(seq_min(s)),
        s.contains(seq_max(s)),
    decreases s.len(),
{
    if s.len() > 1 {
        let init = s.drop_last();
        lemma_min_max_bound(init);
        assert forall|j: int| 0 <= j < s.len() implies seq_min(s) <= #[trigger] s[j] <= seq_max(
            s,
        ) by {
            if j < s.len() - 1 {
                assert(s[j] == init[j]);
            }
        }
        let a = choose|j: int| 0 <= j < init.len() && init[j] == seq_min(init);
        let b = choose|j: int| 0 <= j < init.len() && init[j] == seq_max(init);
        assert(s[a] == init[a]);
        assert(s[b] == init[b]);
        assert(s[s.len() - 1] == s.last());
    } else {
        assert(s[0] == seq_min(s));
    }
}

/// Either kind of view, so that one station can hold both.
pub enum Widget {
    Current(WidgetCurrent),
    Statistic(WidgetStatistic),
}

/// What a `Widget` holds: the view of the kind it is.
pub enum WidgetView {
    Current(CurrentView),
    Statistic(StatisticView),
}

impl View for Widget {
    type V = WidgetView;

    open spec fn view(&self) -> WidgetView {
        match self {
            Widget::Current(w) => WidgetView::Current(w@),
            Widget::Statistic(w) => WidgetView::Statistic(w@),
        }
    }
}

impl Observer<WeatherRecord> for Widget {
    open spec fn id_of(v: WidgetView) -> Seq<char> {
        match v {
            WidgetView::Current(c) => WidgetCurrent::id_of(c),
            WidgetView::Statistic(s) => WidgetStatistic::id_of(s),
        }
    }

    open spec fn after_update(v: WidgetView, value: WeatherRecord) -> WidgetView {
        match v {
            WidgetView::Current(c) => WidgetView::Current(WidgetCurrent::after_update(c, value)),
            WidgetView::Statistic(s) => WidgetView::Statistic(
                WidgetStatistic::after_update(s, value),
            ),
        }
    }

    proof fn lemma_update_keeps_id(v: WidgetView, value: WeatherRecord) {
    }

    fn update(&mut self, value: &WeatherRecord) {
        match self {
            Widget::Current(w) => w.update(value),
            Widget::Statistic(w) => w.update(value),
        }
    }

    fn name(&self) -> (r: String) {
        match self {
            Widget::Current(w) => w.name(),
            Widget::Statistic(w) => w.name(),
        }
    }
}

} // verus!
