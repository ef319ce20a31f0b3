//! Weather records and the station that publishes them.

use vstd::prelude::*;
use crate::data::DataGen;
use crate::observer::{Observer, Observable, notified};

verus! {

pub type Temperature = i32;

pub type Humidity = i32;

pub type Pressure = i32;

/// One temperature, one humidity and one pressure reading.
#[derive(Debug, Clone, Copy, PartialEq, Eq, Structural)]
pub struct WeatherRecord {
    pub temperature: Temperature,
    pub humidity: Humidity,
    pub pressure: Pressure,
}

impl WeatherRecord {
    /// The all-zero record.
    pub open spec fn zero() -> WeatherRecord {
        WeatherRecord { temperature: 0, humidity: 0, pressure: 0 }
    }

    /// The all-zero record, a placeholder before any reading arrives.
    pub fn new() -> (r: WeatherRecord)
        ensures
            r == WeatherRecord::zero(),
    {
        WeatherRecord { temperature: 0, humidity: 0, pressure: 0 }
    }
}

/// The name a listener declares.
pub open spec fn key<O: Observer<WeatherRecord>>(o: O) -> Seq<char> {
    O::id_of(o@)
}

/// No two listeners of `s` declare the same name.
pub open spec fn keys_unique<O: Observer<WeatherRecord>>(s: Seq<O>) -> bool {
    forall|i: int, j: int|
        0 <= i < s.len() && 0 <= j < s.len() && i != j ==> key(#[trigger] s[i]) != key(
            #[trigger] s[j],
        )
}

/// Some listener of `s` declares the name `k`.
pub open spec fn has_key<O: Observer<WeatherRecord>>(s: Seq<O>, k: Seq<char>) -> bool {
    exists|i: int| 0 <= i < s.len() && key(#[trigger] s[i]) == k
}

/// The listeners of `s` by name.
pub open spec fn listeners_of<O: Observer<WeatherRecord>>(s: Seq<O>) -> Map<Seq<char>, O::V> {
    Map::new(
        |k: Seq<char>| has_key(s, k),
        |k: Seq<char>| s[choose|i: int| 0 <= i < s.len() && key(#[trigger] s[i]) == k]@,
    )
}

/// With unique names, the listener at `i` is the one kept under its name.
proof fn lemma_listener_at<O: Observer<WeatherRecord>>(s: Seq<O>, i: int)
    requires
        keys_unique(s),
        0 <= i < s.len(),
    ensures
        listeners_of(s).contains_key(key(s[i])),
        listeners_of(s)[key(s[i])] == s[i]@,
{
    let k = key(s[i]);
    assert(has_key(s, k));
    let c = choose|c: int| 0 <= c < s.len() && key(#[trigger] s[c]) == k;
    assert(c == i);
}

/// `m` is the map of the listeners of `t` when it holds exactly their names,
/// each with the listener of that name.
proof fn lemma_listeners_are<O: Observer<WeatherRecord>>(t: Seq<O>, m: Map<Seq<char>, O::V>)
    requires
        forall|k: Seq<char>| m.contains_key(k) <==> has_key(t, k),
        forall|i: int| 0 <= i < t.len() ==> m[key(#[trigger] t[i])] == t[i]@,
    ensures
        listeners_of(t) == m,
{
    assert forall|k: Seq<char>| #[trigger] listeners_of(t).contains_key(k) implies listeners_of(
        t,
    )[k] == m[k] by {
        let c = choose|c: int| 0 <= c < t.len() && key(#[trigger] t[c]) == k;
        assert(m[key(t[c])] == t[c]@);
    }
    assert(listeners_of(t) =~= m);
}

/// A station that draws simulated readings and pushes each record to the
/// listeners registered under their names.
pub struct WeatherData<O> {
    temperature: DataGen,
    humidity: DataGen,
    pressure: DataGen,
    observers: Vec<O>,
}

impl<O: Observer<WeatherRecord>> WeatherData<O> {
    /// A station with no listeners, drawing temperatures from `[10, 20)`,
    /// humidities from `[40, 100)` and pressures from `[700, 790)`.
    pub fn new() -> (r: Self)
        ensures
            r.inv(),
            r.listeners() == Map::<Seq<char>, O::V>::empty(),
    {
        let temperature = DataGen::new(10, 10).unwrap();
        let humidity = DataGen::new(40, 60).unwrap();
        let pressure = DataGen::new(700, 90).unwrap();
        let r = WeatherData { temperature, humidity, pressure, observers: Vec::new() };
        proof {
            lemma_listeners_are(r.observers@, Map::<Seq<char>, O::V>::empty());
        }
        r
    }
}

impl<O: Observer<WeatherRecord>> WeatherData<O> {
    /// The generators cover the ranges `new` gives them.
    pub closed spec fn sources_wf(&self) -> bool {
        &&& self.temperature.wf() && self.temperature.low() == 10 && self.temperature.width() == 10
        &&& self.humidity.wf() && self.humidity.low() == 40 && self.humidity.width() == 60
        &&& self.pressure.wf() && self.pressure.low() == 700 && self.pressure.width() == 90
    }

    /// Position of the listener named `name`, if one is registered.
    fn position(&self, name: &String) -> (r: Option<usize>)
        ensures
            r matches Some(i) ==> i < self.observers@.len() && key(self.observers@[i as int])
                == name@,
            r is None ==> !has_key(self.observers@, name@),
    {
        let mut i: usize = 0;
        while i < self.observers.len()
            invariant
                i <= self.observers@.len(),
                forall|j: int| 0 <= j < i ==> key(#[trigger] self.observers@[j]) != name@,
            decreases self.observers@.len() - i,
        {
            if self.observers[i].name() == *name {
                return Some(i);
            }
            i = i + 1;
        }
        None
    }
}

impl<O: Observer<WeatherRecord>> WeatherData<O> {
    fn get_temperature(&mut self) -> (r: Temperature)
        requires
            old(self).inv(),
        ensures
            final(self).inv(),
            final(self).listeners() == old(self).listeners(),
            10 <= r < 20,
    {
        self.temperature.next().unwrap()
    }

    fn get_humidity(&mut self) -> (r: Humidity)
        requires
            old(self).inv(),
        ensures
            final(self).inv(),
            final(self).listeners() == old(self).listeners(),
            40 <= r < 100,
    {
        self.humidity.next().unwrap()
    }

    fn get_pressure(&mut self) -> (r: Pressure)
        requires
            old(self).inv(),
        ensures
            final(self).inv(),
            final(self).listeners() == old(self).listeners(),
            700 <= r < 790,
    {
        self.pressure.next().unwrap()
    }

    /// Draws one temperature, one humidity and one pressure, in that order,
    /// and delivers the record of them to every listener.
    pub fn measurements_changed(&mut self)
        requires
            old(self).inv(),
        ensures
            final(self).inv(),
            exists|r: WeatherRecord|
                10 <= r.temperature < 20 && 40 <= r.humidity < 100 && 700 <= r.pressure < 790
                    && final(self).listeners() == notified::<WeatherRecord, O>(
                    old(self).listeners(),
                    r,
                ),
    {
        let record = WeatherRecord {
            temperature: self.get_temperature(),
            humidity: self.get_humidity(),
            pressure: self.get_pressure(),
        };
        self.notify(record);
    }

    /// The registered listeners.
    pub fn observers(&self) -> (r: &Vec<O>)
        requires
            self.inv(),
        ensures
            keys_unique(r@),
            listeners_of(r@) == self.listeners(),
    {
        &self.observers
    }
}

impl<O: Observer<WeatherRecord>> Observable<WeatherRecord, O> for WeatherData<O> {
    closed spec fn listeners(&self) -> Map<Seq<char>, O::V> {
        listeners_of(self.observers@)
    }

    closed spec fn inv(&self) -> bool {
        self.sources_wf() && keys_unique(self.observers@)
    }

    fn register(&mut self, observer: O) -> (r: String) {
        let name = observer.name();
        let ghost o = observer;
        let ghost s = self.observers@;
        let ghost m = listeners_of(s).insert(key(o), o@);
        match self.position(&name) {
            Some(i) => {
                self.observers[i] = observer;
                proof {
                    let t = self.observers@;
                    assert(t == s.update(i as int, o));
                    assert forall|a: int, b: int|
                        0 <= a < t.len() && 0 <= b < t.len() && a != b implies key(
                            #[trigger] t[a],
                        ) != key(#[trigger] t[b]) by {
                        assert(key(t[a]) == key(s[a]));
                        assert(key(t[b]) == key(s[b]));
                    }
                    assert forall|k: Seq<char>| m.contains_key(k) <==> has_key(t, k) by {
                        if has_key(s, k) {
                            let c = choose|c: int| 0 <= c < s.len() && key(#[trigger] s[c]) == k;
                            assert(key(t[c]) == k);
                        }
                        if has_key(t, k) {
                            let c = choose|c: int| 0 <= c < t.len() && key(#[trigger] t[c]) == k;
                            assert(key(s[c]) == k);
                        }
                    }
                    assert forall|j: int| 0 <= j < t.len() implies m[key(#[trigger] t[j])]
                        == t[j]@ by {
                        if j != i {
                            lemma_listener_at(s, j);
                        }
                    }
                    lemma_listeners_are(t, m);
                }
            },
            None => {
                self.observers.push(observer);
                proof {
                    let t = self.observers@;
                    assert(t == s.push(o));
                    assert forall|a: int, b: int|
                        0 <= a < t.len() && 0 <= b < t.len() && a != b implies key(
                            #[trigger] t[a],
                        ) != key(#[trigger] t[b]) by {
                        if a < s.len() && b < s.len() {
                            assert(key(t[a]) == key(s[a]));
                            assert(key(t[b]) == key(s[b]));
                        } else if a < s.len() {
                            assert(key(t[a]) == key(s[a]));
                        } else {
                            assert(key(t[b]) == key(s[b]));
                        }
                    }
                    assert forall|k: Seq<char>| m.contains_key(k) <==> has_key(t, k) by {
                        if has_key(s, k) {
                            let c = choose|c: int| 0 <= c < s.len() && key(#[trigger] s[c]) == k;
                            assert(key(t[c]) == k);
                        }
                        if k == key(o) {
                            assert(key(t[s.len() as int]) == k);
                        }
                        if has_key(t, k) {
                            let c = choose|c: int| 0 <= c < t.len() && key(#[trigger] t[c]) == k;
                            if c < s.len() {
                                assert(key(s[c]) == k);
                            }
                        }
                    }
                    assert forall|j: int| 0 <= j < t.len() implies m[key(#[trigger] t[j])]
                        == t[j]@ by {
                        if j < s.len() {
                            assert(t[j] == s[j]);
                            lemma_listener_at(s, j);
                        }
                    }
                    lemma_listeners_are(t, m);
                }
            },
        }
        name
    }

    fn remove(&mut self, name: String) {
        let ghost s = self.observers@;
        let ghost m = listeners_of(s).remove(name@);
        match self.position(&name) {
            Some(i) => {
                self.observers.remove(i);
                proof {
                    let t = self.observers@;
                    assert(t == s.remove(i as int));
                    assert forall|a: int, b: int|
                        0 <= a < t.len() && 0 <= b < t.len() && a != b implies key(
                            #[trigger] t[a],
                        ) != key(#[trigger] t[b]) by {
                        let a2 = if a < i { a } else { a + 1 };
                        let b2 = if b < i { b } else { b + 1 };
                        assert(t[a] == s[a2]);
                        assert(t[b] == s[b2]);
                    }
                    assert forall|k: Seq<char>| m.contains_key(k) <==> has_key(t, k) by {
                        if has_key(s, k) && k != name@ {
                            let c = choose|c: int| 0 <= c < s.len() && key(#[trigger] s[c]) == k;
                            assert(c != i);
                            let c2 = if c < i { c } else { c - 1 };
                            assert(t[c2] == s[c]);
                        }
                        if has_key(t, k) {
                            let c = choose|c: int| 0 <= c < t.len() && key(#[trigger] t[c]) == k;
                            let c2 = if c < i { c } else { c + 1 };
                            assert(t[c] == s[c2]);
                            assert(c2 != i);
                        }
                    }
                    assert forall|j: int| 0 <= j < t.len() implies m[key(#[trigger] t[j])]
                        == t[j]@ by {
                        let j2 = if j < i { j } else { j + 1 };
                        assert(t[j] == s[j2]);
                        assert(j2 != i);
                        lemma_listener_at(s, j2);
                    }
                    lemma_listeners_are(t, m);
                }
            },
            None => {
                proof {
                    assert(listeners_of(s) =~= m);
                }
            },
        }
    }

    fn notify(&mut self, record: WeatherRecord) {
        let ghost s = self.observers@;
        let ghost m = notified::<WeatherRecord, O>(listeners_of(s), record);
        let mut i: usize = 0;
        while i < self.observers.len()
            invariant
                i <= self.observers@.len() == s.len(),
                self.sources_wf() == old(self).sources_wf(),
                forall|j: int| 0 <= j < i ==> (#[trigger] self.observers@[j])@ == O::after_update(
                    s[j]@,
                    record,
                ),
                forall|j: int| i <= j < s.len() ==> #[trigger] self.observers@[j] == s[j],
            decreases s.len() - i,
        {
            self.observers[i].update(&record);
            i = i + 1;
        }
        proof {
            let t = self.observers@;
            assert forall|j: int| 0 <= j < t.len() implies key(#[trigger] t[j]) == key(s[j]) by {
                O::lemma_update_keeps_id(s[j]@, record);
            }
            assert forall|a: int, b: int|
                0 <= a < t.len() && 0 <= b < t.len() && a != b implies key(#[trigger] t[a]) != key(
                #[trigger] t[b],
            ) by {
                assert(key(t[a]) == key(s[a]));
                assert(key(t[b]) == key(s[b]));
            }
            assert forall|k: Seq<char>| m.contains_key(k) <==> has_key(t, k) by {
                if has_key(s, k) {
                    let c = choose|c: int| 0 <= c < s.len() && key(#[trigger] s[c]) == k;
                    assert(key(t[c]) == k);
                }
                if has_key(t, k) {
                    let c = choose|c: int| 0 <= c < t.len() && key(#[trigger] t[c]) == k;
                    assert(key(s[c]) == k);
                }
            }
            assert forall|j: int| 0 <= j < t.len() implies m[key(#[trigger] t[j])] == t[j]@ by {
                lemma_listener_at(s, j);
            }
            lemma_listeners_are(t, m);
        }
    }
}

} // verus!
