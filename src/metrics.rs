//! The metrics registry: named counters, gauges and histograms, each with a
//! fixed set of label names, and their text exposition.
//!
//! Values are integers. A family's `scale` says how many decimal places they
//! carry when rendered (durations are kept in microseconds with scale 6, so
//! they render in seconds).
use vstd::prelude::*;

use crate::decimal::Decimal;
use crate::errors::{contains, lemma_contains_after, lemma_contains_extend, lemma_contains_suffix};
use crate::text::{
    dec, first_index, lemma_first_index, lemma_first_index_is, lemma_first_index_none, text_eq,
    u64_text,
};

verus! {

#[derive(Debug, Clone, Copy, PartialEq, Eq, Structural)]
pub enum MetricKind {
    Counter,
    Gauge,
    Histogram,
}

struct Series {
    labels: Vec<String>,
    value: i64,
    buckets: Vec<u64>,
    sum: u64,
    count: u64,
}

struct Family {
    name: String,
    help: String,
    kind: MetricKind,
    label_names: Vec<String>,
    scale: u32,
    bounds: Vec<u64>,
    series: Vec<Series>,
}

/// One labelled time series: a value for counters and gauges; per-bucket
/// counts (the last one for values above every bound), a sum and a count for
/// histograms.
pub struct SeriesModel {
    pub labels: Seq<Seq<char>>,
    pub value: i64,
    pub buckets: Seq<u64>,
    pub sum: u64,
    pub count: u64,
}

pub struct FamilyModel {
    pub name: Seq<char>,
    pub help: Seq<char>,
    pub kind: MetricKind,
    pub label_names: Seq<Seq<char>>,
    pub scale: u32,
    pub bounds: Seq<u64>,
    pub series: Seq<SeriesModel>,
}

pub open spec fn texts(v: Seq<String>) -> Seq<Seq<char>> {
    Seq::new(v.len(), |i: int| v[i]@)
}

impl Series {
    spec fn model(&self) -> SeriesModel {
        SeriesModel {
            labels: texts(self.labels@),
            value: self.value,
            buckets: self.buckets@,
            sum: self.sum,
            count: self.count,
        }
    }
}

impl Family {
    spec fn model(&self) -> FamilyModel {
        FamilyModel {
            name: self.name@,
            help: self.help@,
            kind: self.kind,
            label_names: texts(self.label_names@),
            scale: self.scale,
            bounds: self.bounds@,
            series: Seq::new(self.series@.len(), |i: int| self.series@[i].model()),
        }
    }
}

impl FamilyModel {
    /// Every series has one value per label name and one count per bucket.
    pub open spec fn wf(self) -> bool {
        forall|i: int|
            0 <= i < self.series.len() ==> (#[trigger] self.series[i]).labels.len()
                == self.label_names.len() && self.series[i].buckets.len() == self.bounds.len() + 1
    }
}

pub open spec fn named(name: Seq<char>) -> spec_fn(FamilyModel) -> bool {
    |f: FamilyModel| f.name == name
}

pub open spec fn labelled(labels: Seq<Seq<char>>) -> spec_fn(SeriesModel) -> bool {
    |s: SeriesModel| s.labels == labels
}

pub open spec fn sat_inc(v: i64) -> i64 {
    if v < i64::MAX {
        (v + 1) as i64
    } else {
        v
    }
}

pub open spec fn sat_dec(v: i64) -> i64 {
    if v > i64::MIN {
        (v - 1) as i64
    } else {
        v
    }
}

pub open spec fn sat_add(a: u64, b: u64) -> u64 {
    if a + b <= u64::MAX {
        (a + b) as u64
    } else {
        u64::MAX
    }
}

/// The bucket that an observation falls in: the first bound at or above it,
/// or the last bucket when it exceeds every bound.
pub open spec fn bucket_index(bounds: Seq<u64>, v: u64) -> int {
    match first_index(bounds, |b: u64| v <= b) {
        Some(i) => i,
        None => bounds.len() as int,
    }
}

/// A series that has seen nothing yet.
pub open spec fn fresh(f: FamilyModel, labels: Seq<Seq<char>>) -> SeriesModel {
    SeriesModel {
        labels,
        value: 0,
        buckets: Seq::new((f.bounds.len() + 1) as nat, |i: int| 0u64),
        sum: 0,
        count: 0,
    }
}

/// Whether the registry holds an instrument `name` of `kind` whose label
/// names are as many as `labels`.
pub open spec fn accepts(
    fs: Seq<FamilyModel>,
    name: Seq<char>,
    labels: Seq<Seq<char>>,
    kind: MetricKind,
) -> bool {
    match first_index(fs, named(name)) {
        Some(fi) => fs[fi].kind == kind && labels.len() == fs[fi].label_names.len(),
        None => false,
    }
}

/// The registry after `change` is applied to series `labels` of instrument
/// `name` (the series starts fresh when absent); unchanged when the
/// instrument is not accepted.
pub open spec fn apply(
    fs: Seq<FamilyModel>,
    name: Seq<char>,
    labels: Seq<Seq<char>>,
    kind: MetricKind,
    change: spec_fn(FamilyModel, SeriesModel) -> SeriesModel,
) -> Seq<FamilyModel> {
    if !accepts(fs, name, labels, kind) {
        fs
    } else {
        let fi = first_index(fs, named(name))->Some_0;
        let f = fs[fi];
        let ss = match first_index(f.series, labelled(labels)) {
            Some(si) => f.series.update(si, change(f, f.series[si])),
            None => f.series.push(change(f, fresh(f, labels))),
        };
        fs.update(fi, FamilyModel { series: ss, ..f })
    }
}

pub open spec fn step_inc() -> spec_fn(FamilyModel, SeriesModel) -> SeriesModel {
    |f: FamilyModel, s: SeriesModel| SeriesModel { value: sat_inc(s.value), ..s }
}

pub open spec fn step_dec() -> spec_fn(FamilyModel, SeriesModel) -> SeriesModel {
    |f: FamilyModel, s: SeriesModel| SeriesModel { value: sat_dec(s.value), ..s }
}

pub open spec fn step_set(v: i64) -> spec_fn(FamilyModel, SeriesModel) -> SeriesModel {
    |f: FamilyModel, s: SeriesModel| SeriesModel { value: v, ..s }
}

pub open spec fn step_observe(v: u64) -> spec_fn(FamilyModel, SeriesModel) -> SeriesModel {
    |f: FamilyModel, s: SeriesModel|
        {
            let b = bucket_index(f.bounds, v);
            SeriesModel {
                buckets: s.buckets.update(b, sat_add(s.buckets[b], 1)),
                sum: sat_add(s.sum, v),
                count: sat_add(s.count, 1),
                ..s
            }
        }
}

/// The series `labels` of instrument `name`, when there is one.
pub open spec fn series_of(fs: Seq<FamilyModel>, name: Seq<char>, labels: Seq<Seq<char>>) -> Option<
    SeriesModel,
> {
    match first_index(fs, named(name)) {
        Some(fi) => match first_index(fs[fi].series, labelled(labels)) {
            Some(si) => Some(fs[fi].series[si]),
            None => None,
        },
        None => None,
    }
}

/// The current value of a counter or gauge series; zero before first use.
pub open spec fn value_of(fs: Seq<FamilyModel>, name: Seq<char>, labels: Seq<Seq<char>>) -> i64 {
    match series_of(fs, name, labels) {
        Some(s) => s.value,
        None => 0,
    }
}

/// The number of observations of a histogram series; zero before first use.
pub open spec fn count_of(fs: Seq<FamilyModel>, name: Seq<char>, labels: Seq<Seq<char>>) -> u64 {
    match series_of(fs, name, labels) {
        Some(s) => s.count,
        None => 0,
    }
}

/// The sum of the observations of a histogram series; zero before first use.
pub open spec fn sum_of(fs: Seq<FamilyModel>, name: Seq<char>, labels: Seq<Seq<char>>) -> u64 {
    match series_of(fs, name, labels) {
        Some(s) => s.sum,
        None => 0,
    }
}

/// A registry of metric families, each registered once under its name.
pub struct Registry {
    families: Vec<Family>,
}

impl Registry {
    /// Every family is well formed.
    pub closed spec fn wf(&self) -> bool {
        forall|i: int| 0 <= i < self.families@.len() ==> (#[trigger] self.families@[i]).model().wf()
    }

    pub closed spec fn view(&self) -> Seq<FamilyModel> {
        Seq::new(self.families@.len(), |i: int| self.families@[i].model())
    }

    /// An empty registry.
    pub fn new() -> (r: Registry)
        ensures
            r.wf(),
            r.view() == Seq::<FamilyModel>::empty(),
    {
        let r = Registry { families: Vec::new() };
        assert(r.view() =~= Seq::<FamilyModel>::empty());
        r
    }
}

fn labels_eq(a: &Vec<String>, b: &Vec<String>) -> (r: bool)
    ensures
        r == (texts(a@) == texts(b@)),
{
    if a.len() != b.len() {
        assert(texts(a@).len() != texts(b@).len());
        return false;
    }
    let mut i: usize = 0;
    while i < a.len()
        invariant
            a@.len() == b@.len(),
            i <= a@.len(),
            forall|j: int| 0 <= j < i ==> a@[j]@ == b@[j]@,
        decreases a@.len() - i,
    {
        if !text_eq(a[i].as_str(), b[i].as_str()) {
            assert(texts(a@)[i as int] != texts(b@)[i as int]);
            return false;
        }
        i = i + 1;
    }
    assert(texts(a@) =~= texts(b@));
    true
}

/// A change to one series.
enum Op {
    Inc,
    Dec,
    Assign(i64),
    Observe(u64),
}

spec fn step(op: Op) -> spec_fn(FamilyModel, SeriesModel) -> SeriesModel {
    match op {
        Op::Inc => step_inc(),
        Op::Dec => step_dec(),
        Op::Assign(v) => step_set(v),
        Op::Observe(v) => step_observe(v),
    }
}

fn find_series(f: &Family, labels: &Vec<String>) -> (r: Option<usize>)
    ensures
        match r {
            Some(i) => first_index(f.model().series, labelled(texts(labels@))) == Some(i as int),
            None => first_index(f.model().series, labelled(texts(labels@))) is None,
        },
        r matches Some(i) ==> i < f.series@.len(),
{
    let ghost ss = f.model().series;
    let ghost p = labelled(texts(labels@));
    let mut i: usize = 0;
    while i < f.series.len()
        invariant
            ss == f.model().series,
            p == labelled(texts(labels@)),
            i <= ss.len(),
            forall|j: int| 0 <= j < i ==> !p(#[trigger] ss[j]),
        decreases ss.len() - i,
    {
        if labels_eq(&f.series[i].labels, labels) {
            proof {
                lemma_first_index_is(ss, p, i as int);
            }
            return Some(i);
        }
        i = i + 1;
    }
    proof {
        lemma_first_index_none(ss, p);
    }
    None
}

fn bucket_of(bounds: &Vec<u64>, v: u64) -> (r: usize)
    ensures
        r == bucket_index(bounds@, v),
        r <= bounds@.len(),
{
    let ghost p = |b: u64| v <= b;
    let mut i: usize = 0;
    while i < bounds.len()
        invariant
            p == (|b: u64| v <= b),
            i <= bounds@.len(),
            forall|j: int| 0 <= j < i ==> !p(#[trigger] bounds@[j]),
        decreases bounds@.len() - i,
    {
        if v <= bounds[i] {
            proof {
                lemma_first_index_is(bounds@, p, i as int);
            }
            return i;
        }
        i = i + 1;
    }
    proof {
        lemma_first_index_none(bounds@, p);
    }
    i
}

fn fresh_series(f: &Family, labels: &Vec<String>) -> (r: Series)
    ensures
        r.model() == fresh(f.model(), texts(labels@)),
{
    let mut buckets: Vec<u64> = Vec::new();
    buckets.push(0);
    let n = f.bounds.len();
    let mut i: usize = 0;
    assert(buckets@ =~= Seq::new(1nat, |j: int| 0u64));
    while i < n
        invariant
            n == f.bounds@.len(),
            i <= n,
            buckets@ == Seq::new((i + 1) as nat, |j: int| 0u64),
        decreases n - i,
    {
        buckets.push(0);
        assert(buckets@ =~= Seq::new((i + 2) as nat, |j: int| 0u64));
        i = i + 1;
    }
    Series { labels: labels.clone(), value: 0, buckets, sum: 0, count: 0 }
}

fn apply_op(s: &mut Series, bounds: &Vec<u64>, op: Op, Ghost(f): Ghost<FamilyModel>)
    requires
        old(s).buckets@.len() == bounds@.len() + 1,
        f.bounds == bounds@,
    ensures
        final(s).model() == (step(op))(f, old(s).model()),
        final(s).labels@ == old(s).labels@,
        final(s).buckets@.len() == old(s).buckets@.len(),
{
    match op {
        Op::Inc => {
            if s.value < i64::MAX {
                s.value = s.value + 1;
            }
        },
        Op::Dec => {
            if s.value > i64::MIN {
                s.value = s.value - 1;
            }
        },
        Op::Assign(v) => {
            s.value = v;
        },
        Op::Observe(v) => {
            let b = bucket_of(bounds, v);
            let c = s.buckets[b];
            s.buckets.set(b, c.saturating_add(1));
            s.sum = s.sum.saturating_add(v);
            s.count = s.count.saturating_add(1);
        },
    }
    assert(final(s).model() =~= (step(op))(f, old(s).model()));
}

/// Bounds that strictly increase.
pub open spec fn ascending(bounds: Seq<u64>) -> bool {
    forall|i: int| 0 < i < bounds.len() ==> bounds[i - 1] < #[trigger] bounds[i]
}

/// A family as registered: an instrument without labels starts with its one
/// series, others with none.
pub open spec fn new_family(
    name: Seq<char>,
    help: Seq<char>,
    kind: MetricKind,
    label_names: Seq<Seq<char>>,
    scale: u32,
    bounds: Seq<u64>,
) -> FamilyModel {
    let f = FamilyModel { name, help, kind, label_names, scale, bounds, series: Seq::empty() };
    if label_names.len() == 0 {
        FamilyModel { series: seq![fresh(f, Seq::empty())], ..f }
    } else {
        f
    }
}

/// Registration inserts a family only when no family has its name and its
/// bounds increase; otherwise the registry stays as it is.
pub open spec fn register_spec(
    fs: Seq<FamilyModel>,
    name: Seq<char>,
    help: Seq<char>,
    kind: MetricKind,
    label_names: Seq<Seq<char>>,
    scale: u32,
    bounds: Seq<u64>,
) -> Seq<FamilyModel> {
    if first_index(fs, named(name)) is None && ascending(bounds) {
        fs.push(new_family(name, help, kind, label_names, scale, bounds))
    } else {
        fs
    }
}

impl Registry {
    fn find_family(&self, name: &str) -> (r: Option<usize>)
        ensures
            match r {
                Some(i) => first_index(self.view(), named(name@)) == Some(i as int),
                None => first_index(self.view(), named(name@)) is None,
            },
            r matches Some(i) ==> i < self.families@.len(),
    {
        let ghost fs = self.view();
        let ghost p = named(name@);
        let mut i: usize = 0;
        while i < self.families.len()
            invariant
                fs == self.view(),
                p == named(name@),
                i <= fs.len(),
                forall|j: int| 0 <= j < i ==> !p(#[trigger] fs[j]),
            decreases fs.len() - i,
        {
            if text_eq(self.families[i].name.as_str(), name) {
                proof {
                    lemma_first_index_is(fs, p, i as int);
                }
                return Some(i);
            }
            i = i + 1;
        }
        proof {
            lemma_first_index_none(fs, p);
        }
        None
    }

    fn update(&mut self, name: &str, labels: &Vec<String>, kind: MetricKind, op: Op) -> (r: bool)
        requires
            old(self).wf(),
        ensures
            final(self).wf(),
            r == accepts(old(self).view(), name@, texts(labels@), kind),
            final(self).view() == apply(old(self).view(), name@, texts(labels@), kind, step(op)),
    {
        let fi = match self.find_family(name) {
            Some(i) => i,
            None => {
                return false;
            },
        };
        let ghost fs = self.view();
        let ghost f = fs[fi as int];
        assert(f == self.families@[fi as int].model());
        assert(first_index(fs, named(name@)) == Some(fi as int));
        if !(self.families[fi].kind == kind) || labels.len() != self.families[fi].label_names.len() {
            assert(!accepts(fs, name@, texts(labels@), kind));
            return false;
        }
        assert(f.wf());
        let bounds = self.families[fi].bounds.clone();
        assert(bounds@ =~= f.bounds);
        let found = find_series(&self.families[fi], labels);
        let ghost lab = texts(labels@);
        let ghost expected = match first_index(f.series, labelled(lab)) {
            Some(si) => f.series.update(si, (step(op))(f, f.series[si])),
            None => f.series.push((step(op))(f, fresh(f, lab))),
        };
        let mut series: Vec<Series> = Vec::new();
        std::mem::swap(&mut self.families[fi].series, &mut series);
        let ghost old_series = series@;
        assert(f.series == Seq::new(old_series.len(), |i: int| old_series[i].model()));
        match found {
            Some(si) => {
                assert(f.series[si as int] == old_series[si as int].model());
                apply_op(&mut series[si], &bounds, op, Ghost(f));
                assert(expected == f.series.update(si as int, (step(op))(f, f.series[si as int])));
                assert(series@ == old_series.update(si as int, series@[si as int]));
            },
            None => {
                let mut s = fresh_series(&self.families[fi], labels);
                assert(fresh(self.families@[fi as int].model(), lab) =~= fresh(f, lab));
                apply_op(&mut s, &bounds, op, Ghost(f));
                series.push(s);
                assert(expected == f.series.push((step(op))(f, fresh(f, lab))));
                assert(series@ == old_series.push(s));
            },
        }
        let ghost new_series = Seq::new(series@.len(), |i: int| series@[i].model());
        assert(new_series =~= expected);
        self.families[fi].series = series;
        assert(self.families@[fi as int].model() == FamilyModel { series: expected, ..f });
        assert(self.view() =~= apply(fs, name@, lab, kind, step(op)));
        assert forall|i: int| 0 <= i < self.families@.len() implies (
        #[trigger] self.families@[i]).model().wf() by {
            if i == fi {
                assert forall|j: int| 0 <= j < expected.len() implies (#[trigger] expected[j]).labels.len()
                    == f.label_names.len() && expected[j].buckets.len() == f.bounds.len() + 1 by {
                    if j < f.series.len() {
                        assert(f.series[j].labels.len() == f.label_names.len());
                    }
                }
            } else {
                assert(self.families@[i] == old(self).families@[i]);
            }
        }
        true
    }
}

impl Registry {
    /// Adds one to a counter series.
    pub fn counter_inc(&mut self, name: &str, labels: &Vec<String>) -> (r: bool)
        requires
            old(self).wf(),
        ensures
            final(self).wf(),
            r == accepts(old(self).view(), name@, texts(labels@), MetricKind::Counter),
            final(self).view() == apply(
                old(self).view(),
                name@,
                texts(labels@),
                MetricKind::Counter,
                step_inc(),
            ),
    {
        self.update(name, labels, MetricKind::Counter, Op::Inc)
    }

    /// Sets a gauge series to `v`.
    pub fn gauge_set(&mut self, name: &str, labels: &Vec<String>, v: i64) -> (r: bool)
        requires
            old(self).wf(),
        ensures
            final(self).wf(),
            r == accepts(old(self).view(), name@, texts(labels@), MetricKind::Gauge),
            final(self).view() == apply(
                old(self).view(),
                name@,
                texts(labels@),
                MetricKind::Gauge,
                step_set(v),
            ),
    {
        self.update(name, labels, MetricKind::Gauge, Op::Assign(v))
    }

    /// Adds one to a gauge series.
    pub fn gauge_inc(&mut self, name: &str, labels: &Vec<String>) -> (r: bool)
        requires
            old(self).wf(),
        ensures
            final(self).wf(),
            r == accepts(old(self).view(), name@, texts(labels@), MetricKind::Gauge),
            final(self).view() == apply(
                old(self).view(),
                name@,
                texts(labels@),
                MetricKind::Gauge,
                step_inc(),
            ),
    {
        self.update(name, labels, MetricKind::Gauge, Op::Inc)
    }

    /// Takes one from a gauge series.
    pub fn gauge_dec(&mut self, name: &str, labels: &Vec<String>) -> (r: bool)
        requires
            old(self).wf(),
        ensures
            final(self).wf(),
            r == accepts(old(self).view(), name@, texts(labels@), MetricKind::Gauge),
            final(self).view() == apply(
                old(self).view(),
                name@,
                texts(labels@),
                MetricKind::Gauge,
                step_dec(),
            ),
    {
        self.update(name, labels, MetricKind::Gauge, Op::Dec)
    }

    /// Records one observation `v` in a histogram series.
    pub fn observe(&mut self, name: &str, labels: &Vec<String>, v: u64) -> (r: bool)
        requires
            old(self).wf(),
        ensures
            final(self).wf(),
            r == accepts(old(self).view(), name@, texts(labels@), MetricKind::Histogram),
            final(self).view() == apply(
                old(self).view(),
                name@,
                texts(labels@),
                MetricKind::Histogram,
                step_observe(v),
            ),
    {
        self.update(name, labels, MetricKind::Histogram, Op::Observe(v))
    }

    fn find(&self, name: &str, labels: &Vec<String>) -> (r: Option<(usize, usize)>)
        ensures
            match r {
                Some((fi, si)) => fi < self.families@.len() && si
                    < self.families@[fi as int].series@.len() && series_of(
                    self.view(),
                    name@,
                    texts(labels@),
                ) == Some(self.view()[fi as int].series[si as int]),
                None => series_of(self.view(), name@, texts(labels@)) is None,
            },
    {
        let fi = match self.find_family(name) {
            Some(i) => i,
            None => {
                return None;
            },
        };
        assert(self.view()[fi as int] == self.families@[fi as int].model());
        match find_series(&self.families[fi], labels) {
            Some(si) => Some((fi, si)),
            None => None,
        }
    }

    /// The value of a counter or gauge series; zero before its first use.
    pub fn value(&self, name: &str, labels: &Vec<String>) -> (r: i64)
        ensures
            r == value_of(self.view(), name@, texts(labels@)),
    {
        match self.find(name, labels) {
            Some((fi, si)) => self.families[fi].series[si].value,
            None => 0,
        }
    }

    /// The number of observations in a histogram series; zero before its
    /// first use.
    pub fn observation_count(&self, name: &str, labels: &Vec<String>) -> (r: u64)
        ensures
            r == count_of(self.view(), name@, texts(labels@)),
    {
        match self.find(name, labels) {
            Some((fi, si)) => self.families[fi].series[si].count,
            None => 0,
        }
    }

    /// The sum of the observations in a histogram series; zero before its
    /// first use.
    pub fn observation_sum(&self, name: &str, labels: &Vec<String>) -> (r: u64)
        ensures
            r == sum_of(self.view(), name@, texts(labels@)),
    {
        match self.find(name, labels) {
            Some((fi, si)) => self.families[fi].series[si].sum,
            None => 0,
        }
    }

    /// Registers a family under `name` unless one is registered under that
    /// name already; bounds, for a histogram, must strictly increase. Says
    /// whether the family was added.
    pub fn register(
        &mut self,
        name: &str,
        help: &str,
        kind: MetricKind,
        label_names: Vec<String>,
        scale: u32,
        bounds: Vec<u64>,
    ) -> (r: bool)
        requires
            old(self).wf(),
        ensures
            final(self).wf(),
            r == (first_index(old(self).view(), named(name@)) is None && ascending(bounds@)),
            final(self).view() == register_spec(
                old(self).view(),
                name@,
                help@,
                kind,
                texts(label_names@),
                scale,
                bounds@,
            ),
    {
        if self.find_family(name).is_some() {
            return false;
        }
        let mut i: usize = 1;
        while i < bounds.len()
            invariant
                1 <= i,
                self.wf(),
                self.view() == old(self).view(),
                first_index(self.view(), named(name@)) is None,
                forall|j: int| 0 < j < i && j < bounds@.len() ==> bounds@[j - 1] < #[trigger] bounds@[j],
            decreases bounds@.len() - i,
        {
            if bounds[i - 1] >= bounds[i] {
                return false;
            }
            i = i + 1;
        }
        let mut f = Family {
            name: String::from_str(name),
            help: String::from_str(help),
            kind,
            label_names,
            scale,
            bounds,
            series: Vec::new(),
        };
        if f.label_names.len() == 0 {
            let empty: Vec<String> = Vec::new();
            let s = fresh_series(&f, &empty);
            assert(texts(empty@) =~= Seq::<Seq<char>>::empty());
            f.series.push(s);
        }
        let ghost nf = f.model();
        let ghost expected = new_family(name@, help@, kind, texts(f.label_names@), scale, f.bounds@);
        assert(nf.series =~= expected.series);
        assert(nf == expected);
        self.families.push(f);
        assert(self.view() =~= old(self).view().push(nf));
        true
    }
}

pub open spec fn kind_text(k: MetricKind) -> Seq<char> {
    match k {
        MetricKind::Counter => "counter"@,
        MetricKind::Gauge => "gauge"@,
        MetricKind::Histogram => "histogram"@,
    }
}

/// `name="value"`.
pub open spec fn label_item(name: Seq<char>, value: Seq<char>) -> Seq<char> {
    name + "=\""@ + value + "\""@
}

/// How a character is written in the exposition: backslash and line feed
/// escaped always, the double quote only inside a label value.
pub open spec fn escape_char(c: char, label: bool) -> Seq<char> {
    if c == '\\' {
        "\\\\"@
    } else if c == '\n' {
        "\\n"@
    } else if label && c == '"' {
        "\\\""@
    } else {
        seq![c]
    }
}

pub open spec fn escaped(s: Seq<char>, label: bool) -> Seq<char>
    decreases s.len(),
{
    if s.len() == 0 {
        Seq::empty()
    } else {
        escaped(s.drop_last(), label) + escape_char(s.last(), label)
    }
}

/// The first `n` label pairs, separated by commas, values escaped.
pub open spec fn pairs(names: Seq<Seq<char>>, values: Seq<Seq<char>>, n: nat) -> Seq<char>
    decreases n,
{
    if n == 0 {
        Seq::empty()
    } else if n == 1 {
        label_item(names[0], escaped(values[0], true))
    } else {
        pairs(names, values, (n - 1) as nat) + ","@ + label_item(
            names[n - 1],
            escaped(values[n - 1], true),
        )
    }
}

pub open spec fn braces(p: Seq<char>) -> Seq<char> {
    if p.len() == 0 {
        Seq::empty()
    } else {
        "{"@ + p + "}"@
    }
}

pub open spec fn with_le(p: Seq<char>, le: Seq<char>) -> Seq<char> {
    if p.len() == 0 {
        label_item("le"@, le)
    } else {
        p + ","@ + label_item("le"@, le)
    }
}

pub open spec fn unsigned_text(v: u64, scale: u32) -> Seq<char> {
    Decimal { negative: false, mantissa: v, scale }.spec_text()
}

pub open spec fn signed_text(v: i64, scale: u32) -> Seq<char> {
    Decimal {
        negative: v < 0,
        mantissa: (if v < 0 {
            -(v as int)
        } else {
            v as int
        }) as u64,
        scale,
    }.spec_text()
}

/// Observations in buckets `0..=j`.
pub open spec fn cumulative(b: Seq<u64>, j: nat) -> u64
    decreases j,
{
    if j == 0 {
        b[0]
    } else {
        sat_add(cumulative(b, (j - 1) as nat), b[j as int])
    }
}

pub open spec fn series_pairs(f: FamilyModel, s: SeriesModel) -> Seq<char> {
    pairs(f.label_names, s.labels, f.label_names.len())
}

/// The cumulative bucket lines for the first `k` bounds.
pub open spec fn bucket_lines(f: FamilyModel, s: SeriesModel, k: nat) -> Seq<char>
    decreases k,
{
    if k == 0 {
        Seq::empty()
    } else {
        bucket_lines(f, s, (k - 1) as nat) + f.name + "_bucket"@ + braces(
            with_le(series_pairs(f, s), unsigned_text(f.bounds[k - 1], f.scale)),
        ) + " "@ + dec(cumulative(s.buckets, (k - 1) as nat) as nat) + "\n"@
    }
}

/// The sample lines of one series.
pub open spec fn series_text(f: FamilyModel, s: SeriesModel) -> Seq<char> {
    let p = series_pairs(f, s);
    if f.kind is Histogram {
        bucket_lines(f, s, f.bounds.len()) + f.name + "_bucket"@ + braces(with_le(p, "+Inf"@))
            + " "@ + dec(s.count as nat) + "\n"@ + f.name + "_sum"@ + braces(p) + " "@
            + unsigned_text(s.sum, f.scale) + "\n"@ + f.name + "_count"@ + braces(p) + " "@ + dec(
            s.count as nat,
        ) + "\n"@
    } else {
        f.name + braces(p) + " "@ + signed_text(s.value, f.scale) + "\n"@
    }
}

pub open spec fn series_texts(f: FamilyModel, k: nat) -> Seq<char>
    decreases k,
{
    if k == 0 {
        Seq::empty()
    } else {
        series_texts(f, (k - 1) as nat) + series_text(f, f.series[k - 1])
    }
}

pub open spec fn help_line(f: FamilyModel) -> Seq<char> {
    "# HELP "@ + f.name + " "@ + escaped(f.help, false) + "\n"@
}

pub open spec fn type_line(f: FamilyModel) -> Seq<char> {
    "# TYPE "@ + f.name + " "@ + kind_text(f.kind) + "\n"@
}

/// A family's exposition: its help line, its type line, then its samples.
pub open spec fn family_text(f: FamilyModel) -> Seq<char> {
    help_line(f) + type_line(f) + series_texts(f, f.series.len())
}

/// The exposition of the first `k` families.
pub open spec fn exposition(fs: Seq<FamilyModel>, k: nat) -> Seq<char>
    decreases k,
{
    if k == 0 {
        Seq::empty()
    } else {
        exposition(fs, (k - 1) as nat) + family_text(fs[k - 1])
    }
}

/// Appends `s`, escaped, to `out`.
fn escape_into(out: &mut String, s: &str, label: bool)
    ensures
        final(out)@ == old(out)@ + escaped(s@, label),
{
    let n = s.unicode_len();
    let ghost start = out@;
    let mut i: usize = 0;
    while i < n
        invariant
            n == s@.len(),
            i <= n,
            out@ == start + escaped(s@.take(i as int), label),
        decreases n - i,
    {
        let c = s.get_char(i);
        assert(s@.take(i + 1).drop_last() =~= s@.take(i as int));
        assert(s@.take(i + 1).last() == c);
        if c == '\\' {
            out.append("\\\\");
        } else if c == '\n' {
            out.append("\\n");
        } else if label && c == '"' {
            out.append("\\\"");
        } else {
            let one = s.substring_char(i, i + 1);
            assert(one@ =~= seq![c]);
            out.append(one);
        }
        assert(out@ =~= start + escaped(s@.take(i + 1), label));
        i = i + 1;
    }
    assert(s@.take(n as int) =~= s@);
}

fn render_pairs(names: &Vec<String>, values: &Vec<String>) -> (r: String)
    requires
        values@.len() == names@.len(),
    ensures
        r@ == pairs(texts(names@), texts(values@), names@.len()),
{
    let mut r = String::new();
    let mut i: usize = 0;
    while i < names.len()
        invariant
            values@.len() == names@.len(),
            i <= names@.len(),
            r@ == pairs(texts(names@), texts(values@), i as nat),
        decreases names@.len() - i,
    {
        if i > 0 {
            r.append(",");
        }
        r.append(names[i].as_str());
        r.append("=\"");
        escape_into(&mut r, values[i].as_str(), true);
        r.append("\"");
        i = i + 1;
    }
    r
}

fn append_braced(out: &mut String, p: &String)
    ensures
        final(out)@ == old(out)@ + braces(p@),
{
    if p.unicode_len() > 0 {
        out.append("{");
        out.append(p.as_str());
        out.append("}");
    } else {
        assert(braces(p@) =~= Seq::<char>::empty());
        assert(old(out)@ + braces(p@) =~= old(out)@);
    }
}

fn le_pairs(p: &String, le: &str) -> (r: String)
    ensures
        r@ == with_le(p@, le@),
{
    let mut r = p.clone();
    if p.unicode_len() > 0 {
        r.append(",");
    }
    r.append("le");
    r.append("=\"");
    r.append(le);
    r.append("\"");
    r
}

fn signed_value_text(v: i64, scale: u32) -> (r: String)
    ensures
        r@ == signed_text(v, scale),
{
    let mantissa: u64 = if v < 0 {
        ((-(v + 1)) as u64) + 1
    } else {
        v as u64
    };
    Decimal { negative: v < 0, mantissa, scale }.text()
}

fn render_series(f: &Family, s: &Series) -> (r: String)
    requires
        s.labels@.len() == f.label_names@.len(),
        s.buckets@.len() == f.bounds@.len() + 1,
    ensures
        r@ == series_text(f.model(), s.model()),
{
    let ghost fm = f.model();
    let ghost sm = s.model();
    let p = render_pairs(&f.label_names, &s.labels);
    assert(p@ == series_pairs(fm, sm));
    let mut out = String::new();
    if f.kind == MetricKind::Histogram {
        let mut acc: u64 = 0;
        let mut k: usize = 0;
        while k < f.bounds.len()
            invariant
                fm == f.model(),
                sm == s.model(),
                p@ == series_pairs(fm, sm),
                s.buckets@.len() == f.bounds@.len() + 1,
                k <= f.bounds@.len(),
                k > 0 ==> acc == cumulative(sm.buckets, (k - 1) as nat),
                out@ == bucket_lines(fm, sm, k as nat),
            decreases f.bounds@.len() - k,
        {
            acc = if k == 0 {
                s.buckets[0]
            } else {
                acc.saturating_add(s.buckets[k])
            };
            out.append(f.name.as_str());
            out.append("_bucket");
            let bound = Decimal { negative: false, mantissa: f.bounds[k], scale: f.scale }.text();
            let lp = le_pairs(&p, bound.as_str());
            append_braced(&mut out, &lp);
            out.append(" ");
            let c = u64_text(acc);
            out.append(c.as_str());
            out.append("\n");
            k = k + 1;
        }
        out.append(f.name.as_str());
        out.append("_bucket");
        let lp = le_pairs(&p, "+Inf");
        append_braced(&mut out, &lp);
        out.append(" ");
        let c = u64_text(s.count);
        out.append(c.as_str());
        out.append("\n");
        out.append(f.name.as_str());
        out.append("_sum");
        append_braced(&mut out, &p);
        out.append(" ");
        let sum = Decimal { negative: false, mantissa: s.sum, scale: f.scale }.text();
        out.append(sum.as_str());
        out.append("\n");
        out.append(f.name.as_str());
        out.append("_count");
        append_braced(&mut out, &p);
        out.append(" ");
        out.append(c.as_str());
        out.append("\n");
    } else {
        out.append(f.name.as_str());
        append_braced(&mut out, &p);
        out.append(" ");
        let v = signed_value_text(s.value, f.scale);
        out.append(v.as_str());
        out.append("\n");
    }
    out
}

fn render_family(f: &Family) -> (r: String)
    requires
        f.model().wf(),
    ensures
        r@ == family_text(f.model()),
{
    let ghost fm = f.model();
    let mut out = String::from_str("# HELP ");
    out.append(f.name.as_str());
    out.append(" ");
    escape_into(&mut out, f.help.as_str(), false);
    out.append("\n");
    out.append("# TYPE ");
    out.append(f.name.as_str());
    out.append(" ");
    let kind = match f.kind {
        MetricKind::Counter => "counter",
        MetricKind::Gauge => "gauge",
        MetricKind::Histogram => "histogram",
    };
    out.append(kind);
    out.append("\n");
    let ghost head = out@;
    assert(head =~= help_line(fm) + type_line(fm));
    let mut i: usize = 0;
    while i < f.series.len()
        invariant
            fm == f.model(),
            fm.wf(),
            i <= f.series@.len(),
            out@ == head + series_texts(fm, i as nat),
        decreases f.series@.len() - i,
    {
        assert(fm.series[i as int] == f.series@[i as int].model());
        let t = render_series(f, &f.series[i]);
        out.append(t.as_str());
        i = i + 1;
    }
    assert(out@ =~= family_text(fm));
    out
}

impl Registry {
    /// The text exposition of every registered family, in registration order.
    pub fn snapshot(&self) -> (r: String)
        requires
            self.wf(),
        ensures
            r@ == exposition(self.view(), self.view().len()),
    {
        let mut out = String::new();
        let mut i: usize = 0;
        while i < self.families.len()
            invariant
                self.wf(),
                i <= self.families@.len(),
                out@ == exposition(self.view(), i as nat),
            decreases self.families@.len() - i,
        {
            assert(self.view()[i as int] == self.families@[i as int].model());
            let t = render_family(&self.families[i]);
            out.append(t.as_str());
            i = i + 1;
        }
        out
    }
}

/// A family to register: everything but its series.
pub struct FamilyDecl {
    pub name: Seq<char>,
    pub help: Seq<char>,
    pub kind: MetricKind,
    pub label_names: Seq<Seq<char>>,
    pub scale: u32,
    pub bounds: Seq<u64>,
}

pub open spec fn register_decl(fs: Seq<FamilyModel>, d: FamilyDecl) -> Seq<FamilyModel> {
    register_spec(fs, d.name, d.help, d.kind, d.label_names, d.scale, d.bounds)
}

/// The registry after registering the first `k` declarations in order.
pub open spec fn register_all(fs: Seq<FamilyModel>, ds: Seq<FamilyDecl>, k: nat) -> Seq<FamilyModel>
    decreases k,
{
    if k == 0 {
        fs
    } else {
        register_decl(register_all(fs, ds, (k - 1) as nat), ds[k - 1])
    }
}

/// The service's instruments. Durations are in microseconds and the cost
/// saved in millionths of a dollar, both rendered with six decimal places.
pub open spec fn catalogue() -> Seq<FamilyDecl> {
    seq![
        FamilyDecl {
            name: "ripple_requests_total"@,
            help: "Total number of requests"@,
            kind: MetricKind::Counter,
            label_names: seq!["endpoint"@, "cache_status"@],
            scale: 0,
            bounds: Seq::empty(),
        },
        FamilyDecl {
            name: "ripple_active_requests"@,
            help: "Number of currently active requests"@,
            kind: MetricKind::Gauge,
            label_names: Seq::empty(),
            scale: 0,
            bounds: Seq::empty(),
        },
        FamilyDecl {
            name: "ripple_request_duration_seconds"@,
            help: "Request duration in seconds"@,
            kind: MetricKind::Histogram,
            label_names: seq!["endpoint"@, "cache_status"@],
            scale: 6,
            bounds: seq![1000u64, 5000u64, 10000u64, 25000u64, 50000u64, 100000u64, 250000u64, 500000u64, 1000000u64, 2500000u64, 5000000u64],
        },
        FamilyDecl {
            name: "ripple_cache_hits_total"@,
            help: "Total cache hits"@,
            kind: MetricKind::Counter,
            label_names: seq!["tier"@],
            scale: 0,
            bounds: Seq::empty(),
        },
        FamilyDecl {
            name: "ripple_cache_misses_total"@,
            help: "Total cache misses"@,
            kind: MetricKind::Counter,
            label_names: seq!["endpoint"@],
            scale: 0,
            bounds: Seq::empty(),
        },
        FamilyDecl {
            name: "ripple_cache_size"@,
            help: "Current number of cached entries"@,
            kind: MetricKind::Gauge,
            label_names: Seq::empty(),
            scale: 0,
            bounds: Seq::empty(),
        },
        FamilyDecl {
            name: "ripple_cache_evictions_total"@,
            help: "Total cache evictions"@,
            kind: MetricKind::Counter,
            label_names: seq!["reason"@],
            scale: 0,
            bounds: Seq::empty(),
        },
        FamilyDecl {
            name: "ripple_embedding_duration_seconds"@,
            help: "Embedding generation duration"@,
            kind: MetricKind::Histogram,
            label_names: seq!["batch_size"@],
            scale: 6,
            bounds: seq![1000u64, 5000u64, 10000u64, 20000u64, 50000u64, 100000u64, 250000u64],
        },
        FamilyDecl {
            name: "ripple_upstream_duration_seconds"@,
            help: "Upstream API call duration"@,
            kind: MetricKind::Histogram,
            label_names: seq!["provider"@],
            scale: 6,
            bounds: seq![50000u64, 100000u64, 250000u64, 500000u64, 1000000u64, 2500000u64, 5000000u64, 10000000u64],
        },
        FamilyDecl {
            name: "ripple_upstream_errors_total"@,
            help: "Total upstream API errors"@,
            kind: MetricKind::Counter,
            label_names: seq!["provider"@, "error_type"@],
            scale: 0,
            bounds: Seq::empty(),
        },
        FamilyDecl {
            name: "ripple_cost_saved_usd"@,
            help: "Estimated cost saved in USD"@,
            kind: MetricKind::Gauge,
            label_names: seq!["provider"@],
            scale: 6,
            bounds: Seq::empty(),
        },
        FamilyDecl {
            name: "ripple_errors_total"@,
            help: "Total errors by type"@,
            kind: MetricKind::Counter,
            label_names: seq!["error_type"@],
            scale: 0,
            bounds: Seq::empty(),
        },
    ]
}

/// Registers every instrument of `catalogue`; an instrument registered
/// before is left as it is, so calling this more than once is harmless.
pub fn register_metrics(registry: &mut Registry)
    requires
        old(registry).wf(),
    ensures
        final(registry).wf(),
        final(registry).view() == register_all(old(registry).view(), catalogue(), 12),
{
    let ghost ds = catalogue();
    assert(register_all(old(registry).view(), ds, 0) == old(registry).view());
    let labels: Vec<String> = vec![String::from_str("endpoint"), String::from_str("cache_status")];
    let bounds: Vec<u64> = Vec::new();
    proof {
        assert(texts(labels@) =~= ds[0].label_names);
        assert(bounds@ =~= ds[0].bounds);
    }
    registry.register("ripple_requests_total", "Total number of requests", MetricKind::Counter, labels, 0, bounds);
    assert(registry.view() == register_all(old(registry).view(), ds, 1));
    let labels: Vec<String> = Vec::new();
    let bounds: Vec<u64> = Vec::new();
    proof {
        assert(texts(labels@) =~= ds[1].label_names);
        assert(bounds@ =~= ds[1].bounds);
    }
    registry.register("ripple_active_requests", "Number of currently active requests", MetricKind::Gauge, labels, 0, bounds);
    assert(registry.view() == register_all(old(registry).view(), ds, 2));
    let labels: Vec<String> = vec![String::from_str("endpoint"), String::from_str("cache_status")];
    let bounds: Vec<u64> = vec![1000u64, 5000, 10000, 25000, 50000, 100000, 250000, 500000, 1000000, 2500000, 5000000];
    proof {
        assert(texts(labels@) =~= ds[2].label_names);
        assert(bounds@ =~= ds[2].bounds);
    }
    registry.register("ripple_request_duration_seconds", "Request duration in seconds", MetricKind::Histogram, labels, 6, bounds);
    assert(registry.view() == register_all(old(registry).view(), ds, 3));
    let labels: Vec<String> = vec![String::from_str("tier")];
    let bounds: Vec<u64> = Vec::new();
    proof {
        assert(texts(labels@) =~= ds[3].label_names);
        assert(bounds@ =~= ds[3].bounds);
    }
    registry.register("ripple_cache_hits_total", "Total cache hits", MetricKind::Counter, labels, 0, bounds);
    assert(registry.view() == register_all(old(registry).view(), ds, 4));
    let labels: Vec<String> = vec![String::from_str("endpoint")];
    let bounds: Vec<u64> = Vec::new();
    proof {
        assert(texts(labels@) =~= ds[4].label_names);
        assert(bounds@ =~= ds[4].bounds);
    }
    registry.register("ripple_cache_misses_total", "Total cache misses", MetricKind::Counter, labels, 0, bounds);
    assert(registry.view() == register_all(old(registry).view(), ds, 5));
    let labels: Vec<String> = Vec::new();
    let bounds: Vec<u64> = Vec::new();
    proof {
        assert(texts(labels@) =~= ds[5].label_names);
        assert(bounds@ =~= ds[5].bounds);
    }
    registry.register("ripple_cache_size", "Current number of cached entries", MetricKind::Gauge, labels, 0, bounds);
    assert(registry.view() == register_all(old(registry).view(), ds, 6));
    let labels: Vec<String> = vec![String::from_str("reason")];
    let bounds: Vec<u64> = Vec::new();
    proof {
        assert(texts(labels@) =~= ds[6].label_names);
        assert(bounds@ =~= ds[6].bounds);
    }
    registry.register("ripple_cache_evictions_total", "Total cache evictions", MetricKind::Counter, labels, 0, bounds);
    assert(registry.view() == register_all(old(registry).view(), ds, 7));
    let labels: Vec<String> = vec![String::from_str("batch_size")];
    let bounds: Vec<u64> = vec![1000u64, 5000, 10000, 20000, 50000, 100000, 250000];
    proof {
        assert(texts(labels@) =~= ds[7].label_names);
        assert(bounds@ =~= ds[7].bounds);
    }
    registry.register("ripple_embedding_duration_seconds", "Embedding generation duration", MetricKind::Histogram, labels, 6, bounds);
    assert(registry.view() == register_all(old(registry).view(), ds, 8));
    let labels: Vec<String> = vec![String::from_str("provider")];
    let bounds: Vec<u64> = vec![50000u64, 100000, 250000, 500000, 1000000, 2500000, 5000000, 10000000];
    proof {
        assert(texts(labels@) =~= ds[8].label_names);
        assert(bounds@ =~= ds[8].bounds);
    }
    registry.register("ripple_upstream_duration_seconds", "Upstream API call duration", MetricKind::Histogram, labels, 6, bounds);
    assert(registry.view() == register_all(old(registry).view(), ds, 9));
    let labels: Vec<String> = vec![String::from_str("provider"), String::from_str("error_type")];
    let bounds: Vec<u64> = Vec::new();
    proof {
        assert(texts(labels@) =~= ds[9].label_names);
        assert(bounds@ =~= ds[9].bounds);
    }
    registry.register("ripple_upstream_errors_total", "Total upstream API errors", MetricKind::Counter, labels, 0, bounds);
    assert(registry.view() == register_all(old(registry).view(), ds, 10));
    let labels: Vec<String> = vec![String::from_str("provider")];
    let bounds: Vec<u64> = Vec::new();
    proof {
        assert(texts(labels@) =~= ds[10].label_names);
        assert(bounds@ =~= ds[10].bounds);
    }
    registry.register("ripple_cost_saved_usd", "Estimated cost saved in USD", MetricKind::Gauge, labels, 6, bounds);
    assert(registry.view() == register_all(old(registry).view(), ds, 11));
    let labels: Vec<String> = vec![String::from_str("error_type")];
    let bounds: Vec<u64> = Vec::new();
    proof {
        assert(texts(labels@) =~= ds[11].label_names);
        assert(bounds@ =~= ds[11].bounds);
    }
    registry.register("ripple_errors_total", "Total errors by type", MetricKind::Counter, labels, 0, bounds);
    assert(registry.view() == register_all(old(registry).view(), ds, 12));
}

/// The exposition holds the type line, and with it the name, of every
/// registered family.
pub proof fn lemma_exposition_lists_family(fs: Seq<FamilyModel>, i: int)
    requires
        0 <= i < fs.len(),
    ensures
        contains(exposition(fs, fs.len()), type_line(fs[i])),
{
    lemma_exposition_prefix_lists(fs, i, fs.len());
}

proof fn lemma_exposition_prefix_lists(fs: Seq<FamilyModel>, i: int, k: nat)
    requires
        0 <= i < k <= fs.len(),
    ensures
        contains(exposition(fs, k), type_line(fs[i])),
    decreases k,
{
    if i == k - 1 {
        let f = fs[i];
        lemma_contains_suffix(help_line(f), type_line(f));
        lemma_contains_extend(help_line(f) + type_line(f), type_line(f), series_texts(f, f.series.len()));
        lemma_contains_after(exposition(fs, (k - 1) as nat), family_text(f), type_line(f));
    } else {
        lemma_exposition_prefix_lists(fs, i, (k - 1) as nat);
        lemma_contains_extend(exposition(fs, (k - 1) as nat), type_line(fs[i]), family_text(fs[k - 1]));
    }
}

proof fn lemma_register_keeps(fs: Seq<FamilyModel>, d: FamilyDecl, m: Seq<char>)
    requires
        first_index(fs, named(m)) is Some,
    ensures
        first_index(register_decl(fs, d), named(m)) == first_index(fs, named(m)),
{
    let r = register_decl(fs, d);
    if r != fs {
        assert(r.drop_last() =~= fs);
    }
}

proof fn lemma_register_adds(fs: Seq<FamilyModel>, d: FamilyDecl)
    requires
        ascending(d.bounds),
    ensures
        first_index(register_decl(fs, d), named(d.name)) is Some,
{
    let r = register_decl(fs, d);
    if first_index(fs, named(d.name)) is None {
        assert(r.drop_last() =~= fs);
    }
}

proof fn lemma_register_all_names(fs: Seq<FamilyModel>, ds: Seq<FamilyDecl>, k: nat)
    requires
        k <= ds.len(),
        forall|j: int| 0 <= j < ds.len() ==> ascending(#[trigger] ds[j].bounds),
    ensures
        forall|j: int|
            0 <= j < k ==> first_index(register_all(fs, ds, k), named(#[trigger] ds[j].name)) is Some,
    decreases k,
{
    if k > 0 {
        let prev = register_all(fs, ds, (k - 1) as nat);
        lemma_register_all_names(fs, ds, (k - 1) as nat);
        lemma_register_adds(prev, ds[k - 1]);
        assert forall|j: int|
            0 <= j < k implies first_index(register_all(fs, ds, k), named(#[trigger] ds[j].name))
            is Some by {
            if j < k - 1 {
                lemma_register_keeps(prev, ds[k - 1], ds[j].name);
            }
        }
    }
}

proof fn lemma_register_all_unchanged(fs: Seq<FamilyModel>, ds: Seq<FamilyDecl>, k: nat)
    requires
        k <= ds.len(),
        forall|j: int| 0 <= j < k ==> first_index(fs, named(#[trigger] ds[j].name)) is Some,
    ensures
        register_all(fs, ds, k) == fs,
    decreases k,
{
    if k > 0 {
        lemma_register_all_unchanged(fs, ds, (k - 1) as nat);
    }
}

/// Registering a list of families a second time changes nothing.
pub proof fn lemma_register_all_idempotent(fs: Seq<FamilyModel>, ds: Seq<FamilyDecl>)
    requires
        forall|j: int| 0 <= j < ds.len() ==> ascending(#[trigger] ds[j].bounds),
    ensures
        register_all(register_all(fs, ds, ds.len()), ds, ds.len()) == register_all(
            fs,
            ds,
            ds.len(),
        ),
{
    lemma_register_all_names(fs, ds, ds.len());
    lemma_register_all_unchanged(register_all(fs, ds, ds.len()), ds, ds.len());
}

/// Registering the service's instruments twice leaves the registry as
/// registering them once does.
pub proof fn lemma_register_metrics_idempotent(fs: Seq<FamilyModel>)
    ensures
        register_all(register_all(fs, catalogue(), 12), catalogue(), 12) == register_all(
            fs,
            catalogue(),
            12,
        ),
{
    let ds = catalogue();
    assert(ds.len() == 12);
    assert forall|j: int| 0 <= j < ds.len() implies ascending(#[trigger] ds[j].bounds) by {
        let b = ds[j].bounds;
        assert forall|i: int| 0 < i < b.len() implies b[i - 1] < #[trigger] b[i] by {}
    }
    lemma_register_all_idempotent(fs, ds);
}

/// After `change` is applied, the series exists and holds the change of what
/// it held before (of a fresh series, when it was absent).
pub proof fn lemma_apply_series(
    fs: Seq<FamilyModel>,
    name: Seq<char>,
    labels: Seq<Seq<char>>,
    kind: MetricKind,
    change: spec_fn(FamilyModel, SeriesModel) -> SeriesModel,
)
    requires
        accepts(fs, name, labels, kind),
        forall|f: FamilyModel, s: SeriesModel| (#[trigger] change(f, s)).labels == s.labels,
    ensures
        accepts(apply(fs, name, labels, kind, change), name, labels, kind),
        series_of(apply(fs, name, labels, kind, change), name, labels) == Some(
            change(
                fs[first_index(fs, named(name))->Some_0],
                match series_of(fs, name, labels) {
                    Some(s) => s,
                    None => fresh(fs[first_index(fs, named(name))->Some_0], labels),
                },
            ),
        ),
{
    let fi = first_index(fs, named(name))->Some_0;
    let f = fs[fi];
    let r = apply(fs, name, labels, kind, change);
    lemma_first_index(fs, named(name));
    lemma_first_index(f.series, labelled(labels));
    assert forall|j: int| 0 <= j < fi implies !(named(name))(#[trigger] r[j]) by {
        assert(r[j] == fs[j]);
    }
    lemma_first_index_is(r, named(name), fi);
    let ss = r[fi].series;
    match first_index(f.series, labelled(labels)) {
        Some(si) => {
            assert forall|j: int| 0 <= j < si implies !(labelled(labels))(#[trigger] ss[j]) by {
                assert(ss[j] == f.series[j]);
            }
            lemma_first_index_is(ss, labelled(labels), si);
        },
        None => {
            assert forall|j: int| 0 <= j < f.series.len() implies !(labelled(labels))(
                #[trigger] ss[j],
            ) by {
                assert(ss[j] == f.series[j]);
            }
            lemma_first_index_is(ss, labelled(labels), f.series.len() as int);
        },
    }
}

/// Two increments of a counter add two.
pub proof fn lemma_counter_inc_twice(fs: Seq<FamilyModel>, name: Seq<char>, labels: Seq<Seq<char>>)
    requires
        accepts(fs, name, labels, MetricKind::Counter),
        value_of(fs, name, labels) <= i64::MAX - 2,
    ensures
        value_of(
            apply(
                apply(fs, name, labels, MetricKind::Counter, step_inc()),
                name,
                labels,
                MetricKind::Counter,
                step_inc(),
            ),
            name,
            labels,
        ) == value_of(fs, name, labels) + 2,
{
    let once = apply(fs, name, labels, MetricKind::Counter, step_inc());
    lemma_apply_series(fs, name, labels, MetricKind::Counter, step_inc());
    lemma_apply_series(once, name, labels, MetricKind::Counter, step_inc());
}

/// Setting a gauge, then adding one and taking one, leaves the value set.
pub proof fn lemma_gauge_set_inc_dec(
    fs: Seq<FamilyModel>,
    name: Seq<char>,
    labels: Seq<Seq<char>>,
    v: i64,
)
    requires
        accepts(fs, name, labels, MetricKind::Gauge),
        v < i64::MAX,
    ensures
        value_of(
            apply(
                apply(
                    apply(fs, name, labels, MetricKind::Gauge, step_set(v)),
                    name,
                    labels,
                    MetricKind::Gauge,
                    step_inc(),
                ),
                name,
                labels,
                MetricKind::Gauge,
                step_dec(),
            ),
            name,
            labels,
        ) == v,
{
    let a = apply(fs, name, labels, MetricKind::Gauge, step_set(v));
    let b = apply(a, name, labels, MetricKind::Gauge, step_inc());
    lemma_apply_series(fs, name, labels, MetricKind::Gauge, step_set(v));
    lemma_apply_series(a, name, labels, MetricKind::Gauge, step_inc());
    lemma_apply_series(b, name, labels, MetricKind::Gauge, step_dec());
}

/// Every observation of a histogram is counted and added to the sum (count
/// and sum stop at `u64::MAX`).
pub proof fn lemma_observe_counts(
    fs: Seq<FamilyModel>,
    name: Seq<char>,
    labels: Seq<Seq<char>>,
    v: u64,
)
    requires
        accepts(fs, name, labels, MetricKind::Histogram),
    ensures
        count_of(apply(fs, name, labels, MetricKind::Histogram, step_observe(v)), name, labels)
            == sat_add(count_of(fs, name, labels), 1),
        sum_of(apply(fs, name, labels, MetricKind::Histogram, step_observe(v)), name, labels)
            == sat_add(sum_of(fs, name, labels), v),
        count_of(fs, name, labels) < u64::MAX ==> count_of(
            apply(fs, name, labels, MetricKind::Histogram, step_observe(v)),
            name,
            labels,
        ) == count_of(fs, name, labels) + 1,
        sum_of(fs, name, labels) + v <= u64::MAX ==> sum_of(
            apply(fs, name, labels, MetricKind::Histogram, step_observe(v)),
            name,
            labels,
        ) == sum_of(fs, name, labels) + v,
{
    lemma_apply_series(fs, name, labels, MetricKind::Histogram, step_observe(v));
}

proof fn lemma_ascending_ordered(bounds: Seq<u64>, i: int, j: int)
    requires
        ascending(bounds),
        0 <= i < j < bounds.len(),
    ensures
        bounds[i] < bounds[j],
    decreases j - i,
{
    if i < j - 1 {
        lemma_ascending_ordered(bounds, i, j - 1);
    }
}

/// With increasing bounds an observation lands in the bucket of the smallest
/// bound at or above it, or in the last bucket when no bound is.
pub proof fn lemma_bucket_is_smallest_bound_above(bounds: Seq<u64>, v: u64)
    requires
        ascending(bounds),
    ensures
        0 <= bucket_index(bounds, v) <= bounds.len(),
        bucket_index(bounds, v) < bounds.len() ==> v <= bounds[bucket_index(bounds, v)],
        forall|j: int|
            0 <= j < bounds.len() && v <= #[trigger] bounds[j] ==> bucket_index(bounds, v)
                < bounds.len() && bounds[bucket_index(bounds, v)] <= bounds[j],
        bucket_index(bounds, v) == bounds.len() ==> forall|j: int|
            0 <= j < bounds.len() ==> #[trigger] bounds[j] < v,
{
    let p = |b: u64| v <= b;
    lemma_first_index(bounds, p);
    assert forall|j: int|
        0 <= j < bounds.len() && v <= #[trigger] bounds[j] implies bucket_index(bounds, v)
        < bounds.len() && bounds[bucket_index(bounds, v)] <= bounds[j] by {
        assert(p(bounds[j]));
        let k = bucket_index(bounds, v);
        if k < j {
            lemma_ascending_ordered(bounds, k, j);
        }
    }
}

} // verus!
